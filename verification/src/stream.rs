//! The live-update stream buffer: bytes arrive in chunks, and messages are
//! taken off the front, delimited by a marker byte. Only ASCII bytes
//! contribute characters; others are dropped.

use vstd::prelude::*;

verus! {

/// The characters of the ASCII bytes of a chunk, in order; non-ASCII bytes
/// contribute nothing.
pub open spec fn ascii_chars(bytes: Seq<u8>) -> Seq<char>
    decreases bytes.len(),
{
    if bytes.len() == 0 {
        Seq::empty()
    } else {
        (if bytes[0] < 128 {
            seq![bytes[0] as char]
        } else {
            Seq::empty()
        }) + ascii_chars(bytes.drop_first())
    }
}

/// The position of the first occurrence of `upto`.
pub open spec fn find_byte(bytes: Seq<u8>, upto: u8) -> Option<int>
    decreases bytes.len(),
{
    if bytes.len() == 0 {
        None
    } else if bytes[0] == upto {
        Some(0int)
    } else {
        match find_byte(bytes.drop_first(), upto) {
            Some(i) => Some(i + 1),
            None => None,
        }
    }
}

proof fn lemma_ascii_push(s: Seq<u8>, b: u8)
    ensures
        ascii_chars(s.push(b)) == ascii_chars(s) + (if b < 128 {
            seq![b as char]
        } else {
            Seq::<char>::empty()
        }),
    decreases s.len(),
{
    if s.len() == 0 {
        assert(s.push(b)[0] == b);
        assert(s.push(b).drop_first() =~= Seq::<u8>::empty());
        assert(ascii_chars(s.push(b).drop_first()) == Seq::<char>::empty());
        assert(ascii_chars(s.push(b)) =~= ascii_chars(s) + (if b < 128 {
            seq![b as char]
        } else {
            Seq::<char>::empty()
        }));
    } else {
        assert(s.push(b).drop_first() =~= s.drop_first().push(b));
        lemma_ascii_push(s.drop_first(), b);
        assert(s.push(b)[0] == s[0]);
        assert(ascii_chars(s.push(b)) =~= ascii_chars(s) + (if b < 128 {
            seq![b as char]
        } else {
            Seq::<char>::empty()
        }));
    }
}

proof fn lemma_find_byte_at(bytes: Seq<u8>, upto: u8, k: int)
    requires
        0 <= k < bytes.len(),
        bytes[k] == upto,
        forall|j: int| 0 <= j < k ==> bytes[j] != upto,
    ensures
        find_byte(bytes, upto) == Some(k),
    decreases k,
{
    if k > 0 {
        assert(bytes.drop_first()[k - 1] == bytes[k]);
        assert(forall|j: int| 0 <= j < k - 1 ==> bytes.drop_first()[j] == bytes[j + 1]);
        lemma_find_byte_at(bytes.drop_first(), upto, k - 1);
    }
}

proof fn lemma_find_byte_none(bytes: Seq<u8>, upto: u8)
    requires
        forall|j: int| 0 <= j < bytes.len() ==> bytes[j] != upto,
    ensures
        find_byte(bytes, upto) is None,
    decreases bytes.len(),
{
    if bytes.len() > 0 {
        assert(forall|j: int|
            0 <= j < bytes.len() - 1 ==> bytes.drop_first()[j] == bytes[j + 1]);
        lemma_find_byte_none(bytes.drop_first(), upto);
    }
}

/// Relies on `String::push`: it appends exactly the given character to the
/// end of the string.
#[verifier::external_body]
fn push_char(s: &mut String, c: char)
    ensures
        final(s)@ == old(s)@.push(c),
{
    s.push(c);
}

/// A buffer of bytes read from the live-update channel, not yet consumed
/// as messages.
pub struct Stream {
    pub buffer: Vec<u8>,
}

impl Stream {
    /// An empty buffer.
    pub fn new() -> (r: Self)
        ensures
            r.buffer@.len() == 0,
    {
        Stream { buffer: Vec::new() }
    }

    /// Append a chunk read from the channel.
    pub fn push_bytes(&mut self, chunk: &Vec<u8>)
        ensures
            final(self).buffer@ == old(self).buffer@ + chunk@,
    {
        let mut t: usize = 0;
        while t < chunk.len()
            invariant
                t <= chunk@.len(),
                self.buffer@ == old(self).buffer@ + chunk@.take(t as int),
            decreases chunk@.len() - t,
        {
            let b = chunk[t];
            self.buffer.push(b);
            proof {
                assert(chunk@.take(t + 1) =~= chunk@.take(t as int).push(b));
                assert(old(self).buffer@ + chunk@.take(t + 1) =~= (old(self).buffer@
                    + chunk@.take(t as int)).push(b));
            }
            t += 1;
        }
        proof {
            assert(chunk@.take(chunk@.len() as int) =~= chunk@);
        }
    }

    /// Take one message off the front: the characters of the ASCII bytes
    /// before the first `upto` byte. Without a delimiter in the buffer,
    /// nothing is taken.
    pub fn read_utf8_upto(&mut self, upto: u8) -> (r: Option<String>)
        ensures
            match find_byte(old(self).buffer@, upto) {
                None => r is None && *final(self) == *old(self),
                Some(k) => {
                    &&& r is Some
                    &&& (r matches Some(s) ==> s@ == ascii_chars(old(self).buffer@.take(k)))
                    &&& final(self).buffer@ == old(self).buffer@.skip(k + 1)
                },
            },
    {
        // find the delimiter
        let n = self.buffer.len();
        let mut k: usize = 0;
        while k < n && self.buffer[k] != upto
            invariant
                k <= n,
                n == self.buffer@.len(),
                *self == *old(self),
                forall|j: int| 0 <= j < k ==> self.buffer@[j] != upto,
            decreases n - k,
        {
            k += 1;
        }
        if k >= n {
            proof {
                lemma_find_byte_none(self.buffer@, upto);
            }
            return None;
        }
        proof {
            lemma_find_byte_at(self.buffer@, upto, k as int);
        }
        // collect the ASCII characters before it
        let mut s = String::new();
        let mut t: usize = 0;
        while t < k
            invariant
                t <= k,
                k < self.buffer@.len(),
                *self == *old(self),
                s@ == ascii_chars(self.buffer@.take(t as int)),
            decreases k - t,
        {
            let b = self.buffer[t];
            if b < 128 {
                push_char(&mut s, b as char);
            }
            proof {
                assert(self.buffer@.take(t + 1) =~= self.buffer@.take(t as int).push(b));
                lemma_ascii_push(self.buffer@.take(t as int), b);
            }
            t += 1;
        }
        // drop the consumed prefix and the delimiter
        let mut rest: Vec<u8> = Vec::new();
        let mut u: usize = k + 1;
        while u < n
            invariant
                k + 1 <= u <= n,
                n == self.buffer@.len(),
                *self == *old(self),
                rest@ == self.buffer@.subrange(k + 1, u as int),
            decreases n - u,
        {
            let b = self.buffer[u];
            rest.push(b);
            proof {
                assert(self.buffer@.subrange(k + 1, u + 1) =~= self.buffer@.subrange(
                    k + 1,
                    u as int,
                ).push(b));
            }
            u += 1;
        }
        proof {
            assert(self.buffer@.subrange(k + 1, n as int) =~= self.buffer@.skip(k + 1));
        }
        self.buffer = rest;
        Some(s)
    }

    /// Take everything left in the buffer as one final message, as when
    /// the channel closes with no trailing delimiter.
    pub fn take_remaining(&mut self) -> (r: String)
        ensures
            r@ == ascii_chars(old(self).buffer@),
            final(self).buffer@.len() == 0,
    {
        let mut s = String::new();
        let n = self.buffer.len();
        let mut t: usize = 0;
        while t < n
            invariant
                t <= n,
                n == self.buffer@.len(),
                *self == *old(self),
                s@ == ascii_chars(self.buffer@.take(t as int)),
            decreases n - t,
        {
            let b = self.buffer[t];
            if b < 128 {
                push_char(&mut s, b as char);
            }
            proof {
                assert(self.buffer@.take(t + 1) =~= self.buffer@.take(t as int).push(b));
                lemma_ascii_push(self.buffer@.take(t as int), b);
            }
            t += 1;
        }
        proof {
            assert(self.buffer@.take(n as int) =~= self.buffer@);
        }
        self.buffer = Vec::new();
        s
    }
}

} // verus!
