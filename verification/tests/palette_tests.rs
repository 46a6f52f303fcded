use dataviewer::canvas::{Color, Palette};

#[test]
fn rgb_unpacks_channels() {
    let c = Color::rgb(0x7D092F);
    assert_eq!(c, Color { red: 0x7D, green: 0x09, blue: 0x2F });
}

#[test]
fn rgb_white_and_black() {
    assert_eq!(Color::rgb(0xFFFFFF), Color { red: 255, green: 255, blue: 255 });
    assert_eq!(Color::rgb(0), Color { red: 0, green: 0, blue: 0 });
}

#[test]
fn palette_wraps_after_full_cycle() {
    // the (N+1)-th call hands out the same color as the 1st
    let mut p = Palette::palette1();
    let first = p.next();
    for _ in 0..8 {
        p.next();
    }
    let tenth = p.next();
    assert_eq!(first, tenth);
}

#[test]
fn palette_first_color_is_first_entry() {
    let mut p = Palette::palette1();
    assert_eq!(p.next(), Color::rgb(0x7D092F));
    assert_eq!(p.next(), Color::rgb(0xFB8B24));
}

#[test]
fn small_palette_cycles() {
    let mut p = Palette::new(vec![0x112233, 0x445566]);
    let a = p.next();
    let b = p.next();
    assert_eq!(p.next(), a);
    assert_eq!(p.next(), b);
    assert_eq!(p.next(), a);
}
