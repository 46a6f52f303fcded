//! What to do with a document received over the live-update channel.

use vstd::prelude::*;
use crate::dataview::File;

verus! {

/// The host's reaction to a received document.
#[derive(Clone, Copy, PartialEq, Eq, Structural, Debug)]
pub enum MessageAction {
    /// The document declares series metadata: open a new view for it.
    OpenView,
    /// The document carries only data: append it to the matching series of
    /// the existing view.
    Append,
    /// The document carries neither: nothing to do.
    Ignore,
}

/// Classify a received document: one with series metadata opens a view,
/// one with only data is an append, an empty one is ignored.
pub fn classify_message(file: &File) -> (r: MessageAction)
    ensures
        (r == MessageAction::OpenView) <==> file.chart@.len() > 0,
        (r == MessageAction::Append) <==> (file.chart@.len() == 0 && file.data@.len() > 0),
        (r == MessageAction::Ignore) <==> (file.chart@.len() == 0 && file.data@.len() == 0),
{
    if file.chart.len() > 0 {
        MessageAction::OpenView
    } else if file.data.len() > 0 {
        MessageAction::Append
    } else {
        MessageAction::Ignore
    }
}

} // verus!
