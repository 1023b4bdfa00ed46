//! Watching the clipboard for new text.

use vstd::prelude::*;

verus! {

/// `text` is new against the last seen text `last`: not empty, and different.
pub open spec fn is_new_text(last: Seq<char>, text: Seq<char>) -> bool {
    text.len() > 0 && text != last
}

/// The last seen text after taking in `text`.
pub open spec fn seen_after(last: Seq<char>, text: Seq<char>) -> Seq<char> {
    if is_new_text(last, text) {
        text
    } else {
        last
    }
}

/// What is announced on taking in `text`: the text, where it is new and the
/// clipboard is being watched.
pub open spec fn announced(last: Seq<char>, text: Seq<char>, watching: bool) -> Option<Seq<char>> {
    if is_new_text(last, text) && watching {
        Some(text)
    } else {
        None
    }
}

/// The clipboard text that was seen last. Text that was already on the
/// clipboard when watching began counts as seen, so that a URL left there
/// from an earlier run is not downloaded again after a restart.
pub struct ClipboardWatcher {
    pub last: String,
}

impl ClipboardWatcher {
    /// A watcher for which `initial`, the clipboard's text at start, is
    /// already seen.
    pub fn new(initial: String) -> (w: Self)
        ensures
            w.last@ == initial@,
    {
        ClipboardWatcher { last: initial }
    }

    /// Takes in the clipboard's current text (see [`seen_after`] and
    /// [`announced`]). Text taken in while watching is off is still recorded,
    /// and so is not announced later.
    pub fn observe(&mut self, text: String, watching: bool) -> (announce: Option<String>)
        ensures
            final(self).last@ == seen_after(old(self).last@, text@),
            announce.deep_view() == announced(old(self).last@, text@, watching),
    {
        if text == self.last || text.as_str().is_empty() {
            return None;
        }
        if watching {
            self.last = text.clone();
            Some(text)
        } else {
            self.last = text;
            None
        }
    }
}

/// The same text taken in twice in a row is announced at most once, whether
/// or not the clipboard was watched the first time.
pub proof fn lemma_text_announced_at_most_once(last: Seq<char>, text: Seq<char>, watching: bool)
    ensures
        announced(seen_after(last, text), text, watching) is None,
{
}


/// What taking in text does, told apart by the text itself: any non-empty
/// text that differs from the last seen text in any way becomes the last seen
/// text and, while watching, is announced; empty text, or the last seen text
/// again, changes nothing and is not announced.
pub proof fn lemma_watch_step_exactly(last: Seq<char>, text: Seq<char>, watching: bool)
    ensures
        text.len() > 0 && text != last ==> seen_after(last, text) == text && announced(
            last,
            text,
            watching,
        ) == (if watching {
            Some(text)
        } else {
            None
        }),
        text.len() == 0 || text == last ==> seen_after(last, text) == last && announced(
            last,
            text,
            watching,
        ) is None,
{
}

} // verus!
