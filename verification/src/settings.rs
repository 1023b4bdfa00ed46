//! Application settings as edited in the settings screen.

use vstd::prelude::*;

verus! {

/// The application's settings.
pub struct Settings {
    /// Folder that downloads are saved to; empty while unset, in which case
    /// the default download folder is used.
    pub dest_dir: String,
    /// Whether the clipboard is watched for post URLs.
    pub watch: bool,
    /// Whether a detected post is downloaded without asking.
    pub auto_download: bool,
}

impl Default for Settings {
    /// No download folder chosen, clipboard not watched, no automatic download.
    fn default() -> (s: Self)
        ensures
            s.dest_dir@ == Seq::<char>::empty(),
            !s.watch,
            !s.auto_download,
    {
        Settings { dest_dir: String::new(), watch: false, auto_download: false }
    }
}

/// The settings as shown to the user: an unset download folder is replaced by
/// `default_dir`; everything else is kept.
pub fn with_default_dest_dir(settings: Settings, default_dir: String) -> (r: Settings)
    ensures
        r.dest_dir@ == if settings.dest_dir@.len() == 0 {
            default_dir@
        } else {
            settings.dest_dir@
        },
        r.watch == settings.watch,
        r.auto_download == settings.auto_download,
{
    let mut s = settings;
    if s.dest_dir.as_str().is_empty() {
        s.dest_dir = default_dir;
    }
    s
}

} // verus!
