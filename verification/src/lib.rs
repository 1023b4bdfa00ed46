//! Verified core of a downloader for media attached to posts on X (Twitter):
//! the text rules that turn a post URL into API requests and file names, the
//! selection of the best media variants, and the window-placement rules that
//! keep a restored window reachable on the current monitors.

pub mod text;
pub mod appearance;
pub mod clipboard;
pub mod download;
pub mod filename;
pub mod media;
pub mod settings;
pub mod status_url;
pub mod window_state;
