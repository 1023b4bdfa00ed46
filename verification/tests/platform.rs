use x_gettsu::appearance::{backdrop_for, read_os_accent_color, windows_build_number, Backdrop, Platform};
use x_gettsu::clipboard::ClipboardWatcher;
use x_gettsu::download::DownloadProgress;
use x_gettsu::settings::{with_default_dest_dir, Settings};

#[test]
fn build_number_defaults_to_zero() {
    assert_eq!(windows_build_number(Some(22631)), 22631);
    assert_eq!(windows_build_number(None), 0);
}

#[test]
fn backdrop_by_platform_and_build() {
    assert_eq!(backdrop_for(Platform::Windows, 22000), Some(Backdrop::Mica));
    assert_eq!(backdrop_for(Platform::Windows, 19045), Some(Backdrop::Acrylic));
    assert_eq!(backdrop_for(Platform::MacOs, 0), Some(Backdrop::Titlebar));
    assert_eq!(backdrop_for(Platform::Other, 30000), None);
}

#[test]
fn accent_color_from_abgr_dword() {
    assert_eq!(read_os_accent_color(Some(0xFF_D7_78_00)), Some("#0078d7".to_string()));
    assert_eq!(read_os_accent_color(Some(0x00_0A_0B_FF)), Some("#ff0b0a".to_string()));
    assert_eq!(read_os_accent_color(None), None);
}

#[test]
fn clipboard_initial_text_is_not_announced() {
    let mut w = ClipboardWatcher::new("https://x.com/a/status/1".to_string());
    assert_eq!(w.observe("https://x.com/a/status/1".to_string(), true), None);
    assert_eq!(w.observe("new".to_string(), true), Some("new".to_string()));
    assert_eq!(w.observe("new".to_string(), true), None);
    assert_eq!(w.observe(String::new(), true), None);
    assert_eq!(w.last, "new");
}

#[test]
fn clipboard_text_seen_while_not_watching_is_not_announced_later() {
    let mut w = ClipboardWatcher::new(String::new());
    assert_eq!(w.observe("a".to_string(), false), None);
    assert_eq!(w.observe("a".to_string(), true), None);
    assert_eq!(w.observe("b".to_string(), true), Some("b".to_string()));
}

#[test]
fn default_settings_and_default_folder() {
    let s = Settings::default();
    assert_eq!((s.dest_dir.as_str(), s.watch, s.auto_download), ("", false, false));
    let filled = with_default_dest_dir(Settings::default(), "/home/u/Downloads/X-Gettsu".to_string());
    assert_eq!(filled.dest_dir, "/home/u/Downloads/X-Gettsu");
    let chosen = Settings { dest_dir: "/data".to_string(), watch: true, auto_download: true };
    let kept = with_default_dest_dir(chosen, "/other".to_string());
    assert_eq!((kept.dest_dir.as_str(), kept.watch, kept.auto_download), ("/data", true, true));
}

#[test]
fn download_progress_accumulates() {
    let mut p = DownloadProgress::new(Some(100));
    p.record_chunk(40);
    p.record_chunk(60);
    assert_eq!((p.downloaded, p.total), (100, Some(100)));
}
