//! Native look of the main window: which system backdrop it gets, the
//! Windows build that decides it, and the OS accent color.

use vstd::prelude::*;
use crate::text::{hex_byte, push_char, push_hex_byte};

verus! {

/// The first Windows build with the Mica backdrop (Windows 11).
pub const MICA_MIN_BUILD: u32 = 22000;

/// The platform the application runs on, as far as the backdrop depends on it.
#[derive(PartialEq, Eq, Structural, Clone, Copy, Debug)]
pub enum Platform {
    Windows,
    MacOs,
    Other,
}

/// A translucent system backdrop behind the window.
#[derive(PartialEq, Eq, Structural, Clone, Copy, Debug)]
pub enum Backdrop {
    /// Windows 11's Mica, which follows the window's light or dark theme.
    Mica,
    /// Acrylic, available on every Windows.
    Acrylic,
    /// macOS's title-bar vibrancy.
    Titlebar,
}

/// The Windows build number, where the OS reported one; 0 where it could not
/// be read or the OS is not Windows.
pub fn windows_build_number(reported: Option<u32>) -> (build: u32)
    ensures
        build == match reported {
            Some(b) => b,
            None => 0u32,
        },
{
    match reported {
        Some(b) => b,
        None => 0,
    }
}

/// The backdrop for the platform: Mica on Windows from build
/// [`MICA_MIN_BUILD`] on and Acrylic on older Windows, title-bar vibrancy on
/// macOS, and none elsewhere.
pub fn backdrop_for(platform: Platform, windows_build: u32) -> (b: Option<Backdrop>)
    ensures
        b == match platform {
            Platform::Windows => Some(
                if windows_build >= MICA_MIN_BUILD {
                    Backdrop::Mica
                } else {
                    Backdrop::Acrylic
                },
            ),
            Platform::MacOs => Some(Backdrop::Titlebar),
            Platform::Other => None::<Backdrop>,
        },
{
    match platform {
        Platform::Windows => {
            if windows_build >= MICA_MIN_BUILD {
                Some(Backdrop::Mica)
            } else {
                Some(Backdrop::Acrylic)
            }
        },
        Platform::MacOs => Some(Backdrop::Titlebar),
        Platform::Other => None,
    }
}

/// The accent color stored by Windows' desktop window manager as a DWORD
/// `0xAABBGGRR`, written `#rrggbb` in lower-case hexadecimal.
pub open spec fn accent_color_text(abgr: u32) -> Seq<char> {
    seq!['#'] + hex_byte((abgr % 256) as u8) + hex_byte(((abgr / 256) % 256) as u8) + hex_byte(
        ((abgr / 65536) % 256) as u8,
    )
}

/// The OS accent color as `#rrggbb`, from the DWORD that Windows stores it
/// in; `None` where there is no such value (it could not be read, or the OS
/// is not Windows, whose web views resolve the accent color themselves).
pub fn read_os_accent_color(accent_abgr: Option<u32>) -> (r: Option<String>)
    ensures
        r.deep_view() == match accent_abgr {
            Some(d) => Some(accent_color_text(d)),
            None => None::<Seq<char>>,
        },
{
    let data = match accent_abgr {
        Some(d) => d,
        None => {
            return None;
        },
    };
    let r = (data & 0xFF) as u8;
    let g = ((data >> 8) & 0xFF) as u8;
    let b = ((data >> 16) & 0xFF) as u8;
    assert(r == (data % 256) as u8 && g == ((data / 256) % 256) as u8 && b == ((data / 65536) % 256) as u8)
        by (bit_vector)
        requires
            r == (data & 0xFF) as u8,
            g == ((data >> 8) & 0xFF) as u8,
            b == ((data >> 16) & 0xFF) as u8,
    ;
    let mut s = String::new();
    push_char(&mut s, '#');
    push_hex_byte(&mut s, r);
    push_hex_byte(&mut s, g);
    push_hex_byte(&mut s, b);
    assert(s@ =~= accent_color_text(data));
    Some(s)
}

} // verus!
