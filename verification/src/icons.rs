//! The icon set of the window: Material-style filled paths on a 24×24 grid.

use vstd::prelude::*;

use crate::format::ContentKind;
use crate::detail::strip_suffixes;
use crate::hotkey::{ascii_lower_seq, lower_chars};
use crate::text::{before_first, chars_of, push_str, split_once_chars};
use vstd::string::StringSliceAdditionalSpecFns;

verus! {

#[derive(Debug, Clone, Copy, PartialEq, Eq, Structural)]
pub enum Icon {
    Search,
    Settings,
    History,
    Pause,
    Play,
    Link,
    Code,
    Text,
    File,
    Image,
    Pin,
    Copy,
    Check,
    More,
    List,
    Trash,
    External,
    Terminal,
    QrCode,
    Globe,
    Minimize,
    Maximize,
    Close,
}

/// SVG path data of each icon.
pub open spec fn icon_path(i: Icon) -> Seq<char> {
    match i {
        Icon::Search => "M15.5 14h-.79l-.28-.27A6.471 6.471 0 0 0 16 9.5 6.5 6.5 0 1 0 9.5 16c1.61 0 3.09-.59 4.23-1.57l.27.28v.79l5 4.99L20.49 19l-4.99-5zm-6 0C7.01 14 5 11.99 5 9.5S7.01 5 9.5 5 14 7.01 14 9.5 11.99 14 9.5 14z"@,
        Icon::Settings => "M19.14 12.94c.04-.3.06-.61.06-.94 0-.32-.02-.64-.07-.94l2.03-1.58c.18-.14.23-.41.12-.61l-1.92-3.32c-.12-.22-.37-.29-.59-.22l-2.39.96c-.5-.38-1.03-.7-1.62-.94l-.36-2.54c-.04-.24-.24-.41-.48-.41h-3.84c-.24 0-.43.17-.47.41l-.36 2.54c-.59.24-1.13.57-1.62.94l-2.39-.96c-.22-.08-.47 0-.59.22L2.74 8.87c-.12.21-.08.47.12.61l2.03 1.58c-.05.3-.09.63-.09.94s.02.64.07.94l-2.03 1.58c-.18.14-.23.41-.12.61l1.92 3.32c.12.22.37.29.59.22l2.39-.96c.5.38 1.03.7 1.62.94l.36 2.54c.05.24.24.41.48.41h3.84c.24 0 .44-.17.47-.41l.36-2.54c.59-.24 1.13-.56 1.62-.94l2.39.96c.22.08.47 0 .59-.22l1.92-3.32c.12-.22.07-.47-.12-.61l-2.01-1.58zM12 15.6c-1.98 0-3.6-1.62-3.6-3.6s1.62-3.6 3.6-3.6 3.6 1.62 3.6 3.6-1.62 3.6-3.6 3.6z"@,
        Icon::History => "M13 3c-4.97 0-9 4.03-9 9H1l3.89 3.89.07.14L9 12H6c0-3.87 3.13-7 7-7s7 3.13 7 7-3.13 7-7 7c-1.93 0-3.68-.79-4.94-2.06l-1.42 1.42C8.27 19.99 10.51 21 13 21c4.97 0 9-4.03 9-9s-4.03-9-9-9zm-1 5v5l4.28 2.54.72-1.21-3.5-2.08V8H12z"@,
        Icon::Pause => "M6 19h4V5H6v14zm8-14v14h4V5h-4z"@,
        Icon::Play => "M8 5v14l11-7z"@,
        Icon::Link => "M3.9 12c0-1.71 1.39-3.1 3.1-3.1h4V7H7c-2.76 0-5 2.24-5 5s2.24 5 5 5h4v-1.9H7c-1.71 0-3.1-1.39-3.1-3.1zM8 13h8v-2H8v2zm9-6h-4v1.9h4c1.71 0 3.1 1.39 3.1 3.1s-1.39 3.1-3.1 3.1h-4V17h4c2.76 0 5-2.24 5-5s-2.24-5-5-5z"@,
        Icon::Code => "M9.4 16.6L4.8 12l4.6-4.6L8 6l-6 6 6 6 1.4-1.4zm5.2 0l4.6-4.6-4.6-4.6L16 6l6 6-6 6-1.4-1.4z"@,
        Icon::Text => "M5 4v3h5.5v12h3V7H19V4H5z"@,
        Icon::File => "M6 2h8l5 5v13c0 1.1-.9 2-2 2H6c-1.1 0-2-.9-2-2V4c0-1.1.9-2 2-2zm7 2H6v16h11V8h-4V4z"@,
        Icon::Image => "M21 19V5c0-1.1-.9-2-2-2H5C3.9 3 3 3.9 3 5v14c0 1.1.9 2 2 2h14c1.1 0 2-.9 2-2zM5 5h14v14H5V5zm2 12h10l-3.2-4.2-2.3 2.9-1.7-2.1L7 17z"@,
        Icon::Pin => "M16 9V4l1-1V2H7v1l1 1v5l-2 3v2h5v8l1 1 1-1v-8h5v-2l-2-3z"@,
        Icon::Copy => "M16 1H4c-1.1 0-2 .9-2 2v14h2V3h12V1zm3 4H8c-1.1 0-2 .9-2 2v14c0 1.1.9 2 2 2h11c1.1 0 2-.9 2-2V7c0-1.1-.9-2-2-2zm0 16H8V7h11v14z"@,
        Icon::Check => "M9 16.17L4.83 12l-1.42 1.41L9 19 21 7l-1.41-1.41z"@,
        Icon::More => "M6 10c-1.1 0-2 .9-2 2s.9 2 2 2 2-.9 2-2-.9-2-2-2zm12 0c-1.1 0-2 .9-2 2s.9 2 2 2 2-.9 2-2-.9-2-2-2zm-6 0c-1.1 0-2 .9-2 2s.9 2 2 2 2-.9 2-2-.9-2-2-2z"@,
        Icon::List => "M3 13h2v-2H3v2zm0 4h2v-2H3v2zm0-8h2V7H3v2zm4 4h14v-2H7v2zm0 4h14v-2H7v2zM7 7v2h14V7H7z"@,
        Icon::Trash => "M6 19c0 1.1.9 2 2 2h8c1.1 0 2-.9 2-2V7H6v12zM19 4h-3.5l-1-1h-5l-1 1H5v2h14V4z"@,
        Icon::External => "M19 19H5V5h7V3H5c-1.11 0-2 .9-2 2v14c0 1.1.89 2 2 2h14c1.1 0 2-.9 2-2v-7h-2v7zM14 3v2h3.59l-9.83 9.83 1.41 1.41L19 6.41V10h2V3h-7z"@,
        Icon::Terminal => "M20 4H4c-1.1 0-2 .9-2 2v12c0 1.1.9 2 2 2h16c1.1 0 2-.9 2-2V6c0-1.1-.9-2-2-2zm0 14H4V8h16v10zm-2-1h-6v-2h6v2zM7.5 17l-1.41-1.41L8.67 13l-2.59-2.59L7.5 9l4 4-4 4z"@,
        Icon::QrCode => "M3 3h8v8H3V3zm2 2v4h4V5H5zm8-2h8v8h-8V3zm2 2v4h4V5h-4zM3 13h8v8H3v-8zm2 2v4h4v-4H5zm13-2h3v2h-3v-2zm-5 0h2v3h-2v-3zm2 5h2v3h-2v-3zm3 0h3v3h-3v-3zm0-3h3v2h-3v-2zm-2-2h2v2h-2v-2z"@,
        Icon::Globe => "M12 2C6.48 2 2 6.48 2 12s4.48 10 10 10 10-4.48 10-10S17.52 2 12 2zm-1 17.93c-3.95-.49-7-3.85-7-7.93 0-.62.08-1.21.21-1.79L9 15v1c0 1.1.9 2 2 2v1.93zm6.9-2.54c-.26-.81-1-1.39-1.9-1.39h-1v-3c0-.55-.45-1-1-1H8v-2h2c.55 0 1-.45 1-1V7h2c1.1 0 2-.9 2-2v-.41c2.93 1.19 5 4.06 5 7.41 0 2.08-.8 3.97-2.1 5.39z"@,
        Icon::Minimize => "M6 19h12v2H6z"@,
        Icon::Maximize => "M3 3h18v18H3V3zm2 2v14h14V5H5z"@,
        Icon::Close => "M19 6.41L17.59 5 12 10.59 6.41 5 5 6.41 10.59 12 5 17.59 6.41 19 12 13.41 17.59 19 19 17.59 13.41 12z"@,
    }
}

impl Icon {
    /// Material-style filled path (24×24 viewBox).
    pub fn path(self) -> (r: &'static str)
        ensures
            r@ == icon_path(self),
    {
        match self {
            Icon::Search => "M15.5 14h-.79l-.28-.27A6.471 6.471 0 0 0 16 9.5 6.5 6.5 0 1 0 9.5 16c1.61 0 3.09-.59 4.23-1.57l.27.28v.79l5 4.99L20.49 19l-4.99-5zm-6 0C7.01 14 5 11.99 5 9.5S7.01 5 9.5 5 14 7.01 14 9.5 11.99 14 9.5 14z",
            Icon::Settings => "M19.14 12.94c.04-.3.06-.61.06-.94 0-.32-.02-.64-.07-.94l2.03-1.58c.18-.14.23-.41.12-.61l-1.92-3.32c-.12-.22-.37-.29-.59-.22l-2.39.96c-.5-.38-1.03-.7-1.62-.94l-.36-2.54c-.04-.24-.24-.41-.48-.41h-3.84c-.24 0-.43.17-.47.41l-.36 2.54c-.59.24-1.13.57-1.62.94l-2.39-.96c-.22-.08-.47 0-.59.22L2.74 8.87c-.12.21-.08.47.12.61l2.03 1.58c-.05.3-.09.63-.09.94s.02.64.07.94l-2.03 1.58c-.18.14-.23.41-.12.61l1.92 3.32c.12.22.37.29.59.22l2.39-.96c.5.38 1.03.7 1.62.94l.36 2.54c.05.24.24.41.48.41h3.84c.24 0 .44-.17.47-.41l.36-2.54c.59-.24 1.13-.56 1.62-.94l2.39.96c.22.08.47 0 .59-.22l1.92-3.32c.12-.22.07-.47-.12-.61l-2.01-1.58zM12 15.6c-1.98 0-3.6-1.62-3.6-3.6s1.62-3.6 3.6-3.6 3.6 1.62 3.6 3.6-1.62 3.6-3.6 3.6z",
            Icon::History => "M13 3c-4.97 0-9 4.03-9 9H1l3.89 3.89.07.14L9 12H6c0-3.87 3.13-7 7-7s7 3.13 7 7-3.13 7-7 7c-1.93 0-3.68-.79-4.94-2.06l-1.42 1.42C8.27 19.99 10.51 21 13 21c4.97 0 9-4.03 9-9s-4.03-9-9-9zm-1 5v5l4.28 2.54.72-1.21-3.5-2.08V8H12z",
            Icon::Pause => "M6 19h4V5H6v14zm8-14v14h4V5h-4z",
            Icon::Play => "M8 5v14l11-7z",
            Icon::Link => "M3.9 12c0-1.71 1.39-3.1 3.1-3.1h4V7H7c-2.76 0-5 2.24-5 5s2.24 5 5 5h4v-1.9H7c-1.71 0-3.1-1.39-3.1-3.1zM8 13h8v-2H8v2zm9-6h-4v1.9h4c1.71 0 3.1 1.39 3.1 3.1s-1.39 3.1-3.1 3.1h-4V17h4c2.76 0 5-2.24 5-5s-2.24-5-5-5z",
            Icon::Code => "M9.4 16.6L4.8 12l4.6-4.6L8 6l-6 6 6 6 1.4-1.4zm5.2 0l4.6-4.6-4.6-4.6L16 6l6 6-6 6-1.4-1.4z",
            Icon::Text => "M5 4v3h5.5v12h3V7H19V4H5z",
            Icon::File => "M6 2h8l5 5v13c0 1.1-.9 2-2 2H6c-1.1 0-2-.9-2-2V4c0-1.1.9-2 2-2zm7 2H6v16h11V8h-4V4z",
            Icon::Image => "M21 19V5c0-1.1-.9-2-2-2H5C3.9 3 3 3.9 3 5v14c0 1.1.9 2 2 2h14c1.1 0 2-.9 2-2zM5 5h14v14H5V5zm2 12h10l-3.2-4.2-2.3 2.9-1.7-2.1L7 17z",
            Icon::Pin => "M16 9V4l1-1V2H7v1l1 1v5l-2 3v2h5v8l1 1 1-1v-8h5v-2l-2-3z",
            Icon::Copy => "M16 1H4c-1.1 0-2 .9-2 2v14h2V3h12V1zm3 4H8c-1.1 0-2 .9-2 2v14c0 1.1.9 2 2 2h11c1.1 0 2-.9 2-2V7c0-1.1-.9-2-2-2zm0 16H8V7h11v14z",
            Icon::Check => "M9 16.17L4.83 12l-1.42 1.41L9 19 21 7l-1.41-1.41z",
            Icon::More => "M6 10c-1.1 0-2 .9-2 2s.9 2 2 2 2-.9 2-2-.9-2-2-2zm12 0c-1.1 0-2 .9-2 2s.9 2 2 2 2-.9 2-2-.9-2-2-2zm-6 0c-1.1 0-2 .9-2 2s.9 2 2 2 2-.9 2-2-.9-2-2-2z",
            Icon::List => "M3 13h2v-2H3v2zm0 4h2v-2H3v2zm0-8h2V7H3v2zm4 4h14v-2H7v2zm0 4h14v-2H7v2zM7 7v2h14V7H7z",
            Icon::Trash => "M6 19c0 1.1.9 2 2 2h8c1.1 0 2-.9 2-2V7H6v12zM19 4h-3.5l-1-1h-5l-1 1H5v2h14V4z",
            Icon::External => "M19 19H5V5h7V3H5c-1.11 0-2 .9-2 2v14c0 1.1.89 2 2 2h14c1.1 0 2-.9 2-2v-7h-2v7zM14 3v2h3.59l-9.83 9.83 1.41 1.41L19 6.41V10h2V3h-7z",
            Icon::Terminal => "M20 4H4c-1.1 0-2 .9-2 2v12c0 1.1.9 2 2 2h16c1.1 0 2-.9 2-2V6c0-1.1-.9-2-2-2zm0 14H4V8h16v10zm-2-1h-6v-2h6v2zM7.5 17l-1.41-1.41L8.67 13l-2.59-2.59L7.5 9l4 4-4 4z",
            Icon::QrCode => "M3 3h8v8H3V3zm2 2v4h4V5H5zm8-2h8v8h-8V3zm2 2v4h4V5h-4zM3 13h8v8H3v-8zm2 2v4h4v-4H5zm13-2h3v2h-3v-2zm-5 0h2v3h-2v-3zm2 5h2v3h-2v-3zm3 0h3v3h-3v-3zm0-3h3v2h-3v-2zm-2-2h2v2h-2v-2z",
            Icon::Globe => "M12 2C6.48 2 2 6.48 2 12s4.48 10 10 10 10-4.48 10-10S17.52 2 12 2zm-1 17.93c-3.95-.49-7-3.85-7-7.93 0-.62.08-1.21.21-1.79L9 15v1c0 1.1.9 2 2 2v1.93zm6.9-2.54c-.26-.81-1-1.39-1.9-1.39h-1v-3c0-.55-.45-1-1-1H8v-2h2c.55 0 1-.45 1-1V7h2c1.1 0 2-.9 2-2v-.41c2.93 1.19 5 4.06 5 7.41 0 2.08-.8 3.97-2.1 5.39z",
            Icon::Minimize => "M6 19h12v2H6z",
            Icon::Maximize => "M3 3h18v18H3V3zm2 2v14h14V5H5z",
            Icon::Close => "M19 6.41L17.59 5 12 10.59 6.41 5 5 6.41 10.59 12 5 17.59 6.41 19 12 13.41 17.59 19 19 17.59 13.41 12z",
        }
    }
}

/// A standalone SVG document drawing `path` in the current color.
pub open spec fn svg_document_spec(path: Seq<char>) -> Seq<char> {
    "<svg xmlns=\"http://www.w3.org/2000/svg\" viewBox=\"0 0 24 24\"><path fill=\"currentColor\" d=\""@
        + path + "\"/></svg>"@
}

pub fn svg_document(path: &str) -> (r: String)
    ensures
        r@ == svg_document_spec(path@),
{
    let mut s = String::new();
    push_str(&mut s, "<svg xmlns=\"http://www.w3.org/2000/svg\" viewBox=\"0 0 24 24\"><path fill=\"currentColor\" d=\"");
    push_str(&mut s, path);
    push_str(&mut s, "\"/></svg>");
    assert(s@ =~= svg_document_spec(path@));
    s
}

/// The icon of a content class.
pub fn icon_for_kind(kind: ContentKind) -> (r: Icon)
    ensures
        r == match kind {
            ContentKind::Link => Icon::Link,
            ContentKind::Code => Icon::Code,
            ContentKind::Text => Icon::Text,
            ContentKind::File => Icon::File,
            ContentKind::Image => Icon::Image,
        },
{
    match kind {
        ContentKind::Link => Icon::Link,
        ContentKind::Code => Icon::Code,
        ContentKind::Text => Icon::Text,
        ContentKind::File => Icon::File,
        ContentKind::Image => Icon::Image,
    }
}

/// Number of tints in the palette of application colours.
pub const TINT_COUNT: usize = 8;

/// FNV-style hash of a name's bytes: each step multiplies by 16777619,
/// wrapping at 32 bits, and mixes in the next byte.
pub open spec fn tint_hash(bs: Seq<u8>) -> u32
    decreases bs.len(),
{
    if bs.len() == 0 {
        0
    } else {
        (((tint_hash(bs.drop_last()) as nat * 16777619) % 0x1_0000_0000) as u32) ^ (
        bs.last() as u32)
    }
}

/// Which tint of the palette stands for an application without an icon:
/// stable for a name, spread over the palette.
pub fn app_tint_index(app: &str) -> (r: usize)
    ensures
        r == tint_hash(app.spec_bytes()) as nat % 8,
        r < TINT_COUNT,
{
    let bytes = app.as_bytes();
    let mut h: u32 = 0;
    let mut i: usize = 0;
    while i < bytes.len()
        invariant
            i <= bytes@.len(),
            bytes@ == app.spec_bytes(),
            h == tint_hash(bytes@.take(i as int)),
        decreases bytes@.len() - i,
    {
        assert(bytes@.take(i as int + 1).drop_last() =~= bytes@.take(i as int));
        h = h.wrapping_mul(16777619) ^ (bytes[i] as u32);
        i += 1;
    }
    assert(bytes@.take(i as int) =~= bytes@);
    (h % 8) as usize
}

// ----------------------------------------------------------------------------
// Application icons read from executables
// ----------------------------------------------------------------------------

pub open spec fn max3(a: u8, b: u8, c: u8) -> u8 {
    if a >= b && a >= c {
        a
    } else if b >= c {
        b
    } else {
        c
    }
}

/// Every alpha byte of 32-bit pixels is at most 8: the bitmap carries no
/// usable transparency.
pub open spec fn alpha_all_low(px: Seq<u8>) -> bool {
    forall|k: int| 0 <= k < px.len() && k % 4 == 3 ==> #[trigger] px[k] <= 8
}

/// Every colour byte is at most 8: the bitmap is black.
pub open spec fn colour_all_dark(px: Seq<u8>) -> bool {
    forall|k: int| 0 <= k < px.len() && k % 4 != 3 ==> #[trigger] px[k] <= 8
}

/// Whether the icon's AND mask has to supply the alpha channel: a colour
/// bitmap whose alpha bytes are all (nearly) zero.
pub fn needs_mask_alpha(px: &[u8], monochrome: bool) -> (r: bool)
    ensures
        r == (!monochrome && alpha_all_low(px@)),
{
    if monochrome {
        return false;
    }
    let mut k: usize = 0;
    while k < px.len()
        invariant
            k <= px@.len(),
            forall|j: int| 0 <= j < k && j % 4 == 3 ==> #[trigger] px@[j] <= 8,
        decreases px@.len() - k,
    {
        if k % 4 == 3 && px[k] > 8 {
            return false;
        }
        k += 1;
    }
    true
}

/// Byte `k` of an icon after the mask alpha, the BGRA to RGBA swap and, for
/// a monochrome icon, the inversion to black on white.
pub open spec fn icon_byte(px: Seq<u8>, mask: Option<Seq<u8>>, monochrome: bool, k: int) -> u8 {
    let b = k - k % 4;
    let c = k % 4;
    if monochrome {
        if c == 3 {
            255
        } else {
            (255 - px[b + 2]) as u8
        }
    } else if c == 0 {
        px[b + 2]
    } else if c == 1 {
        px[b + 1]
    } else if c == 2 {
        px[b]
    } else {
        match mask {
            Some(m) => if max3(m[b], m[b + 1], m[b + 2]) < 128 {
                255
            } else {
                0
            },
            None => px[b + 3],
        }
    }
}

pub open spec fn icon_bytes(px: Seq<u8>, mask: Option<Seq<u8>>, monochrome: bool) -> Seq<u8> {
    Seq::new(px.len(), |k: int| icon_byte(px, mask, monochrome, k))
}

/// `s` with every alpha byte opaque.
pub open spec fn opaque(s: Seq<u8>) -> Seq<u8> {
    Seq::new(s.len(), |k: int| if k % 4 == 3 { 255u8 } else { s[k] })
}

/// The RGBA pixels of an icon read as 32-bit BGRA rows (`px`, with `mask`
/// the AND mask's pixels when it supplies the alpha). An icon left without
/// any opaque pixel is shown opaque, unless it is black too: then there is
/// nothing to show.
pub open spec fn icon_rgba_spec(px: Seq<u8>, mask: Option<Seq<u8>>, monochrome: bool) -> Option<
    Seq<u8>,
> {
    let s = icon_bytes(px, mask, monochrome);
    if alpha_all_low(s) {
        if colour_all_dark(s) {
            None
        } else {
            Some(opaque(s))
        }
    } else {
        Some(s)
    }
}

fn max3_exec(a: u8, b: u8, c: u8) -> (r: u8)
    ensures
        r == max3(a, b, c),
{
    if a >= b && a >= c {
        a
    } else if b >= c {
        b
    } else {
        c
    }
}

pub fn icon_rgba(px: &[u8], mask: Option<&[u8]>, monochrome: bool) -> (r: Option<Vec<u8>>)
    requires
        px@.len() % 4 == 0,
        mask matches Some(m) ==> m@.len() == px@.len(),
    ensures
        match r {
            Some(v) => icon_rgba_spec(
                px@,
                match mask {
                    Some(m) => Some(m@),
                    None => None,
                },
                monochrome,
            ) == Some(v@),
            None => icon_rgba_spec(
                px@,
                match mask {
                    Some(m) => Some(m@),
                    None => None,
                },
                monochrome,
            ) is None,
        },
{
    let ghost mv: Option<Seq<u8>> = match mask {
        Some(m) => Some(m@),
        None => None,
    };
    let ghost s = icon_bytes(px@, mv, monochrome);
    let mut out: Vec<u8> = Vec::new();
    let mut alpha_low = true;
    let mut dark = true;
    let mut k: usize = 0;
    while k < px.len()
        invariant
            k <= px@.len(),
            px@.len() % 4 == 0,
            mask matches Some(m) ==> m@.len() == px@.len(),
            mv == match mask {
                Some(m) => Some(m@),
                None => None,
            },
            s == icon_bytes(px@, mv, monochrome),
            out@.len() == k,
            forall|j: int| 0 <= j < k ==> #[trigger] out@[j] == s[j],
            alpha_low == (forall|j: int| 0 <= j < k && j % 4 == 3 ==> #[trigger] s[j] <= 8),
            dark == (forall|j: int| 0 <= j < k && j % 4 != 3 ==> #[trigger] s[j] <= 8),
        decreases px@.len() - k,
    {
        let c = k % 4;
        let b = k - c;
        assert(b + 3 < px@.len());
        let byte: u8 = if monochrome {
            if c == 3 {
                255
            } else {
                255 - px[b + 2]
            }
        } else if c == 0 {
            px[b + 2]
        } else if c == 1 {
            px[b + 1]
        } else if c == 2 {
            px[b]
        } else {
            match mask {
                Some(m) => if max3_exec(m[b], m[b + 1], m[b + 2]) < 128 {
                    255
                } else {
                    0
                },
                None => px[b + 3],
            }
        };
        assert(byte == s[k as int]);
        if c == 3 {
            if byte > 8 {
                alpha_low = false;
            }
        } else {
            if byte > 8 {
                dark = false;
            }
        }
        out.push(byte);
        k += 1;
    }
    assert(out@ =~= s);
    if alpha_low {
        if dark {
            return None;
        }
        let mut j: usize = 3;
        while j < out.len()
            invariant
                out@.len() == s.len(),
                s.len() % 4 == 0,
                j % 4 == 3,
                forall|i: int| 0 <= i < out@.len() ==> #[trigger] out@[i] == if i % 4 == 3 && i < j {
                    255u8
                } else {
                    s[i]
                },
            decreases out@.len() + 4 - j,
        {
            out.set(j, 255);
            j += 4;
        }
        assert(out@ =~= opaque(s));
        return Some(out);
    }
    Some(out)
}

/// Pixel `(x, y)` of a `w`-wide RGBA buffer is there and more opaque than
/// `threshold`.
pub open spec fn visible_pixel(px: Seq<u8>, w: u32, threshold: u8, x: int, y: int) -> bool {
    let idx = (y * w + x) * 4;
    idx + 3 < px.len() && px[idx + 3] > threshold
}

/// The rectangle `(min_x, min_y, max_x, max_y)` that holds every visible
/// pixel of the `w`×`h` grid and touches one on each side; none when no
/// pixel is visible.
pub open spec fn is_opaque_bounds(
    px: Seq<u8>,
    w: u32,
    h: u32,
    threshold: u8,
    r: Option<(u32, u32, u32, u32)>,
) -> bool {
    match r {
        None => forall|x: int, y: int|
            0 <= x < w && 0 <= y < h ==> !#[trigger] visible_pixel(px, w, threshold, x, y),
        Some((a, b, c, d)) => {
            &&& a <= c < w && b <= d < h
            &&& forall|x: int, y: int|
                0 <= x < w && 0 <= y < h && #[trigger] visible_pixel(px, w, threshold, x, y) ==> a
                    <= x <= c && b <= y <= d
            &&& exists|y: int| 0 <= y < h && #[trigger] visible_pixel(px, w, threshold, a as int, y)
            &&& exists|y: int| 0 <= y < h && #[trigger] visible_pixel(px, w, threshold, c as int, y)
            &&& exists|x: int| 0 <= x < w && #[trigger] visible_pixel(px, w, threshold, x, b as int)
            &&& exists|x: int| 0 <= x < w && #[trigger] visible_pixel(px, w, threshold, x, d as int)
        },
    }
}

proof fn lemma_cell_index(w: int, h: int, x: int, y: int)
    requires
        0 <= x < w,
        0 <= y < h,
    ensures
        0 <= y * w + x < w * h,
{
    assert(y * w <= (h - 1) * w) by (nonlinear_arith)
        requires
            0 <= y <= h - 1,
            0 <= w,
    ;
    assert((h - 1) * w == h * w - w) by (nonlinear_arith);
    assert(w * h == h * w) by (nonlinear_arith);
    assert(0 <= y * w) by (nonlinear_arith)
        requires
            0 <= y,
            0 <= w,
    ;
}

/// The visible part of an icon: the bounding box of the pixels whose alpha
/// exceeds `threshold`, scanned row by row.
pub fn opaque_bounds(px: &[u8], w: u32, h: u32, threshold: u8) -> (r: Option<(u32, u32, u32, u32)>)
    requires
        (w as int) * (h as int) * 4 <= u32::MAX as int + 4,
    ensures
        is_opaque_bounds(px@, w, h, threshold, r),
{
    let mut found = false;
    let mut min_x: u32 = 0;
    let mut min_y: u32 = 0;
    let mut max_x: u32 = 0;
    let mut max_y: u32 = 0;
    let ghost mut wit_min_x: (int, int) = (0, 0);
    let ghost mut wit_max_x: (int, int) = (0, 0);
    let ghost mut wit_min_y: (int, int) = (0, 0);
    let ghost mut wit_max_y: (int, int) = (0, 0);
    let mut y: u32 = 0;
    while y < h
        invariant
            y <= h,
            (w as int) * (h as int) * 4 <= u32::MAX as int + 4,
            found ==> min_x <= max_x < w && min_y <= max_y < y,
            found ==> wit_min_x.0 == min_x && 0 <= wit_min_x.1 < h && visible_pixel(px@, w, threshold, wit_min_x.0, wit_min_x.1),
            found ==> wit_max_x.0 == max_x && 0 <= wit_max_x.1 < h && visible_pixel(px@, w, threshold, wit_max_x.0, wit_max_x.1),
            found ==> wit_min_y.1 == min_y && 0 <= wit_min_y.0 < w && visible_pixel(px@, w, threshold, wit_min_y.0, wit_min_y.1),
            found ==> wit_max_y.1 == max_y && 0 <= wit_max_y.0 < w && visible_pixel(px@, w, threshold, wit_max_y.0, wit_max_y.1),
            forall|xx: int, yy: int|
                0 <= xx < w && 0 <= yy < y && #[trigger] visible_pixel(px@, w, threshold, xx, yy) ==> found
                    && min_x <= xx <= max_x && min_y <= yy <= max_y,
        decreases h - y,
    {
        let mut x: u32 = 0;
        while x < w
            invariant
                x <= w,
                y < h,
                (w as int) * (h as int) * 4 <= u32::MAX as int + 4,
                found ==> min_x <= max_x < w && min_y <= max_y <= y,
                found ==> wit_min_x.0 == min_x && 0 <= wit_min_x.1 < h && visible_pixel(px@, w, threshold, wit_min_x.0, wit_min_x.1),
                found ==> wit_max_x.0 == max_x && 0 <= wit_max_x.1 < h && visible_pixel(px@, w, threshold, wit_max_x.0, wit_max_x.1),
                found ==> wit_min_y.1 == min_y && 0 <= wit_min_y.0 < w && visible_pixel(px@, w, threshold, wit_min_y.0, wit_min_y.1),
                found ==> wit_max_y.1 == max_y && 0 <= wit_max_y.0 < w && visible_pixel(px@, w, threshold, wit_max_y.0, wit_max_y.1),
                forall|xx: int, yy: int|
                    0 <= xx < w && 0 <= yy < h && (yy < y || (yy == y && xx < x)) && #[trigger] visible_pixel(px@, w, threshold, xx, yy) ==> found
                        && min_x <= xx <= max_x && min_y <= yy <= max_y,
            decreases w - x,
        {
            proof {
                lemma_cell_index(w as int, h as int, x as int, y as int);
            }
            let idx: u64 = ((y as u64) * (w as u64) + (x as u64)) * 4;
            let hit = idx + 3 < px.len() as u64 && px[(idx + 3) as usize] > threshold;
            assert(hit == visible_pixel(px@, w, threshold, x as int, y as int));
            if hit {
                if !found {
                    found = true;
                    min_x = x;
                    max_x = x;
                    min_y = y;
                    max_y = y;
                    proof {
                        wit_min_x = (x as int, y as int);
                        wit_max_x = (x as int, y as int);
                        wit_min_y = (x as int, y as int);
                        wit_max_y = (x as int, y as int);
                    }
                } else {
                    if x < min_x {
                        min_x = x;
                        proof {
                            wit_min_x = (x as int, y as int);
                        }
                    }
                    if x > max_x {
                        max_x = x;
                        proof {
                            wit_max_x = (x as int, y as int);
                        }
                    }
                    if y > max_y {
                        max_y = y;
                        proof {
                            wit_max_y = (x as int, y as int);
                        }
                    }
                }
            }
            x += 1;
        }
        y += 1;
    }
    if found {
        proof {
            assert(visible_pixel(px@, w, threshold, min_x as int, wit_min_x.1));
            assert(visible_pixel(px@, w, threshold, max_x as int, wit_max_x.1));
            assert(visible_pixel(px@, w, threshold, wit_min_y.0, min_y as int));
            assert(visible_pixel(px@, w, threshold, wit_max_y.0, max_y as int));
        }
        Some((min_x, min_y, max_x, max_y))
    } else {
        None
    }
}

// ----------------------------------------------------------------------------
// Application avatars
// ----------------------------------------------------------------------------

/// Brand icons drawn for well-known applications.
#[derive(Debug, Clone, Copy, PartialEq, Eq, Structural)]
pub enum BrandIcon {
    WeChat,
    Chrome,
    Edge,
    Idea,
    DataGrip,
    Terminal,
    Snipaste,
    Explorer,
    VsCode,
}

/// The brand icon of an executable name: matched on its ASCII-lowercased
/// text up to the first `.`.
pub open spec fn brand_icon_spec(app: Seq<char>) -> Option<BrandIcon> {
    let name = before_first(ascii_lower_seq(app), "."@);
    if name == "weixin"@ || name == "wechat"@ {
        Some(BrandIcon::WeChat)
    } else if name == "chrome"@ {
        Some(BrandIcon::Chrome)
    } else if name == "msedge"@ || name == "edge"@ {
        Some(BrandIcon::Edge)
    } else if name == "idea64"@ || name == "idea"@ {
        Some(BrandIcon::Idea)
    } else if name == "datagrip"@ {
        Some(BrandIcon::DataGrip)
    } else if name == "windowsterminal"@ || name == "terminal"@ || name == "cmd"@ || name == "powershell"@ {
        Some(BrandIcon::Terminal)
    } else if name == "snipaste"@ {
        Some(BrandIcon::Snipaste)
    } else if name == "explorer"@ {
        Some(BrandIcon::Explorer)
    } else if name == "code"@ || name == "vscode"@ {
        Some(BrandIcon::VsCode)
    } else {
        None
    }
}

fn eq_text(a: &[char], b: &str) -> (r: bool)
    ensures
        r == (a@ == b@),
{
    let bc = chars_of(b);
    crate::events::chars_eq(a, bc.as_slice())
}

pub fn brand_icon(app: &str) -> (r: Option<BrandIcon>)
    ensures
        r == brand_icon_spec(app@),
{
    let cs = chars_of(app);
    let lower = lower_chars(cs.as_slice());
    let dot = chars_of(".");
    let (name, _) = split_once_chars(lower.as_slice(), dot.as_slice());
    let n = name.as_slice();
    if eq_text(n, "weixin") || eq_text(n, "wechat") {
        Some(BrandIcon::WeChat)
    } else if eq_text(n, "chrome") {
        Some(BrandIcon::Chrome)
    } else if eq_text(n, "msedge") || eq_text(n, "edge") {
        Some(BrandIcon::Edge)
    } else if eq_text(n, "idea64") || eq_text(n, "idea") {
        Some(BrandIcon::Idea)
    } else if eq_text(n, "datagrip") {
        Some(BrandIcon::DataGrip)
    } else if eq_text(n, "windowsterminal") || eq_text(n, "terminal") || eq_text(n, "cmd") || eq_text(n, "powershell") {
        Some(BrandIcon::Terminal)
    } else if eq_text(n, "snipaste") {
        Some(BrandIcon::Snipaste)
    } else if eq_text(n, "explorer") {
        Some(BrandIcon::Explorer)
    } else if eq_text(n, "code") || eq_text(n, "vscode") {
        Some(BrandIcon::VsCode)
    } else {
        None
    }
}

/// The SVG document of a brand icon.
pub open spec fn brand_svg_spec(b: BrandIcon) -> Seq<char> {
    match b {
        BrandIcon::WeChat => r##"<svg xmlns="http://www.w3.org/2000/svg" viewBox="0 0 48 48">
                <circle cx="24" cy="24" r="22" fill="#07C160"/>
                <path fill="#FFFFFF" d="M19 10C12.92 10 8 14.18 8 19.33c0 2.87 1.48 5.43 3.82 7.14L10.5 31l4.52-2.26c1.23.33 2.55.52 3.98.52.37 0 .73-.02 1.09-.07A9.03 9.03 0 0 1 19 25c0-5.17 4.54-9.33 10.15-9.33.25 0 .49.01.74.03C28.2 11.96 23.95 10 19 10zm-3.25 5.5a2 2 0 1 1 0 4 2 2 0 0 1 0-4zm6.5 0a2 2 0 1 1 0 4 2 2 0 0 1 0-4z"/>
                <path fill="#FFFFFF" d="M29 17c-4.97 0-9 3.58-9 8s4.03 8 9 8c1.1 0 2.14-.18 3.09-.5l3.91 1.95-1.12-3.37C36.18 29.74 38 27.52 38 25c0-4.42-4.03-8-9-8zm-2.5 4.5a1.6 1.6 0 1 1 0 3.2 1.6 1.6 0 0 1 0-3.2zm5 0a1.6 1.6 0 1 1 0 3.2 1.6 1.6 0 0 1 0-3.2z"/>
            </svg>"##@,
        BrandIcon::Chrome => r##"<svg xmlns="http://www.w3.org/2000/svg" viewBox="0 0 48 48">
                <circle cx="24" cy="24" r="22" fill="#FFFFFF"/>
                <circle cx="24" cy="24" r="10" fill="#1A73E8"/>
                <path fill="#EA4335" d="M24 4c7.6 0 14.3 4.3 17.6 10.7L24 24h-8.7L24 4z"/>
                <path fill="#FBBC05" d="M41.6 14.7C44.3 19.3 45 25 43.1 30.7L24 24l10.4-18z"/>
                <path fill="#34A853" d="M24 44c-9.1 0-16.7-6.2-19-14.7L15.3 24 24 44z"/>
                <path fill="#FBBC05" d="M4.9 29.3C3.1 23.6 4.3 17.5 7.9 12.7L24 24l-19.1 5.3z"/>
                <circle cx="24" cy="24" r="8" fill="#FFFFFF"/>
                <circle cx="24" cy="24" r="6" fill="#1A73E8"/>
            </svg>"##@,
        BrandIcon::Edge => r##"<svg xmlns="http://www.w3.org/2000/svg" viewBox="0 0 48 48">
                <circle cx="24" cy="24" r="22" fill="#0B5C9C"/>
                <path fill="#00D2FF" d="M24 6c9.9 0 18 8.1 18 18-3.1-4-8.1-6-13-6-9 0-15 6-15 13 0 4 2 8 6 10-9.9 0-18-8.1-18-18C2 13 11.9 6 24 6z"/>
                <path fill="#50E3C2" d="M29 18c6 0 11 4 13 10-2 8-9 14-18 14-4 0-8-1-11-4 3 1 7 0 10-2 4-3 6-7 6-11 0-4-3-7-7-7z"/>
            </svg>"##@,
        BrandIcon::Idea => r##"<svg xmlns="http://www.w3.org/2000/svg" viewBox="0 0 48 48">
                <rect width="44" height="44" x="2" y="2" rx="8" fill="#000000"/>
                <path fill="#FC801D" d="M6 6h16v16H6z"/>
                <path fill="#FE2857" d="M22 6h20v16H22z"/>
                <path fill="#087CFA" d="M6 22h16v20H6z"/>
                <path fill="#3BE8B0" d="M22 22h20v20H22z"/>
                <rect width="36" height="36" x="6" y="6" rx="6" fill="#1E1F22"/>
                <path fill="#FFFFFF" d="M12 12h4v24h-4zm8 0h12v4H24v6h6v4h-6v6h8v4H20z"/>
            </svg>"##@,
        BrandIcon::DataGrip => r##"<svg xmlns="http://www.w3.org/2000/svg" viewBox="0 0 48 48">
                <rect width="44" height="44" x="2" y="2" rx="8" fill="#000000"/>
                <rect width="36" height="36" x="6" y="6" rx="6" fill="#1B2B34"/>
                <path fill="#21D789" d="M14 14h10c5 0 9 3 9 8s-4 8-9 8h-6v4h-4V14zm4 4v8h6c3 0 5-1.5 5-4s-2-4-5-4h-6z"/>
            </svg>"##@,
        BrandIcon::Terminal => r##"<svg xmlns="http://www.w3.org/2000/svg" viewBox="0 0 48 48">
                <rect width="44" height="44" x="2" y="2" rx="8" fill="#1E1E1E"/>
                <path fill="#FFFFFF" d="M12 16l8 8-8 8-2.5-2.5 5.5-5.5-5.5-5.5zm12 14h12v3H24z"/>
            </svg>"##@,
        BrandIcon::Snipaste => r##"<svg xmlns="http://www.w3.org/2000/svg" viewBox="0 0 48 48">
                <rect width="44" height="44" x="2" y="2" rx="10" fill="#2A3948"/>
                <circle cx="18" cy="18" r="6" stroke="#26A69A" stroke-width="3" fill="none"/>
                <circle cx="18" cy="30" r="6" stroke="#26A69A" stroke-width="3" fill="none"/>
                <path stroke="#FFA726" stroke-width="3" stroke-linecap="round" d="M22 20l14 14M22 28L36 14"/>
            </svg>"##@,
        BrandIcon::Explorer => r##"<svg xmlns="http://www.w3.org/2000/svg" viewBox="0 0 48 48">
                <path fill="#FFA000" d="M40 12H22l-4-4H8c-2.2 0-4 1.8-4 4v24c0 2.2 1.8 4 4 4h32c2.2 0 4-1.8 4-4V16c0-2.2-1.8-4-4-4z"/>
                <path fill="#FFCA28" d="M40 16H8c-2.2 0-4 1.8-4 4v16c0 2.2 1.8 4 4 4h32c2.2 0 4-1.8 4-4V20c0-2.2-1.8-4-4-4z"/>
            </svg>"##@,
        BrandIcon::VsCode => r##"<svg xmlns="http://www.w3.org/2000/svg" viewBox="0 0 48 48">
                <rect width="44" height="44" x="2" y="2" rx="8" fill="#1E1E1E"/>
                <path fill="#007ACC" d="M33 4l-14 13L9 10l-4 3 6 7-6 7 4 3 10-7 14 13V4z"/>
                <path fill="#1F9CF0" d="M33 4v40l10-5V9L33 4z"/>
            </svg>"##@,
    }
}

pub fn brand_svg(b: BrandIcon) -> (r: &'static str)
    ensures
        r@ == brand_svg_spec(b),
{
    match b {
        BrandIcon::WeChat => r##"<svg xmlns="http://www.w3.org/2000/svg" viewBox="0 0 48 48">
                <circle cx="24" cy="24" r="22" fill="#07C160"/>
                <path fill="#FFFFFF" d="M19 10C12.92 10 8 14.18 8 19.33c0 2.87 1.48 5.43 3.82 7.14L10.5 31l4.52-2.26c1.23.33 2.55.52 3.98.52.37 0 .73-.02 1.09-.07A9.03 9.03 0 0 1 19 25c0-5.17 4.54-9.33 10.15-9.33.25 0 .49.01.74.03C28.2 11.96 23.95 10 19 10zm-3.25 5.5a2 2 0 1 1 0 4 2 2 0 0 1 0-4zm6.5 0a2 2 0 1 1 0 4 2 2 0 0 1 0-4z"/>
                <path fill="#FFFFFF" d="M29 17c-4.97 0-9 3.58-9 8s4.03 8 9 8c1.1 0 2.14-.18 3.09-.5l3.91 1.95-1.12-3.37C36.18 29.74 38 27.52 38 25c0-4.42-4.03-8-9-8zm-2.5 4.5a1.6 1.6 0 1 1 0 3.2 1.6 1.6 0 0 1 0-3.2zm5 0a1.6 1.6 0 1 1 0 3.2 1.6 1.6 0 0 1 0-3.2z"/>
            </svg>"##,
        BrandIcon::Chrome => r##"<svg xmlns="http://www.w3.org/2000/svg" viewBox="0 0 48 48">
                <circle cx="24" cy="24" r="22" fill="#FFFFFF"/>
                <circle cx="24" cy="24" r="10" fill="#1A73E8"/>
                <path fill="#EA4335" d="M24 4c7.6 0 14.3 4.3 17.6 10.7L24 24h-8.7L24 4z"/>
                <path fill="#FBBC05" d="M41.6 14.7C44.3 19.3 45 25 43.1 30.7L24 24l10.4-18z"/>
                <path fill="#34A853" d="M24 44c-9.1 0-16.7-6.2-19-14.7L15.3 24 24 44z"/>
                <path fill="#FBBC05" d="M4.9 29.3C3.1 23.6 4.3 17.5 7.9 12.7L24 24l-19.1 5.3z"/>
                <circle cx="24" cy="24" r="8" fill="#FFFFFF"/>
                <circle cx="24" cy="24" r="6" fill="#1A73E8"/>
            </svg>"##,
        BrandIcon::Edge => r##"<svg xmlns="http://www.w3.org/2000/svg" viewBox="0 0 48 48">
                <circle cx="24" cy="24" r="22" fill="#0B5C9C"/>
                <path fill="#00D2FF" d="M24 6c9.9 0 18 8.1 18 18-3.1-4-8.1-6-13-6-9 0-15 6-15 13 0 4 2 8 6 10-9.9 0-18-8.1-18-18C2 13 11.9 6 24 6z"/>
                <path fill="#50E3C2" d="M29 18c6 0 11 4 13 10-2 8-9 14-18 14-4 0-8-1-11-4 3 1 7 0 10-2 4-3 6-7 6-11 0-4-3-7-7-7z"/>
            </svg>"##,
        BrandIcon::Idea => r##"<svg xmlns="http://www.w3.org/2000/svg" viewBox="0 0 48 48">
                <rect width="44" height="44" x="2" y="2" rx="8" fill="#000000"/>
                <path fill="#FC801D" d="M6 6h16v16H6z"/>
                <path fill="#FE2857" d="M22 6h20v16H22z"/>
                <path fill="#087CFA" d="M6 22h16v20H6z"/>
                <path fill="#3BE8B0" d="M22 22h20v20H22z"/>
                <rect width="36" height="36" x="6" y="6" rx="6" fill="#1E1F22"/>
                <path fill="#FFFFFF" d="M12 12h4v24h-4zm8 0h12v4H24v6h6v4h-6v6h8v4H20z"/>
            </svg>"##,
        BrandIcon::DataGrip => r##"<svg xmlns="http://www.w3.org/2000/svg" viewBox="0 0 48 48">
                <rect width="44" height="44" x="2" y="2" rx="8" fill="#000000"/>
                <rect width="36" height="36" x="6" y="6" rx="6" fill="#1B2B34"/>
                <path fill="#21D789" d="M14 14h10c5 0 9 3 9 8s-4 8-9 8h-6v4h-4V14zm4 4v8h6c3 0 5-1.5 5-4s-2-4-5-4h-6z"/>
            </svg>"##,
        BrandIcon::Terminal => r##"<svg xmlns="http://www.w3.org/2000/svg" viewBox="0 0 48 48">
                <rect width="44" height="44" x="2" y="2" rx="8" fill="#1E1E1E"/>
                <path fill="#FFFFFF" d="M12 16l8 8-8 8-2.5-2.5 5.5-5.5-5.5-5.5zm12 14h12v3H24z"/>
            </svg>"##,
        BrandIcon::Snipaste => r##"<svg xmlns="http://www.w3.org/2000/svg" viewBox="0 0 48 48">
                <rect width="44" height="44" x="2" y="2" rx="10" fill="#2A3948"/>
                <circle cx="18" cy="18" r="6" stroke="#26A69A" stroke-width="3" fill="none"/>
                <circle cx="18" cy="30" r="6" stroke="#26A69A" stroke-width="3" fill="none"/>
                <path stroke="#FFA726" stroke-width="3" stroke-linecap="round" d="M22 20l14 14M22 28L36 14"/>
            </svg>"##,
        BrandIcon::Explorer => r##"<svg xmlns="http://www.w3.org/2000/svg" viewBox="0 0 48 48">
                <path fill="#FFA000" d="M40 12H22l-4-4H8c-2.2 0-4 1.8-4 4v24c0 2.2 1.8 4 4 4h32c2.2 0 4-1.8 4-4V16c0-2.2-1.8-4-4-4z"/>
                <path fill="#FFCA28" d="M40 16H8c-2.2 0-4 1.8-4 4v16c0 2.2 1.8 4 4 4h32c2.2 0 4-1.8 4-4V20c0-2.2-1.8-4-4-4z"/>
            </svg>"##,
        BrandIcon::VsCode => r##"<svg xmlns="http://www.w3.org/2000/svg" viewBox="0 0 48 48">
                <rect width="44" height="44" x="2" y="2" rx="8" fill="#1E1E1E"/>
                <path fill="#007ACC" d="M33 4l-14 13L9 10l-4 3 6 7-6 7 4 3 10-7 14 13V4z"/>
                <path fill="#1F9CF0" d="M33 4v40l10-5V9L33 4z"/>
            </svg>"##,
    }
}

/// Text of a character in upper case, as Unicode maps it (one character
/// may become several).
pub uninterp spec fn unicode_uppercase(c: char) -> Seq<char>;

/// `char::to_uppercase`, collected into a string.
#[verifier::external_body]
fn uppercase_text(c: char) -> (r: String)
    ensures
        r@ == unicode_uppercase(c),
{
    c.to_uppercase().collect()
}

/// The monogram of an application without an icon: the first character of
/// its name without `.exe`, in upper case; `?` for an empty name.
pub open spec fn avatar_letter_spec(app: Seq<char>) -> Seq<char> {
    let name = strip_suffixes(strip_suffixes(app, ".exe"@), ".EXE"@);
    if name.len() > 0 {
        unicode_uppercase(name[0])
    } else {
        "?"@
    }
}

pub fn avatar_letter(app: &str) -> (r: String)
    ensures
        r@ == avatar_letter_spec(app@),
{
    let cs = chars_of(app);
    let a = crate::detail::strip_suffixes_exec(cs.as_slice(), ".exe");
    let b = crate::detail::strip_suffixes_exec(a.as_slice(), ".EXE");
    if b.len() > 0 {
        uppercase_text(b[0])
    } else {
        let mut s = String::new();
        push_str(&mut s, "?");
        assert(s@ =~= "?"@);
        s
    }
}

} // verus!
