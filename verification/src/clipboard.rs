//! Clipboard wire formats: UTF-16 text, the `CF_HDROP` file list, and the
//! DIB images exchanged with other applications.
//!
//! Opening, reading and writing the system clipboard is the caller's part;
//! the byte layouts are built and checked here.

use vstd::prelude::*;

use crate::model::{ClipboardPayload, strings_view};
use crate::text::{chars_of, push_str};

verus! {

pub const CF_DIB: u32 = 8;

pub const CF_UNICODETEXT: u32 = 13;

pub const CF_HDROP: u32 = 15;

pub const CF_DIBV5: u32 = 17;

pub const MAX_FILE_COUNT: usize = 4096;

pub const MAX_PATH_UNITS: usize = 32_767;

pub const MAX_FILE_LIST_BYTES: usize = 4 * 1024 * 1024;

// ----------------------------------------------------------------------------
// UTF-16
// ----------------------------------------------------------------------------

/// UTF-16 code units of one character.
pub open spec fn utf16_char(c: char) -> Seq<u16> {
    let v = c as u32;
    if v < 0x10000 {
        seq![v as u16]
    } else {
        seq![(0xD800 + ((v - 0x10000) / 0x400)) as u16, (0xDC00 + ((v - 0x10000) % 0x400)) as u16]
    }
}

/// `str::encode_utf16`.
pub open spec fn utf16(s: Seq<char>) -> Seq<u16>
    decreases s.len(),
{
    if s.len() == 0 {
        Seq::empty()
    } else {
        utf16(s.drop_last()) + utf16_char(s.last())
    }
}

/// The UTF-16 code units of a text.
pub fn encode_utf16(s: &str) -> (r: Vec<u16>)
    ensures
        r@ == utf16(s@),
{
    let cs = chars_of(s);
    let mut out: Vec<u16> = Vec::new();
    let mut i: usize = 0;
    while i < cs.len()
        invariant
            i <= cs@.len(),
            cs@ == s@,
            out@ == utf16(cs@.take(i as int)),
        decreases cs@.len() - i,
    {
        let c = cs[i];
        let v = c as u32;
        assert(cs@.take(i as int + 1).drop_last() =~= cs@.take(i as int));
        if v < 0x10000 {
            out.push(v as u16);
            assert(out@ =~= utf16(cs@.take(i as int)) + utf16_char(c));
        } else {
            let w = v - 0x10000;
            out.push((0xD800 + w / 0x400) as u16);
            out.push((0xDC00 + w % 0x400) as u16);
            assert(out@ =~= utf16(cs@.take(i as int)) + utf16_char(c));
        }
        i += 1;
    }
    assert(cs@.take(cs@.len() as int) =~= cs@);
    out
}

/// A NUL-terminated wide string, as Win32 `W` functions take it.
pub fn wide(value: &str) -> (r: Vec<u16>)
    ensures
        r@ == utf16(value@).push(0),
{
    let mut v = encode_utf16(value);
    v.push(0);
    v
}

/// Name of the session-local mutex that marks the running instance.
pub const MUTEX_NAME: &'static str = "Local\\Veya.desktop.instance";

/// Name of the event a second launch signals to activate the running instance.
pub const EVENT_NAME: &'static str = "Local\\Veya.desktop.activate";

/// Title of the main window.
pub const WINDOW_TITLE: &'static str = "Veya";

/// Why the single-instance guard could not be claimed.
#[derive(Debug)]
pub enum ClaimError {
    AlreadyRunning,
    CreateFailed(String),
}

// ----------------------------------------------------------------------------
// Little-endian layout
// ----------------------------------------------------------------------------

pub open spec fn le16(x: u16) -> Seq<u8> {
    seq![(x % 256) as u8, (x / 256) as u8]
}

pub open spec fn le32_of(x: u32) -> Seq<u8> {
    seq![(x % 256) as u8, ((x / 256) % 256) as u8, ((x / 65536) % 256) as u8, (x / 16777216) as u8]
}

/// Code units as little-endian byte pairs.
pub open spec fn units_le(u: Seq<u16>) -> Seq<u8>
    decreases u.len(),
{
    if u.len() == 0 {
        Seq::empty()
    } else {
        units_le(u.drop_last()) + le16(u.last())
    }
}

fn push_le16(out: &mut Vec<u8>, x: u16)
    ensures
        final(out)@ == old(out)@ + le16(x),
{
    out.push((x % 256) as u8);
    out.push((x / 256) as u8);
    assert(final(out)@ =~= old(out)@ + le16(x));
}

fn push_le32(out: &mut Vec<u8>, x: u32)
    ensures
        final(out)@ == old(out)@ + le32_of(x),
{
    out.push((x % 256) as u8);
    out.push(((x / 256) % 256) as u8);
    out.push(((x / 65536) % 256) as u8);
    out.push((x / 16777216) as u8);
    assert(final(out)@ =~= old(out)@ + le32_of(x));
}

fn push_units_le(out: &mut Vec<u8>, units: &[u16])
    ensures
        final(out)@ == old(out)@ + units_le(units@),
{
    let mut i: usize = 0;
    while i < units.len()
        invariant
            i <= units@.len(),
            out@ == old(out)@ + units_le(units@.take(i as int)),
        decreases units@.len() - i,
    {
        assert(units@.take(i as int + 1).drop_last() =~= units@.take(i as int));
        push_le16(out, units[i]);
        assert(out@ =~= old(out)@ + units_le(units@.take(i as int + 1)));
        i += 1;
    }
    assert(units@.take(units@.len() as int) =~= units@);
}

// ----------------------------------------------------------------------------
// CF_HDROP
// ----------------------------------------------------------------------------

/// The NUL-separated path list, or the error of the first path that cannot be listed.
pub open spec fn name_list(paths: Seq<Seq<u16>>) -> Result<Seq<u16>, Seq<char>>
    decreases paths.len(),
{
    if paths.len() == 0 {
        Ok(Seq::empty())
    } else {
        match name_list(paths.drop_last()) {
            Err(e) => Err(e),
            Ok(list) => {
                let p = paths.last();
                if p.len() == 0 || p.len() > MAX_PATH_UNITS || p.contains(0) {
                    Err("文件路径无效或超出支持范围"@)
                } else if (list.len() + p.len() + 1) * 2 > MAX_FILE_LIST_BYTES {
                    Err("文件列表超出支持大小"@)
                } else {
                    Ok(list + p.push(0))
                }
            },
        }
    }
}

/// A failure on some prefix of the paths is the failure of the whole list.
proof fn lemma_name_list_error_sticks(ps: Seq<Seq<u16>>, k: int, e: Seq<char>)
    requires
        0 <= k <= ps.len(),
        name_list(ps.take(k)) == Err::<Seq<u16>, Seq<char>>(e),
    ensures
        name_list(ps) == Err::<Seq<u16>, Seq<char>>(e),
    decreases ps.len() - k,
{
    if k == ps.len() {
        assert(ps.take(k) =~= ps);
    } else {
        assert(ps.take(k + 1).drop_last() =~= ps.take(k));
        lemma_name_list_error_sticks(ps, k + 1, e);
    }
}

/// `DROPFILES`: list offset 20, drop point (0, 0), client coordinates, wide names.
pub open spec fn dropfiles_header() -> Seq<u8> {
    le32_of(20) + le32_of(0) + le32_of(0) + le32_of(0) + le32_of(1)
}

/// The `CF_HDROP` block for a list of UTF-16 paths.
pub open spec fn hdrop_spec(paths: Seq<Seq<u16>>) -> Result<Seq<u8>, Seq<char>> {
    if paths.len() == 0 || paths.len() > MAX_FILE_COUNT {
        Err("文件列表为空或项目过多"@)
    } else {
        match name_list(paths) {
            Err(e) => Err(e),
            Ok(list) => Ok(dropfiles_header() + units_le(list.push(0))),
        }
    }
}

pub open spec fn wide_paths(v: Seq<Vec<u16>>) -> Seq<Seq<u16>> {
    v.map_values(|p: Vec<u16>| p@)
}

fn error_text(s: &str) -> (r: String)
    ensures
        r@ == s@,
{
    let mut e = String::new();
    push_str(&mut e, s);
    assert(e@ =~= s@);
    e
}

fn has_nul(p: &Vec<u16>) -> (r: bool)
    ensures
        r == p@.contains(0),
{
    let mut i: usize = 0;
    while i < p.len()
        invariant
            i <= p@.len(),
            forall|j: int| 0 <= j < i ==> p@[j] != 0,
        decreases p@.len() - i,
    {
        if p[i] == 0 {
            return true;
        }
        i += 1;
    }
    false
}

/// Builds the `CF_HDROP` payload: a `DROPFILES` header, then each path
/// NUL-terminated, then a final NUL.
pub fn encode_hdrop_wide(paths: &[Vec<u16>]) -> (r: Result<Vec<u8>, String>)
    ensures
        match (r, hdrop_spec(wide_paths(paths@))) {
            (Ok(bytes), Ok(expected)) => bytes@ == expected,
            (Err(e), Err(expected)) => e@ == expected,
            _ => false,
        },
{
    let ghost ps = wide_paths(paths@);
    if paths.len() == 0 || paths.len() > MAX_FILE_COUNT {
        return Err(error_text("文件列表为空或项目过多"));
    }
    let mut list: Vec<u16> = Vec::new();
    let mut i: usize = 0;
    assert(ps.take(0) =~= Seq::<Seq<u16>>::empty());
    while i < paths.len()
        invariant
            ps == wide_paths(paths@),
            0 < paths@.len() <= MAX_FILE_COUNT,
            i <= paths@.len(),
            name_list(ps.take(i as int)) == Ok::<Seq<u16>, Seq<char>>(list@),
            list@.len() * 2 <= MAX_FILE_LIST_BYTES,
        decreases paths@.len() - i,
    {
        let p = &paths[i];
        assert(p@ == ps[i as int]);
        assert(ps.take(i as int + 1).drop_last() =~= ps.take(i as int));
        assert(ps.take(i as int + 1).last() == ps[i as int]);
        if p.len() == 0 || p.len() > MAX_PATH_UNITS || has_nul(p) {
            proof {
                lemma_name_list_error_sticks(ps, i as int + 1, "文件路径无效或超出支持范围"@);
            }
            return Err(error_text("文件路径无效或超出支持范围"));
        }
        if (list.len() + p.len() + 1) * 2 > MAX_FILE_LIST_BYTES {
            proof {
                lemma_name_list_error_sticks(ps, i as int + 1, "文件列表超出支持大小"@);
            }
            return Err(error_text("文件列表超出支持大小"));
        }
        let ghost before = list@;
        let mut j: usize = 0;
        while j < p.len()
            invariant
                j <= p@.len(),
                list@ == before + p@.take(j as int),
                before.len() + p@.len() + 1 <= MAX_FILE_LIST_BYTES,
            decreases p@.len() - j,
        {
            list.push(p[j]);
            assert(p@.take(j as int + 1) =~= p@.take(j as int).push(p@[j as int]));
            assert(list@ =~= before + p@.take(j as int + 1));
            j += 1;
        }
        list.push(0);
        assert(p@.take(p@.len() as int) =~= p@);
        assert(list@ =~= before + p@.push(0));
        i += 1;
    }
    assert(ps.take(ps.len() as int) =~= ps);
    list.push(0);
    let mut bytes: Vec<u8> = Vec::new();
    push_le32(&mut bytes, 20);
    push_le32(&mut bytes, 0);
    push_le32(&mut bytes, 0);
    push_le32(&mut bytes, 0);
    push_le32(&mut bytes, 1);
    push_units_le(&mut bytes, list.as_slice());
    assert(bytes@ =~= dropfiles_header() + units_le(list@));
    Ok(bytes)
}

/// `CF_UNICODETEXT`: the text's UTF-16 units and a terminating NUL, little-endian.
pub fn unicode_text_bytes(text: &str) -> (r: Vec<u8>)
    ensures
        r@ == units_le(utf16(text@).push(0)),
{
    let units = wide(text);
    let mut bytes: Vec<u8> = Vec::new();
    push_units_le(&mut bytes, units.as_slice());
    assert(bytes@ =~= units_le(units@));
    bytes
}

// ----------------------------------------------------------------------------
// Reading what other applications copied
// ----------------------------------------------------------------------------

/// The one format read from the clipboard when several are offered: files
/// first, then a DIBv5 image, a DIB image, and text last.
pub fn preferred_format(hdrop: bool, dibv5: bool, dib: bool, text: bool) -> (r: Option<u32>)
    ensures
        r == if hdrop {
            Some(CF_HDROP)
        } else if dibv5 {
            Some(CF_DIBV5)
        } else if dib {
            Some(CF_DIB)
        } else if text {
            Some(CF_UNICODETEXT)
        } else {
            None::<u32>
        },
{
    if hdrop {
        Some(CF_HDROP)
    } else if dibv5 {
        Some(CF_DIBV5)
    } else if dib {
        Some(CF_DIB)
    } else if text {
        Some(CF_UNICODETEXT)
    } else {
        None
    }
}

pub const MAX_TEXT_UNITS: usize = 1_000_000;

/// Units a file list takes: each path and its terminating NUL.
pub open spec fn file_list_units(lengths: Seq<usize>) -> int
    decreases lengths.len(),
{
    if lengths.len() == 0 {
        0
    } else {
        file_list_units(lengths.drop_last()) + lengths.last() + 1
    }
}

/// A `CF_HDROP` list is read only when it has between one and
/// `MAX_FILE_COUNT` paths, each between one and `MAX_PATH_UNITS` units long,
/// and all of them with their NULs fit in `MAX_FILE_LIST_BYTES`.
pub open spec fn file_list_accepted_spec(lengths: Seq<usize>) -> bool {
    &&& 0 < lengths.len() <= MAX_FILE_COUNT
    &&& forall|i: int| 0 <= i < lengths.len() ==> 0 < #[trigger] lengths[i] <= MAX_PATH_UNITS
    &&& file_list_units(lengths) * 2 <= MAX_FILE_LIST_BYTES
}

proof fn lemma_file_list_units_grows(lengths: Seq<usize>, i: int)
    requires
        0 <= i <= lengths.len(),
    ensures
        file_list_units(lengths.take(i)) <= file_list_units(lengths),
    decreases lengths.len() - i,
{
    if i < lengths.len() {
        lemma_file_list_units_grows(lengths, i + 1);
        assert(lengths.take(i + 1).drop_last() =~= lengths.take(i));
    } else {
        assert(lengths.take(i) =~= lengths);
    }
}

/// Whether a file list with paths of these lengths (in UTF-16 units) is read.
pub fn file_list_accepted(lengths: &[usize]) -> (r: bool)
    ensures
        r == file_list_accepted_spec(lengths@),
{
    if lengths.len() == 0 || lengths.len() > MAX_FILE_COUNT {
        return false;
    }
    let mut total: usize = 0;
    let mut i: usize = 0;
    while i < lengths.len()
        invariant
            i <= lengths@.len() <= MAX_FILE_COUNT,
            total == file_list_units(lengths@.take(i as int)),
            total * 2 <= MAX_FILE_LIST_BYTES,
            forall|k: int| 0 <= k < i ==> 0 < #[trigger] lengths@[k] <= MAX_PATH_UNITS,
        decreases lengths@.len() - i,
    {
        let length = lengths[i];
        assert(lengths@.take(i as int + 1).drop_last() =~= lengths@.take(i as int));
        if length == 0 || length > MAX_PATH_UNITS {
            return false;
        }
        let next = total + length + 1;
        if next > MAX_FILE_LIST_BYTES / 2 {
            proof {
                lemma_file_list_units_grows(lengths@, i as int + 1);
            }
            return false;
        }
        total = next;
        i += 1;
    }
    assert(lengths@.take(i as int) =~= lengths@);
    true
}

/// Text decoded from UTF-16 units: a unit outside the surrogate range is
/// its own character, a leading surrogate followed by a trailing one forms
/// the supplementary character they encode, and any other surrogate (a
/// leading one not followed by a trailing one, a lone trailing one) becomes
/// U+FFFD, decoding going on with the next unit.
pub open spec fn utf16_lossy(units: Seq<u16>) -> Seq<char>
    decreases units.len(),
{
    if units.len() == 0 {
        Seq::empty()
    } else if is_high_surrogate(units[0]) && units.len() >= 2 && is_low_surrogate(units[1]) {
        seq![(0x10000 + (units[0] - 0xD800) * 0x400 + (units[1] - 0xDC00)) as char] + utf16_lossy(
            units.skip(2),
        )
    } else if is_high_surrogate(units[0]) || is_low_surrogate(units[0]) {
        seq!['\u{FFFD}'] + utf16_lossy(units.skip(1))
    } else {
        seq![units[0] as char] + utf16_lossy(units.skip(1))
    }
}

/// A leading (high) surrogate unit.
pub open spec fn is_high_surrogate(u: u16) -> bool {
    0xD800 <= u <= 0xDBFF
}

/// A trailing (low) surrogate unit.
pub open spec fn is_low_surrogate(u: u16) -> bool {
    0xDC00 <= u <= 0xDFFF
}

/// Calls `String::from_utf16_lossy`, which decodes as `utf16_lossy` states
/// (its documentation: invalid data is replaced with U+FFFD).
#[verifier::external_body]
pub(crate) fn from_utf16_lossy(units: &[u16]) -> (r: String)
    ensures
        r@ == utf16_lossy(units@),
{
    String::from_utf16_lossy(units)
}

/// Position of the first NUL unit, if any.
pub open spec fn first_nul(units: Seq<u16>) -> Option<int> {
    if exists|i: int| 0 <= i < units.len() && units[i] == 0 {
        Some(choose|i: int| 0 <= i < units.len() && units[i] == 0 && forall|j: int| 0 <= j < i ==> units[j] != 0)
    } else {
        None
    }
}

/// `CF_UNICODETEXT` as read: a block of `size_bytes` bytes (`units` its
/// whole UTF-16 units) is taken when it holds 1 to `MAX_TEXT_UNITS` units,
/// and the text is what precedes the first NUL; no NUL, no text.
pub open spec fn clipboard_text_spec(size_bytes: usize, units: Seq<u16>) -> Option<Seq<char>> {
    if size_bytes < 2 || size_bytes > MAX_TEXT_UNITS * 2 {
        None
    } else {
        match first_nul(units) {
            Some(n) => Some(utf16_lossy(units.take(n))),
            None => None,
        }
    }
}

pub fn clipboard_text(size_bytes: usize, units: &[u16]) -> (r: Option<String>)
    requires
        units@.len() == size_bytes / 2,
    ensures
        match r {
            Some(t) => clipboard_text_spec(size_bytes, units@) == Some(t@),
            None => clipboard_text_spec(size_bytes, units@) is None,
        },
{
    if size_bytes < 2 || size_bytes > MAX_TEXT_UNITS * 2 {
        return None;
    }
    let mut i: usize = 0;
    while i < units.len()
        invariant
            i <= units@.len(),
            2 <= size_bytes <= MAX_TEXT_UNITS * 2,
            forall|j: int| 0 <= j < i ==> units@[j] != 0,
        decreases units@.len() - i,
    {
        if units[i] == 0 {
            proof {
                let n = first_nul(units@);
                assert(units@[i as int] == 0);
                let c = choose|k: int| 0 <= k < units@.len() && units@[k] == 0 && forall|j: int| 0 <= j < k ==> units@[j] != 0;
                assert(0 <= c < units@.len() && units@[c] == 0 && forall|j: int| 0 <= j < c ==> units@[j] != 0);
                if c < i {
                } else if c > i {
                    assert(units@[i as int] != 0);
                }
                assert(c == i);
                assert(first_nul(units@) == Some(i as int));
            }
            let mut head: Vec<u16> = Vec::new();
            let mut k: usize = 0;
            while k < i
                invariant
                    k <= i < units@.len(),
                    head@ == units@.take(k as int),
                decreases i - k,
            {
                assert(units@.take(k as int + 1) =~= units@.take(k as int).push(units@[k as int]));
                head.push(units[k]);
                k += 1;
            }
            assert(head@ == units@.take(i as int));
            return Some(from_utf16_lossy(head.as_slice()));
        }
        i += 1;
    }
    None
}

// ----------------------------------------------------------------------------
// Images: DIB <-> PNG
// ----------------------------------------------------------------------------

pub const BI_BITFIELDS: u32 = 3;

pub const BI_JPEG: u32 = 4;

pub const BI_PNG: u32 = 5;

pub const BI_ALPHABITFIELDS: u32 = 6;

pub const LCS_SRGB: u32 = 0x7352_4742;

pub const MAX_DIB_BYTES: usize = 64 * 1024 * 1024;

pub const MAX_PNG_BYTES: usize = 32 * 1024 * 1024;

pub const MAX_IMAGE_PIXELS: u64 = 16 * 1024 * 1024;

/// Width, height and PNG encoding of a decoded image, as the `image` crate
/// produces them from encoded bytes (`bmp`: read as a BMP file; otherwise the
/// format is guessed from the bytes).
pub uninterp spec fn decoded_png(encoded: Seq<u8>, bmp: bool) -> Option<(u32, u32, Seq<u8>)>;

/// Calls `image::load_from_memory_with_format(.., Bmp)` or
/// `image::load_from_memory`, then reads the size of `DynamicImage::to_rgba8`
/// and encodes the image with `DynamicImage::write_to(.., Png)`; `None` when
/// decoding or encoding fails. The contract names the result, which depends
/// on the bytes alone.
#[verifier::external_body]
fn decode_to_png(encoded: &[u8], bmp: bool) -> (r: Option<(u32, u32, Vec<u8>)>)
    ensures
        match r {
            Some((w, h, png)) => decoded_png(encoded@, bmp) == Some((w, h, png@)),
            None => decoded_png(encoded@, bmp) is None,
        },
{
    let decoded = if bmp {
        image::load_from_memory_with_format(encoded, image::ImageFormat::Bmp)
    } else {
        image::load_from_memory(encoded)
    }.ok()?;
    let rgba = decoded.to_rgba8();
    let mut png = Vec::new();
    decoded.write_to(&mut std::io::Cursor::new(&mut png), image::ImageFormat::Png).ok()?;
    Some((rgba.width(), rgba.height(), png))
}

/// Width, height and RGBA pixels of a PNG, as the `image` crate decodes it.
pub uninterp spec fn png_pixels(png: Seq<u8>) -> Option<(u32, u32, Seq<u8>)>;

/// Calls `image::load_from_memory_with_format(.., Png)` and returns the
/// image's size and `DynamicImage::to_rgba8().into_raw()`; `None` when the PNG
/// does not decode. The contract names the result.
#[verifier::external_body]
fn decode_png_rgba(png: &[u8]) -> (r: Option<(u32, u32, Vec<u8>)>)
    ensures
        match r {
            Some((w, h, px)) => png_pixels(png@) == Some((w, h, px@)),
            None => png_pixels(png@) is None,
        },
{
    let decoded = image::load_from_memory_with_format(png, image::ImageFormat::Png).ok()?;
    Some((decoded.width(), decoded.height(), decoded.to_rgba8().into_raw()))
}

pub open spec fn u16_at(b: Seq<u8>, off: int) -> int {
    b[off] + 256 * b[off + 1]
}

pub open spec fn u32_at(b: Seq<u8>, off: int) -> int {
    b[off] + 256 * b[off + 1] + 65536 * b[off + 2] + 16777216 * b[off + 3]
}

fn read_u16(b: &[u8], off: usize) -> (r: u16)
    requires
        off + 2 <= b@.len(),
    ensures
        r == u16_at(b@, off as int),
{
    b[off] as u16 + 256 * (b[off + 1] as u16)
}

fn read_u32(b: &[u8], off: usize) -> (r: u32)
    requires
        off + 4 <= b@.len(),
    ensures
        r == u32_at(b@, off as int),
{
    b[off] as u32 + 256 * (b[off + 1] as u32) + 65536 * (b[off + 2] as u32) + 16777216 * (
    b[off + 3] as u32)
}

/// Bytes between the header (and its color masks and palette) and the pixels of a
/// `BI_RGB`/`BI_BITFIELDS`-style DIB; `None` for layouts that are not supported.
pub open spec fn bitfield_bytes(header_size: int, compression: int) -> Option<int> {
    if header_size == 40 && compression == BI_BITFIELDS {
        Some(12)
    } else if header_size == 40 && compression == BI_ALPHABITFIELDS {
        Some(16)
    } else if compression == BI_BITFIELDS || compression == BI_ALPHABITFIELDS || compression == 0
        || compression == 1 || compression == 2 {
        Some(0)
    } else {
        None
    }
}

pub open spec fn two_pow(n: nat) -> nat
    decreases n,
{
    if n == 0 {
        1
    } else {
        2 * two_pow((n - 1) as nat)
    }
}

/// The BMP file a headerless DIB becomes: `BM`, file size, reserved, pixel offset, the DIB.
pub open spec fn bmp_file(dib: Seq<u8>, pixel_offset: int) -> Seq<u8> {
    seq![66u8, 77u8] + le32_of((14 + dib.len()) as u32) + seq![0u8, 0u8, 0u8, 0u8] + le32_of(
        (14 + pixel_offset) as u32,
    ) + dib
}

/// The encoded image (and whether it is a BMP file) a DIB with a valid header
/// carries, or `None` when its layout is refused.
pub open spec fn dib_source(b: Seq<u8>, width: int, height: int) -> Option<(Seq<u8>, bool)> {
    let header_size = u32_at(b, 0);
    let bit_count = u16_at(b, 14);
    let compression = u32_at(b, 16);
    let size_image = u32_at(b, 20);
    let colors_used = u32_at(b, 32);
    if compression == BI_PNG || compression == BI_JPEG {
        if header_size < 124 || size_image == 0 || header_size + size_image > b.len() {
            None
        } else {
            Some((b.subrange(header_size, header_size + size_image), false))
        }
    } else {
        match bitfield_bytes(header_size, compression) {
            None => None,
            Some(masks) => {
                let palette_entries: int = if bit_count <= 8 {
                    if colors_used == 0 {
                        two_pow(bit_count as nat) as int
                    } else {
                        colors_used
                    }
                } else {
                    0
                };
                let offset = header_size + masks + palette_entries * 4;
                let stride = (width * bit_count + 31) / 32 * 4;
                let expected = stride * height;
                if palette_entries * 4 > usize::MAX || offset > usize::MAX || offset > b.len()
                    || expected > usize::MAX || expected == 0 || b.len() - offset < expected || (
                size_image != 0 && size_image < expected) || 14 + offset > u32::MAX || 14 + b.len()
                    > u32::MAX {
                    None
                } else {
                    Some((bmp_file(b, offset), true))
                }
            },
        }
    }
}

/// `CF_DIB`/`CF_DIBV5` bytes as a bounded PNG with the DIB's own size.
/// Unsupported or malformed variants are refused without allocating from
/// untrusted dimensions; width and height are read as two's-complement
/// `i32` (a negative height marks top-down rows).
pub open spec fn dib_to_png_spec(format: u32, b: Seq<u8>) -> Option<(Seq<u8>, u32, u32)> {
    if !(format == CF_DIB || format == CF_DIBV5) || b.len() < 40 || b.len() > MAX_DIB_BYTES {
        None
    } else {
        let header_size = u32_at(b, 0);
        let w = u32_at(b, 4);
        let h = u32_at(b, 8);
        if header_size < 40 || header_size > 124 || header_size > b.len() {
            None
        } else if h == 0x8000_0000 || w >= 0x8000_0000 {
            None
        } else {
            let height: int = if h < 0x8000_0000 {
                h
            } else {
                0x1_0000_0000 - h
            };
            let width = w;
            if width == 0 || height == 0 || width * height > MAX_IMAGE_PIXELS {
                None
            } else if header_size >= 124 && (u32_at(b, 112) != 0 || u32_at(b, 116) != 0) {
                None
            } else {
                match dib_source(b, width, height) {
                    None => None,
                    Some((encoded, bmp)) => match decoded_png(encoded, bmp) {
                        None => None,
                        Some((dw, dh, png)) => if dw != width || dh != height || png.len() == 0
                            || png.len() > MAX_PNG_BYTES {
                            None
                        } else {
                            Some((png, width as u32, height as u32))
                        },
                    },
                }
            }
        }
    }
}

fn copy_range(b: &[u8], from: usize, to: usize) -> (r: Vec<u8>)
    requires
        from <= to <= b@.len(),
    ensures
        r@ == b@.subrange(from as int, to as int),
{
    let mut out: Vec<u8> = Vec::new();
    let mut i = from;
    while i < to
        invariant
            from <= i <= to <= b@.len(),
            out@ == b@.subrange(from as int, i as int),
        decreases to - i,
    {
        out.push(b[i]);
        assert(b@.subrange(from as int, i as int + 1) =~= b@.subrange(from as int, i as int).push(
            b@[i as int],
        ));
        i += 1;
    }
    out
}

/// Where the pixels of a `BI_RGB`/`BI_BITFIELDS` DIB start and how many bytes they take.
fn palette_entries(bit_count: u16, colors_used: usize) -> (r: usize)
    requires
        bit_count <= 8 ==> colors_used <= u32::MAX,
    ensures
        r == (if bit_count <= 8 {
            if colors_used == 0 {
                two_pow(bit_count as nat) as int
            } else {
                colors_used as int
            }
        } else {
            0
        }),
{
    if bit_count <= 8 {
        if colors_used == 0 {
            let mut p: usize = 1;
            let mut i: u16 = 0;
            while i < bit_count
                invariant
                    i <= bit_count <= 8,
                    p == two_pow(i as nat),
                    p <= 256,
                decreases bit_count - i,
            {
                assert(two_pow((i + 1) as nat) == 2 * two_pow(i as nat));
                p = p * 2;
                i += 1;
                assert(p <= 256) by {
                    assert(two_pow(8) == 256) by {
                        reveal_with_fuel(two_pow, 9);
                    }
                    lemma_two_pow_monotone(i as nat, 8);
                }
            }
            p
        } else {
            colors_used
        }
    } else {
        0
    }
}

proof fn lemma_two_pow_monotone(a: nat, b: nat)
    requires
        a <= b,
    ensures
        two_pow(a) <= two_pow(b),
    decreases b,
{
    if a < b {
        lemma_two_pow_monotone(a, (b - 1) as nat);
    }
}

/// The embedded PNG/JPEG stream of a V5 DIB.
fn embedded_source(bytes: &[u8], header_size: usize, size_image: usize) -> (r: Option<Vec<u8>>)
    requires
        header_size <= bytes@.len(),
    ensures
        match r {
            Some(e) => !(header_size < 124 || size_image == 0 || header_size + size_image
                > bytes@.len()) && e@ == bytes@.subrange(
                header_size as int,
                header_size + size_image,
            ),
            None => header_size < 124 || size_image == 0 || header_size + size_image > bytes@.len(),
        },
{
    if header_size < 124 || size_image == 0 || size_image > bytes.len() - header_size {
        return None;
    }
    Some(copy_range(bytes, header_size, header_size + size_image))
}

/// A BMP file around an uncompressed or bit-field DIB, once its layout is checked.
#[verifier::rlimit(30)]
fn bmp_source(bytes: &[u8], width: u32, height: u32) -> (r: Option<Vec<u8>>)
    requires
        40 <= u32_at(bytes@, 0) <= 124,
        u32_at(bytes@, 0) <= bytes@.len() <= MAX_DIB_BYTES,
        bytes@.len() >= 40,
        width < 0x8000_0000,
        height <= 0x8000_0000,
        !(u32_at(bytes@, 16) == BI_PNG || u32_at(bytes@, 16) == BI_JPEG),
    ensures
        match r {
            Some(e) => dib_source(bytes@, width as int, height as int) == Some((e@, true)),
            None => dib_source(bytes@, width as int, height as int) is None,
        },
{
    let header_size = read_u32(bytes, 0) as usize;
    let bit_count = read_u16(bytes, 14);
    let compression = read_u32(bytes, 16);
    let size_image = read_u32(bytes, 20) as usize;
    let colors_used = read_u32(bytes, 32) as usize;
    let masks: usize = if header_size == 40 && compression == BI_BITFIELDS {
        12
    } else if header_size == 40 && compression == BI_ALPHABITFIELDS {
        16
    } else if compression == BI_BITFIELDS || compression == BI_ALPHABITFIELDS || compression == 0
        || compression == 1 || compression == 2 {
        0
    } else {
        return None;
    };
    let entries = palette_entries(bit_count, colors_used);
    if entries > usize::MAX / 4 {
        return None;
    }
    let palette_bytes = entries * 4;
    if palette_bytes > usize::MAX - (header_size + masks) {
        return None;
    }
    let offset = header_size + masks + palette_bytes;
    if offset > bytes.len() {
        return None;
    }
    assert((width as u64) * (bit_count as u64) <= 0x8000_0000u64 * 0x1_0000u64) by (nonlinear_arith)
        requires
            width <= 0x8000_0000u32,
            bit_count <= 0xFFFFu16,
    ;
    let bits_per_row: u64 = (width as u64) * (bit_count as u64);
    let stride: u64 = (bits_per_row + 31) / 32 * 4;
    assert((stride as u128) * (height as u128) <= 0x1_0000_0000_0000u128 * 0x8000_0000u128) by (nonlinear_arith)
        requires
            stride <= 0x1_0000_0000_0000u64,
            height <= 0x8000_0000u32,
    ;
    let expected_wide: u128 = (stride as u128) * (height as u128);
    if expected_wide > usize::MAX as u128 {
        return None;
    }
    let expected = expected_wide as usize;
    if expected == 0 || bytes.len() - offset < expected || (size_image != 0 && size_image
        < expected) {
        return None;
    }
    if 14 + offset > 0xFFFF_FFFF || 14 + bytes.len() > 0xFFFF_FFFF {
        return None;
    }
    let mut file: Vec<u8> = Vec::new();
    file.push(66);
    file.push(77);
    push_le32(&mut file, (14 + bytes.len()) as u32);
    file.push(0);
    file.push(0);
    file.push(0);
    file.push(0);
    push_le32(&mut file, (14 + offset) as u32);
    let mut i: usize = 0;
    let ghost head = file@;
    while i < bytes.len()
        invariant
            i <= bytes@.len(),
            file@ == head + bytes@.take(i as int),
        decreases bytes@.len() - i,
    {
        file.push(bytes[i]);
        assert(bytes@.take(i as int + 1) =~= bytes@.take(i as int).push(bytes@[i as int]));
        i += 1;
    }
    assert(bytes@.take(bytes@.len() as int) =~= bytes@);
    assert(file@ =~= bmp_file(bytes@, offset as int));
    Some(file)
}

/// The encoded image a DIB carries, and whether it is a BMP file.
fn dib_source_exec(bytes: &[u8], width: u32, height: u32) -> (r: Option<(Vec<u8>, bool)>)
    requires
        40 <= u32_at(bytes@, 0) <= 124,
        u32_at(bytes@, 0) <= bytes@.len() <= MAX_DIB_BYTES,
        bytes@.len() >= 40,
        width < 0x8000_0000,
        height <= 0x8000_0000,
    ensures
        match r {
            Some((e, bmp)) => dib_source(bytes@, width as int, height as int) == Some((e@, bmp)),
            None => dib_source(bytes@, width as int, height as int) is None,
        },
{
    let header_size = read_u32(bytes, 0) as usize;
    let compression = read_u32(bytes, 16);
    let size_image = read_u32(bytes, 20) as usize;
    if compression == BI_PNG || compression == BI_JPEG {
        match embedded_source(bytes, header_size, size_image) {
            Some(e) => Some((e, false)),
            None => None,
        }
    } else {
        match bmp_source(bytes, width, height) {
            Some(e) => Some((e, true)),
            None => None,
        }
    }
}

/// Converts `CF_DIB`/`CF_DIBV5` bytes to a bounded PNG.
pub fn dib_to_png(format: u32, bytes: &[u8]) -> (r: Option<(Vec<u8>, u32, u32)>)
    ensures
        match r {
            Some((png, w, h)) => dib_to_png_spec(format, bytes@) == Some((png@, w, h)),
            None => dib_to_png_spec(format, bytes@) is None,
        },
{
    if !(format == CF_DIB || format == CF_DIBV5) || bytes.len() < 40 || bytes.len() > MAX_DIB_BYTES {
        return None;
    }
    let header_size = read_u32(bytes, 0) as usize;
    if header_size < 40 || header_size > 124 || header_size > bytes.len() {
        return None;
    }
    let w = read_u32(bytes, 4);
    let h = read_u32(bytes, 8);
    let bit_count = read_u16(bytes, 14);
    let compression = read_u32(bytes, 16);
    let size_image = read_u32(bytes, 20) as usize;
    let colors_used = read_u32(bytes, 32) as usize;
    if h == 0x8000_0000 || w >= 0x8000_0000 {
        return None;
    }
    let height: u32 = if h < 0x8000_0000 {
        h
    } else {
        (0x1_0000_0000u64 - h as u64) as u32
    };
    let width = w;
    assert((width as u64) * (height as u64) <= 0x8000_0000u64 * 0x8000_0000u64) by (nonlinear_arith)
        requires
            width <= 0x8000_0000u32,
            height <= 0x8000_0000u32,
    ;
    if width == 0 || height == 0 || (width as u64) * (height as u64) > MAX_IMAGE_PIXELS {
        return None;
    }
    if header_size >= 124 && (read_u32(bytes, 112) != 0 || read_u32(bytes, 116) != 0) {
        return None;
    }
    let (encoded, bmp) = match dib_source_exec(bytes, width, height) {
        Some(found) => found,
        None => return None,
    };
    match decode_to_png(encoded.as_slice(), bmp) {
        None => None,
        Some((dw, dh, png)) => {
            if dw != width || dh != height || png.len() == 0 || png.len() > MAX_PNG_BYTES {
                None
            } else {
                Some((png, width, height))
            }
        },
    }
}

/// `BITMAPV5HEADER` of a top-down 32-bit BGRA image in sRGB.
pub open spec fn dibv5_header(w: u32, h: u32, image_size: u32) -> Seq<u8> {
    le32_of(124) + le32_of(w) + le32_of((0x1_0000_0000 - h) as u32) + le16(1) + le16(32) + le32_of(
        BI_BITFIELDS,
    ) + le32_of(image_size) + Seq::new(16, |_i: int| 0u8) + le32_of(0x00ff_0000) + le32_of(
        0x0000_ff00,
    ) + le32_of(0x0000_00ff) + le32_of(0xff00_0000) + le32_of(LCS_SRGB) + Seq::new(
        64,
        |_i: int| 0u8,
    )
}

/// RGBA pixels as BGRA: red and blue exchanged in every 4-byte pixel.
pub open spec fn swap_rb(px: Seq<u8>) -> Seq<u8> {
    Seq::new(
        px.len(),
        |i: int|
            if i % 4 == 0 {
                px[i + 2]
            } else if i % 4 == 2 {
                px[i - 2]
            } else {
                px[i]
            },
    )
}

/// A PNG payload as a `CF_DIBV5` block, checked against the size it was recorded with.
pub open spec fn dibv5_spec(png: Seq<u8>, declared_width: u32, declared_height: u32) -> Result<
    Seq<u8>,
    Seq<char>,
> {
    if png.len() == 0 || png.len() > MAX_PNG_BYTES {
        Err("图片数据为空或超出支持大小"@)
    } else {
        match png_pixels(png) {
            None => Err("图片数据无效"@),
            Some((w, h, px)) => if w != declared_width || h != declared_height || w == 0 || h == 0
                || w * h > MAX_IMAGE_PIXELS {
                Err("图片尺寸无效或超出支持范围"@)
            } else if px.len() != w * h * 4 {
                Err("图片数据无效"@)
            } else {
                Ok(dibv5_header(w, h, (w * h * 4) as u32) + swap_rb(px))
            },
        }
    }
}

fn push_zeros(out: &mut Vec<u8>, n: usize)
    ensures
        final(out)@ == old(out)@ + Seq::new(n as nat, |_i: int| 0u8),
{
    let mut i: usize = 0;
    while i < n
        invariant
            i <= n,
            out@ == old(out)@ + Seq::new(i as nat, |_i: int| 0u8),
        decreases n - i,
    {
        out.push(0);
        assert(out@ =~= old(out)@ + Seq::new((i + 1) as nat, |_i: int| 0u8));
        i += 1;
    }
}

/// Re-encodes a PNG payload as a `CF_DIBV5` block.
pub fn encode_dibv5(png: &[u8], declared_width: u32, declared_height: u32) -> (r: Result<
    Vec<u8>,
    String,
>)
    ensures
        match (r, dibv5_spec(png@, declared_width, declared_height)) {
            (Ok(bytes), Ok(expected)) => bytes@ == expected,
            (Err(e), Err(expected)) => e@ == expected,
            _ => false,
        },
{
    if png.len() == 0 || png.len() > MAX_PNG_BYTES {
        return Err(error_text("图片数据为空或超出支持大小"));
    }
    let (width, height, px) = match decode_png_rgba(png) {
        Some(found) => found,
        None => return Err(error_text("图片数据无效")),
    };
    assert((width as u64) * (height as u64) <= 0x1_0000_0000u64 * 0x1_0000_0000u64) by (nonlinear_arith)
        requires
            width <= 0xFFFF_FFFFu32,
            height <= 0xFFFF_FFFFu32,
    ;
    if width != declared_width || height != declared_height || width == 0 || height == 0 || (
    width as u128) * (height as u128) > MAX_IMAGE_PIXELS as u128 {
        return Err(error_text("图片尺寸无效或超出支持范围"));
    }
    let pixels = (width as u64) * (height as u64);
    let pixel_bytes = (pixels * 4) as usize;
    if px.len() != pixel_bytes {
        return Err(error_text("图片数据无效"));
    }
    let mut dib: Vec<u8> = Vec::new();
    push_le32(&mut dib, 124);
    push_le32(&mut dib, width);
    push_le32(&mut dib, (0x1_0000_0000u64 - height as u64) as u32);
    push_le16(&mut dib, 1);
    push_le16(&mut dib, 32);
    push_le32(&mut dib, BI_BITFIELDS);
    push_le32(&mut dib, pixel_bytes as u32);
    push_zeros(&mut dib, 16);
    push_le32(&mut dib, 0x00ff_0000);
    push_le32(&mut dib, 0x0000_ff00);
    push_le32(&mut dib, 0x0000_00ff);
    push_le32(&mut dib, 0xff00_0000);
    push_le32(&mut dib, LCS_SRGB);
    push_zeros(&mut dib, 64);
    let ghost header = dib@;
    assert(header =~= dibv5_header(width, height, pixel_bytes as u32));
    let mut i: usize = 0;
    while i < px.len()
        invariant
            i <= px@.len(),
            px@.len() % 4 == 0,
            i % 4 == 0,
            dib@ == header + swap_rb(px@).take(i as int),
        decreases px@.len() - i,
    {
        dib.push(px[i + 2]);
        dib.push(px[i + 1]);
        dib.push(px[i]);
        dib.push(px[i + 3]);
        assert(swap_rb(px@).take(i as int + 4) =~= swap_rb(px@).take(i as int).push(px@[i + 2]).push(
            px@[i + 1],
        ).push(px@[i as int]).push(px@[i + 3]));
        i += 4;
    }
    assert(swap_rb(px@).take(px@.len() as int) =~= swap_rb(px@));
    Ok(dib)
}

// ----------------------------------------------------------------------------
// Replaying a payload
// ----------------------------------------------------------------------------

/// The UTF-16 paths of a file list, or the error of the first path that
/// cannot be replayed. `present[i]` tells whether path `i` is absolute and
/// still exists on disk.
pub open spec fn replay_paths(ps: Seq<Seq<char>>, present: Seq<bool>) -> Result<
    Seq<Seq<u16>>,
    Seq<char>,
>
    decreases ps.len(),
{
    if ps.len() == 0 || present.len() != ps.len() {
        Ok(Seq::empty())
    } else {
        match replay_paths(ps.drop_last(), present.drop_last()) {
            Err(e) => Err(e),
            Ok(done) => {
                let v = ps.last();
                if !present.last() {
                    Err("文件或文件夹已不存在："@ + v)
                } else if v.contains('\0') {
                    Err("文件路径包含无效字符"@)
                } else if utf16(v).len() == 0 || utf16(v).len() > MAX_PATH_UNITS {
                    Err("文件路径长度超出支持范围"@)
                } else {
                    Ok(done.push(utf16(v)))
                }
            },
        }
    }
}

/// The `CF_HDROP` block of a file list about to be replayed as a copy.
pub open spec fn hdrop_of_paths(ps: Seq<Seq<char>>, present: Seq<bool>) -> Result<
    Seq<u8>,
    Seq<char>,
> {
    if ps.len() == 0 || ps.len() > MAX_FILE_COUNT {
        Err("文件列表为空或项目过多"@)
    } else {
        match replay_paths(ps, present) {
            Err(e) => Err(e),
            Ok(wide) => hdrop_spec(wide),
        }
    }
}

proof fn lemma_replay_error_sticks(ps: Seq<Seq<char>>, present: Seq<bool>, k: int, e: Seq<char>)
    requires
        0 <= k <= ps.len(),
        present.len() == ps.len(),
        replay_paths(ps.take(k), present.take(k)) == Err::<Seq<Seq<u16>>, Seq<char>>(e),
    ensures
        replay_paths(ps, present) == Err::<Seq<Seq<u16>>, Seq<char>>(e),
    decreases ps.len() - k,
{
    if k == ps.len() {
        assert(ps.take(k) =~= ps);
        assert(present.take(k) =~= present);
    } else {
        assert(ps.take(k + 1).drop_last() =~= ps.take(k));
        assert(present.take(k + 1).drop_last() =~= present.take(k));
        lemma_replay_error_sticks(ps, present, k + 1, e);
    }
}

fn has_nul_char(cs: &[char]) -> (r: bool)
    ensures
        r == cs@.contains('\0'),
{
    let mut i: usize = 0;
    while i < cs.len()
        invariant
            i <= cs@.len(),
            forall|j: int| 0 <= j < i ==> cs@[j] != '\0',
        decreases cs@.len() - i,
    {
        if cs[i] == '\0' {
            return true;
        }
        i += 1;
    }
    false
}

/// Encodes a file list for replay; `present` holds, per path, whether it is
/// absolute and still exists (stale paths fail before the clipboard is touched).
pub fn encode_hdrop(paths: &[String], present: &[bool]) -> (r: Result<Vec<u8>, String>)
    requires
        present@.len() == paths@.len(),
    ensures
        match (r, hdrop_of_paths(strings_view(paths@), present@)) {
            (Ok(bytes), Ok(expected)) => bytes@ == expected,
            (Err(e), Err(expected)) => e@ == expected,
            _ => false,
        },
{
    let ghost ps = strings_view(paths@);
    if paths.len() == 0 || paths.len() > MAX_FILE_COUNT {
        return Err(error_text("文件列表为空或项目过多"));
    }
    let mut encoded: Vec<Vec<u16>> = Vec::new();
    let mut i: usize = 0;
    assert(ps.take(0) =~= Seq::<Seq<char>>::empty());
    assert(wide_paths(encoded@) =~= Seq::<Seq<u16>>::empty());
    while i < paths.len()
        invariant
            ps == strings_view(paths@),
            present@.len() == paths@.len(),
            0 < paths@.len() <= MAX_FILE_COUNT,
            i <= paths@.len(),
            replay_paths(ps.take(i as int), present@.take(i as int)) == Ok::<
                Seq<Seq<u16>>,
                Seq<char>,
            >(wide_paths(encoded@)),
        decreases paths@.len() - i,
    {
        let value = paths[i].as_str();
        assert(value@ == ps[i as int]);
        assert(ps.take(i as int + 1).drop_last() =~= ps.take(i as int));
        assert(present@.take(i as int + 1).drop_last() =~= present@.take(i as int));
        assert(ps.take(i as int + 1).last() == ps[i as int]);
        assert(present@.take(i as int + 1).last() == present@[i as int]);
        if !present[i] {
            let mut e = String::new();
            push_str(&mut e, "文件或文件夹已不存在：");
            push_str(&mut e, value);
            proof {
                lemma_replay_error_sticks(ps, present@, i as int + 1, e@);
            }
            return Err(e);
        }
        let cs = chars_of(value);
        if has_nul_char(cs.as_slice()) {
            proof {
                lemma_replay_error_sticks(ps, present@, i as int + 1, "文件路径包含无效字符"@);
            }
            return Err(error_text("文件路径包含无效字符"));
        }
        let units = encode_utf16(value);
        if units.len() == 0 || units.len() > MAX_PATH_UNITS {
            proof {
                lemma_replay_error_sticks(ps, present@, i as int + 1, "文件路径长度超出支持范围"@);
            }
            return Err(error_text("文件路径长度超出支持范围"));
        }
        let ghost before = wide_paths(encoded@);
        encoded.push(units);
        assert(wide_paths(encoded@) =~= before.push(utf16(ps[i as int])));
        i += 1;
    }
    assert(ps.take(ps.len() as int) =~= ps);
    assert(present@.take(present@.len() as int) =~= present@);
    encode_hdrop_wide(encoded.as_slice())
}

/// The clipboard format and bytes a payload is replayed with, once the
/// block fits the clipboard's size limit.
pub open spec fn replay_data_spec(p: crate::model::PayloadModel, present: Seq<bool>) -> Result<
    (u32, Seq<u8>),
    Seq<char>,
> {
    let block: Result<(u32, Seq<u8>), Seq<char>> = match p {
        crate::model::PayloadModel::Text(t) => Ok((CF_UNICODETEXT, units_le(utf16(t).push(0)))),
        crate::model::PayloadModel::Files(ps) => match hdrop_of_paths(ps, present) {
            Ok(b) => Ok((CF_HDROP, b)),
            Err(e) => Err(e),
        },
        crate::model::PayloadModel::Image { png, width, height } => match dibv5_spec(png, width, height) {
            Ok(b) => Ok((CF_DIBV5, b)),
            Err(e) => Err(e),
        },
    };
    match block {
        Ok((f, b)) => if b.len() == 0 || b.len() > MAX_DIB_BYTES {
            Err("剪贴板数据超出支持大小"@)
        } else {
            Ok((f, b))
        },
        Err(e) => Err(e),
    }
}

/// What re-copying a payload puts on the clipboard: text as UTF-16, files as a
/// copy-only `CF_HDROP` list, images as `CF_DIBV5`.
pub fn replay_data(payload: &ClipboardPayload, present: &[bool]) -> (r: Result<(u32, Vec<u8>), String>)
    requires
        payload matches ClipboardPayload::Files(ps) ==> present@.len() == ps@.len(),
    ensures
        match (r, replay_data_spec(payload@, present@)) {
            (Ok((f, bytes)), Ok((ef, expected))) => f == ef && bytes@ == expected,
            (Err(e), Err(expected)) => e@ == expected,
            _ => false,
        },
{
    let (format, bytes) = match payload {
        ClipboardPayload::Text(text) => (CF_UNICODETEXT, unicode_text_bytes(text.as_str())),
        ClipboardPayload::Files(paths) => match encode_hdrop(paths.as_slice(), present) {
            Ok(b) => (CF_HDROP, b),
            Err(e) => return Err(e),
        },
        ClipboardPayload::Image { png, width, height } => match encode_dibv5(png.as_slice(), *width, *height) {
            Ok(b) => (CF_DIBV5, b),
            Err(e) => return Err(e),
        },
    };
    if bytes.len() == 0 || bytes.len() > MAX_DIB_BYTES {
        return Err(error_text("剪贴板数据超出支持大小"));
    }
    Ok((format, bytes))
}


/// One bad entry anywhere in a file list makes the whole list fail.
proof fn lemma_bad_path_fails(ps: Seq<Seq<char>>, present: Seq<bool>, i: int)
    requires
        present.len() == ps.len(),
        0 <= i < ps.len(),
        !present[i] || ps[i].contains('\0'),
    ensures
        replay_paths(ps, present) is Err,
    decreases ps.len(),
{
    let d = ps.drop_last();
    let dp = present.drop_last();
    if i < ps.len() - 1 {
        assert(d[i] == ps[i] && dp[i] == present[i]);
        lemma_bad_path_fails(d, dp, i);
    } else {
        assert(ps.last() == ps[i] && present.last() == present[i]);
    }
}

/// A stale file list (empty, longer than the clipboard takes, or with an
/// entry that no longer exists as an absolute path or holds a NUL) is
/// refused before anything is written: replaying it yields an error.
pub proof fn law_stale_file_list_is_refused(ps: Seq<Seq<char>>, present: Seq<bool>)
    requires
        present.len() == ps.len(),
        ps.len() == 0 || ps.len() > MAX_FILE_COUNT || exists|i: int|
            0 <= i < ps.len() && (!#[trigger] present[i] || ps[i].contains('\0')),
    ensures
        hdrop_of_paths(ps, present) is Err,
        replay_data_spec(crate::model::PayloadModel::Files(ps), present) is Err,
{
    if !(ps.len() == 0 || ps.len() > MAX_FILE_COUNT) {
        assert(exists|i: int| 0 <= i < ps.len() && (!#[trigger] present[i] || ps[i].contains('\0')));
        let i = choose|i: int| 0 <= i < ps.len() && (!#[trigger] present[i] || ps[i].contains('\0'));
        lemma_bad_path_fails(ps, present, i);
    }
}

/// Puts a payload on the clipboard: it is encoded first (`replay_data`), and
/// `put` (which empties the clipboard and writes the format and bytes) runs
/// only once encoding succeeded, so a stale file list or an unusable image
/// leaves the clipboard as it was. `put` may be called with the encoded data
/// alone (its precondition asks for nothing else). Returns `put`'s clipboard
/// sequence.
pub fn write_payload<F: FnOnce(u32, Vec<u8>) -> Result<u32, String>>(
    payload: &ClipboardPayload,
    present: &[bool],
    put: F,
) -> (r: Result<u32, String>)
    requires
        payload matches ClipboardPayload::Files(ps) ==> present@.len() == ps@.len(),
        forall|f: u32, b: Vec<u8>|
            #![trigger put.requires((f, b))]
            replay_data_spec(payload@, present@) == Ok::<(u32, Seq<u8>), Seq<char>>((f, b@)) ==> put.requires(
                (f, b),
            ),
    ensures
        match replay_data_spec(payload@, present@) {
            Err(e) => r matches Err(x) && x@ == e,
            Ok((f, b)) => exists|v: Vec<u8>| v@ == b && #[trigger] put.ensures((f, v), r),
        },
{
    match replay_data(payload, present) {
        Ok((format, bytes)) => {
            let ghost v = bytes;
            let r = put(format, bytes);
            assert(put.ensures((format, v), r));
            r
        },
        Err(e) => Err(e),
    }
}

} // verus!
