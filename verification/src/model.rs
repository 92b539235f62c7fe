//! Stored flow records. Raw events stay separate; UI aggregation is a view.

use vstd::prelude::*;
use vstd::utf8::{encode_scalar, encode_utf8, encode_utf8_decode_utf8, is_ascii_chars, is_ascii_chars_encode_utf8};

use crate::events::{PasteConfidence, PasteMethod, SourceConfidence};
use crate::text::{decimal, digit_char, hex_chars, hex_fixed, push_chars, push_decimal, push_str};

verus! {

/// The clipboard payload retained for replay. A path-like text string stays
/// `Text`; `Files` is reserved for a real file-list clipboard format.
#[derive(Debug, Clone, PartialEq, Eq)]
pub enum ClipboardPayload {
    Text(String),
    Files(Vec<String>),
    Image { png: Vec<u8>, width: u32, height: u32 },
}

/// Mathematical model of a payload.
pub enum PayloadModel {
    Text(Seq<char>),
    Files(Seq<Seq<char>>),
    Image { png: Seq<u8>, width: u32, height: u32 },
}

pub open spec fn strings_view(v: Seq<String>) -> Seq<Seq<char>> {
    v.map_values(|s: String| s@)
}

impl View for ClipboardPayload {
    type V = PayloadModel;

    open spec fn view(&self) -> PayloadModel {
        match self {
            ClipboardPayload::Text(t) => PayloadModel::Text(t@),
            ClipboardPayload::Files(ps) => PayloadModel::Files(strings_view(ps@)),
            ClipboardPayload::Image { png, width, height } => PayloadModel::Image {
                png: png@,
                width: *width,
                height: *height,
            },
        }
    }
}

pub open spec fn payload_kind_key(p: PayloadModel) -> Seq<char> {
    match p {
        PayloadModel::Text(_) => "text"@,
        PayloadModel::Files(_) => "files"@,
        PayloadModel::Image { .. } => "image"@,
    }
}

/// Paths joined by line breaks.
pub open spec fn join_lines(ps: Seq<Seq<char>>) -> Seq<char>
    decreases ps.len(),
{
    if ps.len() == 0 {
        Seq::empty()
    } else if ps.len() == 1 {
        ps[0]
    } else {
        join_lines(ps.drop_last()) + "\n"@ + ps.last()
    }
}

/// Text projection used for search and labels (never for replay).
pub open spec fn display_text_spec(p: PayloadModel) -> Seq<char> {
    match p {
        PayloadModel::Text(t) => t,
        PayloadModel::Files(ps) => join_lines(ps),
        PayloadModel::Image { width, height, .. } => "图片 "@ + decimal(width as nat) + " × "@
            + decimal(height as nat),
    }
}

/// Copies a vector of strings.
pub fn copy_strings(v: &Vec<String>) -> (r: Vec<String>)
    ensures
        strings_view(r@) == strings_view(v@),
        r@.len() == v@.len(),
{
    let mut out: Vec<String> = Vec::new();
    let mut i: usize = 0;
    while i < v.len()
        invariant
            i <= v@.len(),
            out@.len() == i,
            forall|k: int| 0 <= k < i ==> #[trigger] out@[k]@ == v@[k]@,
        decreases v@.len() - i,
    {
        out.push(v[i].clone());
        i += 1;
    }
    assert(strings_view(out@) =~= strings_view(v@));
    out
}

impl ClipboardPayload {
    pub fn kind(&self) -> (r: &'static str)
        ensures
            r@ == payload_kind_key(self@),
    {
        match self {
            ClipboardPayload::Text(_) => "text",
            ClipboardPayload::Files(_) => "files",
            ClipboardPayload::Image { .. } => "image",
        }
    }

    /// Text projection for search and history labels, never used for replay.
    pub fn display_text(&self) -> (r: String)
        ensures
            r@ == display_text_spec(self@),
    {
        match self {
            ClipboardPayload::Text(text) => text.clone(),
            ClipboardPayload::Files(paths) => {
                let ghost ps = strings_view(paths@);
                let mut out = String::new();
                let mut i: usize = 0;
                while i < paths.len()
                    invariant
                        ps == strings_view(paths@),
                        i <= paths@.len(),
                        out@ == join_lines(ps.take(i as int)),
                    decreases paths@.len() - i,
                {
                    assert(ps.take(i as int + 1).drop_last() =~= ps.take(i as int));
                    if i > 0 {
                        push_str(&mut out, "\n");
                    }
                    push_str(&mut out, paths[i].as_str());
                    proof {
                        if i == 0 {
                            assert(Seq::<char>::empty() + ps[0] =~= ps[0]);
                        }
                    }
                    i += 1;
                }
                assert(ps.take(paths@.len() as int) =~= ps);
                out
            },
            ClipboardPayload::Image { width, height, .. } => {
                let mut out = String::new();
                push_str(&mut out, "图片 ");
                push_decimal(&mut out, *width as u64);
                push_str(&mut out, " × ");
                push_decimal(&mut out, *height as u64);
                assert(Seq::<char>::empty() + "图片 "@ =~= "图片 "@);
                out
            },
        }
    }

    /// An independent copy of this payload.
    pub fn duplicate(&self) -> (r: ClipboardPayload)
        ensures
            r@ == self@,
    {
        match self {
            ClipboardPayload::Text(t) => ClipboardPayload::Text(t.clone()),
            ClipboardPayload::Files(ps) => ClipboardPayload::Files(copy_strings(ps)),
            ClipboardPayload::Image { png, width, height } => ClipboardPayload::Image {
                png: png.clone(),
                width: *width,
                height: *height,
            },
        }
    }
}

// ----------------------------------------------------------------------------
// Payload identity hash (FNV-1a 64, type-separated framing)
// ----------------------------------------------------------------------------

pub const FNV_OFFSET: u64 = 0xcbf2_9ce4_8422_2325;

pub const FNV_PRIME: u64 = 0x0000_0100_0000_01b3;

pub open spec fn fnv_step(h: u64, b: u8) -> u64 {
    (h ^ (b as u64)).wrapping_mul(FNV_PRIME)
}

/// FNV-1a over `bytes`, starting from state `h`.
pub open spec fn fnv(h: u64, bytes: Seq<u8>) -> u64
    decreases bytes.len(),
{
    if bytes.len() == 0 {
        h
    } else {
        fnv_step(fnv(h, bytes.drop_last()), bytes.last())
    }
}

pub proof fn lemma_fnv_concat(h: u64, a: Seq<u8>, b: Seq<u8>)
    ensures
        fnv(h, a + b) == fnv(fnv(h, a), b),
    decreases b.len(),
{
    if b.len() == 0 {
        assert(a + b =~= a);
    } else {
        lemma_fnv_concat(h, a, b.drop_last());
        assert((a + b).drop_last() =~= a + b.drop_last());
        assert((a + b).last() == b.last());
    }
}

/// Feeds `bytes` into the FNV-1a state `hash`.
pub fn fnv_feed(hash: u64, bytes: &[u8]) -> (r: u64)
    ensures
        r == fnv(hash, bytes@),
{
    let mut h = hash;
    let mut i: usize = 0;
    while i < bytes.len()
        invariant
            i <= bytes@.len(),
            h == fnv(hash, bytes@.take(i as int)),
        decreases bytes@.len() - i,
    {
        assert(bytes@.take(i as int + 1).drop_last() =~= bytes@.take(i as int));
        h = (h ^ (bytes[i] as u64)).wrapping_mul(FNV_PRIME);
        i += 1;
    }
    assert(bytes@.take(bytes@.len() as int) =~= bytes@);
    h
}

/// Little-endian bytes of a `u64` (`u64::to_le_bytes`).
#[verifier::opaque]
pub open spec fn le64(n: u64) -> Seq<u8> {
    seq![
        n as u8,
        (n >> 8u64) as u8,
        (n >> 16u64) as u8,
        (n >> 24u64) as u8,
        (n >> 32u64) as u8,
        (n >> 40u64) as u8,
        (n >> 48u64) as u8,
        (n >> 56u64) as u8,
    ]
}

/// Little-endian bytes of a `u32` (`u32::to_le_bytes`).
#[verifier::opaque]
pub open spec fn le32(n: u32) -> Seq<u8> {
    seq![n as u8, (n >> 8u32) as u8, (n >> 16u32) as u8, (n >> 24u32) as u8]
}

pub fn le64_bytes(n: u64) -> (r: Vec<u8>)
    ensures
        r@ == le64(n),
{
    let mut v = Vec::new();
    v.push(n as u8);
    v.push((n >> 8u64) as u8);
    v.push((n >> 16u64) as u8);
    v.push((n >> 24u64) as u8);
    v.push((n >> 32u64) as u8);
    v.push((n >> 40u64) as u8);
    v.push((n >> 48u64) as u8);
    v.push((n >> 56u64) as u8);
    assert(v@ =~= le64(n)) by {
        reveal(le64);
    }
    v
}

pub fn le32_bytes(n: u32) -> (r: Vec<u8>)
    ensures
        r@ == le32(n),
{
    let mut v = Vec::new();
    v.push(n as u8);
    v.push((n >> 8u32) as u8);
    v.push((n >> 16u32) as u8);
    v.push((n >> 24u32) as u8);
    assert(v@ =~= le32(n)) by {
        reveal(le32);
    }
    v
}

/// Each path framed by its UTF-8 byte length, so list boundaries are unambiguous.
pub open spec fn file_list_bytes(ps: Seq<Seq<char>>) -> Seq<u8>
    decreases ps.len(),
{
    if ps.len() == 0 {
        Seq::empty()
    } else {
        file_list_bytes(ps.drop_last()) + le64(encode_utf8(ps.last()).len() as u64) + encode_utf8(
            ps.last(),
        )
    }
}

/// The byte string whose FNV-1a hash identifies a payload: its kind, then its data.
pub open spec fn hash_input(p: PayloadModel) -> Seq<u8> {
    encode_utf8(payload_kind_key(p)) + match p {
        PayloadModel::Text(t) => encode_utf8(t),
        PayloadModel::Files(ps) => file_list_bytes(ps),
        PayloadModel::Image { png, width, height } => le32(width) + le32(height) + png,
    }
}

/// Sixteen lowercase hex digits of the FNV-1a hash of the payload's framed bytes.
pub open spec fn payload_hash_spec(p: PayloadModel) -> Seq<char> {
    hex_fixed(fnv(FNV_OFFSET, hash_input(p)) as nat, 16)
}

/// Sixteen lowercase hex digits of a 64-bit hash (`{:016x}`).
pub fn hash_hex(h: u64) -> (r: String)
    ensures
        r@ == hex_fixed(h as nat, 16),
{
    let cs = hex_chars(h, 16);
    let mut s = String::new();
    push_chars(&mut s, cs.as_slice());
    assert(Seq::<char>::empty() + cs@ =~= cs@);
    s
}

proof fn lemma_file_list_step(ps: Seq<Seq<char>>, i: int)
    requires
        0 <= i < ps.len(),
    ensures
        file_list_bytes(ps.take(i + 1)) == file_list_bytes(ps.take(i)) + le64(
            encode_utf8(ps[i]).len() as u64,
        ) + encode_utf8(ps[i]),
{
    assert(ps.take(i + 1).drop_last() =~= ps.take(i));
    assert(ps.take(i + 1).last() == ps[i]);
}

/// Feeds a framed file list into the FNV-1a state `hash`.
fn fnv_feed_file_list(hash: u64, paths: &Vec<String>) -> (r: u64)
    ensures
        r == fnv(hash, file_list_bytes(strings_view(paths@))),
{
    let ghost ps = strings_view(paths@);
    let mut h = hash;
    let mut i: usize = 0;
    assert(file_list_bytes(ps.take(0)) =~= Seq::<u8>::empty());
    while i < paths.len()
        invariant
            ps == strings_view(paths@),
            i <= paths@.len(),
            h == fnv(hash, file_list_bytes(ps.take(i as int))),
        decreases paths@.len() - i,
    {
        let p = paths[i].as_str();
        let pb = p.as_bytes();
        let len_bytes = le64_bytes(pb.len() as u64);
        let ghost prev = file_list_bytes(ps.take(i as int));
        proof {
            lemma_fnv_concat(hash, prev, len_bytes@);
            lemma_fnv_concat(hash, prev + len_bytes@, pb@);
            lemma_file_list_step(ps, i as int);
            assert(p@ == ps[i as int]);
            assert(pb@ == encode_utf8(ps[i as int]));
            assert(len_bytes@ == le64(encode_utf8(ps[i as int]).len() as u64));
        }
        h = fnv_feed(h, len_bytes.as_slice());
        h = fnv_feed(h, pb);
        i += 1;
    }
    assert(ps.take(paths@.len() as int) =~= ps);
    h
}

/// Stable, type-separated payload identity used for aggregation and for
/// suppressing Veya's own clipboard writes.
pub fn payload_hash(payload: &ClipboardPayload) -> (r: String)
    ensures
        r@ == payload_hash_spec(payload@),
{
    let kind = payload.kind();
    let kind_bytes = kind.as_bytes();
    let mut hash = fnv_feed(FNV_OFFSET, kind_bytes);
    let ghost kb = kind_bytes@;
    match payload {
        ClipboardPayload::Text(text) => {
            let bytes = text.as_str().as_bytes();
            proof {
                lemma_fnv_concat(FNV_OFFSET, kb, bytes@);
            }
            hash = fnv_feed(hash, bytes);
        },
        ClipboardPayload::Files(paths) => {
            proof {
                lemma_fnv_concat(FNV_OFFSET, kb, file_list_bytes(strings_view(paths@)));
            }
            hash = fnv_feed_file_list(hash, paths);
        },
        ClipboardPayload::Image { png, width, height } => {
            let wb = le32_bytes(*width);
            let hb = le32_bytes(*height);
            proof {
                lemma_fnv_concat(FNV_OFFSET, kb, wb@);
                lemma_fnv_concat(FNV_OFFSET, kb + wb@, hb@);
                lemma_fnv_concat(FNV_OFFSET, kb + wb@ + hb@, png@);
                assert(kb + wb@ + hb@ + png@ =~= kb + (wb@ + hb@ + png@));
            }
            hash = fnv_feed(hash, wb.as_slice());
            hash = fnv_feed(hash, hb.as_slice());
            hash = fnv_feed(hash, png.as_slice());
        },
    }
    hash_hex(hash)
}

// ----------------------------------------------------------------------------
// Distinct payloads never share a hash input
// ----------------------------------------------------------------------------

proof fn lemma_encode_utf8_injective(a: Seq<char>, b: Seq<char>)
    requires
        encode_utf8(a) == encode_utf8(b),
    ensures
        a == b,
{
    encode_utf8_decode_utf8(a);
    encode_utf8_decode_utf8(b);
}

proof fn lemma_le64_injective(a: u64, b: u64)
    requires
        le64(a) == le64(b),
    ensures
        a == b,
{
    reveal(le64);
    assert(le64(a)[0] == le64(b)[0] && le64(a)[1] == le64(b)[1] && le64(a)[2] == le64(b)[2]
        && le64(a)[3] == le64(b)[3] && le64(a)[4] == le64(b)[4] && le64(a)[5] == le64(b)[5]
        && le64(a)[6] == le64(b)[6] && le64(a)[7] == le64(b)[7]);
    assert(a == b) by (bit_vector)
        requires
            a as u8 == b as u8,
            (a >> 8u64) as u8 == (b >> 8u64) as u8,
            (a >> 16u64) as u8 == (b >> 16u64) as u8,
            (a >> 24u64) as u8 == (b >> 24u64) as u8,
            (a >> 32u64) as u8 == (b >> 32u64) as u8,
            (a >> 40u64) as u8 == (b >> 40u64) as u8,
            (a >> 48u64) as u8 == (b >> 48u64) as u8,
            (a >> 56u64) as u8 == (b >> 56u64) as u8,
    ;
}

proof fn lemma_le32_injective(a: u32, b: u32)
    requires
        le32(a) == le32(b),
    ensures
        a == b,
{
    reveal(le32);
    assert(le32(a)[0] == le32(b)[0] && le32(a)[1] == le32(b)[1] && le32(a)[2] == le32(b)[2]
        && le32(a)[3] == le32(b)[3]);
    assert(a == b) by (bit_vector)
        requires
            a as u8 == b as u8,
            (a >> 8u32) as u8 == (b >> 8u32) as u8,
            (a >> 16u32) as u8 == (b >> 16u32) as u8,
            (a >> 24u32) as u8 == (b >> 24u32) as u8,
    ;
}

/// One framed path: its UTF-8 length, then its bytes.
pub open spec fn framed(p: Seq<char>) -> Seq<u8> {
    le64(encode_utf8(p).len() as u64) + encode_utf8(p)
}

proof fn lemma_file_list_front(ps: Seq<Seq<char>>)
    requires
        ps.len() > 0,
    ensures
        file_list_bytes(ps) == framed(ps[0]) + file_list_bytes(ps.drop_first()),
    decreases ps.len(),
{
    if ps.len() == 1 {
        assert(ps.drop_last() =~= Seq::<Seq<char>>::empty());
        assert(ps.drop_first() =~= Seq::<Seq<char>>::empty());
        assert(file_list_bytes(ps) =~= framed(ps[0]) + file_list_bytes(ps.drop_first()));
    } else {
        lemma_file_list_front(ps.drop_last());
        assert(ps.drop_last().drop_first() =~= ps.drop_first().drop_last());
        assert(ps.drop_first().last() == ps.last());
        assert(file_list_bytes(ps) =~= framed(ps[0]) + file_list_bytes(ps.drop_first()));
    }
}

proof fn lemma_framed_len(p: Seq<char>)
    ensures
        framed(p).len() >= 8,
{
    reveal(le64);
}

/// Every path's UTF-8 length fits the 64-bit length field (true of anything in memory).
pub open spec fn lengths_fit(ps: Seq<Seq<char>>) -> bool {
    forall|i: int| 0 <= i < ps.len() ==> encode_utf8(#[trigger] ps[i]).len() <= u64::MAX
}

/// The length framing makes a file list readable back from its bytes.
proof fn lemma_file_list_injective(a: Seq<Seq<char>>, b: Seq<Seq<char>>)
    requires
        file_list_bytes(a) == file_list_bytes(b),
        lengths_fit(a),
        lengths_fit(b),
    ensures
        a == b,
    decreases a.len(),
{
    if a.len() == 0 && b.len() == 0 {
        assert(a =~= b);
    } else if a.len() == 0 {
        lemma_file_list_front(b);
        lemma_framed_len(b[0]);
        assert(file_list_bytes(a).len() == 0);
        assert(false);
    } else if b.len() == 0 {
        lemma_file_list_front(a);
        lemma_framed_len(a[0]);
        assert(file_list_bytes(b).len() == 0);
        assert(false);
    } else {
        lemma_file_list_front(a);
        lemma_file_list_front(b);
        reveal(le64);
        let ea = encode_utf8(a[0]);
        let eb = encode_utf8(b[0]);
        let la = le64(ea.len() as u64);
        let lb = le64(eb.len() as u64);
        let all = file_list_bytes(a);
        assert(la =~= all.take(8));
        assert(lb =~= all.take(8));
        lemma_le64_injective(ea.len() as u64, eb.len() as u64);
        assert(ea.len() == eb.len());
        assert(ea =~= all.subrange(8, 8 + ea.len() as int));
        assert(eb =~= all.subrange(8, 8 + eb.len() as int));
        lemma_encode_utf8_injective(a[0], b[0]);
        assert(file_list_bytes(a.drop_first()) =~= all.skip(8 + ea.len() as int));
        assert(file_list_bytes(b.drop_first()) =~= all.skip(8 + eb.len() as int));
        assert(lengths_fit(a.drop_first())) by {
            assert forall|i: int| 0 <= i < a.drop_first().len() implies encode_utf8(
                #[trigger] a.drop_first()[i],
            ).len() <= u64::MAX by {
                assert(a.drop_first()[i] == a[i + 1]);
            }
        }
        assert(lengths_fit(b.drop_first())) by {
            assert forall|i: int| 0 <= i < b.drop_first().len() implies encode_utf8(
                #[trigger] b.drop_first()[i],
            ).len() <= u64::MAX by {
                assert(b.drop_first()[i] == b[i + 1]);
            }
        }
        lemma_file_list_injective(a.drop_first(), b.drop_first());
        assert(a[0] == b[0]);
        assert(a.drop_first() == b.drop_first());
        assert(a =~= seq![a[0]] + a.drop_first());
        assert(b =~= seq![b[0]] + b.drop_first());
        assert(a =~= b);
    }
}

/// The hash input of a payload determines the payload: different kinds
/// differ in their first byte, texts by their UTF-8 bytes, file lists by
/// their length-framed paths, images by size and PNG bytes. Two payloads
/// share a content hash only through an FNV-1a collision.
pub proof fn law_hash_input_identifies_payload(p: PayloadModel, q: PayloadModel)
    requires
        hash_input(p) == hash_input(q),
        p matches PayloadModel::Files(ps) ==> lengths_fit(ps),
        q matches PayloadModel::Files(ps) ==> lengths_fit(ps),
    ensures
        p == q,
{
    reveal_strlit("text");
    reveal_strlit("files");
    reveal_strlit("image");
    let kp = payload_kind_key(p);
    let kq = payload_kind_key(q);
    assert(is_ascii_chars(kp));
    assert(is_ascii_chars(kq));
    is_ascii_chars_encode_utf8(kp);
    is_ascii_chars_encode_utf8(kq);
    let hp = hash_input(p);
    assert(hp[0] == encode_utf8(kp)[0]);
    assert(hp[0] == encode_utf8(kq)[0]);
    assert(kp[0] as u8 == encode_utf8(kp)[0]);
    assert(kq[0] as u8 == encode_utf8(kq)[0]);
    let n: int = encode_utf8(kp).len() as int;
    assert(kp == kq);
    match (p, q) {
        (PayloadModel::Text(a), PayloadModel::Text(b)) => {
            assert(encode_utf8(a) =~= hp.skip(n));
            assert(encode_utf8(b) =~= hp.skip(n));
            lemma_encode_utf8_injective(a, b);
        },
        (PayloadModel::Files(a), PayloadModel::Files(b)) => {
            assert(file_list_bytes(a) =~= hp.skip(n));
            assert(file_list_bytes(b) =~= hp.skip(n));
            lemma_file_list_injective(a, b);
        },
        (
            PayloadModel::Image { png: pa, width: wa, height: ha },
            PayloadModel::Image { png: pb, width: wb, height: hb },
        ) => {
            reveal(le32);
            assert(le32(wa) =~= hp.subrange(n, n + 4));
            assert(le32(wb) =~= hp.subrange(n, n + 4));
            assert(le32(ha) =~= hp.subrange(n + 4, n + 8));
            assert(le32(hb) =~= hp.subrange(n + 4, n + 8));
            lemma_le32_injective(wa, wb);
            lemma_le32_injective(ha, hb);
            assert(pa =~= hp.skip(n + 8));
            assert(pb =~= hp.skip(n + 8));
        },
        _ => {},
    }
}

/// FNV-1a of a text's UTF-8 bytes, as sixteen lowercase hex digits.
pub open spec fn content_hash_spec(text: Seq<char>) -> Seq<char> {
    hex_fixed(fnv(FNV_OFFSET, encode_utf8(text)) as nat, 16)
}

/// Stable content hash of a text: FNV-1a 64-bit, hex-encoded, deterministic.
pub fn content_hash(text: &str) -> (r: String)
    ensures
        r@ == content_hash_spec(text@),
{
    let hash = fnv_feed(FNV_OFFSET, text.as_bytes());
    hash_hex(hash)
}

/// A lowercase hexadecimal digit.
pub open spec fn is_lower_hex_digit(c: char) -> bool {
    ('0' <= c && c <= '9') || ('a' <= c && c <= 'f')
}

proof fn lemma_hex_fixed_shape(n: nat, k: nat)
    ensures
        hex_fixed(n, k).len() == k,
        forall|i: int| 0 <= i < k ==> is_lower_hex_digit(#[trigger] hex_fixed(n, k)[i]),
    decreases k,
{
    if k > 0 {
        lemma_hex_fixed_shape(n / 16, (k - 1) as nat);
        let d = n % 16;
        assert(is_lower_hex_digit(digit_char(d)));
        assert forall|i: int| 0 <= i < k implies is_lower_hex_digit(#[trigger] hex_fixed(n, k)[i]) by {
            if i < k - 1 {
                assert(hex_fixed(n, k)[i] == hex_fixed(n / 16, (k - 1) as nat)[i]);
            }
        }
    }
}

proof fn lemma_encode_utf8_concat(a: Seq<char>, b: Seq<char>)
    ensures
        encode_utf8(a + b) == encode_utf8(a) + encode_utf8(b),
    decreases a.len(),
{
    if a.len() == 0 {
        assert(a + b =~= b);
        assert(encode_utf8(a) + encode_utf8(b) =~= encode_utf8(b));
    } else {
        lemma_encode_utf8_concat(a.drop_first(), b);
        assert((a + b).drop_first() =~= a.drop_first() + b);
        assert((a + b)[0] == a[0]);
        assert(encode_scalar(a[0] as u32) + (encode_utf8(a.drop_first()) + encode_utf8(b))
            =~= encode_scalar(a[0] as u32) + encode_utf8(a.drop_first()) + encode_utf8(b));
    }
}

/// Every payload hash, and every content hash, is sixteen lowercase hex digits.
pub proof fn law_hashes_are_sixteen_hex_digits(p: PayloadModel, text: Seq<char>)
    ensures
        payload_hash_spec(p).len() == 16,
        forall|i: int| 0 <= i < 16 ==> is_lower_hex_digit(#[trigger] payload_hash_spec(p)[i]),
        content_hash_spec(text).len() == 16,
        forall|i: int| 0 <= i < 16 ==> is_lower_hex_digit(#[trigger] content_hash_spec(text)[i]),
{
    lemma_hex_fixed_shape(fnv(FNV_OFFSET, hash_input(p)) as nat, 16);
    lemma_hex_fixed_shape(fnv(FNV_OFFSET, encode_utf8(text)) as nat, 16);
}

/// The payload hash of a text is the content hash of `"text"` followed by
/// the text: the kind's bytes, then the text's bytes, through one FNV-1a run.
pub proof fn law_text_hash_is_content_hash_of_kind_and_text(t: Seq<char>)
    ensures
        payload_hash_spec(PayloadModel::Text(t)) == content_hash_spec("text"@ + t),
{
    lemma_encode_utf8_concat("text"@, t);
}

// ----------------------------------------------------------------------------
// Records
// ----------------------------------------------------------------------------

/// One observed paste trigger attached to a clipboard record.
#[derive(Debug, Clone, PartialEq, Eq)]
pub struct PasteTriggerRecord {
    pub target_app: String,
    pub target_pid: u32,
    pub target_window: String,
    pub method: PasteMethod,
    pub confidence: PasteConfidence,
    /// Unix epoch milliseconds.
    pub triggered_at_ms: i64,
}

pub struct PasteModel {
    pub target_app: Seq<char>,
    pub target_pid: u32,
    pub target_window: Seq<char>,
    pub method: PasteMethod,
    pub confidence: PasteConfidence,
    pub triggered_at_ms: i64,
}

impl View for PasteTriggerRecord {
    type V = PasteModel;

    open spec fn view(&self) -> PasteModel {
        PasteModel {
            target_app: self.target_app@,
            target_pid: self.target_pid,
            target_window: self.target_window@,
            method: self.method,
            confidence: self.confidence,
            triggered_at_ms: self.triggered_at_ms,
        }
    }
}

impl PasteTriggerRecord {
    pub fn duplicate(&self) -> (r: PasteTriggerRecord)
        ensures
            r@ == self@,
    {
        PasteTriggerRecord {
            target_app: self.target_app.clone(),
            target_pid: self.target_pid,
            target_window: self.target_window.clone(),
            method: self.method,
            confidence: self.confidence,
            triggered_at_ms: self.triggered_at_ms,
        }
    }
}

pub open spec fn pastes_view(v: Seq<PasteTriggerRecord>) -> Seq<PasteModel> {
    v.map_values(|p: PasteTriggerRecord| p@)
}

/// One clipboard write, keyed by clipboard sequence.
#[derive(Debug, Clone, PartialEq, Eq)]
pub struct ClipboardRecord {
    pub sequence: u32,
    pub content_type: String,
    pub content: String,
    /// Authoritative data for replay. `content` is only a searchable projection.
    pub payload: ClipboardPayload,
    pub content_hash: String,
    pub source_app: String,
    pub source_pid: u32,
    pub source_window: String,
    pub source_confidence: SourceConfidence,
    pub created_at_ms: i64,
    /// Retention state of this raw clipboard event, independent of its payload.
    pub pinned: bool,
    pub pastes: Vec<PasteTriggerRecord>,
}

pub struct RecordModel {
    pub sequence: u32,
    pub content_type: Seq<char>,
    pub content: Seq<char>,
    pub payload: PayloadModel,
    pub content_hash: Seq<char>,
    pub source_app: Seq<char>,
    pub source_pid: u32,
    pub source_window: Seq<char>,
    pub source_confidence: SourceConfidence,
    pub created_at_ms: i64,
    pub pinned: bool,
    pub pastes: Seq<PasteModel>,
}

impl View for ClipboardRecord {
    type V = RecordModel;

    open spec fn view(&self) -> RecordModel {
        RecordModel {
            sequence: self.sequence,
            content_type: self.content_type@,
            content: self.content@,
            payload: self.payload@,
            content_hash: self.content_hash@,
            source_app: self.source_app@,
            source_pid: self.source_pid,
            source_window: self.source_window@,
            source_confidence: self.source_confidence,
            created_at_ms: self.created_at_ms,
            pinned: self.pinned,
            pastes: pastes_view(self.pastes@),
        }
    }
}

pub open spec fn records_view(v: Seq<ClipboardRecord>) -> Seq<RecordModel> {
    v.map_values(|r: ClipboardRecord| r@)
}

/// Copies a list of paste triggers.
pub fn copy_pastes(v: &Vec<PasteTriggerRecord>) -> (r: Vec<PasteTriggerRecord>)
    ensures
        pastes_view(r@) == pastes_view(v@),
{
    let mut out: Vec<PasteTriggerRecord> = Vec::new();
    let mut i: usize = 0;
    while i < v.len()
        invariant
            i <= v@.len(),
            out@.len() == i,
            forall|k: int| 0 <= k < i ==> #[trigger] out@[k]@ == v@[k]@,
        decreases v@.len() - i,
    {
        out.push(v[i].duplicate());
        i += 1;
    }
    assert(pastes_view(out@) =~= pastes_view(v@));
    out
}

impl ClipboardRecord {
    pub fn has_paste_activity(&self) -> (r: bool)
        ensures
            r == (self@.pastes.len() > 0),
    {
        self.pastes.len() > 0
    }

    /// An independent copy of this record.
    pub fn duplicate(&self) -> (r: ClipboardRecord)
        ensures
            r@ == self@,
    {
        ClipboardRecord {
            sequence: self.sequence,
            content_type: self.content_type.clone(),
            content: self.content.clone(),
            payload: self.payload.duplicate(),
            content_hash: self.content_hash.clone(),
            source_app: self.source_app.clone(),
            source_pid: self.source_pid,
            source_window: self.source_window.clone(),
            source_confidence: self.source_confidence,
            created_at_ms: self.created_at_ms,
            pinned: self.pinned,
            pastes: copy_pastes(&self.pastes),
        }
    }
}

} // verus!
