//! Reading the answer of the "latest release" query.
//!
//! Fetching the release and the installer is the caller's part; this module
//! decides what an HTTP answer means, whether the release is newer than the
//! running version, and which installer asset may be trusted.

use vstd::prelude::*;
use sha2::Digest;
use vstd::utf8::{decode_utf8, valid_utf8};

use crate::hotkey::{all_digits, digits_value, is_ascii_digit};
use crate::text::{
    chars_of, ends_with_chars, ends_with_seq, push_str, slice_to_vec, split_chars, split_on,
    starts_with_chars, starts_with_seq, string_of, char_vecs,
};

verus! {

pub const REPOSITORY_URL: &'static str = "https://github.com/NGLSL/Veya";

pub const LATEST_RELEASE_URL: &'static str = "https://github.com/NGLSL/Veya/releases/latest";

/// The installer a release may offer, identified by its published digest.
#[derive(Debug, Clone, PartialEq, Eq)]
pub struct InstallerAsset {
    pub url: String,
    pub size: u64,
    pub sha256: String,
}

/// Outcome of a successful check.
#[derive(Debug, Clone, PartialEq, Eq)]
pub enum CheckResult {
    NoRelease,
    UpToDate,
    Available { tag: String, installer: Option<InstallerAsset> },
}

pub struct AssetModel {
    pub url: Seq<char>,
    pub size: u64,
    pub sha256: Seq<char>,
}

pub enum CheckModel {
    NoRelease,
    UpToDate,
    Available { tag: Seq<char>, installer: Option<AssetModel> },
}

impl View for InstallerAsset {
    type V = AssetModel;

    open spec fn view(&self) -> AssetModel {
        AssetModel { url: self.url@, size: self.size, sha256: self.sha256@ }
    }
}

pub open spec fn installer_view(a: Option<InstallerAsset>) -> Option<AssetModel> {
    match a {
        Some(x) => Some(x@),
        None => None,
    }
}

impl View for CheckResult {
    type V = CheckModel;

    open spec fn view(&self) -> CheckModel {
        match self {
            CheckResult::NoRelease => CheckModel::NoRelease,
            CheckResult::UpToDate => CheckModel::UpToDate,
            CheckResult::Available { tag, installer } => CheckModel::Available {
                tag: tag@,
                installer: installer_view(*installer),
            },
        }
    }
}

/// The fields of one release asset that the check reads (absent, or not of
/// the expected JSON type, as `None`).
#[derive(Debug, Clone)]
pub struct AssetJson {
    pub name: Option<String>,
    pub download_url: Option<String>,
    pub size: Option<u64>,
    pub digest: Option<String>,
}

/// The fields of a release document that the check reads.
#[derive(Debug, Clone)]
pub struct ReleaseJson {
    pub tag_name: Option<String>,
    pub assets: Option<Vec<AssetJson>>,
}

pub struct AssetJsonModel {
    pub name: Option<Seq<char>>,
    pub download_url: Option<Seq<char>>,
    pub size: Option<u64>,
    pub digest: Option<Seq<char>>,
}

pub struct ReleaseJsonModel {
    pub tag_name: Option<Seq<char>>,
    pub assets: Option<Seq<AssetJsonModel>>,
}

pub open spec fn opt_str(s: Option<String>) -> Option<Seq<char>> {
    match s {
        Some(x) => Some(x@),
        None => None,
    }
}

impl View for AssetJson {
    type V = AssetJsonModel;

    open spec fn view(&self) -> AssetJsonModel {
        AssetJsonModel {
            name: opt_str(self.name),
            download_url: opt_str(self.download_url),
            size: self.size,
            digest: opt_str(self.digest),
        }
    }
}

impl View for ReleaseJson {
    type V = ReleaseJsonModel;

    open spec fn view(&self) -> ReleaseJsonModel {
        ReleaseJsonModel {
            tag_name: opt_str(self.tag_name),
            assets: match self.assets {
                Some(v) => Some(v@.map_values(|a: AssetJson| a@)),
                None => None,
            },
        }
    }
}

// ----------------------------------------------------------------------------
// Outside calls
// ----------------------------------------------------------------------------

/// `serde_json::Error`, carried as is.
#[verifier::external_type_specification]
#[verifier::external_body]
pub struct ExJsonError(serde_json::Error);

/// The release fields a JSON document holds, as `serde_json` reads them.
pub uninterp spec fn release_fields(body: Seq<u8>) -> Option<ReleaseJsonModel>;

/// Calls `serde_json::from_slice::<serde_json::Value>` and picks the fields the
/// check reads (`tag_name`, and per asset `name`, `browser_download_url`,
/// `size`, `digest`) with `Value::as_str`, `as_array` and `as_u64`. The
/// contract names the outcome: it depends on the bytes alone.
#[verifier::external_body]
fn read_release_json(body: &[u8]) -> (r: Result<ReleaseJson, serde_json::Error>)
    ensures
        match r {
            Ok(v) => release_fields(body@) == Some(v@),
            Err(_) => release_fields(body@) is None,
        },
{
    let v: serde_json::Value = serde_json::from_slice(body)?;
    let text = |x: &serde_json::Value| x.as_str().map(String::from);
    let assets = v["assets"].as_array().map(|list| list.iter().map(|a| AssetJson {
        name: text(&a["name"]),
        download_url: text(&a["browser_download_url"]),
        size: a["size"].as_u64(),
        digest: text(&a["digest"]),
    }).collect());
    Ok(ReleaseJson { tag_name: text(&v["tag_name"]), assets })
}

/// Calls the `Display` impl of `serde_json::Error`; the message is not stated.
#[verifier::external_body]
fn json_error_text(error: &serde_json::Error) -> (r: String) {
    format!("{error}")
}

/// `String::from_utf8_lossy`, named: its result depends on the bytes alone.
pub uninterp spec fn utf8_lossy(bytes: Seq<u8>) -> Seq<char>;

/// Calls `String::from_utf8_lossy`: valid UTF-8 decodes exactly; invalid
/// sequences become U+FFFD as the function documents.
#[verifier::external_body]
fn lossy_text(bytes: &[u8]) -> (r: String)
    ensures
        r@ == utf8_lossy(bytes@),
        valid_utf8(bytes@) ==> r@ == decode_utf8(bytes@),
{
    String::from_utf8_lossy(bytes).into_owned()
}

// ----------------------------------------------------------------------------
// Versions
// ----------------------------------------------------------------------------

/// `u32::from_str`: an optional `+`, then decimal digits that fit in 32 bits.
pub open spec fn parse_u32_spec(s: Seq<char>) -> Option<u32> {
    let d = if s.len() > 0 && s[0] == '+' {
        s.drop_first()
    } else {
        s
    };
    if d.len() > 0 && all_digits(d) && digits_value(d) <= u32::MAX {
        Some(digits_value(d) as u32)
    } else {
        None
    }
}

/// `major.minor.patch`, with an optional leading `v`.
pub open spec fn version_parts_spec(v: Seq<char>) -> Option<(u32, u32, u32)> {
    let body = if v.len() > 0 && v[0] == 'v' {
        v.drop_first()
    } else {
        v
    };
    let ps = split_on(body, '.');
    if ps.len() == 3 && parse_u32_spec(ps[0]) is Some && parse_u32_spec(ps[1]) is Some
        && parse_u32_spec(ps[2]) is Some {
        Some((parse_u32_spec(ps[0])->0, parse_u32_spec(ps[1])->0, parse_u32_spec(ps[2])->0))
    } else {
        None
    }
}

/// Lexicographic order of versions.
pub open spec fn newer(a: (u32, u32, u32), b: (u32, u32, u32)) -> bool {
    a.0 > b.0 || (a.0 == b.0 && (a.1 > b.1 || (a.1 == b.1 && a.2 > b.2)))
}

proof fn lemma_digits_value_step(s: Seq<char>, i: int)
    requires
        0 <= i < s.len(),
    ensures
        digits_value(s.take(i + 1)) == digits_value(s.take(i)) * 10 + ((s[i] as u32) - 0x30) as nat,
{
    assert(s.take(i + 1).drop_last() =~= s.take(i));
    assert(s.take(i + 1).last() == s[i]);
}

/// `u32::from_str` on a character sequence.
pub fn parse_u32(s: &[char]) -> (r: Option<u32>)
    ensures
        r == parse_u32_spec(s@),
{
    let start: usize = if s.len() > 0 && s[0] == '+' {
        1
    } else {
        0
    };
    let ghost d = if s@.len() > 0 && s@[0] == '+' {
        s@.drop_first()
    } else {
        s@
    };
    assert(d =~= s@.skip(start as int));
    if start >= s.len() {
        assert(d.len() == 0);
        return None;
    }
    // The value so far, saturated just above `u32::MAX`.
    let cap: u64 = 0x1_0000_0000;
    let mut v: u64 = 0;
    let mut i: usize = start;
    while i < s.len()
        invariant
            start <= i <= s@.len(),
            d == s@.skip(start as int),
            d == (if s@.len() > 0 && s@[0] == '+' {
                s@.drop_first()
            } else {
                s@
            }),
            all_digits(d.take(i - start)),
            v <= cap,
            cap == 0x1_0000_0000u64,
            v as nat == if digits_value(d.take(i - start)) < cap {
                digits_value(d.take(i - start))
            } else {
                cap as nat
            },
        decreases s@.len() - i,
    {
        let c = s[i];
        if !('0' <= c && c <= '9') {
            assert(d[i - start] == c);
            assert(!all_digits(d));
            return None;
        }
        proof {
            lemma_digits_value_step(d, i - start);
            assert(d[i - start] == c);
            assert forall|j: int| 0 <= j < i - start + 1 implies is_ascii_digit(
                #[trigger] d.take(i - start + 1)[j],
            ) by {
                if j < i - start {
                    assert(d.take(i - start + 1)[j] == d.take(i - start)[j]);
                }
            }
        }
        let next = v * 10 + ((c as u32) - 0x30) as u64;
        v = if next > cap {
            cap
        } else {
            next
        };
        i += 1;
    }
    assert(d.take(d.len() as int) =~= d);
    if v >= cap {
        None
    } else {
        Some(v as u32)
    }
}

/// Version triple of a tag or version string.
pub fn version_parts(version: &str) -> (r: Option<(u32, u32, u32)>)
    ensures
        r == version_parts_spec(version@),
{
    let cs = chars_of(version);
    let body = if cs.len() > 0 && cs[0] == 'v' {
        slice_to_vec(cs.as_slice(), 1, cs.len())
    } else {
        slice_to_vec(cs.as_slice(), 0, cs.len())
    };
    assert(cs@.subrange(0, cs@.len() as int) =~= cs@);
    assert(cs@.len() > 0 ==> cs@.subrange(1, cs@.len() as int) =~= cs@.drop_first());
    let parts = split_chars(body.as_slice(), '.');
    let ghost ps = char_vecs(parts@);
    if parts.len() != 3 {
        return None;
    }
    assert(parts@[0]@ == ps[0] && parts@[1]@ == ps[1] && parts@[2]@ == ps[2]);
    let a = parse_u32(parts[0].as_slice());
    let b = parse_u32(parts[1].as_slice());
    let c = parse_u32(parts[2].as_slice());
    match (a, b, c) {
        (Some(x), Some(y), Some(z)) => Some((x, y, z)),
        _ => None,
    }
}

// ----------------------------------------------------------------------------
// Release decisions
// ----------------------------------------------------------------------------

pub open spec fn is_hex_digit(c: char) -> bool {
    ('0' <= c && c <= '9') || ('a' <= c && c <= 'f') || ('A' <= c && c <= 'F')
}

pub open spec fn lower_hex(c: char) -> char {
    if 'A' <= c && c <= 'F' {
        ((c as u32) + 32) as char
    } else {
        c
    }
}

/// The installer an asset describes, if it is Veya's own setup program served
/// from this repository's releases with a positive size and a SHA-256 digest.
pub open spec fn asset_installer(a: AssetJsonModel) -> Option<AssetModel> {
    match (a.name, a.download_url, a.size, a.digest) {
        (Some(name), Some(url), Some(size), Some(digest)) => {
            let hex = digest.skip(7);
            if name == "veya-setup.exe"@ && starts_with_seq(
                url,
                "https://github.com/NGLSL/Veya/releases/download/"@,
            ) && ends_with_seq(url, "/veya-setup.exe"@) && size != 0 && starts_with_seq(
                digest,
                "sha256:"@,
            ) && hex.len() == 64 && (forall|i: int| 0 <= i < hex.len() ==> is_hex_digit(#[trigger] hex[i])) {
                Some(AssetModel { url, size, sha256: hex.map_values(|c: char| lower_hex(c)) })
            } else {
                None
            }
        },
        _ => None,
    }
}

/// The first asset that qualifies as the installer.
pub open spec fn first_installer(assets: Seq<AssetJsonModel>) -> Option<AssetModel>
    decreases assets.len(),
{
    if assets.len() == 0 {
        None
    } else {
        match asset_installer(assets[0]) {
            Some(x) => Some(x),
            None => first_installer(assets.drop_first()),
        }
    }
}

pub open spec fn release_check_spec(release: ReleaseJsonModel, current: Seq<char>) -> Result<
    CheckModel,
    Seq<char>,
> {
    match release.tag_name {
        None => Err("发布版本缺少标签"@),
        Some(tag) => match version_parts_spec(tag) {
            None => Err("发布版本标签无效"@),
            Some(latest) => match version_parts_spec(current) {
                None => Err("当前版本号无效"@),
                Some(installed) => if newer(latest, installed) {
                    Ok(
                        CheckModel::Available {
                            tag,
                            installer: match release.assets {
                                Some(list) => first_installer(list),
                                None => None,
                            },
                        },
                    )
                } else {
                    Ok(CheckModel::UpToDate)
                },
            },
        },
    }
}

/// A readable release is offered exactly when its version is newer than the
/// running one, compared part by part: the first differing part of
/// (major, minor, patch) decides, so a release one patch ahead is offered and
/// an equal or older one is not.
pub proof fn law_release_offered_exactly_when_newer(release: ReleaseJsonModel, current: Seq<char>)
    requires
        release.tag_name is Some,
        version_parts_spec(release.tag_name->0) is Some,
        version_parts_spec(current) is Some,
    ensures
        ({
            let l = version_parts_spec(release.tag_name->0)->0;
            let c = version_parts_spec(current)->0;
            let offered = release_check_spec(release, current) is Ok && release_check_spec(
                release,
                current,
            )->Ok_0 is Available;
            &&& release_check_spec(release, current) is Ok
            &&& l.0 != c.0 ==> (offered <==> l.0 > c.0)
            &&& l.0 == c.0 && l.1 != c.1 ==> (offered <==> l.1 > c.1)
            &&& l.0 == c.0 && l.1 == c.1 ==> (offered <==> l.2 > c.2)
            &&& l == c ==> !offered
        }),
{
}

pub open spec fn result_view(r: Result<CheckResult, String>) -> Result<CheckModel, Seq<char>> {
    match r {
        Ok(c) => Ok(c@),
        Err(e) => Err(e@),
    }
}

fn copy_text(s: &String) -> (r: String)
    ensures
        r@ == s@,
{
    let cs = chars_of(s.as_str());
    string_of(cs.as_slice())
}

#[verifier::loop_isolation(false)]
fn installer_of(a: &AssetJson) -> (r: Option<InstallerAsset>)
    ensures
        installer_view(r) == asset_installer(a@),
{
    match (&a.name, &a.download_url, a.size, &a.digest) {
        (Some(name), Some(url), Some(size), Some(digest)) => {
            let n = chars_of(name.as_str());
            let u = chars_of(url.as_str());
            let d = chars_of(digest.as_str());
            let want_name = chars_of("veya-setup.exe");
            let prefix = chars_of("https://github.com/NGLSL/Veya/releases/download/");
            let suffix = chars_of("/veya-setup.exe");
            let tag = chars_of("sha256:");
            if !crate::events::chars_eq(n.as_slice(), want_name.as_slice()) || !starts_with_chars(
                u.as_slice(),
                prefix.as_slice(),
            ) || !ends_with_chars(u.as_slice(), suffix.as_slice()) || size == 0
                || !starts_with_chars(d.as_slice(), tag.as_slice()) {
                return None;
            }
            assert(tag@.len() == 7) by {
                reveal_strlit("sha256:");
            }
            let hex = slice_to_vec(d.as_slice(), 7, d.len());
            assert(hex@ =~= d@.skip(7));
            if hex.len() != 64 {
                return None;
            }
            let mut lowered: Vec<char> = Vec::new();
            let mut i: usize = 0;
            while i < hex.len()
                invariant
                    i <= hex@.len(),
                    forall|j: int| 0 <= j < i ==> is_hex_digit(#[trigger] hex@[j]),
                    lowered@ == hex@.take(i as int).map_values(|c: char| lower_hex(c)),
                decreases hex@.len() - i,
            {
                let c = hex[i];
                if !(('0' <= c && c <= '9') || ('a' <= c && c <= 'f') || ('A' <= c && c <= 'F')) {
                    assert(!is_hex_digit(hex@[i as int]));
                    return None;
                }
                let l = if 'A' <= c && c <= 'F' {
                    let b: u8 = (c as u32) as u8;
                    (b + 32) as char
                } else {
                    c
                };
                lowered.push(l);
                assert(hex@.take(i as int + 1).map_values(|c: char| lower_hex(c)) =~= hex@.take(
                    i as int,
                ).map_values(|c: char| lower_hex(c)).push(lower_hex(c)));
                i += 1;
            }
            assert(hex@.take(hex@.len() as int) =~= hex@);
            Some(InstallerAsset { url: copy_text(url), size, sha256: string_of(lowered.as_slice()) })
        },
        _ => None,
    }
}

fn find_verified_installer(assets: &Vec<AssetJson>) -> (r: Option<InstallerAsset>)
    ensures
        installer_view(r) == first_installer(assets@.map_values(|a: AssetJson| a@)),
{
    let ghost all = assets@.map_values(|a: AssetJson| a@);
    let mut i: usize = 0;
    assert(all.skip(0) =~= all);
    while i < assets.len()
        invariant
            all == assets@.map_values(|a: AssetJson| a@),
            i <= assets@.len(),
            first_installer(all) == first_installer(all.skip(i as int)),
        decreases assets@.len() - i,
    {
        let found = installer_of(&assets[i]);
        assert(all.skip(i as int)[0] == assets@[i as int]@);
        assert(all.skip(i as int).drop_first() =~= all.skip(i as int + 1));
        if found.is_some() {
            return found;
        }
        i += 1;
    }
    assert(all.skip(i as int) =~= Seq::<AssetJsonModel>::empty());
    None
}

/// What a release document means for the running version: an error when the
/// tag or a version cannot be read, otherwise whether a newer release (and a
/// trustworthy installer for it) exists.
pub fn release_check(release: &ReleaseJson, current: &str) -> (r: Result<CheckResult, String>)
    ensures
        result_view(r) == release_check_spec(release@, current@),
{
    let tag = match &release.tag_name {
        Some(t) => t,
        None => {
            let mut e = String::new();
            push_str(&mut e, "发布版本缺少标签");
            assert(e@ =~= "发布版本缺少标签"@);
            return Err(e);
        },
    };
    let latest = match version_parts(tag.as_str()) {
        Some(v) => v,
        None => {
            let mut e = String::new();
            push_str(&mut e, "发布版本标签无效");
            assert(e@ =~= "发布版本标签无效"@);
            return Err(e);
        },
    };
    let installed = match version_parts(current) {
        Some(v) => v,
        None => {
            let mut e = String::new();
            push_str(&mut e, "当前版本号无效");
            assert(e@ =~= "当前版本号无效"@);
            return Err(e);
        },
    };
    let is_newer = latest.0 > installed.0 || (latest.0 == installed.0 && (latest.1 > installed.1 || (
    latest.1 == installed.1 && latest.2 > installed.2)));
    if is_newer {
        let installer = match &release.assets {
            Some(list) => find_verified_installer(list),
            None => None,
        };
        Ok(CheckResult::Available { tag: copy_text(tag), installer })
    } else {
        Ok(CheckResult::UpToDate)
    }
}

/// Reads a release document: unreadable JSON is an error, the rest is `release_check`.
pub fn parse_release(body: &[u8], current: &str) -> (r: Result<CheckResult, String>)
    ensures
        match release_fields(body@) {
            Some(m) => result_view(r) == release_check_spec(m, current@),
            None => r matches Err(e) && starts_with_seq(e@, "版本信息无法解析："@),
        },
{
    match read_release_json(body) {
        Ok(release) => release_check(&release, current),
        Err(error) => {
            let mut e = String::new();
            push_str(&mut e, "版本信息无法解析：");
            let detail = json_error_text(&error);
            push_str(&mut e, detail.as_str());
            assert(e@.subrange(0, "版本信息无法解析："@.len() as int) =~= "版本信息无法解析："@);
            Err(e)
        },
    }
}

/// Index of the last line break, if any.
fn last_newline(bytes: &[u8]) -> (r: Option<usize>)
    ensures
        match r {
            Some(i) => i < bytes@.len() && bytes@[i as int] == 10 && forall|j: int|
                i < j < bytes@.len() ==> bytes@[j] != 10,
            None => forall|j: int| 0 <= j < bytes@.len() ==> bytes@[j] != 10,
        },
{
    let mut k: usize = bytes.len();
    while k > 0
        invariant
            k <= bytes@.len(),
            forall|j: int| k <= j < bytes@.len() ==> bytes@[j] != 10,
        decreases k,
    {
        if bytes[k - 1] == 10 {
            return Some(k - 1);
        }
        k -= 1;
    }
    None
}

/// How an HTTP answer (`body`, a line break, the status code) is read: `200`
/// carries a release, `404` means the repository has none, anything else is an error.
pub open spec fn http_outcome(response: Seq<u8>, current: Seq<char>) -> Option<
    Result<CheckModel, Seq<char>>,
> {
    if forall|j: int| 0 <= j < response.len() ==> response[j] != 10 {
        Some(Err("版本检查响应不完整"@))
    } else {
        let i = choose|i: int|
            0 <= i < response.len() && response[i] == 10 && forall|j: int|
                i < j < response.len() ==> response[j] != 10;
        let status = response.skip(i + 1);
        if status == seq![50u8, 48u8, 48u8] {
            match release_fields(response.take(i)) {
                Some(m) => Some(release_check_spec(m, current)),
                None => None,
            }
        } else if status == seq![52u8, 48u8, 52u8] {
            Some(Ok(CheckModel::NoRelease))
        } else {
            Some(Err("GitHub 返回 HTTP "@ + utf8_lossy(status)))
        }
    }
}

/// Reads the output of the release query: the body, then the status code on the last line.
pub fn parse_http_response(response: &[u8], current: &str) -> (r: Result<CheckResult, String>)
    ensures
        match http_outcome(response@, current@) {
            Some(expected) => result_view(r) == expected,
            None => r matches Err(e) && starts_with_seq(e@, "版本信息无法解析："@),
        },
{
    let separator = match last_newline(response) {
        Some(i) => i,
        None => {
            let mut e = String::new();
            push_str(&mut e, "版本检查响应不完整");
            assert(e@ =~= "版本检查响应不完整"@);
            return Err(e);
        },
    };
    let ghost i = separator as int;
    proof {
        let chosen = choose|c: int|
            0 <= c < response@.len() && response@[c] == 10 && forall|j: int|
                c < j < response@.len() ==> response@[j] != 10;
        assert(chosen == i) by {
            if chosen < i {
                assert(response@[i] != 10);
            } else if chosen > i {
                assert(response@[chosen] != 10);
            }
        }
    }
    let status_len = response.len() - separator - 1;
    let is_200 = status_len == 3 && response[separator + 1] == 50 && response[separator + 2] == 48
        && response[separator + 3] == 48;
    let is_404 = status_len == 3 && response[separator + 1] == 52 && response[separator + 2] == 48
        && response[separator + 3] == 52;
    let ghost status = response@.skip(i + 1);
    assert(status.len() == status_len);
    assert(is_200 <==> status == seq![50u8, 48u8, 48u8]) by {
        if status == seq![50u8, 48u8, 48u8] {
            assert(status.len() == 3);
            assert(status[0] == response@[i + 1]);
            assert(status[1] == response@[i + 2]);
            assert(status[2] == response@[i + 3]);
        }
        if is_200 {
            assert(status =~= seq![50u8, 48u8, 48u8]);
        }
    }
    assert(is_404 <==> status == seq![52u8, 48u8, 52u8]) by {
        if status == seq![52u8, 48u8, 52u8] {
            assert(status.len() == 3);
            assert(status[0] == response@[i + 1]);
            assert(status[1] == response@[i + 2]);
            assert(status[2] == response@[i + 3]);
        }
        if is_404 {
            assert(status =~= seq![52u8, 48u8, 52u8]);
        }
    }
    if is_200 {
        let body = crate::update::byte_prefix(response, separator);
        parse_release(body.as_slice(), current)
    } else if is_404 {
        Ok(CheckResult::NoRelease)
    } else {
        let tail = byte_suffix(response, separator + 1);
        let text = lossy_text(tail.as_slice());
        let mut e = String::new();
        push_str(&mut e, "GitHub 返回 HTTP ");
        push_str(&mut e, text.as_str());
        Err(e)
    }
}

fn byte_prefix(bytes: &[u8], n: usize) -> (r: Vec<u8>)
    requires
        n <= bytes@.len(),
    ensures
        r@ == bytes@.take(n as int),
{
    let mut out: Vec<u8> = Vec::new();
    let mut i: usize = 0;
    while i < n
        invariant
            i <= n <= bytes@.len(),
            out@ == bytes@.take(i as int),
        decreases n - i,
    {
        out.push(bytes[i]);
        assert(bytes@.take(i as int + 1) =~= bytes@.take(i as int).push(bytes@[i as int]));
        i += 1;
    }
    out
}

fn byte_suffix(bytes: &[u8], from: usize) -> (r: Vec<u8>)
    requires
        from <= bytes@.len(),
    ensures
        r@ == bytes@.skip(from as int),
{
    let mut out: Vec<u8> = Vec::new();
    let mut i: usize = from;
    while i < bytes.len()
        invariant
            from <= i <= bytes@.len(),
            out@ == bytes@.subrange(from as int, i as int),
        decreases bytes@.len() - i,
    {
        out.push(bytes[i]);
        assert(bytes@.subrange(from as int, i as int + 1) =~= bytes@.subrange(from as int, i as int).push(
            bytes@[i as int],
        ));
        i += 1;
    }
    assert(bytes@.subrange(from as int, bytes@.len() as int) =~= bytes@.skip(from as int));
    out
}

// ----------------------------------------------------------------------------
// The settings page's update check
// ----------------------------------------------------------------------------

/// `std::sync::mpsc::Receiver`, carried as is.
#[verifier::external_type_specification]
#[verifier::external_body]
#[verifier::reject_recursive_types(T)]
pub struct ExReceiver<T>(std::sync::mpsc::Receiver<T>);

/// What the background check or download reports back.
pub enum UpdateEvent {
    Checked(Result<CheckResult, String>),
    InstallerLaunched(Result<(), String>),
}

/// What a non-blocking receive found.
pub enum Received {
    Event(UpdateEvent),
    Empty,
    Disconnected,
}

/// Calls `Receiver::try_recv`, telling its two error variants apart. What
/// arrives depends on the background thread, so nothing is stated.
#[verifier::external_body]
fn try_receive(receiver: &std::sync::mpsc::Receiver<UpdateEvent>) -> (r: Received) {
    match receiver.try_recv() {
        Ok(event) => Received::Event(event),
        Err(std::sync::mpsc::TryRecvError::Empty) => Received::Empty,
        Err(std::sync::mpsc::TryRecvError::Disconnected) => Received::Disconnected,
    }
}

#[derive(Debug, Clone, PartialEq, Eq)]
pub enum UpdateStatus {
    Idle,
    Checking,
    NoRelease,
    UpToDate,
    Available(String),
    Downloading,
    InstallerLaunched,
    Failed(String),
}

pub enum StatusModel {
    Idle,
    Checking,
    NoRelease,
    UpToDate,
    Available(Seq<char>),
    Downloading,
    InstallerLaunched,
    Failed(Seq<char>),
}

impl View for UpdateStatus {
    type V = StatusModel;

    open spec fn view(&self) -> StatusModel {
        match self {
            UpdateStatus::Idle => StatusModel::Idle,
            UpdateStatus::Checking => StatusModel::Checking,
            UpdateStatus::NoRelease => StatusModel::NoRelease,
            UpdateStatus::UpToDate => StatusModel::UpToDate,
            UpdateStatus::Available(t) => StatusModel::Available(t@),
            UpdateStatus::Downloading => StatusModel::Downloading,
            UpdateStatus::InstallerLaunched => StatusModel::InstallerLaunched,
            UpdateStatus::Failed(e) => StatusModel::Failed(e@),
        }
    }
}

pub open spec fn status_description(s: StatusModel) -> Seq<char> {
    match s {
        StatusModel::Idle => "手动对比 GitHub 最新发布版本"@,
        StatusModel::Checking => "正在检查…"@,
        StatusModel::NoRelease => "仓库尚无正式发布版本"@,
        StatusModel::UpToDate => "当前已是最新发布版本"@,
        StatusModel::Available(tag) => "发现新版本 "@ + tag,
        StatusModel::Downloading => "正在下载并校验安装包…"@,
        StatusModel::InstallerLaunched => "安装器已打开，请按提示完成安装"@,
        StatusModel::Failed(e) => "更新失败："@ + e,
    }
}

/// One update check or installer download at a time, and what it last reported.
pub struct UpdateCheck {
    pub status: UpdateStatus,
    pub installer: Option<InstallerAsset>,
    receiver: Option<std::sync::mpsc::Receiver<UpdateEvent>>,
}

pub struct UpdateCheckModel {
    pub status: StatusModel,
    pub installer: Option<AssetModel>,
    pub busy: bool,
}

impl View for UpdateCheck {
    type V = UpdateCheckModel;

    closed spec fn view(&self) -> UpdateCheckModel {
        UpdateCheckModel {
            status: self.status@,
            installer: installer_view(self.installer),
            busy: self.receiver is Some,
        }
    }
}

pub enum ReceivedModel {
    Checked(Result<CheckModel, Seq<char>>),
    InstallerLaunched(Result<(), Seq<char>>),
    Empty,
    Disconnected,
}

/// The state after a non-blocking look at the background work.
pub open spec fn poll_spec(s: UpdateCheckModel, got: ReceivedModel) -> UpdateCheckModel {
    match got {
        ReceivedModel::Empty => s,
        ReceivedModel::Checked(Ok(CheckModel::NoRelease)) => UpdateCheckModel {
            status: StatusModel::NoRelease,
            busy: false,
            ..s
        },
        ReceivedModel::Checked(Ok(CheckModel::UpToDate)) => UpdateCheckModel {
            status: StatusModel::UpToDate,
            busy: false,
            ..s
        },
        ReceivedModel::Checked(Ok(CheckModel::Available { tag, installer })) => UpdateCheckModel {
            status: StatusModel::Available(tag),
            installer,
            busy: false,
        },
        ReceivedModel::Checked(Err(e)) => UpdateCheckModel {
            status: StatusModel::Failed(e),
            busy: false,
            ..s
        },
        ReceivedModel::InstallerLaunched(Err(e)) => UpdateCheckModel {
            status: StatusModel::Failed(e),
            busy: false,
            ..s
        },
        ReceivedModel::InstallerLaunched(Ok(())) => UpdateCheckModel {
            status: StatusModel::InstallerLaunched,
            busy: false,
            ..s
        },
        ReceivedModel::Disconnected => UpdateCheckModel {
            status: StatusModel::Failed("更新操作中断"@),
            busy: false,
            ..s
        },
    }
}

impl Default for UpdateCheck {
    fn default() -> (r: Self)
        ensures
            r@.status == StatusModel::Idle,
            r@.installer is None,
            !r@.busy,
    {
        UpdateCheck { status: UpdateStatus::Idle, installer: None, receiver: None }
    }
}

impl UpdateCheck {
    /// Starts a check unless one is running: `true` when the caller should
    /// start the background query and `attach` its channel.
    pub fn begin_check(&mut self) -> (started: bool)
        ensures
            started == !old(self)@.busy,
            started ==> final(self)@ == (UpdateCheckModel {
                status: StatusModel::Checking,
                installer: None,
                busy: false,
            }),
            !started ==> final(self)@ == old(self)@,
    {
        if self.receiver.is_some() {
            return false;
        }
        self.status = UpdateStatus::Checking;
        self.installer = None;
        true
    }

    /// Starts downloading the offered installer unless something is running
    /// or no newer release with an installer is known.
    pub fn begin_download(&mut self) -> (asset: Option<InstallerAsset>)
        ensures
            match asset {
                Some(a) => !old(self)@.busy && old(self)@.status is Available
                    && old(self)@.installer == Some(a@) && final(self)@ == (UpdateCheckModel {
                    status: StatusModel::Downloading,
                    ..old(self)@
                }),
                None => final(self)@ == old(self)@ && (old(self)@.busy
                    || !(old(self)@.status is Available) || old(self)@.installer is None),
            },
    {
        if self.receiver.is_some() {
            return None;
        }
        match &self.status {
            UpdateStatus::Available(_) => {},
            _ => return None,
        }
        let asset = match &self.installer {
            Some(a) => InstallerAsset { url: copy_text(&a.url), size: a.size, sha256: copy_text(&a.sha256) },
            None => return None,
        };
        self.status = UpdateStatus::Downloading;
        Some(asset)
    }

    /// Hands over the channel of the background work just started.
    pub fn attach(&mut self, receiver: std::sync::mpsc::Receiver<UpdateEvent>)
        ensures
            final(self)@ == (UpdateCheckModel { busy: true, ..old(self)@ }),
    {
        self.receiver = Some(receiver);
    }

    /// Applies what a look at the channel found.
    pub fn apply(&mut self, got: Received)
        ensures
            final(self)@ == poll_spec(old(self)@, received_view(got)),
    {
        match got {
            Received::Empty => return,
            Received::Event(UpdateEvent::Checked(Ok(CheckResult::NoRelease))) => {
                self.status = UpdateStatus::NoRelease;
            },
            Received::Event(UpdateEvent::Checked(Ok(CheckResult::UpToDate))) => {
                self.status = UpdateStatus::UpToDate;
            },
            Received::Event(UpdateEvent::Checked(Ok(CheckResult::Available { tag, installer }))) => {
                self.installer = installer;
                self.status = UpdateStatus::Available(tag);
            },
            Received::Event(UpdateEvent::Checked(Err(error))) => {
                self.status = UpdateStatus::Failed(error);
            },
            Received::Event(UpdateEvent::InstallerLaunched(Err(error))) => {
                self.status = UpdateStatus::Failed(error);
            },
            Received::Event(UpdateEvent::InstallerLaunched(Ok(()))) => {
                self.status = UpdateStatus::InstallerLaunched;
            },
            Received::Disconnected => {
                let mut e = String::new();
                push_str(&mut e, "更新操作中断");
                assert(e@ =~= "更新操作中断"@);
                self.status = UpdateStatus::Failed(e);
            },
        }
        self.receiver = None;
    }

    /// Looks at the background work without waiting; with nothing running, nothing changes.
    pub fn poll(&mut self)
        ensures
            !old(self)@.busy ==> final(self)@ == old(self)@,
            old(self)@.busy ==> exists|got: ReceivedModel| final(self)@ == poll_spec(old(self)@, got),
    {
        let got = match &self.receiver {
            Some(receiver) => try_receive(receiver),
            None => return,
        };
        let ghost g = received_view(got);
        self.apply(got);
        assert(self@ == poll_spec(old(self)@, g));
    }

    pub fn description(&self) -> (r: String)
        ensures
            r@ == status_description(self@.status),
    {
        let mut s = String::new();
        match &self.status {
            UpdateStatus::Idle => push_str(&mut s, "手动对比 GitHub 最新发布版本"),
            UpdateStatus::Checking => push_str(&mut s, "正在检查…"),
            UpdateStatus::NoRelease => push_str(&mut s, "仓库尚无正式发布版本"),
            UpdateStatus::UpToDate => push_str(&mut s, "当前已是最新发布版本"),
            UpdateStatus::Available(tag) => {
                push_str(&mut s, "发现新版本 ");
                push_str(&mut s, tag.as_str());
            },
            UpdateStatus::Downloading => push_str(&mut s, "正在下载并校验安装包…"),
            UpdateStatus::InstallerLaunched => push_str(&mut s, "安装器已打开，请按提示完成安装"),
            UpdateStatus::Failed(error) => {
                push_str(&mut s, "更新失败：");
                push_str(&mut s, error.as_str());
            },
        }
        assert(s@ =~= status_description(self@.status));
        s
    }

    /// The settings page's update button: no action while a check or a
    /// download runs; "download and install" once a new release with an
    /// installer is known; otherwise "check".
    pub fn button(&self) -> (r: (&'static str, UpdateButtonAction))
        ensures
            r.0@ == update_button_label(self@),
            r.1 == update_button_action(self@),
    {
        let can_install = match &self.status {
            UpdateStatus::Available(_) => self.installer.is_some(),
            _ => false,
        };
        match &self.status {
            UpdateStatus::Checking => ("检查中…", UpdateButtonAction::Disabled),
            UpdateStatus::Downloading => ("下载中…", UpdateButtonAction::Disabled),
            _ => if can_install {
                ("下载并安装", UpdateButtonAction::DownloadAndInstall)
            } else {
                ("检查", UpdateButtonAction::Check)
            },
        }
    }
}

/// What pressing the update button asks for.
#[derive(Debug, Clone, Copy, PartialEq, Eq, Structural)]
pub enum UpdateButtonAction {
    /// The button is disabled while work runs.
    Disabled,
    DownloadAndInstall,
    Check,
}

/// A newer release with an installer is known.
pub open spec fn can_install(s: UpdateCheckModel) -> bool {
    s.status is Available && s.installer is Some
}

pub open spec fn update_button_label(s: UpdateCheckModel) -> Seq<char> {
    match s.status {
        StatusModel::Checking => "检查中…"@,
        StatusModel::Downloading => "下载中…"@,
        _ => if can_install(s) {
            "下载并安装"@
        } else {
            "检查"@
        },
    }
}

pub open spec fn update_button_action(s: UpdateCheckModel) -> UpdateButtonAction {
    match s.status {
        StatusModel::Checking | StatusModel::Downloading => UpdateButtonAction::Disabled,
        _ => if can_install(s) {
            UpdateButtonAction::DownloadAndInstall
        } else {
            UpdateButtonAction::Check
        },
    }
}

pub open spec fn received_view(got: Received) -> ReceivedModel {
    match got {
        Received::Event(UpdateEvent::Checked(r)) => ReceivedModel::Checked(result_view(r)),
        Received::Event(UpdateEvent::InstallerLaunched(r)) => ReceivedModel::InstallerLaunched(
            match r {
                Ok(()) => Ok(()),
                Err(e) => Err(e@),
            },
        ),
        Received::Empty => ReceivedModel::Empty,
        Received::Disconnected => ReceivedModel::Disconnected,
    }
}

// ----------------------------------------------------------------------------
// Checking a downloaded installer
// ----------------------------------------------------------------------------

/// The SHA-256 digest of `data`.
pub uninterp spec fn sha256_digest(data: Seq<u8>) -> Seq<u8>;

/// `sha2::Sha256::digest`: the 32-byte SHA-256 digest of `data`. The digest
/// itself is named, not computed here; its length is what the type says.
#[verifier::external_body]
fn sha256(data: &[u8]) -> (r: Vec<u8>)
    ensures
        r@ == sha256_digest(data@),
        r@.len() == 32,
{
    sha2::Sha256::digest(data).to_vec()
}

/// Lowercase hexadecimal form of bytes, two digits each (`{:x}` of a digest).
pub open spec fn lower_hex_bytes(bs: Seq<u8>) -> Seq<char>
    decreases bs.len(),
{
    if bs.len() == 0 {
        Seq::empty()
    } else {
        lower_hex_bytes(bs.drop_last()) + crate::text::hex_fixed(bs.last() as nat, 2)
    }
}

fn lower_hex_string(bs: &[u8]) -> (r: Vec<char>)
    ensures
        r@ == lower_hex_bytes(bs@),
{
    let mut out: Vec<char> = Vec::new();
    let mut i: usize = 0;
    while i < bs.len()
        invariant
            i <= bs@.len(),
            out@ == lower_hex_bytes(bs@.take(i as int)),
        decreases bs@.len() - i,
    {
        assert(bs@.take(i as int + 1).drop_last() =~= bs@.take(i as int));
        let h = crate::text::hex_chars(bs[i] as u64, 2);
        let mut j: usize = 0;
        let ghost start = out@;
        while j < h.len()
            invariant
                j <= h@.len(),
                out@ == start + h@.take(j as int),
            decreases h@.len() - j,
        {
            assert(h@.take(j as int + 1) =~= h@.take(j as int).push(h@[j as int]));
            out.push(h[j]);
            j += 1;
        }
        assert(h@.take(j as int) =~= h@);
        i += 1;
    }
    assert(bs@.take(i as int) =~= bs@);
    out
}

/// The verdict on a downloaded installer: its size, then its SHA-256, must
/// be those the release published.
pub open spec fn installer_verdict(contents: Seq<u8>, asset: AssetModel) -> Result<(), Seq<char>> {
    if contents.len() != asset.size {
        Err("安装包大小与发布信息不符"@)
    } else if lower_hex_bytes(sha256_digest(contents)) != asset.sha256 {
        Err("安装包 SHA-256 校验失败"@)
    } else {
        Ok(())
    }
}

/// Checks the bytes of a downloaded installer against the release's asset.
pub fn check_installer(contents: &[u8], asset: &InstallerAsset) -> (r: Result<(), String>)
    ensures
        match r {
            Ok(()) => installer_verdict(contents@, asset@) is Ok,
            Err(e) => installer_verdict(contents@, asset@) == Err::<(), Seq<char>>(e@),
        },
{
    if contents.len() as u64 != asset.size {
        let mut e = String::new();
        push_str(&mut e, "安装包大小与发布信息不符");
        assert(e@ =~= "安装包大小与发布信息不符"@);
        return Err(e);
    }
    let digest = sha256(contents);
    let hex = lower_hex_string(digest.as_slice());
    let expected = chars_of(asset.sha256.as_str());
    if !crate::events::chars_eq(hex.as_slice(), expected.as_slice()) {
        let mut e = String::new();
        push_str(&mut e, "安装包 SHA-256 校验失败");
        assert(e@ =~= "安装包 SHA-256 校验失败"@);
        return Err(e);
    }
    Ok(())
}

} // verus!
