//! The interface font: only a family that can render Simplified Chinese is
//! chosen, never the system's Latin message font.
//!
//! Listing the installed faces and registering font files are the caller's
//! part; which family is used and which files are loaded is decided here.

use vstd::prelude::*;

use crate::history::first_occurrences;
use crate::hotkey::{ascii_lower_seq, lower_chars};
use crate::model::strings_view;
use crate::text::chars_of;

verus! {

/// Families that render Simplified Chinese, most preferred first.
pub open spec fn cjk_families_spec() -> Seq<Seq<char>> {
    seq![
        "Microsoft YaHei UI"@,
        "Microsoft YaHei"@,
        "微软雅黑"@,
        "DengXian"@,
        "等线"@,
        "SimHei"@,
        "黑体"@,
        "Noto Sans SC"@,
        "Source Han Sans SC"@,
        "Source Han Sans CN"@,
        "Noto Sans CJK SC"@,
        "PingFang SC"@,
    ]
}

/// Windows font files with Chinese glyphs, loaded when present even if no
/// face reported their family.
pub open spec fn cjk_files_spec() -> Seq<Seq<char>> {
    seq![
        "C:\\Windows\\Fonts\\msyh.ttc"@,
        "C:\\Windows\\Fonts\\msyhbd.ttc"@,
        "C:\\Windows\\Fonts\\Deng.ttf"@,
        "C:\\Windows\\Fonts\\simhei.ttf"@,
    ]
}

pub fn cjk_families() -> (r: Vec<&'static str>)
    ensures
        r@.len() == cjk_families_spec().len(),
        forall|i: int| 0 <= i < r@.len() ==> (#[trigger] r@[i])@ == cjk_families_spec()[i],
{
    let v: Vec<&'static str> = vec![
        "Microsoft YaHei UI",
        "Microsoft YaHei",
        "微软雅黑",
        "DengXian",
        "等线",
        "SimHei",
        "黑体",
        "Noto Sans SC",
        "Source Han Sans SC",
        "Source Han Sans CN",
        "Noto Sans CJK SC",
        "PingFang SC",
    ];
    v
}

pub fn cjk_files() -> (r: Vec<&'static str>)
    ensures
        r@.len() == cjk_files_spec().len(),
        forall|i: int| 0 <= i < r@.len() ==> (#[trigger] r@[i])@ == cjk_files_spec()[i],
{
    let v: Vec<&'static str> = vec![
        "C:\\Windows\\Fonts\\msyh.ttc",
        "C:\\Windows\\Fonts\\msyhbd.ttc",
        "C:\\Windows\\Fonts\\Deng.ttf",
        "C:\\Windows\\Fonts\\simhei.ttf",
    ];
    v
}

/// An installed font face: the family names it reports and the file it
/// comes from, if it comes from a file.
#[derive(Debug, Clone, PartialEq, Eq)]
pub struct FontFace {
    pub families: Vec<String>,
    pub file: Option<String>,
}

pub struct FaceModel {
    pub families: Seq<Seq<char>>,
    pub file: Option<Seq<char>>,
}

impl View for FontFace {
    type V = FaceModel;

    open spec fn view(&self) -> FaceModel {
        FaceModel {
            families: strings_view(self.families@),
            file: match self.file {
                Some(f) => Some(f@),
                None => None,
            },
        }
    }
}

pub open spec fn faces_view(faces: Seq<FontFace>) -> Seq<FaceModel> {
    faces.map_values(|f: FontFace| f@)
}

/// `a.eq_ignore_ascii_case(b)`.
pub open spec fn same_ignoring_ascii_case(a: Seq<char>, b: Seq<char>) -> bool {
    ascii_lower_seq(a) == ascii_lower_seq(b)
}

/// The face reports `family` (ASCII case ignored).
pub open spec fn face_has(face: FaceModel, family: Seq<char>) -> bool {
    exists|j: int|
        0 <= j < face.families.len() && same_ignoring_ascii_case(#[trigger] face.families[j], family)
}

pub open spec fn some_face_has(faces: Seq<FaceModel>, family: Seq<char>) -> bool {
    exists|i: int| 0 <= i < faces.len() && face_has(#[trigger] faces[i], family)
}

/// The first preferred family some face reports, if any.
pub open spec fn chosen_index(faces: Seq<FaceModel>) -> Option<int> {
    if exists|k: int| 0 <= k < cjk_families_spec().len() && some_face_has(faces, #[trigger] cjk_families_spec()[k]) {
        Some(
            choose|k: int|
                0 <= k < cjk_families_spec().len() && some_face_has(faces, cjk_families_spec()[k])
                    && forall|m: int| 0 <= m < k ==> !some_face_has(faces, #[trigger] cjk_families_spec()[m]),
        )
    } else {
        None
    }
}

/// The files of the faces that report `family`, in face order.
pub open spec fn family_files(faces: Seq<FaceModel>, family: Seq<char>) -> Seq<Seq<char>>
    decreases faces.len(),
{
    if faces.len() == 0 {
        Seq::empty()
    } else {
        let rest = family_files(faces.drop_last(), family);
        let f = faces.last();
        if face_has(f, family) && f.file is Some {
            rest.push(f.file->0)
        } else {
            rest
        }
    }
}

/// The fallback files present on this machine, in their order.
pub open spec fn present_files(present: Seq<bool>) -> Seq<Seq<char>>
    decreases present.len(),
{
    if present.len() == 0 {
        Seq::empty()
    } else {
        let rest = present_files(present.drop_last());
        if present.last() {
            rest.push(cjk_files_spec()[present.len() - 1])
        } else {
            rest
        }
    }
}

/// The interface family and the files to register: the first preferred
/// family an installed face reports (`Microsoft YaHei UI` when none does),
/// the files of its faces, then the fallback files present, each file once.
pub open spec fn ui_font_choice(faces: Seq<FaceModel>, present: Seq<bool>) -> (Seq<char>, Seq<
    Seq<char>,
>) {
    match chosen_index(faces) {
        Some(k) => (
            cjk_families_spec()[k],
            first_occurrences(family_files(faces, cjk_families_spec()[k]) + present_files(present)),
        ),
        None => (cjk_families_spec()[0], first_occurrences(present_files(present))),
    }
}

fn same_name(a: &str, b: &str) -> (r: bool)
    ensures
        r == same_ignoring_ascii_case(a@, b@),
{
    let ac = chars_of(a);
    let bc = chars_of(b);
    let al = lower_chars(ac.as_slice());
    let bl = lower_chars(bc.as_slice());
    crate::events::chars_eq(al.as_slice(), bl.as_slice())
}

fn face_has_exec(face: &FontFace, family: &str) -> (r: bool)
    ensures
        r == face_has(face@, family@),
{
    let ghost names = face@.families;
    let mut j: usize = 0;
    while j < face.families.len()
        invariant
            j <= face.families@.len(),
            names == strings_view(face.families@),
            names.len() == face.families@.len(),
            forall|k: int| 0 <= k < j ==> !same_ignoring_ascii_case(#[trigger] names[k], family@),
        decreases face.families@.len() - j,
    {
        if same_name(face.families[j].as_str(), family) {
            assert(names[j as int] == face.families@[j as int]@);
            assert(same_ignoring_ascii_case(names[j as int], family@));
            assert(face@.families == names);
            assert(0 <= j < face@.families.len() && same_ignoring_ascii_case(face@.families[j as int], family@));
            return true;
        }
        assert(names[j as int] == face.families@[j as int]@);
        j += 1;
    }
    false
}

fn some_face_has_exec(faces: &[FontFace], family: &str) -> (r: bool)
    ensures
        r == some_face_has(faces_view(faces@), family@),
{
    let ghost fv = faces_view(faces@);
    let mut i: usize = 0;
    while i < faces.len()
        invariant
            i <= faces@.len(),
            fv == faces_view(faces@),
            fv.len() == faces@.len(),
            forall|f: int| 0 <= f < i ==> !face_has(#[trigger] fv[f], family@),
        decreases faces@.len() - i,
    {
        assert(fv[i as int] == faces@[i as int]@);
        if face_has_exec(&faces[i], family) {
            assert(face_has(fv[i as int], family@));
            return true;
        }
        i += 1;
    }
    false
}

/// Appends `item` unless it is already in `out`.
fn push_new(out: &mut Vec<String>, item: &str)
    ensures
        strings_view(final(out)@) == if strings_view(old(out)@).contains(item@) {
            strings_view(old(out)@)
        } else {
            strings_view(old(out)@).push(item@)
        },
{
    let target = chars_of(item);
    let mut i: usize = 0;
    while i < out.len()
        invariant
            i <= out@.len(),
            target@ == item@,
            forall|k: int| 0 <= k < i ==> strings_view(out@)[k] != item@,
        decreases out@.len() - i,
    {
        let c = chars_of(out[i].as_str());
        if crate::events::chars_eq(c.as_slice(), target.as_slice()) {
            assert(strings_view(out@)[i as int] == item@);
            return;
        }
        i += 1;
    }
    let ghost before = strings_view(out@);
    let mut s = String::new();
    crate::text::push_str(&mut s, item);
    assert(s@ =~= item@);
    out.push(s);
    assert(strings_view(out@) =~= before.push(item@));
}

proof fn lemma_first_occurrences_append(a: Seq<Seq<char>>, x: Seq<char>)
    ensures
        first_occurrences(a.push(x)) == if first_occurrences(a).contains(x) {
            first_occurrences(a)
        } else {
            first_occurrences(a).push(x)
        },
{
    assert(a.push(x).drop_last() =~= a);
}

/// Chooses the interface family among the installed `faces`;
/// `fallback_present[i]` says whether the `i`-th fallback file exists.
pub fn choose_ui_font(faces: &[FontFace], fallback_present: &[bool]) -> (r: (&'static str, Vec<String>))
    requires
        fallback_present@.len() == cjk_files_spec().len(),
    ensures
        (r.0@, strings_view(r.1@)) == ui_font_choice(faces_view(faces@), fallback_present@),
{
    let ghost fv = faces_view(faces@);
    let families = cjk_families();
    let mut chosen: Option<usize> = None;
    let mut k: usize = 0;
    while k < families.len()
        invariant_except_break
            k <= families@.len(),
            chosen is None,
        invariant
            families@.len() == cjk_families_spec().len(),
            fv == faces_view(faces@),
            forall|i: int| 0 <= i < families@.len() ==> (#[trigger] families@[i])@ == cjk_families_spec()[i],
            forall|m: int| 0 <= m < k ==> !some_face_has(fv, #[trigger] cjk_families_spec()[m]),
            chosen matches Some(c) ==> c == k && k < families@.len() && some_face_has(fv, cjk_families_spec()[k as int]),
        ensures
            chosen is None ==> k == families@.len(),
        decreases families@.len() - k,
    {
        assert(families@[k as int]@ == cjk_families_spec()[k as int]);
        if some_face_has_exec(faces, families[k]) {
            chosen = Some(k);
            break;
        }
        k += 1;
    }
    proof {
        match chosen {
            Some(c) => {
                let w = choose|k: int|
                    0 <= k < cjk_families_spec().len() && some_face_has(fv, cjk_families_spec()[k])
                        && forall|m: int| 0 <= m < k ==> !some_face_has(fv, #[trigger] cjk_families_spec()[m]);
                assert(0 <= c < cjk_families_spec().len() && some_face_has(fv, cjk_families_spec()[c as int]));
                if w < c {
                    assert(!some_face_has(fv, cjk_families_spec()[w]));
                } else if w > c {
                    assert(!some_face_has(fv, cjk_families_spec()[c as int]));
                }
                assert(chosen_index(fv) == Some(c as int));
            },
            None => {
                assert(chosen_index(fv) is None);
            },
        }
    }
    let family: &'static str = match chosen {
        Some(c) => families[c],
        None => families[0],
    };
    let mut paths: Vec<String> = Vec::new();
    if let Some(c) = chosen {
        let mut i: usize = 0;
        while i < faces.len()
            invariant
                i <= faces@.len(),
                fv == faces_view(faces@),
                family@ == cjk_families_spec()[c as int],
                strings_view(paths@) == first_occurrences(
                    family_files(fv.take(i as int), family@),
                ),
            decreases faces@.len() - i,
        {
            assert(fv.take(i as int + 1).drop_last() =~= fv.take(i as int));
            assert(fv.take(i as int + 1).last() == faces@[i as int]@);
            if face_has_exec(&faces[i], family) {
                match &faces[i].file {
                    Some(file) => {
                        proof {
                            lemma_first_occurrences_append(
                                family_files(fv.take(i as int), family@),
                                file@,
                            );
                        }
                        push_new(&mut paths, file.as_str());
                    },
                    None => {},
                }
            }
            i += 1;
        }
        assert(fv.take(faces@.len() as int) =~= fv);
    }
    let ghost chosen_files: Seq<Seq<char>> = match chosen {
        Some(c) => family_files(fv, cjk_families_spec()[c as int]),
        None => Seq::empty(),
    };
    assert(strings_view(paths@) == first_occurrences(chosen_files));
    let files = cjk_files();
    let mut j: usize = 0;
    assert(present_files(fallback_present@.take(0)) =~= Seq::<Seq<char>>::empty());
    assert(chosen_files + Seq::<Seq<char>>::empty() =~= chosen_files);
    while j < files.len()
        invariant
            j <= files@.len() == cjk_files_spec().len() == fallback_present@.len(),
            forall|i: int| 0 <= i < files@.len() ==> (#[trigger] files@[i])@ == cjk_files_spec()[i],
            strings_view(paths@) == first_occurrences(
                chosen_files + present_files(fallback_present@.take(j as int)),
            ),
        decreases files@.len() - j,
    {
        assert(fallback_present@.take(j as int + 1).drop_last() =~= fallback_present@.take(j as int));
        if fallback_present[j] {
            proof {
                lemma_first_occurrences_append(
                    chosen_files + present_files(fallback_present@.take(j as int)),
                    cjk_files_spec()[j as int],
                );
                assert((chosen_files + present_files(fallback_present@.take(j as int))).push(
                    cjk_files_spec()[j as int],
                ) =~= chosen_files + present_files(fallback_present@.take(j as int + 1)));
            }
            push_new(&mut paths, files[j]);
        } else {
            assert(chosen_files + present_files(fallback_present@.take(j as int))
                =~= chosen_files + present_files(fallback_present@.take(j as int + 1)));
        }
        j += 1;
    }
    assert(fallback_present@.take(j as int) =~= fallback_present@);
    proof {
        if chosen is None {
            assert(Seq::<Seq<char>>::empty() + present_files(fallback_present@) =~= present_files(
                fallback_present@,
            ));
        }
    }
    (family, paths)
}

/// The interface never uses a Latin-only family: whatever faces are
/// installed, the chosen family is one of the Chinese ones.
pub proof fn law_ui_family_is_chinese(faces: Seq<FaceModel>, present: Seq<bool>)
    ensures
        cjk_families_spec().contains(ui_font_choice(faces, present).0),
{
    match chosen_index(faces) {
        Some(k) => {
            assert(cjk_families_spec()[k] == ui_font_choice(faces, present).0);
        },
        None => {
            assert(cjk_families_spec()[0] == ui_font_choice(faces, present).0);
        },
    }
}

} // verus!
