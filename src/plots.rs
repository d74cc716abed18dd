//! The display order of a run's plot files: binary plots first, then survival
//! plots, then the rest; within a kind, a fixed sequence of plot names; within
//! a name, SVG before PNG before TIFF before anything else.
use vstd::prelude::*;
use crate::docker::{docker_path, forward_slashes};
use crate::text::{chars_of, ends_with, occurs_at, occurs_at_exec, slice_string, starts_with};

verus! {

/// Whether `p` occurs anywhere in `s`.
pub open spec fn contains(s: Seq<char>, p: Seq<char>) -> bool {
    exists|i: int| occurs_at(s, i, p)
}

pub fn contains_exec(s: &Vec<char>, p: &str) -> (r: bool)
    ensures
        r == contains(s@, p@),
{
    let mut i: usize = 0;
    while i < s.len()
        invariant
            i <= s@.len(),
            forall|j: int| 0 <= j < i ==> !occurs_at(s@, j, p@),
        decreases s@.len() - i,
    {
        if occurs_at_exec(s, i, p) {
            return true;
        }
        i = i + 1;
    }
    if occurs_at_exec(s, i, p) {
        return true;
    }
    assert forall|j: int| !occurs_at(s@, j, p@) by {
        if 0 <= j && j < i {
        } else if j == i {
        } else if j > i {
            assert(j > s@.len());
        }
    }
    false
}

/// `s` with every trailing repetition of a non-empty `p` removed, as `str::trim_end_matches` does.
pub open spec fn trim_end_matches(s: Seq<char>, p: Seq<char>) -> Seq<char>
    decreases s.len(),
{
    if p.len() > 0 && ends_with(s, p) {
        trim_end_matches(s.subrange(0, s.len() - p.len()), p)
    } else {
        s
    }
}

/// Length of `s[0..end]` with trailing repetitions of `p` removed.
fn trim_end_matches_len(s: &Vec<char>, end: usize, p: &str) -> (r: usize)
    requires
        end <= s@.len(),
    ensures
        r <= end,
        s@.subrange(0, r as int) == trim_end_matches(s@.subrange(0, end as int), p@),
{
    let m = p.unicode_len();
    let mut e: usize = end;
    while m > 0 && e >= m && occurs_at_exec(s, e - m, p)
        invariant
            m == p@.len(),
            e <= end <= s@.len(),
            trim_end_matches(s@.subrange(0, end as int), p@) == trim_end_matches(
                s@.subrange(0, e as int),
                p@,
            ),
        decreases e,
    {
        proof {
            let t = s@.subrange(0, e as int);
            assert(t.subrange(t.len() - m, t.len() as int) =~= s@.subrange(e - m, e as int));
            assert(t.subrange(0, t.len() - m) =~= s@.subrange(0, e - m));
        }
        e = e - m;
    }
    proof {
        let t = s@.subrange(0, e as int);
        if m > 0 && ends_with(t, p@) {
            assert(t.subrange(t.len() - m, t.len() as int) =~= s@.subrange(e - m, e as int));
        }
    }
    e
}

/// Position just after the last `/` in `s`, or 0 when there is none.
pub open spec fn last_component_start(s: Seq<char>) -> int {
    if exists|i: int| 0 <= i < s.len() && s[i] == '/' {
        1 + choose|i: int|
            0 <= i < s.len() && s[i] == '/' && forall|j: int| i < j < s.len() ==> s[j] != '/'
    } else {
        0
    }
}

/// What follows the last `/` of `s`, as `split('/').last()` gives it.
pub open spec fn last_component(s: Seq<char>) -> Seq<char> {
    s.subrange(last_component_start(s), s.len() as int)
}

fn last_component_start_exec(s: &Vec<char>) -> (r: usize)
    ensures
        r == last_component_start(s@),
        r <= s@.len(),
{
    let mut i: usize = s.len();
    while i > 0
        invariant
            i <= s@.len(),
            forall|j: int| i <= j < s@.len() ==> s@[j] != '/',
        decreases i,
    {
        if s[i - 1] == '/' {
            proof {
                let k = choose|k: int|
                    0 <= k < s@.len() && s@[k] == '/' && forall|j: int|
                        k < j < s@.len() ==> s@[j] != '/';
                assert(0 <= k < s@.len() && s@[k] == '/');
                if k < i - 1 {
                    assert(s@[i - 1] != '/');
                } else if k > i - 1 {
                    assert(s@[k] != '/');
                }
            }
            return i;
        }
        i = i - 1;
    }
    0
}

/// Names the lowercase mapping of a text, character by character as Unicode defines it.
pub uninterp spec fn lower_of(s: Seq<char>) -> Seq<char>;

/// Relies on `str::to_lowercase`: the lowercase form of the text, which depends
/// on its characters alone.
#[verifier::external_body]
fn lowercase(s: &str) -> (r: String)
    ensures
        r@ == lower_of(s@),
{
    s.to_lowercase()
}

/// The file name of a plot path: after the last separator (either slash), lowercased.
pub open spec fn plot_basename(path: Seq<char>) -> Seq<char> {
    lower_of(last_component(forward_slashes(path)))
}

/// The basename without its image extensions.
pub open spec fn plot_stem(basename: Seq<char>) -> Seq<char> {
    trim_end_matches(
        trim_end_matches(
            trim_end_matches(
                trim_end_matches(trim_end_matches(basename, ".svg"@), ".png"@),
                ".tiff"@,
            ),
            ".tif"@,
        ),
        ".pdf"@,
    )
}

/// 0 for binary plots, 1 for survival plots, 2 for the rest.
pub open spec fn type_order(stem: Seq<char>) -> u8 {
    if starts_with(stem, "binary"@) {
        0
    } else if starts_with(stem, "survival"@) || starts_with(stem, "surv"@) {
        1
    } else {
        2
    }
}

/// The plot's place in the fixed sequence of plot names.
pub open spec fn name_order(stem: Seq<char>) -> u8 {
    if contains(stem, "roc"@) {
        0
    } else if contains(stem, "kaplan"@) || contains(stem, "_km"@) {
        1
    } else if contains(stem, "importance"@) || contains(stem, "varimp"@) || contains(
        stem,
        "var_imp"@,
    ) {
        2
    } else if contains(stem, "time"@) && contains(stem, "auc"@) {
        3
    } else if contains(stem, "auc"@) {
        4
    } else if contains(stem, "dca"@) {
        5
    } else if contains(stem, "prob"@) {
        6
    } else if contains(stem, "confusion"@) {
        7
    } else if contains(stem, "stepwise"@) || contains(stem, "process"@) {
        8
    } else {
        9
    }
}

/// 0 for SVG, 1 for PNG, 2 for TIFF, 3 for anything else.
pub open spec fn ext_order(basename: Seq<char>) -> u8 {
    if ends_with(basename, ".svg"@) {
        0
    } else if ends_with(basename, ".png"@) {
        1
    } else if ends_with(basename, ".tiff"@) || ends_with(basename, ".tif"@) {
        2
    } else {
        3
    }
}

fn ends_with_exec(s: &Vec<char>, p: &str) -> (r: bool)
    ensures
        r == ends_with(s@, p@),
{
    let m = p.unicode_len();
    if m > s.len() {
        return false;
    }
    occurs_at_exec(s, s.len() - m, p)
}

/// The order of a plot by its lowercase basename: kind, name, extension.
pub fn plot_order_of_basename(basename: &str) -> (r: (u8, u8, u8))
    ensures
        r == (
            type_order(plot_stem(basename@)),
            name_order(plot_stem(basename@)),
            ext_order(basename@),
        ),
{
    let b = chars_of(basename);
    let n = b.len();
    let e1 = trim_end_matches_len(&b, n, ".svg");
    let e2 = trim_end_matches_len(&b, e1, ".png");
    let e3 = trim_end_matches_len(&b, e2, ".tiff");
    let e4 = trim_end_matches_len(&b, e3, ".tif");
    let e5 = trim_end_matches_len(&b, e4, ".pdf");
    assert(b@.subrange(0, n as int) =~= basename@);
    let stem_text = slice_string(basename, 0, e5);
    let stem = chars_of(stem_text.as_str());
    let type_order: u8 = if occurs_at_exec(&stem, 0, "binary") {
        0
    } else if occurs_at_exec(&stem, 0, "survival") || occurs_at_exec(&stem, 0, "surv") {
        1
    } else {
        2
    };
    let name_order: u8 = if contains_exec(&stem, "roc") {
        0
    } else if contains_exec(&stem, "kaplan") || contains_exec(&stem, "_km") {
        1
    } else if contains_exec(&stem, "importance") || contains_exec(&stem, "varimp")
        || contains_exec(&stem, "var_imp") {
        2
    } else if contains_exec(&stem, "time") && contains_exec(&stem, "auc") {
        3
    } else if contains_exec(&stem, "auc") {
        4
    } else if contains_exec(&stem, "dca") {
        5
    } else if contains_exec(&stem, "prob") {
        6
    } else if contains_exec(&stem, "confusion") {
        7
    } else if contains_exec(&stem, "stepwise") || contains_exec(&stem, "process") {
        8
    } else {
        9
    };
    let ext_order: u8 = if ends_with_exec(&b, ".svg") {
        0
    } else if ends_with_exec(&b, ".png") {
        1
    } else if ends_with_exec(&b, ".tiff") || ends_with_exec(&b, ".tif") {
        2
    } else {
        3
    };
    (type_order, name_order, ext_order)
}

/// The sort key of a plot path: kind, name and extension order, then the
/// lowercase basename.
pub fn plot_sort_key(path: &str) -> (r: (u8, u8, u8, String))
    ensures
        r.3@ == plot_basename(path@),
        (r.0, r.1, r.2) == (
            type_order(plot_stem(r.3@)),
            name_order(plot_stem(r.3@)),
            ext_order(r.3@),
        ),
{
    let normalized = docker_path(path);
    let chars = chars_of(normalized.as_str());
    let start = last_component_start_exec(&chars);
    let last = slice_string(normalized.as_str(), start, chars.len());
    let basename = lowercase(last.as_str());
    let (t, n, e) = plot_order_of_basename(basename.as_str());
    (t, n, e, basename)
}

/// A file is listed as a plot when its lowercase extension is one of these.
pub fn is_plot_extension(ext: &str) -> (r: bool)
    ensures
        r == (ext@ == "png"@ || ext@ == "tiff"@ || ext@ == "svg"@ || ext@ == "pdf"@),
{
    let e = String::from_str(ext);
    e == String::from_str("png") || e == String::from_str("tiff") || e == String::from_str("svg")
        || e == String::from_str("pdf")
}

/// Names the standard base64 text (with `=` padding) of some bytes.
pub uninterp spec fn base64_of(bytes: Seq<u8>) -> Seq<char>;

/// Relies on `base64::engine::general_purpose::STANDARD.encode`: the padded
/// base64 text of the bytes, four characters for each started group of three.
/// It panics when that length does not fit in a `usize`, which `requires` leaves out.
#[verifier::external_body]
fn base64_standard(bytes: &Vec<u8>) -> (r: String)
    requires
        bytes@.len() / 3 * 4 + 4 <= usize::MAX,
    ensures
        r@ == base64_of(bytes@),
        r@.len() == 4 * ((bytes@.len() + 2) / 3),
{
    base64::Engine::encode(&base64::engine::general_purpose::STANDARD, bytes)
}

/// A plot image's bytes as the text the front end displays.
pub fn image_as_base64(bytes: &Vec<u8>) -> (r: String)
    requires
        bytes@.len() / 3 * 4 + 4 <= usize::MAX,
    ensures
        r@ == base64_of(bytes@),
        r@.len() == 4 * ((bytes@.len() + 2) / 3),
{
    base64_standard(bytes)
}

} // verus!
