//! Bundled preset job descriptions, recognised by their file names:
//! `TCGA_<cohort>[_opentargets]_analysis.yaml`.
use vstd::prelude::*;
use crate::plots::{contains, contains_exec};
use crate::text::{chars_of, ends_with, occurs_at, occurs_at_exec, slice_string, starts_with};

verus! {

/// A preset that the front end offers.
pub struct TcgaPreset {
    pub id: String,
    pub label: String,
    pub config_path: String,
    pub has_evidence: bool,
}

/// `s` with every occurrence of a non-empty `p`, from left to right and not
/// overlapping, replaced by `r`, as `str::replace` does.
pub open spec fn replace_all(s: Seq<char>, p: Seq<char>, r: Seq<char>) -> Seq<char>
    decreases s.len(),
{
    if s.len() == 0 || p.len() == 0 {
        s
    } else if occurs_at(s, 0, p) {
        r + replace_all(s.subrange(p.len() as int, s.len() as int), p, r)
    } else {
        seq![s[0]] + replace_all(s.subrange(1, s.len() as int), p, r)
    }
}

/// Replaces every occurrence of the non-empty `p` in `s` by `r`.
pub fn replace_text(s: &str, p: &str, r: &str) -> (out: String)
    requires
        p@.len() > 0,
    ensures
        out@ == replace_all(s@, p@, r@),
{
    let v = chars_of(s);
    let n = v.len();
    let m = p.unicode_len();
    let mut out = String::new();
    let mut last: usize = 0;
    let mut i: usize = 0;
    assert(v@.subrange(0, n as int) =~= v@);
    while i < n
        invariant
            n == v@.len(),
            v@ == s@,
            m == p@.len(),
            m > 0,
            last <= i <= n,
            replace_all(s@, p@, r@) == out@ + v@.subrange(last as int, i as int) + replace_all(
                v@.subrange(i as int, n as int),
                p@,
                r@,
            ),
        decreases n - i,
    {
        let ghost rest = v@.subrange(i as int, n as int);
        if occurs_at_exec(&v, i, p) {
            let piece = slice_string(s, last, i);
            let ghost before = out@;
            out.append(piece.as_str());
            out.append(r);
            proof {
                assert(occurs_at(rest, 0, p@)) by {
                    assert(rest.subrange(0, m as int) =~= v@.subrange(i as int, i + m));
                }
                assert(rest.subrange(m as int, rest.len() as int) =~= v@.subrange(i + m, n as int));
                assert(v@.subrange(i + m, i + m) =~= Seq::<char>::empty());
                assert(out@ + v@.subrange(i + m, i + m) + replace_all(
                    v@.subrange(i + m, n as int),
                    p@,
                    r@,
                ) =~= before + v@.subrange(last as int, i as int) + replace_all(rest, p@, r@));
            }
            i = i + m;
            last = i;
        } else {
            proof {
                assert(!occurs_at(rest, 0, p@)) by {
                    if occurs_at(rest, 0, p@) {
                        assert(rest.subrange(0, m as int) =~= v@.subrange(i as int, i + m));
                    }
                }
                assert(rest.subrange(1, rest.len() as int) =~= v@.subrange(i + 1, n as int));
                assert(v@.subrange(last as int, i + 1) =~= v@.subrange(last as int, i as int)
                    + seq![v@[i as int]]);
                assert(out@ + v@.subrange(last as int, i + 1) + replace_all(
                    v@.subrange(i + 1, n as int),
                    p@,
                    r@,
                ) =~= out@ + v@.subrange(last as int, i as int) + replace_all(rest, p@, r@));
            }
            i = i + 1;
        }
    }
    let piece = slice_string(s, last, n);
    out.append(piece.as_str());
    proof {
        assert(replace_all(v@.subrange(n as int, n as int), p@, r@) == Seq::<char>::empty());
        assert(out@ =~= replace_all(s@, p@, r@));
    }
    out
}

/// The preset named by the file stem `stem`, if the stem has a preset's form.
pub open spec fn preset_spec(stem: Seq<char>) -> Option<(Seq<char>, Seq<char>, bool)> {
    if starts_with(stem, "TCGA_"@) && ends_with(stem, "_analysis"@) {
        let id = replace_all(replace_all(stem, "_analysis"@, ""@), "_opentargets"@, ""@);
        Some((id, replace_all(replace_all(id, "TCGA_"@, ""@), "_"@, " "@), contains(stem, "opentargets"@)))
    } else {
        None
    }
}

/// The preset for a configuration file, from its stem; `path` is where it lies.
pub fn preset_from_stem(stem: &str, path: &str) -> (r: Option<TcgaPreset>)
    ensures
        match (r, preset_spec(stem@)) {
            (Some(p), Some((id, label, ev))) => p.id@ == id && p.label@ == label && p.has_evidence
                == ev && p.config_path@ == path@,
            (None, None) => true,
            _ => false,
        },
{
    let s = chars_of(stem);
    let m = "_analysis".unicode_len();
    if !occurs_at_exec(&s, 0, "TCGA_") || m > s.len() || !occurs_at_exec(&s, s.len() - m, "_analysis") {
        return None;
    }
    proof {
        reveal_strlit("_analysis");
        reveal_strlit("_opentargets");
        reveal_strlit("TCGA_");
        reveal_strlit("_");
    }
    let id = replace_text(&replace_text(stem, "_analysis", ""), "_opentargets", "");
    let label = replace_text(&replace_text(id.as_str(), "TCGA_", ""), "_", " ");
    let has_evidence = contains_exec(&s, "opentargets");
    Some(TcgaPreset { id, label, config_path: String::from_str(path), has_evidence })
}

/// The file-type filter that the save dialog offers for an extension.
pub fn save_filter_name(ext: &str) -> (r: &'static str)
    ensures
        ext@ == "svg"@ ==> r@ == "SVG Image"@,
        ext@ == "tiff"@ ==> r@ == "TIFF Image"@,
        ext@ == "png"@ ==> r@ == "PNG Image"@,
        ext@ == "pdf"@ ==> r@ == "PDF Document"@,
        ext@ == "csv"@ ==> r@ == "CSV File"@,
        !(ext@ == "svg"@ || ext@ == "tiff"@ || ext@ == "png"@ || ext@ == "pdf"@ || ext@ == "csv"@)
            ==> r@ == "All Files"@,
{
    proof {
        reveal_strlit("svg");
        reveal_strlit("tiff");
        reveal_strlit("png");
        reveal_strlit("pdf");
        reveal_strlit("csv");
        assert("svg"@[0] != "tiff"@[0] && "svg"@[0] != "png"@[0] && "svg"@[0] != "pdf"@[0]);
        assert("tiff"@.len() != "png"@.len() && "tiff"@.len() != "pdf"@.len());
        assert("png"@[1] != "pdf"@[1] && "png"@[0] != "csv"@[0] && "pdf"@[0] != "csv"@[0]);
        assert("svg"@[0] != "csv"@[0] && "tiff"@.len() != "csv"@.len());
    }
    let e = String::from_str(ext);
    if e == String::from_str("svg") {
        "SVG Image"
    } else if e == String::from_str("tiff") {
        "TIFF Image"
    } else if e == String::from_str("png") {
        "PNG Image"
    } else if e == String::from_str("pdf") {
        "PDF Document"
    } else if e == String::from_str("csv") {
        "CSV File"
    } else {
        "All Files"
    }
}

} // verus!
