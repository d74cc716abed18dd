//! The remote knowledge base's side of evidence files: the queries sent, when
//! to ask for another page of associated targets, which search hits are
//! diseases, and the names of the cached files.
use vstd::prelude::*;
use crate::text::{chars_of, decimal, push_decimal, slice_string, trim, trim_bounds};

verus! {

/// Number of associated targets asked for per page.
pub const PAGE_SIZE: usize = 3000;

/// Number of hits asked for per search.
pub const SEARCH_SIZE: u64 = 20;

/// `s` with every `c` replaced by `rep`.
pub open spec fn replaced(s: Seq<char>, c: char, rep: Seq<char>) -> Seq<char>
    decreases s.len(),
{
    if s.len() == 0 {
        seq![]
    } else {
        replaced(s.drop_last(), c, rep) + if s.last() == c {
            rep
        } else {
            seq![s.last()]
        }
    }
}

proof fn lemma_replaced_concat(x: Seq<char>, y: Seq<char>, c: char, rep: Seq<char>)
    ensures
        replaced(x + y, c, rep) == replaced(x, c, rep) + replaced(y, c, rep),
    decreases y.len(),
{
    if y.len() == 0 {
        assert(x + y =~= x);
        assert(replaced(x, c, rep) + Seq::<char>::empty() =~= replaced(x, c, rep));
    } else {
        assert((x + y).drop_last() =~= x + y.drop_last());
        assert((x + y).last() == y.last());
        lemma_replaced_concat(x, y.drop_last(), c, rep);
        assert(replaced(x, c, rep) + replaced(y.drop_last(), c, rep) + (if y.last() == c {
            rep
        } else {
            seq![y.last()]
        }) =~= replaced(x, c, rep) + (replaced(y.drop_last(), c, rep) + (if y.last() == c {
            rep
        } else {
            seq![y.last()]
        })));
    }
}

proof fn lemma_replaced_absent(y: Seq<char>, c: char, rep: Seq<char>)
    requires
        forall|j: int| 0 <= j < y.len() ==> y[j] != c,
    ensures
        replaced(y, c, rep) == y,
    decreases y.len(),
{
    if y.len() > 0 {
        lemma_replaced_absent(y.drop_last(), c, rep);
        assert(y.drop_last() + seq![y.last()] =~= y);
    }
}

proof fn lemma_replaced_single(c: char, rep: Seq<char>)
    ensures
        replaced(seq![c], c, rep) == rep,
{
    assert(seq![c].drop_last() =~= Seq::<char>::empty());
    assert(seq![c].last() == c);
    assert(replaced(Seq::<char>::empty(), c, rep) == Seq::<char>::empty());
    assert(Seq::<char>::empty() + rep =~= rep);
}

/// `s` with every `c` replaced by the text `rep`.
pub fn replace_char(s: &str, c: char, rep: &str) -> (r: String)
    ensures
        r@ == replaced(s@, c, rep@),
{
    let v = chars_of(s);
    let n = v.len();
    let mut out = String::new();
    let mut last: usize = 0;
    let mut i: usize = 0;
    assert(replaced(Seq::<char>::empty(), c, rep@) == Seq::<char>::empty());
    assert(v@.subrange(0, 0) =~= Seq::<char>::empty());
    while i < n
        invariant
            n == v@.len(),
            v@ == s@,
            last <= i <= n,
            out@ == replaced(v@.subrange(0, last as int), c, rep@),
            forall|j: int| last <= j < i ==> v@[j] != c,
        decreases n - i,
    {
        if v[i] == c {
            let piece = slice_string(s, last, i);
            out.append(piece.as_str());
            out.append(rep);
            proof {
                let a = v@.subrange(0, last as int);
                let b = v@.subrange(last as int, i as int);
                assert(v@.subrange(0, i + 1) =~= a + b + seq![c]);
                lemma_replaced_concat(a + b, seq![c], c, rep@);
                lemma_replaced_concat(a, b, c, rep@);
                assert forall|j: int| 0 <= j < b.len() implies b[j] != c by {
                    assert(b[j] == v@[last + j]);
                }
                lemma_replaced_absent(b, c, rep@);
                lemma_replaced_single(c, rep@);
            }
            last = i + 1;
        }
        i = i + 1;
    }
    let piece = slice_string(s, last, n);
    out.append(piece.as_str());
    proof {
        let a = v@.subrange(0, last as int);
        let b = v@.subrange(last as int, n as int);
        assert(v@ =~= a + b);
        lemma_replaced_concat(a, b, c, rep@);
        assert forall|j: int| 0 <= j < b.len() implies b[j] != c by {
            assert(b[j] == v@[last + j]);
        }
        lemma_replaced_absent(b, c, rep@);
    }
    out
}

/// The identifier of a disease as cached file names carry it: `:` becomes `_`.
pub fn cache_file_id(efo_id: &str) -> (r: String)
    ensures
        r@ == replaced(efo_id@, ':', "_"@),
{
    replace_char(efo_id, ':', "_")
}

/// The cached gene list's file name.
pub fn cache_csv_name(efo_id: &str) -> (r: String)
    ensures
        r@ == replaced(efo_id@, ':', "_"@) + ".csv"@,
{
    let mut r = cache_file_id(efo_id);
    r.append(".csv");
    r
}

/// The cached metadata's file name.
pub fn cache_meta_name(efo_id: &str) -> (r: String)
    ensures
        r@ == replaced(efo_id@, ':', "_"@) + ".meta.json"@,
{
    let mut r = cache_file_id(efo_id);
    r.append(".meta.json");
    r
}

/// Another page of targets is asked for only while the last page was full
/// and fewer targets than the server reported have arrived.
pub fn has_more_pages(page_len: usize, fetched: usize, reported_total: usize) -> (r: bool)
    ensures
        r == (page_len >= PAGE_SIZE && fetched < reported_total),
{
    !(page_len < PAGE_SIZE || fetched >= reported_total)
}

/// Of the search hits, only those whose entity is a disease are kept.
pub fn is_disease_hit(entity: &str) -> (r: bool)
    ensures
        r == (entity@ == "disease"@),
{
    let e = String::from_str(entity);
    let d = String::from_str("disease");
    e == d
}

/// A search needs at least two bytes of text once trimmed: an empty query, or
/// a single ASCII character, is not sent.
pub open spec fn query_too_short(query: Seq<char>) -> bool {
    let t = trim(query);
    t.len() == 0 || (t.len() == 1 && (t[0] as u32) < 0x80)
}

pub fn search_too_short(query: &str) -> (r: bool)
    ensures
        r == query_too_short(query@),
{
    let s = chars_of(query);
    let (a, b) = trim_bounds(&s, 0, s.len());
    assert(s@.subrange(0, s@.len() as int) =~= s@);
    let ghost t = trim(query@);
    assert(t == s@.subrange(a as int, b as int));
    if a == b {
        return true;
    }
    assert(t[0] == s@[a as int]);
    b - a == 1 && (s[a] as u32) < 0x80
}

/// The search request's query text, with the user's quotes escaped.
pub open spec fn search_query_spec(query: Seq<char>) -> Seq<char> {
    "{\n  search(queryString: \""@ + replaced(query, '"', "\\\""@)
        + "\", entityNames: [\"disease\"], page: { index: 0, size: "@ + decimal(SEARCH_SIZE as nat)
        + " }) {\n    hits {\n      id\n      name\n      description\n      entity\n    }\n  }\n}"@
}

pub fn search_query(query: &str) -> (r: String)
    ensures
        r@ == search_query_spec(query@),
{
    let mut r = String::from_str("{\n  search(queryString: \"");
    let escaped = replace_char(query, '"', "\\\"");
    r.append(escaped.as_str());
    r.append("\", entityNames: [\"disease\"], page: { index: 0, size: ");
    push_decimal(&mut r, SEARCH_SIZE);
    r.append(" }) {\n    hits {\n      id\n      name\n      description\n      entity\n    }\n  }\n}");
    r
}

/// The request for one page of a disease's associated targets.
pub open spec fn targets_query_spec(efo_id: Seq<char>, page_index: nat) -> Seq<char> {
    "{\n  disease(efoId: \""@ + efo_id + "\") {\n    associatedTargets(page: { index: "@ + decimal(
        page_index,
    ) + ", size: "@ + decimal(PAGE_SIZE as nat)
        + " }) {\n      count\n      rows {\n        target {\n          approvedSymbol\n        }\n        score\n      }\n    }\n  }\n}"@
}

pub fn targets_query(efo_id: &str, page_index: u64) -> (r: String)
    ensures
        r@ == targets_query_spec(efo_id@, page_index as nat),
{
    let mut r = String::from_str("{\n  disease(efoId: \"");
    r.append(efo_id);
    r.append("\") {\n    associatedTargets(page: { index: ");
    push_decimal(&mut r, page_index);
    r.append(", size: ");
    push_decimal(&mut r, PAGE_SIZE as u64);
    r.append(
        " }) {\n      count\n      rows {\n        target {\n          approvedSymbol\n        }\n        score\n      }\n    }\n  }\n}",
    );
    r
}

/// A disease found by a search.
pub struct Disease {
    pub efo_id: String,
    pub name: String,
    pub description: String,
}

/// Where a download of associated genes was cached, and how many genes it holds.
pub struct FetchGenesResult {
    pub file_path: String,
    pub gene_count: usize,
}

/// A cached evidence file with what its metadata records.
pub struct CachedEvidence {
    pub efo_id: String,
    pub disease_name: String,
    pub gene_count: usize,
    pub fetched_at: String,
    pub file_path: String,
}

/// How many genes of a cached file there are, and how many pass a score threshold.
pub struct FilteredCount {
    pub total: usize,
    pub passed: usize,
}

} // verus!
