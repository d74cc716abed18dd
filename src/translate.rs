//! Translation of the caller's flat job description (camelCase keys) into the
//! nested form the job runner reads: a working directory, one section for the
//! job's kind (`binary` or `survival`) and, when given, an `evidence` section.
use vstd::prelude::*;
use crate::json::{
    entries_view, get_field, lemma_object_view, lookup, JsonValue, JsonView,
};

verus! {

/// The entry `(to, v)` when `cfg` holds `v` under `from`; nothing otherwise.
pub open spec fn copied(cfg: JsonView, from: Seq<char>, to: Seq<char>) -> Seq<
    (Seq<char>, JsonView),
> {
    match get_field(cfg, from) {
        Some(v) => seq![(to, v)],
        None => seq![],
    }
}

/// As `copied`, but a `null` value is dropped rather than passed on.
pub open spec fn copied_unless_null(cfg: JsonView, from: Seq<char>, to: Seq<char>) -> Seq<
    (Seq<char>, JsonView),
> {
    match get_field(cfg, from) {
        Some(v) => if v == JsonView::Null {
            seq![]
        } else {
            seq![(to, v)]
        },
        None => seq![],
    }
}

/// The job is a survival analysis when its `type` is the string `survival`;
/// any other job is a binary one.
pub open spec fn is_survival(cfg: JsonView) -> bool {
    get_field(cfg, "type"@) == Some(JsonView::Str("survival"@))
}

/// Fields that both kinds of section carry.
pub open spec fn shared_fields(cfg: JsonView) -> Seq<(Seq<char>, JsonView)> {
    copied(cfg, "dataFile"@, "data_file"@) + copied(cfg, "sampleId"@, "sample_id"@) + copied(
        cfg,
        "splitProp"@,
        "split_prop"@,
    ) + copied(cfg, "numSeed"@, "num_seed"@) + copied(cfg, "outputDir"@, "output_dir"@) + copied(
        cfg,
        "freq"@,
        "freq"@,
    ) + copied(cfg, "exclude"@, "exclude"@) + copied(cfg, "include"@, "include"@)
        + copied_unless_null(cfg, "maxCandidatesPerStep"@, "max_candidates_per_step"@)
        + copied_unless_null(cfg, "prescreenSeeds"@, "prescreen_seeds"@) + copied_unless_null(
        cfg,
        "topK"@,
        "top_k"@,
    ) + copied(cfg, "pAdjustMethod"@, "p_adjust_method"@) + copied(
        cfg,
        "pThreshold"@,
        "p_threshold"@,
    )
}

/// Fields that only a survival section carries.
pub open spec fn survival_fields(cfg: JsonView) -> Seq<(Seq<char>, JsonView)> {
    copied_unless_null(cfg, "timeVariable"@, "time_variable"@) + copied(cfg, "event"@, "event"@)
        + copied(cfg, "horizon"@, "horizon"@)
}

/// Fields that only a binary section carries.
pub open spec fn binary_fields(cfg: JsonView) -> Seq<(Seq<char>, JsonView)> {
    copied(cfg, "outcome"@, "outcome"@)
}

pub open spec fn section_name(cfg: JsonView) -> Seq<char> {
    if is_survival(cfg) {
        "survival"@
    } else {
        "binary"@
    }
}

pub open spec fn section_fields(cfg: JsonView) -> Seq<(Seq<char>, JsonView)> {
    shared_fields(cfg) + if is_survival(cfg) {
        survival_fields(cfg)
    } else {
        binary_fields(cfg)
    }
}

/// The evidence sub-document's fields under their runner names.
pub open spec fn evidence_fields(ev: JsonView) -> Seq<(Seq<char>, JsonView)> {
    copied(ev, "geneFile"@, "gene_file"@) + copied(ev, "scoreThreshold"@, "score_threshold"@)
        + copied(ev, "source"@, "source"@) + copied(ev, "diseaseName"@, "disease_name"@) + copied(
        ev,
        "efoId"@,
        "efo_id"@,
    )
}

/// The `evidence` section: present exactly when the input has a non-null `evidence`.
pub open spec fn evidence_section(cfg: JsonView) -> Seq<(Seq<char>, JsonView)> {
    match get_field(cfg, "evidence"@) {
        Some(ev) => if ev == JsonView::Null {
            seq![]
        } else {
            seq![("evidence"@, JsonView::Object(evidence_fields(ev)))]
        },
        None => seq![],
    }
}

/// The working directory: the project root, or `.` when none was found.
pub open spec fn workdir_of(root: Option<Seq<char>>) -> Seq<char> {
    match root {
        Some(r) => r,
        None => "."@,
    }
}

/// The nested document for `cfg` with working directory `workdir`.
pub open spec fn translate(cfg: JsonView, workdir: Seq<char>) -> JsonView {
    JsonView::Object(
        seq![
            ("workdir"@, JsonView::Str(workdir)),
            (section_name(cfg), JsonView::Object(section_fields(cfg))),
        ] + evidence_section(cfg),
    )
}

/// The multiple-testing adjustment used when a job names none.
pub fn default_p_adjust() -> (r: String)
    ensures
        r@ == "fdr"@,
{
    String::from_str("fdr")
}

pub open spec fn root_view(root: &Option<String>) -> Option<Seq<char>> {
    match root {
        Some(r) => Some(r@),
        None => None,
    }
}

fn push_entry(out: &mut Vec<(String, JsonValue)>, key: &str, value: JsonValue)
    ensures
        entries_view(final(out)@) == entries_view(old(out)@) + seq![(key@, value@)],
{
    let k = String::from_str(key);
    out.push((k, value));
    assert(entries_view(out@) =~= entries_view(old(out)@) + seq![(key@, value@)]);
}

fn copy_field(out: &mut Vec<(String, JsonValue)>, cfg: &JsonValue, from: &str, to: &str)
    ensures
        entries_view(final(out)@) == entries_view(old(out)@) + copied(cfg@, from@, to@),
{
    match cfg.get(from) {
        Some(v) => {
            push_entry(out, to, v.duplicate());
        },
        None => {
            assert(entries_view(out@) =~= entries_view(out@) + copied(cfg@, from@, to@));
        },
    }
}

fn copy_field_unless_null(out: &mut Vec<(String, JsonValue)>, cfg: &JsonValue, from: &str, to: &str)
    ensures
        entries_view(final(out)@) == entries_view(old(out)@) + copied_unless_null(
            cfg@,
            from@,
            to@,
        ),
{
    match cfg.get(from) {
        Some(v) => {
            if v.is_null() {
                assert(entries_view(out@) =~= entries_view(out@) + copied_unless_null(
                    cfg@,
                    from@,
                    to@,
                ));
            } else {
                push_entry(out, to, v.duplicate());
            }
        },
        None => {
            assert(entries_view(out@) =~= entries_view(out@) + copied_unless_null(
                cfg@,
                from@,
                to@,
            ));
        },
    }
}

fn job_is_survival(config: &JsonValue) -> (r: bool)
    ensures
        r == is_survival(config@),
{
    proof {
        reveal_strlit("survival");
    }
    match config.get("type") {
        Some(t) => match t {
            JsonValue::Str(s) => {
                let surv = String::from_str("survival");
                *s == surv
            },
            _ => false,
        },
        None => false,
    }
}

fn translate_evidence(ev: &JsonValue) -> (r: JsonValue)
    ensures
        r@ == JsonView::Object(evidence_fields(ev@)),
{
    let mut out: Vec<(String, JsonValue)> = Vec::new();
    assert(entries_view(out@) =~= Seq::empty());
    copy_field(&mut out, ev, "geneFile", "gene_file");
    copy_field(&mut out, ev, "scoreThreshold", "score_threshold");
    copy_field(&mut out, ev, "source", "source");
    copy_field(&mut out, ev, "diseaseName", "disease_name");
    copy_field(&mut out, ev, "efoId", "efo_id");
    assert(entries_view(out@) =~= evidence_fields(ev@));
    proof {
        lemma_object_view(out);
    }
    JsonValue::Object(out)
}

/// Translates the flat job description into the runner's nested document.
/// `project_root` is the directory found for the project, if any.
pub fn transform_config_for_r(config: &JsonValue, project_root: &Option<String>) -> (r: JsonValue)
    ensures
        r@ == translate(config@, workdir_of(root_view(project_root))),
{
    let survival = job_is_survival(config);
    let mut section: Vec<(String, JsonValue)> = Vec::new();
    assert(entries_view(section@) =~= Seq::empty());
    copy_field(&mut section, config, "dataFile", "data_file");
    copy_field(&mut section, config, "sampleId", "sample_id");
    copy_field(&mut section, config, "splitProp", "split_prop");
    copy_field(&mut section, config, "numSeed", "num_seed");
    copy_field(&mut section, config, "outputDir", "output_dir");
    copy_field(&mut section, config, "freq", "freq");
    copy_field(&mut section, config, "exclude", "exclude");
    copy_field(&mut section, config, "include", "include");
    copy_field_unless_null(&mut section, config, "maxCandidatesPerStep", "max_candidates_per_step");
    copy_field_unless_null(&mut section, config, "prescreenSeeds", "prescreen_seeds");
    copy_field_unless_null(&mut section, config, "topK", "top_k");
    copy_field(&mut section, config, "pAdjustMethod", "p_adjust_method");
    copy_field(&mut section, config, "pThreshold", "p_threshold");
    assert(entries_view(section@) =~= shared_fields(config@));
    let ghost shared = entries_view(section@);
    if survival {
        copy_field_unless_null(&mut section, config, "timeVariable", "time_variable");
        copy_field(&mut section, config, "event", "event");
        copy_field(&mut section, config, "horizon", "horizon");
        assert(entries_view(section@) =~= shared + survival_fields(config@));
    } else {
        copy_field(&mut section, config, "outcome", "outcome");
        assert(entries_view(section@) =~= shared + binary_fields(config@));
    }
    proof {
        lemma_object_view(section);
    }
    let section_value = JsonValue::Object(section);
    let workdir = match project_root {
        Some(r) => r.clone(),
        None => String::from_str("."),
    };
    let mut doc: Vec<(String, JsonValue)> = Vec::new();
    assert(entries_view(doc@) =~= Seq::empty());
    push_entry(&mut doc, "workdir", JsonValue::Str(workdir));
    if survival {
        push_entry(&mut doc, "survival", section_value);
    } else {
        push_entry(&mut doc, "binary", section_value);
    }
    let ghost head = entries_view(doc@);
    match config.get("evidence") {
        Some(ev) => {
            if !ev.is_null() {
                let translated = translate_evidence(ev);
                push_entry(&mut doc, "evidence", translated);
            } else {
                assert(entries_view(doc@) =~= head + evidence_section(config@));
            }
        },
        None => {
            assert(entries_view(doc@) =~= head + evidence_section(config@));
        },
    }
    proof {
        lemma_object_view(doc);
        assert(entries_view(doc@) =~= translate(
            config@,
            workdir_of(root_view(project_root)),
        )->Object_0);
    }
    JsonValue::Object(doc)
}

broadcast proof fn lemma_lookup_concat(a: Seq<(Seq<char>, JsonView)>, b: Seq<(Seq<char>, JsonView)>, k: Seq<char>)
    ensures
        #[trigger] lookup(a + b, k) == (if lookup(a, k) is Some {
            lookup(a, k)
        } else {
            lookup(b, k)
        }),
    decreases a.len(),
{
    if a.len() == 0 {
        assert(a + b =~= b);
    } else {
        assert((a + b).drop_first() =~= a.drop_first() + b);
        lemma_lookup_concat(a.drop_first(), b, k);
    }
}

proof fn lemma_lookup_single(t: Seq<char>, v: JsonView, k: Seq<char>)
    ensures
        lookup(seq![(t, v)], k) == (if t == k {
            Some(v)
        } else {
            None
        }),
{
    let e = seq![(t, v)];
    assert(e.drop_first() =~= Seq::<(Seq<char>, JsonView)>::empty());
    assert(lookup(Seq::<(Seq<char>, JsonView)>::empty(), k) is None);
}

broadcast proof fn lemma_lookup_copied(cfg: JsonView, from: Seq<char>, to: Seq<char>, k: Seq<char>)
    ensures
        #[trigger] lookup(copied(cfg, from, to), k) == (if to == k {
            get_field(cfg, from)
        } else {
            None
        }),
{
    match get_field(cfg, from) {
        Some(v) => lemma_lookup_single(to, v, k),
        None => {},
    }
}

broadcast proof fn lemma_lookup_copied_unless_null(
    cfg: JsonView,
    from: Seq<char>,
    to: Seq<char>,
    k: Seq<char>,
)
    ensures
        to != k ==> #[trigger] lookup(copied_unless_null(cfg, from, to), k) is None,
{
    match get_field(cfg, from) {
        Some(v) => if v != JsonView::Null {
            lemma_lookup_single(to, v, k)
        },
        None => {},
    }
}

proof fn lemma_top_lookup(cfg: JsonView, workdir: Seq<char>, k: Seq<char>)
    requires
        k != "workdir"@,
    ensures
        get_field(translate(cfg, workdir), k) == (if section_name(cfg) == k {
            Some(JsonView::Object(section_fields(cfg)))
        } else {
            lookup(evidence_section(cfg), k)
        }),
{
    let w = ("workdir"@, JsonView::Str(workdir));
    let sec = (section_name(cfg), JsonView::Object(section_fields(cfg)));
    assert(seq![w, sec] =~= seq![w] + seq![sec]);
    lemma_lookup_concat(seq![w, sec], evidence_section(cfg), k);
    lemma_lookup_concat(seq![w], seq![sec], k);
    lemma_lookup_single(w.0, w.1, k);
    lemma_lookup_single(sec.0, sec.1, k);
}

proof fn lemma_evidence_lookup(cfg: JsonView, k: Seq<char>)
    requires
        k != "evidence"@,
    ensures
        lookup(evidence_section(cfg), k) is None,
{
    match get_field(cfg, "evidence"@) {
        Some(ev) => if ev != JsonView::Null {
            lemma_lookup_single("evidence"@, JsonView::Object(evidence_fields(ev)), k);
        },
        None => {},
    }
}

/// Keys of the section that both kinds of job carry.
pub open spec fn shared_key(k: Seq<char>) -> bool {
    k == "data_file"@ || k == "sample_id"@ || k == "split_prop"@ || k == "num_seed"@ || k == "output_dir"@ || k == "freq"@ || k == "exclude"@ || k == "include"@ || k == "max_candidates_per_step"@ || k == "prescreen_seeds"@ || k == "top_k"@ || k == "p_adjust_method"@ || k == "p_threshold"@
}

/// Keys a binary section may hold: the shared ones and `outcome`.
pub open spec fn binary_key(k: Seq<char>) -> bool {
    shared_key(k) || k == "outcome"@
}

/// Keys a survival section may hold: the shared ones, `time_variable`,
/// `event` and `horizon`.
pub open spec fn survival_key(k: Seq<char>) -> bool {
    shared_key(k) || k == "time_variable"@ || k == "event"@ || k == "horizon"@
}

/// Every key of `e` satisfies `allowed`.
pub open spec fn keys_within(e: Seq<(Seq<char>, JsonView)>, allowed: spec_fn(Seq<char>) -> bool) -> bool {
    forall|i: int| 0 <= i < e.len() ==> allowed(#[trigger] e[i].0)
}

broadcast proof fn lemma_keys_within_concat(
    a: Seq<(Seq<char>, JsonView)>,
    b: Seq<(Seq<char>, JsonView)>,
    allowed: spec_fn(Seq<char>) -> bool,
)
    requires
        keys_within(a, allowed),
        keys_within(b, allowed),
    ensures
        #[trigger] keys_within(a + b, allowed),
{
    assert forall|i: int| 0 <= i < (a + b).len() implies allowed(#[trigger] (a + b)[i].0) by {
        if i >= a.len() {
            assert((a + b)[i] == b[i - a.len()]);
        }
    }
}

broadcast proof fn lemma_keys_within_copied(
    cfg: JsonView,
    from: Seq<char>,
    to: Seq<char>,
    allowed: spec_fn(Seq<char>) -> bool,
)
    requires
        allowed(to),
    ensures
        #[trigger] keys_within(copied(cfg, from, to), allowed),
        #[trigger] keys_within(copied_unless_null(cfg, from, to), allowed),
{
}

/// Two texts differ when their lengths or their first characters do.
proof fn lemma_texts_differ(a: Seq<char>, b: Seq<char>)
    requires
        a.len() != b.len() || (a.len() > 0 && b.len() > 0 && a[0] != b[0]),
    ensures
        a != b,
{
}

/// Whatever a binary job's input holds, its document has no survival section,
/// and its binary section holds only the shared keys and `outcome`; so no
/// `time_variable`, `event` or `horizon`.
pub proof fn lemma_binary_section_keys(cfg: JsonView, workdir: Seq<char>)
    requires
        !is_survival(cfg),
    ensures
        get_field(translate(cfg, workdir), "survival"@) is None,
        get_field(translate(cfg, workdir), "binary"@) == Some(JsonView::Object(section_fields(cfg))),
        keys_within(section_fields(cfg), |k: Seq<char>| binary_key(k)),
        !binary_key("time_variable"@) && !binary_key("event"@) && !binary_key("horizon"@),
{
    reveal_strlit("data_file");
    reveal_strlit("sample_id");
    reveal_strlit("split_prop");
    reveal_strlit("num_seed");
    reveal_strlit("output_dir");
    reveal_strlit("freq");
    reveal_strlit("exclude");
    reveal_strlit("include");
    reveal_strlit("max_candidates_per_step");
    reveal_strlit("prescreen_seeds");
    reveal_strlit("top_k");
    reveal_strlit("p_adjust_method");
    reveal_strlit("p_threshold");
    reveal_strlit("outcome");
    reveal_strlit("time_variable");
    reveal_strlit("event");
    reveal_strlit("horizon");
    reveal_strlit("survival");
    reveal_strlit("binary");
    reveal_strlit("workdir");
    reveal_strlit("evidence");
    broadcast use lemma_keys_within_concat, lemma_keys_within_copied;

    lemma_texts_differ("binary"@, "workdir"@);
    lemma_texts_differ("survival"@, "workdir"@);
    lemma_texts_differ("survival"@, "evidence"@);
    lemma_texts_differ("survival"@, "binary"@);
    lemma_top_lookup(cfg, workdir, "survival"@);
    lemma_top_lookup(cfg, workdir, "binary"@);
    lemma_evidence_lookup(cfg, "survival"@);
    assert(keys_within(shared_fields(cfg), |k: Seq<char>| binary_key(k)));
    assert(keys_within(binary_fields(cfg), |k: Seq<char>| binary_key(k)));
    lemma_texts_differ("time_variable"@, "data_file"@);
    lemma_texts_differ("time_variable"@, "sample_id"@);
    lemma_texts_differ("time_variable"@, "split_prop"@);
    lemma_texts_differ("time_variable"@, "num_seed"@);
    lemma_texts_differ("time_variable"@, "output_dir"@);
    lemma_texts_differ("time_variable"@, "freq"@);
    lemma_texts_differ("time_variable"@, "exclude"@);
    lemma_texts_differ("time_variable"@, "include"@);
    lemma_texts_differ("time_variable"@, "max_candidates_per_step"@);
    lemma_texts_differ("time_variable"@, "prescreen_seeds"@);
    lemma_texts_differ("time_variable"@, "top_k"@);
    lemma_texts_differ("time_variable"@, "p_adjust_method"@);
    lemma_texts_differ("time_variable"@, "p_threshold"@);
    lemma_texts_differ("time_variable"@, "outcome"@);
    lemma_texts_differ("event"@, "data_file"@);
    lemma_texts_differ("event"@, "sample_id"@);
    lemma_texts_differ("event"@, "split_prop"@);
    lemma_texts_differ("event"@, "num_seed"@);
    lemma_texts_differ("event"@, "output_dir"@);
    lemma_texts_differ("event"@, "freq"@);
    lemma_texts_differ("event"@, "exclude"@);
    lemma_texts_differ("event"@, "include"@);
    lemma_texts_differ("event"@, "max_candidates_per_step"@);
    lemma_texts_differ("event"@, "prescreen_seeds"@);
    lemma_texts_differ("event"@, "top_k"@);
    lemma_texts_differ("event"@, "p_adjust_method"@);
    lemma_texts_differ("event"@, "p_threshold"@);
    lemma_texts_differ("event"@, "outcome"@);
    lemma_texts_differ("horizon"@, "data_file"@);
    lemma_texts_differ("horizon"@, "sample_id"@);
    lemma_texts_differ("horizon"@, "split_prop"@);
    lemma_texts_differ("horizon"@, "num_seed"@);
    lemma_texts_differ("horizon"@, "output_dir"@);
    lemma_texts_differ("horizon"@, "freq"@);
    lemma_texts_differ("horizon"@, "exclude"@);
    lemma_texts_differ("horizon"@, "include"@);
    lemma_texts_differ("horizon"@, "max_candidates_per_step"@);
    lemma_texts_differ("horizon"@, "prescreen_seeds"@);
    lemma_texts_differ("horizon"@, "top_k"@);
    lemma_texts_differ("horizon"@, "p_adjust_method"@);
    lemma_texts_differ("horizon"@, "p_threshold"@);
    lemma_texts_differ("horizon"@, "outcome"@);
}

/// The binary section's keys, read back: no `time_variable` whatever the input.
pub proof fn lemma_binary_excludes_time_variable(cfg: JsonView, workdir: Seq<char>)
    requires
        !is_survival(cfg),
    ensures
        get_field(translate(cfg, workdir), "survival"@) is None,
        match get_field(translate(cfg, workdir), "binary"@) {
            Some(sec) => get_field(sec, "time_variable"@) is None,
            None => false,
        },
{
    lemma_binary_section_keys(cfg, workdir);
    lemma_lookup_outside(section_fields(cfg), |k: Seq<char>| binary_key(k), "time_variable"@);
}

/// Whatever a survival job's input holds, its document has no binary section,
/// and its survival section holds only the shared keys, `time_variable`,
/// `event` and `horizon`; so no `outcome`.
pub proof fn lemma_survival_section_keys(cfg: JsonView, workdir: Seq<char>)
    requires
        is_survival(cfg),
    ensures
        get_field(translate(cfg, workdir), "binary"@) is None,
        get_field(translate(cfg, workdir), "survival"@) == Some(
            JsonView::Object(section_fields(cfg)),
        ),
        keys_within(section_fields(cfg), |k: Seq<char>| survival_key(k)),
        !survival_key("outcome"@),
        get_field(translate(cfg, workdir), "outcome"@) is None,
{
    reveal_strlit("data_file");
    reveal_strlit("sample_id");
    reveal_strlit("split_prop");
    reveal_strlit("num_seed");
    reveal_strlit("output_dir");
    reveal_strlit("freq");
    reveal_strlit("exclude");
    reveal_strlit("include");
    reveal_strlit("max_candidates_per_step");
    reveal_strlit("prescreen_seeds");
    reveal_strlit("top_k");
    reveal_strlit("p_adjust_method");
    reveal_strlit("p_threshold");
    reveal_strlit("outcome");
    reveal_strlit("time_variable");
    reveal_strlit("event");
    reveal_strlit("horizon");
    reveal_strlit("survival");
    reveal_strlit("binary");
    reveal_strlit("workdir");
    reveal_strlit("evidence");
    broadcast use lemma_keys_within_concat, lemma_keys_within_copied;

    lemma_texts_differ("binary"@, "workdir"@);
    lemma_texts_differ("survival"@, "workdir"@);
    lemma_texts_differ("binary"@, "evidence"@);
    lemma_texts_differ("outcome"@, "workdir"@);
    lemma_texts_differ("outcome"@, "survival"@);
    lemma_texts_differ("outcome"@, "evidence"@);
    lemma_top_lookup(cfg, workdir, "survival"@);
    lemma_top_lookup(cfg, workdir, "binary"@);
    lemma_top_lookup(cfg, workdir, "outcome"@);
    lemma_evidence_lookup(cfg, "binary"@);
    lemma_evidence_lookup(cfg, "outcome"@);
    assert(keys_within(shared_fields(cfg), |k: Seq<char>| survival_key(k)));
    assert(keys_within(survival_fields(cfg), |k: Seq<char>| survival_key(k)));
    lemma_texts_differ("outcome"@, "data_file"@);
    lemma_texts_differ("outcome"@, "sample_id"@);
    lemma_texts_differ("outcome"@, "split_prop"@);
    lemma_texts_differ("outcome"@, "num_seed"@);
    lemma_texts_differ("outcome"@, "output_dir"@);
    lemma_texts_differ("outcome"@, "freq"@);
    lemma_texts_differ("outcome"@, "exclude"@);
    lemma_texts_differ("outcome"@, "include"@);
    lemma_texts_differ("outcome"@, "max_candidates_per_step"@);
    lemma_texts_differ("outcome"@, "prescreen_seeds"@);
    lemma_texts_differ("outcome"@, "top_k"@);
    lemma_texts_differ("outcome"@, "p_adjust_method"@);
    lemma_texts_differ("outcome"@, "p_threshold"@);
    lemma_texts_differ("outcome"@, "time_variable"@);
    lemma_texts_differ("outcome"@, "event"@);
    lemma_texts_differ("outcome"@, "horizon"@);
}

/// The survival section's keys, read back: no `outcome` whatever the input.
pub proof fn lemma_survival_excludes_outcome(cfg: JsonView, workdir: Seq<char>)
    requires
        is_survival(cfg),
    ensures
        get_field(translate(cfg, workdir), "binary"@) is None,
        match get_field(translate(cfg, workdir), "survival"@) {
            Some(sec) => get_field(sec, "outcome"@) is None,
            None => false,
        },
{
    lemma_survival_section_keys(cfg, workdir);
    lemma_lookup_outside(section_fields(cfg), |k: Seq<char>| survival_key(k), "outcome"@);
}

proof fn lemma_lookup_outside(
    e: Seq<(Seq<char>, JsonView)>,
    allowed: spec_fn(Seq<char>) -> bool,
    k: Seq<char>,
)
    requires
        keys_within(e, allowed),
        !allowed(k),
    ensures
        lookup(e, k) is None,
    decreases e.len(),
{
    if e.len() > 0 {
        assert(allowed(e[0].0));
        assert(keys_within(e.drop_first(), allowed)) by {
            assert forall|i: int| 0 <= i < e.drop_first().len() implies allowed(
                #[trigger] e.drop_first()[i].0,
            ) by {
                assert(e.drop_first()[i] == e[i + 1]);
            }
        }
        lemma_lookup_outside(e.drop_first(), allowed, k);
    }
}

/// The translation depends on the input and the working directory alone: two
/// translations of one input with one working directory are the same document.
pub proof fn lemma_translation_deterministic(
    cfg1: JsonView,
    cfg2: JsonView,
    workdir1: Seq<char>,
    workdir2: Seq<char>,
)
    requires
        cfg1 == cfg2,
        workdir1 == workdir2,
    ensures
        translate(cfg1, workdir1) == translate(cfg2, workdir2),
{
}

} // verus!
