//! Checks of a job description before it is run. The checks on numbers that
//! are not whole (the horizon, the split proportion) and on the file system
//! are made by the caller and handed in; this module decides the messages.
use vstd::prelude::*;
use crate::backend::strings_view;
use crate::docker::str_field;
use crate::json::{JsonValue, JsonView};

verus! {

/// What the caller found of the numeric fields and of the data file.
pub struct NumericChecks {
    /// `horizon` is a number greater than zero.
    pub horizon_positive: bool,
    /// `splitProp` is a number outside 0.5 to 0.9.
    pub split_prop_out_of_range: bool,
    /// `numSeed` is a whole number below one.
    pub num_seed_below_one: bool,
    /// `dataFile` names a path that does not exist.
    pub data_file_missing: bool,
}

pub open spec fn when(c: bool, msg: Seq<char>) -> Seq<Seq<char>> {
    if c {
        seq![msg]
    } else {
        seq![]
    }
}

/// The type text, or the empty text when `type` is not a string.
pub open spec fn type_text(cfg: JsonView) -> Seq<char> {
    str_field(cfg, "type"@)
}

pub open spec fn kind_errors(cfg: JsonView, checks: NumericChecks) -> Seq<Seq<char>> {
    let t = type_text(cfg);
    if t == "binary"@ {
        when(
            str_field(cfg, "outcome"@).len() == 0,
            "Outcome column is required for binary analysis"@,
        )
    } else if t == "survival"@ {
        when(
            str_field(cfg, "event"@).len() == 0,
            "Event column is required for survival analysis"@,
        ) + when(!checks.horizon_positive, "Horizon must be positive for survival analysis"@)
    } else {
        seq!["Unknown analysis type: '"@ + t + "'"@]
    }
}

/// The messages for a job description, in the order they are reported.
pub open spec fn validation_errors(cfg: JsonView, checks: NumericChecks) -> Seq<Seq<char>> {
    when(str_field(cfg, "dataFile"@).len() == 0, "Data file is required"@) + when(
        str_field(cfg, "sampleId"@).len() == 0,
        "Sample ID column is required"@,
    ) + when(str_field(cfg, "outputDir"@).len() == 0, "Output directory is required"@)
        + kind_errors(cfg, checks) + when(
        checks.split_prop_out_of_range,
        "Split proportion must be between 0.5 and 0.9"@,
    ) + when(checks.num_seed_below_one, "Number of seeds must be at least 1"@) + when(
        str_field(cfg, "dataFile"@).len() > 0 && checks.data_file_missing,
        "Data file not found: "@ + str_field(cfg, "dataFile"@),
    )
}

fn field_text(config: &JsonValue, key: &str) -> (r: String)
    ensures
        r@ == str_field(config@, key@),
{
    match config.get(key) {
        Some(JsonValue::Str(s)) => s.clone(),
        _ => String::new(),
    }
}

fn push_when(out: &mut Vec<String>, c: bool, msg: String)
    ensures
        strings_view(final(out)@) == strings_view(old(out)@) + when(c, msg@),
{
    let ghost before = out@;
    if c {
        out.push(msg);
    }
    assert(strings_view(out@) =~= strings_view(before) + when(c, msg@));
}

/// The problems found in a job description; empty when it can be run.
pub fn config_validate(config: &JsonValue, checks: &NumericChecks) -> (r: Vec<String>)
    ensures
        strings_view(r@) == validation_errors(config@, *checks),
{
    let mut out: Vec<String> = Vec::new();
    assert(strings_view(out@) =~= Seq::<Seq<char>>::empty());
    let data_file = field_text(config, "dataFile");
    let data_empty = data_file.as_str().unicode_len() == 0;
    push_when(&mut out, data_empty, String::from_str("Data file is required"));
    let sample = field_text(config, "sampleId");
    push_when(
        &mut out,
        sample.as_str().unicode_len() == 0,
        String::from_str("Sample ID column is required"),
    );
    let output = field_text(config, "outputDir");
    push_when(
        &mut out,
        output.as_str().unicode_len() == 0,
        String::from_str("Output directory is required"),
    );
    let ghost head = strings_view(out@);
    let t = field_text(config, "type");
    let binary = String::from_str("binary");
    let survival = String::from_str("survival");
    if t == binary {
        let outcome = field_text(config, "outcome");
        push_when(
            &mut out,
            outcome.as_str().unicode_len() == 0,
            String::from_str("Outcome column is required for binary analysis"),
        );
    } else if t == survival {
        let event = field_text(config, "event");
        push_when(
            &mut out,
            event.as_str().unicode_len() == 0,
            String::from_str("Event column is required for survival analysis"),
        );
        push_when(
            &mut out,
            !checks.horizon_positive,
            String::from_str("Horizon must be positive for survival analysis"),
        );
        assert(strings_view(out@) =~= head + kind_errors(config@, *checks));
    } else {
        let mut msg = String::from_str("Unknown analysis type: '");
        msg.append(t.as_str());
        msg.append("'");
        push_when(&mut out, true, msg);
    }
    assert(strings_view(out@) =~= head + kind_errors(config@, *checks));
    push_when(
        &mut out,
        checks.split_prop_out_of_range,
        String::from_str("Split proportion must be between 0.5 and 0.9"),
    );
    push_when(
        &mut out,
        checks.num_seed_below_one,
        String::from_str("Number of seeds must be at least 1"),
    );
    let mut msg = String::from_str("Data file not found: ");
    msg.append(data_file.as_str());
    push_when(&mut out, !data_empty && checks.data_file_missing, msg);
    assert(strings_view(out@) =~= validation_errors(config@, *checks));
    out
}

} // verus!
