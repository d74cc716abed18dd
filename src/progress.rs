//! Recognition of progress markers in a job's output lines.
//!
//! Three grammars are tried in order: the namespaced `STEPWISE_LOG:Iteration`
//! marker (an iteration of a total, or a completed iteration), the namespaced
//! `STEPWISE_LOG:Total iterations:` marker, and a bracketed `[current/total] message`.
use vstd::prelude::*;
use crate::text::{
    all_digits, all_ws, chars_of, is_digit, is_ws, lemma_find_char_at, lemma_find_char_none,
    lemma_parse_digits, lemma_trim_padded_digits, decimal, digits_value, find_char, find_char_from, first_word, first_word_bounds,
    lemma_find_char_prefix, occurs_at_exec, parse_u32_at, parse_u32_spec, push_decimal,
    slice_string, starts_with, trim, trim_bounds,
};

verus! {

/// A structured progress signal taken from one line of output.
/// `event_type` is `iteration`, `iteration_complete` or `total`.
pub struct ProgressEvent {
    pub event_type: String,
    pub current: u32,
    pub total: u32,
    pub message: String,
}

/// An event as plain values: kind, current, total, message.
pub type ProgressModel = (Seq<char>, u32, u32, Seq<char>);

impl View for ProgressEvent {
    type V = ProgressModel;

    open spec fn view(&self) -> ProgressModel {
        (self.event_type@, self.current, self.total, self.message@)
    }
}

pub open spec fn iteration_prefix() -> Seq<char> {
    "STEPWISE_LOG:Iteration "@
}

pub open spec fn total_prefix() -> Seq<char> {
    "STEPWISE_LOG:Total iterations:"@
}

pub open spec fn iteration_message(current: u32, total: u32) -> Seq<char> {
    "Iteration "@ + decimal(current as nat) + "/"@ + decimal(total as nat)
}

pub open spec fn starting_message(total: u32) -> Seq<char> {
    "Starting "@ + decimal(total as nat) + " iterations"@
}

/// The text that stands for the total in `X of <total> ...`: its first word, or `0`.
pub open spec fn word_or_zero(s: Seq<char>) -> Seq<char> {
    match first_word(s) {
        Some(w) => w,
        None => "0"@,
    }
}

/// `X of Y ...`: the part after the second space holds the total.
pub open spec fn iteration_of(head: Seq<char>, word: Seq<char>, tail: Seq<char>) -> Option<ProgressModel> {
    if word == "of"@ {
        match (parse_u32_spec(trim(head)), parse_u32_spec(word_or_zero(tail))) {
            (Some(c), Some(t)) => Some(("iteration"@, c, t, iteration_message(c, t))),
            _ => None,
        }
    } else {
        None
    }
}

/// `X completed ...`: the remainder of the line is passed on as the message.
pub open spec fn iteration_completed(rest: Seq<char>, head: Seq<char>, word: Seq<char>) -> Option<
    ProgressModel,
> {
    if word == "completed"@ {
        match parse_u32_spec(trim(head)) {
            Some(c) => Some(("iteration_complete"@, c, 0, rest)),
            None => None,
        }
    } else {
        None
    }
}

/// What follows `STEPWISE_LOG:Iteration `, split at its first two spaces.
pub open spec fn stepwise_iteration(rest: Seq<char>) -> Option<ProgressModel> {
    match find_char(rest, ' ') {
        None => None,
        Some(i1) => {
            let head = rest.subrange(0, i1);
            let r1 = rest.subrange(i1 + 1, rest.len() as int);
            match find_char(r1, ' ') {
                Some(i2) => {
                    let word = r1.subrange(0, i2);
                    let tail = r1.subrange(i2 + 1, r1.len() as int);
                    if iteration_of(head, word, tail) is Some {
                        iteration_of(head, word, tail)
                    } else {
                        iteration_completed(rest, head, word)
                    }
                },
                None => iteration_completed(rest, head, r1),
            }
        },
    }
}

/// What follows `STEPWISE_LOG:Total iterations:`; fields after the first comma are ignored.
pub open spec fn stepwise_total(rest: Seq<char>) -> Option<ProgressModel> {
    let field = match find_char(rest, ',') {
        Some(i) => rest.subrange(0, i),
        None => rest,
    };
    match parse_u32_spec(trim(field)) {
        Some(t) => Some(("total"@, 0, t, starting_message(t))),
        None => None,
    }
}

/// `[current/total] message`, split at the first `]` and the first `/` before it.
pub open spec fn bracketed(line: Seq<char>) -> Option<ProgressModel> {
    if line.len() > 0 && line[0] == '[' {
        match find_char(line, ']') {
            Some(be) => {
                let inner = line.subrange(1, be);
                match find_char(inner, '/') {
                    Some(sl) => match (
                        parse_u32_spec(trim(inner.subrange(0, sl))),
                        parse_u32_spec(trim(inner.subrange(sl + 1, inner.len() as int))),
                    ) {
                        (Some(c), Some(t)) => Some(
                            ("iteration"@, c, t, trim(line.subrange(be + 1, line.len() as int))),
                        ),
                        _ => None,
                    },
                    None => None,
                }
            },
            None => None,
        }
    } else {
        None
    }
}

/// The event that a line carries, if any, by the first grammar that accepts it.
pub open spec fn parse_progress(line: Seq<char>) -> Option<ProgressModel> {
    if starts_with(line, iteration_prefix()) {
        stepwise_iteration(line.subrange(iteration_prefix().len() as int, line.len() as int))
    } else if starts_with(line, total_prefix()) && stepwise_total(
        line.subrange(total_prefix().len() as int, line.len() as int),
    ) is Some {
        stepwise_total(line.subrange(total_prefix().len() as int, line.len() as int))
    } else {
        bracketed(line)
    }
}

fn make_event(kind: &str, current: u32, total: u32, message: String) -> (r: ProgressEvent)
    ensures
        r@ == (kind@, current, total, message@),
{
    ProgressEvent { event_type: String::from_str(kind), current, total, message }
}

fn parse_iteration_of(s: &Vec<char>, k: usize, i1: usize, i2: usize) -> (r: Option<ProgressEvent>)
    requires
        k <= i1 < i2 < s@.len(),
    ensures
        match (
            r,
            iteration_of(
                s@.subrange(k as int, i1 as int),
                s@.subrange(i1 + 1, i2 as int),
                s@.subrange(i2 + 1, s@.len() as int),
            ),
        ) {
            (Some(e), Some(m)) => e@ == m,
            (None, None) => true,
            _ => false,
        },
{
    let n = s.len();
    if i2 - (i1 + 1) != 2 || !occurs_at_exec(s, i1 + 1, "of") {
        proof {
            reveal_strlit("of");
            if s@.subrange(i1 + 1, i2 as int) == "of"@ {
                assert(s@.subrange(i1 + 1, i1 + 3) =~= s@.subrange(i1 + 1, i2 as int));
            }
        }
        return None;
    }
    proof {
        reveal_strlit("of");
        assert(s@.subrange(i1 + 1, i2 as int) =~= "of"@);
    }
    let (a, b) = trim_bounds(s, k, i1);
    let current = match parse_u32_at(s, a, b) {
        Some(c) => c,
        None => {
            return None;
        },
    };
    let total = match first_word_bounds(s, i2 + 1, n) {
        Some((wa, wb)) => match parse_u32_at(s, wa, wb) {
            Some(t) => t,
            None => {
                return None;
            },
        },
        None => {
            proof {
                reveal_strlit("0");
                assert("0"@.drop_last() =~= Seq::<char>::empty());
                assert("0"@.last() == '0');
                assert(digits_value(Seq::<char>::empty()) == 0);
                assert(digits_value("0"@) == 0);
                assert(all_digits("0"@));
                assert(parse_u32_spec("0"@) == Some(0u32));
            }
            0
        },
    };
    let mut message = String::from_str("Iteration ");
    push_decimal(&mut message, current as u64);
    message.append("/");
    push_decimal(&mut message, total as u64);
    Some(make_event("iteration", current, total, message))
}

fn parse_iteration_completed(line: &str, s: &Vec<char>, k: usize, i1: usize, e1: usize) -> (r: Option<
    ProgressEvent,
>)
    requires
        line@ == s@,
        k <= i1 < e1 <= s@.len(),
    ensures
        match (
            r,
            iteration_completed(
                s@.subrange(k as int, s@.len() as int),
                s@.subrange(k as int, i1 as int),
                s@.subrange(i1 + 1, e1 as int),
            ),
        ) {
            (Some(e), Some(m)) => e@ == m,
            (None, None) => true,
            _ => false,
        },
{
    let n = s.len();
    proof {
        reveal_strlit("completed");
    }
    if !occurs_at_exec(s, i1 + 1, "completed") || e1 - (i1 + 1) != 9 {
        proof {
            if s@.subrange(i1 + 1, e1 as int) == "completed"@ {
                assert(s@.subrange(i1 + 1, i1 + 10) =~= s@.subrange(i1 + 1, e1 as int));
            }
        }
        return None;
    }
    assert(s@.subrange(i1 + 1, e1 as int) =~= "completed"@);
    let (a, b) = trim_bounds(s, k, i1);
    match parse_u32_at(s, a, b) {
        Some(c) => Some(make_event("iteration_complete", c, 0, slice_string(line, k, n))),
        None => None,
    }
}

fn parse_stepwise_iteration(line: &str, s: &Vec<char>, k: usize) -> (r: Option<ProgressEvent>)
    requires
        line@ == s@,
        k <= s@.len(),
    ensures
        match (r, stepwise_iteration(s@.subrange(k as int, s@.len() as int))) {
            (Some(e), Some(m)) => e@ == m,
            (None, None) => true,
            _ => false,
        },
{
    let n = s.len();
    let ghost rest = s@.subrange(k as int, n as int);
    let i1 = match find_char_from(s, k, ' ') {
        Some(i) => i,
        None => {
            return None;
        },
    };
    let ghost r1 = rest.subrange(i1 - k + 1, rest.len() as int);
    assert(r1 =~= s@.subrange(i1 + 1, n as int));
    assert(rest.subrange(0, i1 - k) =~= s@.subrange(k as int, i1 as int));
    match find_char_from(s, i1 + 1, ' ') {
        Some(i2) => {
            assert(r1.subrange(0, i2 - (i1 + 1)) =~= s@.subrange(i1 + 1, i2 as int));
            assert(r1.subrange(i2 - (i1 + 1) + 1, r1.len() as int) =~= s@.subrange(
                i2 + 1,
                n as int,
            ));
            let of = parse_iteration_of(s, k, i1, i2);
            if of.is_some() {
                of
            } else {
                parse_iteration_completed(line, s, k, i1, i2)
            }
        },
        None => {
            parse_iteration_completed(line, s, k, i1, n)
        },
    }
}

fn parse_stepwise_total(s: &Vec<char>, k: usize) -> (r: Option<ProgressEvent>)
    requires
        k <= s@.len(),
    ensures
        match (r, stepwise_total(s@.subrange(k as int, s@.len() as int))) {
            (Some(e), Some(m)) => e@ == m,
            (None, None) => true,
            _ => false,
        },
{
    let n = s.len();
    let ghost rest = s@.subrange(k as int, n as int);
    let end = match find_char_from(s, k, ',') {
        Some(i) => {
            assert(rest.subrange(0, i - k) =~= s@.subrange(k as int, i as int));
            i
        },
        None => n,
    };
    let (a, b) = trim_bounds(s, k, end);
    match parse_u32_at(s, a, b) {
        Some(t) => {
            let mut message = String::from_str("Starting ");
            push_decimal(&mut message, t as u64);
            message.append(" iterations");
            Some(make_event("total", 0, t, message))
        },
        None => None,
    }
}

fn parse_bracketed(line: &str, s: &Vec<char>) -> (r: Option<ProgressEvent>)
    requires
        line@ == s@,
    ensures
        match (r, bracketed(s@)) {
            (Some(e), Some(m)) => e@ == m,
            (None, None) => true,
            _ => false,
        },
{
    let n = s.len();
    if n == 0 || s[0] != '[' {
        return None;
    }
    assert(s@.subrange(0, n as int) =~= s@);
    let be = match find_char_from(s, 0, ']') {
        Some(i) => i,
        None => {
            return None;
        },
    };
    let ghost inner = s@.subrange(1, be as int);
    assert(be >= 1);
    let ghost tail = s@.subrange(1, n as int);
    assert(inner =~= tail.subrange(0, be - 1));
    proof {
        lemma_find_char_prefix(tail, '/', be - 1);
    }
    let sl = match find_char_from(s, 1, '/') {
        Some(i) => {
            if i >= be {
                return None;
            }
            i
        },
        None => {
            return None;
        },
    };
    assert(inner.subrange(0, sl - 1) =~= s@.subrange(1, sl as int));
    assert(inner.subrange(sl - 1 + 1, inner.len() as int) =~= s@.subrange(sl + 1, be as int));
    let (ca, cb) = trim_bounds(s, 1, sl);
    let (ta, tb) = trim_bounds(s, sl + 1, be);
    let current = match parse_u32_at(s, ca, cb) {
        Some(c) => c,
        None => {
            return None;
        },
    };
    let total = match parse_u32_at(s, ta, tb) {
        Some(t) => t,
        None => {
            return None;
        },
    };
    let (ma, mb) = trim_bounds(s, be + 1, n);
    Some(make_event("iteration", current, total, slice_string(line, ma, mb)))
}

/// Reads one line of output; returns the progress event it carries, if any.
pub fn parse_progress_line(line: &str) -> (r: Option<ProgressEvent>)
    ensures
        match (r, parse_progress(line@)) {
            (Some(e), Some(m)) => e@ == m,
            (None, None) => true,
            _ => false,
        },
{
    let s = chars_of(line);
    let n = s.len();
    if occurs_at_exec(&s, 0, "STEPWISE_LOG:Iteration ") {
        let k = "STEPWISE_LOG:Iteration ".unicode_len();
        return parse_stepwise_iteration(line, &s, k);
    }
    if occurs_at_exec(&s, 0, "STEPWISE_LOG:Total iterations:") {
        let k = "STEPWISE_LOG:Total iterations:".unicode_len();
        let r = parse_stepwise_total(&s, k);
        if r.is_some() {
            return r;
        }
    }
    parse_bracketed(line, &s)
}

/// A line `[current/total] message`, whose numbers may have whitespace round
/// them, is an `iteration` event with those numbers and the message trimmed.
pub proof fn lemma_bracketed_line(
    w1: Seq<char>,
    d1: Seq<char>,
    w2: Seq<char>,
    w3: Seq<char>,
    d2: Seq<char>,
    w4: Seq<char>,
    msg: Seq<char>,
)
    requires
        all_ws(w1),
        all_ws(w2),
        all_ws(w3),
        all_ws(w4),
        d1.len() > 0,
        d2.len() > 0,
        all_digits(d1),
        all_digits(d2),
        digits_value(d1) <= u32::MAX,
        digits_value(d2) <= u32::MAX,
    ensures
        parse_progress(seq!['['] + w1 + d1 + w2 + seq!['/'] + w3 + d2 + w4 + seq![']'] + msg)
            == Some(
            ("iteration"@, digits_value(d1) as u32, digits_value(d2) as u32, trim(msg)),
        ),
{
    let a = w1 + d1 + w2;
    let b = w3 + d2 + w4;
    let line = seq!['['] + w1 + d1 + w2 + seq!['/'] + w3 + d2 + w4 + seq![']'] + msg;
    assert(line =~= seq!['['] + a + seq!['/'] + b + seq![']'] + msg);
    let be: int = (1 + a.len() + 1 + b.len()) as int;
    let sl: int = a.len() as int;
    assert forall|i: int| 0 <= i < a.len() implies a[i] != '/' && a[i] != ']' by {
        if i < w1.len() {
            assert(is_ws(w1[i]));
        } else if i < w1.len() + d1.len() {
            assert(is_digit(d1[i - w1.len()]));
        } else {
            assert(is_ws(w2[i - w1.len() - d1.len()]));
        }
    }
    assert forall|i: int| 0 <= i < b.len() implies b[i] != ']' by {
        if i < w3.len() {
            assert(is_ws(w3[i]));
        } else if i < w3.len() + d2.len() {
            assert(is_digit(d2[i - w3.len()]));
        } else {
            assert(is_ws(w4[i - w3.len() - d2.len()]));
        }
    }
    assert(line[be] == ']');
    assert forall|j: int| 0 <= j < be implies line[j] != ']' by {
        if 1 <= j < 1 + a.len() {
            assert(line[j] == a[j - 1]);
        } else if 1 + a.len() + 1 <= j < be {
            assert(line[j] == b[j - 1 - a.len() - 1]);
        }
    }
    lemma_find_char_at(line, ']', be);
    let inner = line.subrange(1, be);
    assert(inner =~= a + seq!['/'] + b);
    assert(inner[sl] == '/');
    assert forall|j: int| 0 <= j < sl implies inner[j] != '/' by {
        assert(inner[j] == a[j]);
    }
    lemma_find_char_at(inner, '/', sl);
    assert(inner.subrange(0, sl) =~= a);
    assert(inner.subrange(sl + 1, inner.len() as int) =~= b);
    lemma_trim_padded_digits(w1, d1, w2);
    lemma_trim_padded_digits(w3, d2, w4);
    lemma_parse_digits(d1);
    lemma_parse_digits(d2);
    assert(line.subrange(be + 1, line.len() as int) =~= msg);
    reveal_strlit("STEPWISE_LOG:Iteration ");
    reveal_strlit("STEPWISE_LOG:Total iterations:");
    assert(!starts_with(line, iteration_prefix())) by {
        if starts_with(line, iteration_prefix()) {
            assert(line.subrange(0, iteration_prefix().len() as int)[0] == line[0]);
        }
    }
    assert(!starts_with(line, total_prefix())) by {
        if starts_with(line, total_prefix()) {
            assert(line.subrange(0, total_prefix().len() as int)[0] == line[0]);
        }
    }
}

/// A line that opens a bracket and never closes it carries no event.
pub proof fn lemma_unclosed_bracket(line: Seq<char>)
    requires
        line.len() > 0,
        line[0] == '[',
        forall|j: int| 0 <= j < line.len() ==> line[j] != ']',
    ensures
        parse_progress(line) is None,
{
    lemma_find_char_none(line, ']');
    reveal_strlit("STEPWISE_LOG:Iteration ");
    reveal_strlit("STEPWISE_LOG:Total iterations:");
    assert(!starts_with(line, iteration_prefix())) by {
        if starts_with(line, iteration_prefix()) {
            assert(line.subrange(0, iteration_prefix().len() as int)[0] == line[0]);
        }
    }
    assert(!starts_with(line, total_prefix())) by {
        if starts_with(line, total_prefix()) {
            assert(line.subrange(0, total_prefix().len() as int)[0] == line[0]);
        }
    }
}

/// A field that holds something other than digits (and a leading `+`) is no number.
pub proof fn lemma_non_numeric(f: Seq<char>, i: int)
    requires
        0 <= i < f.len(),
        !is_digit(f[i]),
        f[i] != '+',
    ensures
        parse_u32_spec(f) is None,
{
    if f.len() > 0 && f[0] == '+' {
        assert(f.drop_first()[i - 1] == f[i]);
    }
}

/// A bracketed line whose current field, trimmed, is not a number carries no event.
pub proof fn lemma_bracketed_non_numeric(a: Seq<char>, b: Seq<char>, msg: Seq<char>, i: int)
    requires
        forall|j: int| 0 <= j < a.len() ==> a[j] != '/' && a[j] != ']',
        forall|j: int| 0 <= j < b.len() ==> b[j] != ']',
        0 <= i < trim(a).len(),
        !is_digit(trim(a)[i]),
        trim(a)[i] != '+',
    ensures
        parse_progress(seq!['['] + a + seq!['/'] + b + seq![']'] + msg) is None,
{
    let line = seq!['['] + a + seq!['/'] + b + seq![']'] + msg;
    let be: int = (1 + a.len() + 1 + b.len()) as int;
    let sl: int = a.len() as int;
    assert(line[be] == ']');
    assert forall|j: int| 0 <= j < be implies line[j] != ']' by {
        if 1 <= j < 1 + a.len() {
            assert(line[j] == a[j - 1]);
        } else if 1 + a.len() + 1 <= j < be {
            assert(line[j] == b[j - 1 - a.len() - 1]);
        }
    }
    lemma_find_char_at(line, ']', be);
    let inner = line.subrange(1, be);
    assert(inner =~= a + seq!['/'] + b);
    assert(inner[sl] == '/');
    assert forall|j: int| 0 <= j < sl implies inner[j] != '/' by {
        assert(inner[j] == a[j]);
    }
    lemma_find_char_at(inner, '/', sl);
    assert(inner.subrange(0, sl) =~= a);
    lemma_non_numeric(trim(a), i);
    reveal_strlit("STEPWISE_LOG:Iteration ");
    reveal_strlit("STEPWISE_LOG:Total iterations:");
    assert(!starts_with(line, iteration_prefix())) by {
        if starts_with(line, iteration_prefix()) {
            assert(line.subrange(0, iteration_prefix().len() as int)[0] == line[0]);
        }
    }
    assert(!starts_with(line, total_prefix())) by {
        if starts_with(line, total_prefix()) {
            assert(line.subrange(0, total_prefix().len() as int)[0] == line[0]);
        }
    }
}

} // verus!
