//! Reading what the runtime's own commands print: its version line, and
//! whether a library check answered `TRUE`.
use vstd::prelude::*;
use crate::csvinfo::split_at_char;
use crate::plots::{contains, contains_exec};
use crate::text::{chars_of, find_char_from, slice_string, trim, trim_bounds};

verus! {

/// The runtime found on the system: its path, the runtime manager's path, and
/// the runtime's version line.
pub struct RuntimeInfo {
    pub r_path: Option<String>,
    pub pixi_path: Option<String>,
    pub r_version: Option<String>,
}

/// The first of `lines` that mentions `version`.
pub open spec fn first_version_line(lines: Seq<Seq<char>>) -> Option<Seq<char>>
    decreases lines.len(),
{
    if lines.len() == 0 {
        None
    } else if contains(lines[0], "version"@) {
        Some(lines[0])
    } else {
        first_version_line(lines.drop_first())
    }
}

/// The version line of a runtime's `--version` output, trimmed.
pub open spec fn version_line_spec(output: Seq<char>) -> Option<Seq<char>> {
    match first_version_line(split_at_char(output, '\n')) {
        Some(l) => Some(trim(l)),
        None => None,
    }
}

/// Finds the version line in what the runtime printed (both streams, joined).
pub fn version_line(output: &str) -> (r: Option<String>)
    ensures
        match (r, version_line_spec(output@)) {
            (Some(v), Some(w)) => v@ == w,
            (None, None) => true,
            _ => false,
        },
{
    let s = chars_of(output);
    let n = s.len();
    let mut pos: usize = 0;
    assert(s@.subrange(0, n as int) =~= s@);
    loop
        invariant
            n == s@.len(),
            s@ == output@,
            pos <= n,
            first_version_line(split_at_char(s@, '\n')) == first_version_line(
                split_at_char(s@.subrange(pos as int, n as int), '\n'),
            ),
        decreases n - pos,
    {
        let ghost rest = s@.subrange(pos as int, n as int);
        let end = match find_char_from(&s, pos, '\n') {
            Some(i) => {
                proof {
                    assert(rest.subrange(0, i - pos) =~= s@.subrange(pos as int, i as int));
                    assert(rest.subrange(i - pos + 1, rest.len() as int) =~= s@.subrange(
                        i + 1,
                        n as int,
                    ));
                    let parts = split_at_char(rest, '\n');
                    assert(parts == seq![s@.subrange(pos as int, i as int)] + split_at_char(
                        s@.subrange(i + 1, n as int),
                        '\n',
                    ));
                    assert(parts.drop_first() =~= split_at_char(s@.subrange(i + 1, n as int), '\n'));
                }
                i
            },
            None => {
                proof {
                    assert(split_at_char(rest, '\n') =~= seq![rest]);
                    assert(split_at_char(rest, '\n').drop_first() =~= Seq::<Seq<char>>::empty());
                }
                n
            },
        };
        let line_text = slice_string(output, pos, end);
        let line = chars_of(line_text.as_str());
        if contains_exec(&line, "version") {
            let (a, b) = trim_bounds(&s, pos, end);
            return Some(slice_string(output, a, b));
        }
        if end == n {
            proof {
                assert(first_version_line(Seq::<Seq<char>>::empty()) is None);
                assert(line@ == rest);
            }
            return None;
        }
        pos = end + 1;
    }
}

/// `c` is `lower` or its ASCII capital `upper`.
pub open spec fn same_letter(c: char, lower: char, upper: char) -> bool {
    c == lower || c == upper
}

/// The trimmed text is `true` in any mix of ASCII case.
pub open spec fn says_true(output: Seq<char>) -> bool {
    let t = trim(output);
    t.len() == 4 && same_letter(t[0], 't', 'T') && same_letter(t[1], 'r', 'R') && same_letter(
        t[2],
        'u',
        'U',
    ) && same_letter(t[3], 'e', 'E')
}

/// Whether a check printed `TRUE`, the way `str::eq_ignore_ascii_case` compares.
pub fn reports_true(output: &str) -> (r: bool)
    ensures
        r == says_true(output@),
{
    let s = chars_of(output);
    let (a, b) = trim_bounds(&s, 0, s.len());
    assert(s@.subrange(0, s@.len() as int) =~= s@);
    let ghost t = trim(output@);
    assert(t == s@.subrange(a as int, b as int));
    if b - a != 4 {
        return false;
    }
    assert(t[0] == s@[a as int] && t[1] == s@[a + 1] && t[2] == s@[a + 2] && t[3] == s@[a + 3]);
    (s[a] == 't' || s[a] == 'T') && (s[a + 1] == 'r' || s[a + 1] == 'R') && (s[a + 2] == 'u'
        || s[a + 2] == 'U') && (s[a + 3] == 'e' || s[a + 3] == 'E')
}

/// The code that asks the runtime whether library `package` is installed.
pub fn package_check_code(package: &str) -> (r: String)
    ensures
        r@ == "cat(requireNamespace('"@ + package@ + "', quietly=TRUE))"@,
{
    let mut r = String::from_str("cat(requireNamespace('");
    r.append(package);
    r.append("', quietly=TRUE))");
    r
}

/// The runtime that the setup screen reports, by the first tier that answers:
/// the managed environment's own runtime, the runtime run through the manager
/// (`<manager> run Rscript`), or the system runtime.
pub struct RuntimeChoice {
    pub available: bool,
    pub path: Option<String>,
}

pub open spec fn runtime_choice_spec(
    managed: Option<Seq<char>>,
    manager_answered: Option<Seq<char>>,
    system: Option<Seq<char>>,
) -> (bool, Option<Seq<char>>) {
    match managed {
        Some(p) => (true, Some(p)),
        None => match manager_answered {
            Some(m) => (true, Some(m + " run Rscript"@)),
            None => match system {
                Some(p) => (true, Some(p)),
                None => (false, None),
            },
        },
    }
}

/// Chooses the runtime to report. `managed` is the managed environment's
/// runtime if it exists; `manager_answered` is the manager's command if
/// running the runtime through it succeeded; `system` is the runtime found on
/// the search path.
pub fn choose_runtime(
    managed: Option<String>,
    manager_answered: Option<String>,
    system: Option<String>,
) -> (r: RuntimeChoice)
    ensures
        (r.available, match r.path {
            Some(p) => Some(p@),
            None => None,
        }) == runtime_choice_spec(
            match managed {
                Some(p) => Some(p@),
                None => None,
            },
            match manager_answered {
                Some(p) => Some(p@),
                None => None,
            },
            match system {
                Some(p) => Some(p@),
                None => None,
            },
        ),
{
    match managed {
        Some(p) => RuntimeChoice { available: true, path: Some(p) },
        None => match manager_answered {
            Some(m) => {
                let mut command = m;
                command.append(" run Rscript");
                RuntimeChoice { available: true, path: Some(command) }
            },
            None => match system {
                Some(p) => RuntimeChoice { available: true, path: Some(p) },
                None => RuntimeChoice { available: false, path: None },
            },
        },
    }
}

} // verus!
