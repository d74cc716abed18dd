//! Errors reported to the front end: a stable code, a message, optional detail.
use vstd::prelude::*;

verus! {

/// An error with a machine-readable `code`, a human-readable `message` and
/// optional low-level `details`.
pub struct AppError {
    pub code: String,
    pub message: String,
    pub details: Option<String>,
}

/// An error as plain values: code, message, details.
pub type AppErrorModel = (Seq<char>, Seq<char>, Option<Seq<char>>);

impl View for AppError {
    type V = AppErrorModel;

    open spec fn view(&self) -> AppErrorModel {
        (
            self.code@,
            self.message@,
            match self.details {
                Some(d) => Some(d@),
                None => None,
            },
        )
    }
}

pub open spec fn with_details(code: Seq<char>, message: Seq<char>, details: Seq<char>) -> AppErrorModel {
    (code, message, Some(details))
}

fn make(code: &str, message: &str, details: &str) -> (r: AppError)
    ensures
        r@ == with_details(code@, message@, details@),
{
    AppError {
        code: String::from_str(code),
        message: String::from_str(message),
        details: Some(String::from_str(details)),
    }
}

impl AppError {
    /// The runtime that runs jobs could not be found or started.
    pub fn runtime_not_found(details: &str) -> (r: AppError)
        ensures
            r@ == with_details(
                "E001"@,
                "R runtime not found. Please configure the R path in Settings."@,
                details@,
            ),
    {
        make("E001", "R runtime not found. Please configure the R path in Settings.", details)
    }

    /// The container runtime could not be found or used.
    pub fn docker_not_found(details: &str) -> (r: AppError)
        ensures
            r@ == with_details("E002"@, "Docker not found or not running."@, details@),
    {
        make("E002", "Docker not found or not running.", details)
    }

    /// A file that was asked for does not exist or cannot be read.
    pub fn file_not_found(path: &str) -> (r: AppError)
        ensures
            r@ == ("E003"@, "File not found: "@ + path@, None::<Seq<char>>),
    {
        let mut message = String::from_str("File not found: ");
        message.append(path);
        AppError { code: String::from_str("E003"), message, details: None }
    }

    pub fn csv_parse_error(details: &str) -> (r: AppError)
        ensures
            r@ == with_details("E004"@, "Failed to parse CSV file."@, details@),
    {
        make("E004", "Failed to parse CSV file.", details)
    }

    pub fn config_parse_error(details: &str) -> (r: AppError)
        ensures
            r@ == with_details("E005"@, "Failed to parse configuration file."@, details@),
    {
        make("E005", "Failed to parse configuration file.", details)
    }

    pub fn analysis_failed(details: &str) -> (r: AppError)
        ensures
            r@ == with_details("E006"@, "Analysis execution failed."@, details@),
    {
        make("E006", "Analysis execution failed.", details)
    }

    /// A step of the setup pipeline failed; `details` names the step.
    pub fn setup_failed(details: &str) -> (r: AppError)
        ensures
            r@ == with_details("E007"@, "Environment setup failed."@, details@),
    {
        make("E007", "Environment setup failed.", details)
    }

    /// `[code] message`, the form in which the error is shown.
    pub fn to_string(&self) -> (r: String)
        ensures
            r@ == "["@ + self.code@ + "] "@ + self.message@,
    {
        let mut r = String::from_str("[");
        r.append(self.code.as_str());
        r.append("] ");
        r.append(self.message.as_str());
        r
    }
}

/// A lowercase hexadecimal digit.
pub open spec fn hex_digit(d: nat) -> char {
    if d < 10 {
        ('0' as u32 + d) as char
    } else {
        ('a' as u32 + (d - 10)) as char
    }
}

/// How JSON writes one character inside a string: `"` and `\` escaped, the
/// short escapes for backspace, tab, line feed, form feed and carriage return,
/// other control characters as `\u00xx`, everything else as itself.
pub open spec fn json_escape_char(c: char) -> Seq<char> {
    let u = c as u32;
    if c == '"' {
        seq!['\\', '"']
    } else if c == '\\' {
        seq!['\\', '\\']
    } else if u == 0x08 {
        seq!['\\', 'b']
    } else if u == 0x09 {
        seq!['\\', 't']
    } else if u == 0x0a {
        seq!['\\', 'n']
    } else if u == 0x0c {
        seq!['\\', 'f']
    } else if u == 0x0d {
        seq!['\\', 'r']
    } else if u < 0x20 {
        seq!['\\', 'u', '0', '0', hex_digit((u / 16) as nat), hex_digit((u % 16) as nat)]
    } else {
        seq![c]
    }
}

pub open spec fn json_escaped(s: Seq<char>) -> Seq<char>
    decreases s.len(),
{
    if s.len() == 0 {
        seq![]
    } else {
        json_escaped(s.drop_last()) + json_escape_char(s.last())
    }
}

/// The JSON text of a string: its characters escaped, between double quotes.
pub open spec fn json_string_text(s: Seq<char>) -> Seq<char> {
    seq!['"'] + json_escaped(s) + seq!['"']
}

/// Relies on `serde_json::to_string` applied to a `str`: it writes the
/// string's JSON text into a buffer that cannot fail, so no error comes back.
#[verifier::external_body]
fn json_string(s: &str) -> (r: String)
    ensures
        r@ == json_string_text(s@),
{
    serde_json::to_string(s).unwrap_or_default()
}

/// The JSON object `{"code":..,"message":..,"details":..}` from the fields'
/// JSON texts; absent details are `null`.
pub open spec fn error_json_spec(code: Seq<char>, message: Seq<char>, details: Option<Seq<char>>) -> Seq<
    char,
> {
    "{\"code\":"@ + code + ",\"message\":"@ + message + ",\"details\":"@ + match details {
        Some(d) => d,
        None => "null"@,
    } + "}"@
}

/// Assembles the error's JSON object from its fields' JSON texts.
pub fn error_json(code: &str, message: &str, details: &Option<String>) -> (r: String)
    ensures
        r@ == error_json_spec(
            code@,
            message@,
            match details {
                Some(d) => Some(d@),
                None => None,
            },
        ),
{
    let mut r = String::from_str("{\"code\":");
    r.append(code);
    r.append(",\"message\":");
    r.append(message);
    r.append(",\"details\":");
    match details {
        Some(d) => r.append(d.as_str()),
        None => r.append("null"),
    }
    r.append("}");
    r
}

impl AppError {
    /// The error as the JSON object the front end receives: its code, message
    /// and details (`null` when absent).
    pub fn to_json(&self) -> (r: String)
        ensures
            r@ == error_json_spec(
                json_string_text(self.code@),
                json_string_text(self.message@),
                match self.details {
                    Some(d) => Some(json_string_text(d@)),
                    None => None,
                },
            ),
    {
        let code = json_string(self.code.as_str());
        let message = json_string(self.message.as_str());
        let details = match &self.details {
            Some(d) => Some(json_string(d.as_str())),
            None => None,
        };
        error_json(code.as_str(), message.as_str(), &details)
    }
}

/// The form in which errors travel to the front end: the JSON object of
/// `AppError::to_json`, whose contract states it.
impl From<AppError> for String {
    fn from(e: AppError) -> String {
        e.to_json()
    }
}

impl vstd::std_specs::convert::FromSpecImpl<AppError> for String {
    open spec fn obeys_from_spec() -> bool {
        false
    }

    open spec fn from_spec(v: AppError) -> String {
        arbitrary()
    }
}

} // verus!
