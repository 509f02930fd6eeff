//! Checks on what callers supply, made before any work is done: each gives
//! the message of the first rule that the input breaks.

use vstd::prelude::*;
use crate::model::{AppSettings, GenerateTestsRequest};
use crate::text::{chars_of, push_str, same_chars, string_of, trim, trim_chars};

verus! {

/// A text that is empty or white space only.
pub open spec fn blank(s: Seq<char>) -> bool {
    trim(s).len() == 0
}

/// Whether a text is empty or white space only.
pub fn is_blank(s: &str) -> (r: bool)
    ensures
        r == blank(s@),
{
    trim_chars(&chars_of(s)).len() == 0
}

fn is_one_of2(s: &str, a: &str, b: &str) -> (r: bool)
    ensures
        r == (s@ == a@ || s@ == b@),
{
    let c = chars_of(s);
    same_chars(&c, &chars_of(a)) || same_chars(&c, &chars_of(b))
}

fn message_with(prefix: &str, value: &str) -> (r: String)
    ensures
        r@ == prefix@ + value@,
{
    let mut out = chars_of(prefix);
    push_str(&mut out, value);
    string_of(&out)
}

/// The test frameworks that tests can be generated for.
pub open spec fn known_framework(f: Seq<char>) -> bool {
    f == "jest"@ || f == "pytest"@
}

/// The ways tests can be generated.
pub open spec fn known_mode(m: Seq<char>) -> bool {
    m == "template"@ || m == "llm"@
}

/// The first rule that a generation request breaks, as its message.
pub open spec fn generate_request_error(
    project_id: Seq<char>,
    n_requirements: int,
    framework: Seq<char>,
    mode: Seq<char>,
    api_key: Seq<char>,
) -> Option<Seq<char>> {
    if blank(project_id) {
        Some("Project ID cannot be empty"@)
    } else if n_requirements == 0 {
        Some("No requirements selected"@)
    } else if !known_framework(framework) {
        Some("Unsupported framework: "@ + framework)
    } else if !known_mode(mode) {
        Some("Unsupported mode: "@ + mode)
    } else if mode == "llm"@ && api_key.len() == 0 {
        Some("API key is required for LLM mode. Set it in Settings."@)
    } else {
        None
    }
}

/// Checks a test-generation request (with the API key from the settings):
/// a project, at least one requirement, a known framework and mode, and a
/// key for model generation.
pub fn check_generate_request(request: &GenerateTestsRequest, api_key: &str) -> (r: Result<
    (),
    String,
>)
    ensures
        match r {
            Ok(()) => generate_request_error(
                request.project_id@,
                request.requirement_ids@.len() as int,
                request.framework@,
                request.mode@,
                api_key@,
            ) is None,
            Err(m) => generate_request_error(
                request.project_id@,
                request.requirement_ids@.len() as int,
                request.framework@,
                request.mode@,
                api_key@,
            ) == Some(m@),
        },
{
    if is_blank(request.project_id.as_str()) {
        return Err(string_of(&chars_of("Project ID cannot be empty")));
    }
    if request.requirement_ids.len() == 0 {
        return Err(string_of(&chars_of("No requirements selected")));
    }
    if !is_one_of2(request.framework.as_str(), "jest", "pytest") {
        return Err(message_with("Unsupported framework: ", request.framework.as_str()));
    }
    if !is_one_of2(request.mode.as_str(), "template", "llm") {
        return Err(message_with("Unsupported mode: ", request.mode.as_str()));
    }
    let m = chars_of(request.mode.as_str());
    if same_chars(&m, &chars_of("llm")) && chars_of(api_key).len() == 0 {
        return Err(string_of(&chars_of("API key is required for LLM mode. Set it in Settings.")));
    }
    Ok(())
}

/// The formats a report can be exported in.
pub open spec fn known_format(f: Seq<char>) -> bool {
    f == "json"@ || f == "html"@ || f == "csv"@
}

/// The first rule that an export request breaks, as its message.
pub open spec fn export_request_error(report_id: Seq<char>, format: Seq<char>) -> Option<
    Seq<char>,
> {
    if blank(report_id) {
        Some("Report ID cannot be empty"@)
    } else if !known_format(format) {
        Some("Unsupported format: "@ + format)
    } else {
        None
    }
}

/// Checks an export request: a report and a format among `json`, `html`
/// and `csv`.
pub fn check_export_request(report_id: &str, format: &str) -> (r: Result<(), String>)
    ensures
        match r {
            Ok(()) => export_request_error(report_id@, format@) is None,
            Err(m) => export_request_error(report_id@, format@) == Some(m@),
        },
{
    if is_blank(report_id) {
        return Err(string_of(&chars_of("Report ID cannot be empty")));
    }
    let f = chars_of(format);
    if !(same_chars(&f, &chars_of("json")) || same_chars(&f, &chars_of("html")) || same_chars(
        &f,
        &chars_of("csv"),
    )) {
        return Err(message_with("Unsupported format: ", format));
    }
    Ok(())
}

/// The first rule that settings break, as its message.
pub open spec fn settings_error(framework: Seq<char>, mode: Seq<char>) -> Option<Seq<char>> {
    if !known_framework(framework) {
        Some("Unsupported framework: "@ + framework)
    } else if !known_mode(mode) {
        Some("Unsupported mode: "@ + mode)
    } else {
        None
    }
}

/// Checks settings before they are saved: a known default framework and mode.
pub fn check_settings(settings: &AppSettings) -> (r: Result<(), String>)
    ensures
        match r {
            Ok(()) => settings_error(settings.default_framework@, settings.default_mode@) is None,
            Err(m) => settings_error(settings.default_framework@, settings.default_mode@) == Some(
                m@,
            ),
        },
{
    if !is_one_of2(settings.default_framework.as_str(), "jest", "pytest") {
        return Err(message_with("Unsupported framework: ", settings.default_framework.as_str()));
    }
    if !is_one_of2(settings.default_mode.as_str(), "template", "llm") {
        return Err(message_with("Unsupported mode: ", settings.default_mode.as_str()));
    }
    Ok(())
}

} // verus!
