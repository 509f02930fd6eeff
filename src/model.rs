//! The records that the library reads and produces.

use vstd::prelude::*;
use crate::text::{chars_of, same_chars, string_of};

verus! {

/// A project: a codebase that specifications are traced against.
pub struct Project {
    pub id: String,
    pub name: String,
    pub codebase_path: String,
    pub created_at: String,
    pub updated_at: String,
}

/// What a caller supplies to create a project.
pub struct CreateProjectRequest {
    pub name: String,
    pub codebase_path: String,
}

/// An uploaded specification document.
pub struct Spec {
    pub id: String,
    pub project_id: String,
    pub filename: String,
    pub content: String,
    pub parsed_at: Option<String>,
    pub created_at: String,
}

/// One requirement extracted from a specification.
pub struct Requirement {
    pub id: String,
    pub spec_id: String,
    pub section: String,
    pub description: String,
    pub req_type: String,
    pub priority: String,
}

/// A specification together with the requirements extracted from it.
pub struct ParsedSpec {
    pub spec: Spec,
    pub requirements: Vec<Requirement>,
}

/// A test produced for a requirement, by a template or a model.
pub struct GeneratedTest {
    pub id: String,
    pub requirement_id: String,
    pub framework: String,
    pub code: String,
    pub generation_mode: String,
    pub file_path: Option<String>,
    pub created_at: String,
}

/// A request to generate tests for some requirements of a project.
pub struct GenerateTestsRequest {
    pub requirement_ids: Vec<String>,
    pub framework: String,
    pub mode: String,
    pub project_id: String,
}

/// One execution of a generated test.
pub struct TestResult {
    pub id: String,
    pub generated_test_id: String,
    pub status: String,
    pub execution_time_ms: i64,
    pub stdout: String,
    pub stderr: String,
    pub executed_at: String,
}

/// Progress of a batch of test runs.
pub struct TestProgress {
    pub total: usize,
    pub completed: usize,
    pub current_test: String,
    pub status: String,
}

/// A named element found in a codebase.
pub struct CodeSymbol {
    pub name: String,
    /// `"function"`, `"class"` or `"method"`.
    pub kind: String,
    pub file_path: String,
}

/// The state of a repository's working copy.
pub struct RepoInfo {
    pub branch: String,
    pub commit_hash: String,
    pub commit_message: String,
    pub is_dirty: bool,
}

/// A file that changed between two commits.
pub struct ChangedFile {
    pub path: String,
    /// `"added"`, `"modified"`, `"deleted"` or `"renamed"`.
    pub status: String,
}

/// The outcome of running one test file.
pub struct ExecutionResult {
    /// `"passed"`, `"failed"` or `"error"`.
    pub status: String,
    pub execution_time_ms: i64,
    pub stdout: String,
    pub stderr: String,
}

/// User settings for test generation and scanning.
pub struct AppSettings {
    pub api_key: String,
    pub default_framework: String,
    pub default_mode: String,
    pub scan_exclusions: Vec<String>,
}

impl Default for AppSettings {
    fn default() -> (r: AppSettings)
        ensures
            r.api_key@ == Seq::<char>::empty(),
            r.default_framework@ == "jest"@,
            r.default_mode@ == "template"@,
            r.scan_exclusions@.len() == 0,
    {
        AppSettings {
            api_key: String::new(),
            default_framework: string_of(&chars_of("jest")),
            default_mode: string_of(&chars_of("template")),
            scan_exclusions: Vec::new(),
        }
    }
}

/// The outcome of a test run: `passed` or `failed` by the exit status of a
/// run that finished in time, `error` for one that did not.
pub open spec fn run_status(finished: bool, success: bool) -> Seq<char> {
    if !finished {
        "error"@
    } else if success {
        "passed"@
    } else {
        "failed"@
    }
}

/// The status recorded for a test run.
pub fn execution_status(finished: bool, success: bool) -> (r: String)
    ensures
        r@ == run_status(finished, success),
{
    if !finished {
        string_of(&chars_of("error"))
    } else if success {
        string_of(&chars_of("passed"))
    } else {
        string_of(&chars_of("failed"))
    }
}

/// The file extension under which a generated test of a framework is
/// written out to be run: `py` for pytest, `test.js` otherwise.
pub open spec fn test_file_extension_of(framework: Seq<char>) -> Seq<char> {
    if framework == "pytest"@ {
        "py"@
    } else {
        "test.js"@
    }
}

/// The file extension for a generated test of a framework.
pub fn test_file_extension(framework: &str) -> (r: String)
    ensures
        r@ == test_file_extension_of(framework@),
{
    if same_chars(&chars_of(framework), &chars_of("pytest")) {
        string_of(&chars_of("py"))
    } else {
        string_of(&chars_of("test.js"))
    }
}

} // verus!
