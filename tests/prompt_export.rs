use spec_companion::alignment::Mismatch;
use spec_companion::export::{
    csv_mismatch_table, escape_csv, html_escape, html_mismatch_details, mismatch_type_counts,
};
use spec_companion::model::{AppSettings, CodeSymbol, GenerateTestsRequest, Requirement};
use spec_companion::prompt::{build_context, build_prompt, extract_code_block, models_to_try};
use spec_companion::requests::{check_export_request, check_generate_request, check_settings, is_blank};

fn mismatch(kind: &str, details: &str, element: Option<&str>) -> Mismatch {
    Mismatch {
        id: "m".to_string(),
        report_id: "rep".to_string(),
        requirement_id: "r1".to_string(),
        spec_section: "A > B".to_string(),
        code_element: element.map(|e| e.to_string()),
        mismatch_type: kind.to_string(),
        details: details.to_string(),
    }
}

#[test]
fn csv_fields_are_quoted_only_when_needed() {
    assert_eq!(escape_csv("plain"), "plain");
    assert_eq!(escape_csv("a,b"), "\"a,b\"");
    assert_eq!(escape_csv("say \"hi\""), "\"say \"\"hi\"\"\"");
    assert_eq!(escape_csv("two\nlines"), "\"two\nlines\"");
}

#[test]
fn html_escaping_covers_markup_characters() {
    assert_eq!(html_escape("a < b & c > \"d\""), "a &lt; b &amp; c &gt; &quot;d&quot;");
    assert_eq!(html_escape("&amp;"), "&amp;amp;");
}

#[test]
fn csv_table_has_header_and_one_line_per_mismatch() {
    let ms = vec![
        mismatch("test_failing", "Test(s) failing for: x, y", None),
        mismatch("partial_coverage", "ok", Some("fn_a")),
    ];
    let csv = csv_mismatch_table(&ms);
    assert_eq!(
        csv,
        "requirement_id,spec_section,mismatch_type,code_element,details\n\
r1,A > B,test_failing,,\"Test(s) failing for: x, y\"\n\
r1,A > B,partial_coverage,fn_a,ok\n"
    );
}

#[test]
fn html_details_table_and_empty_notice() {
    let html = html_mismatch_details(&vec![mismatch("no_test_generated", "<none>", None)]);
    assert!(html.starts_with("<div class=\"section\"><h2>Detailed Mismatches</h2>"));
    assert!(html.contains(
        "<tr><td>A &gt; B</td><td><span class=\"badge no_test_generated\">no test generated</span></td><td>&lt;none&gt;</td></tr>"
    ));
    assert!(html.ends_with("</tbody></table></div>"));
    let empty = html_mismatch_details(&Vec::new());
    assert!(empty.contains("No mismatches found. All requirements are covered!"));
}

#[test]
fn context_lists_at_most_thirty_symbols() {
    assert_eq!(build_context(&[]), "No codebase context available.");
    let symbols: Vec<CodeSymbol> = (0..40)
        .map(|i| CodeSymbol { name: format!("f{}", i), kind: "function".to_string(), file_path: "a.js".to_string() })
        .collect();
    let ctx = build_context(&symbols);
    assert!(ctx.starts_with("Codebase symbols:\n- function f0 (in a.js)\n"));
    assert_eq!(ctx.lines().count(), 31);
    assert!(!ctx.contains("f30"));
}

#[test]
fn prompt_carries_requirement_framework_and_context() {
    let q = Requirement {
        id: "r".to_string(),
        spec_id: "s".to_string(),
        section: "Auth".to_string(),
        description: "Users log in".to_string(),
        req_type: "functional".to_string(),
        priority: "high".to_string(),
    };
    let p = build_prompt(&q, "pytest", "CTX");
    assert!(p.starts_with("Generate a test for the following requirement."));
    assert!(p.contains("- Description: Users log in\n- Section: Auth\n- Type: functional\n- Priority: high"));
    assert!(p.contains("**Test Framework:** pytest (Python testing framework)"));
    assert!(p.contains("**Codebase Context:**\nCTX\n"));
    assert!(p.contains("Example pytest test structure:"));
    let unknown = build_prompt(&q, "mocha", "CTX");
    assert!(unknown.contains("**Test Framework:** Unknown framework"));
    assert!(!unknown.contains("Example"));
}

#[test]
fn code_block_is_taken_from_the_first_fence() {
    let text = "Here:\n```typescript\n  const x = 1;\n```\nmore";
    assert_eq!(extract_code_block(text).as_deref(), Some("const x = 1;"));
    assert_eq!(extract_code_block("```\nplain\n```").as_deref(), Some("plain"));
    assert_eq!(extract_code_block("no fences"), None);
    assert_eq!(extract_code_block("```python\nunclosed"), None);
}

#[test]
fn model_order_puts_fallbacks_after_an_unknown_model() {
    let fallbacks = vec!["m1".to_string(), "m2".to_string()];
    assert_eq!(models_to_try("m2", &fallbacks), vec!["m2".to_string()]);
    assert_eq!(
        models_to_try("custom", &fallbacks),
        vec!["custom".to_string(), "m1".to_string(), "m2".to_string()]
    );
}

#[test]
fn request_checks_report_the_first_broken_rule() {
    let mut req = GenerateTestsRequest {
        requirement_ids: vec!["r1".to_string()],
        framework: "jest".to_string(),
        mode: "llm".to_string(),
        project_id: "p".to_string(),
    };
    assert_eq!(
        check_generate_request(&req, ""),
        Err("API key is required for LLM mode. Set it in Settings.".to_string())
    );
    assert_eq!(check_generate_request(&req, "key"), Ok(()));
    req.framework = "mocha".to_string();
    assert_eq!(check_generate_request(&req, "key"), Err("Unsupported framework: mocha".to_string()));
    req.requirement_ids.clear();
    assert_eq!(check_generate_request(&req, "key"), Err("No requirements selected".to_string()));
    req.project_id = "  ".to_string();
    assert_eq!(check_generate_request(&req, "key"), Err("Project ID cannot be empty".to_string()));
    assert_eq!(check_export_request("r", "pdf"), Err("Unsupported format: pdf".to_string()));
    assert_eq!(check_export_request(" ", "csv"), Err("Report ID cannot be empty".to_string()));
    assert_eq!(check_export_request("r", "html"), Ok(()));
    let mut settings = AppSettings::default();
    assert_eq!(settings.default_framework, "jest");
    assert_eq!(check_settings(&settings), Ok(()));
    settings.default_mode = "magic".to_string();
    assert_eq!(check_settings(&settings), Err("Unsupported mode: magic".to_string()));
    assert!(is_blank(" \t\n"));
    assert!(!is_blank(" x "));
}

#[test]
fn mismatch_types_are_counted_once_each_in_first_appearance_order() {
    let ms = vec![
        mismatch("test_failing", "a", None),
        mismatch("no_test_generated", "b", None),
        mismatch("test_failing", "c", None),
    ];
    assert_eq!(
        mismatch_type_counts(&ms),
        vec![("test_failing".to_string(), 2), ("no_test_generated".to_string(), 1)]
    );
    assert!(mismatch_type_counts(&Vec::new()).is_empty());
}
