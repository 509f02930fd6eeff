use spec_companion::alignment::{build_report, classify_mismatch, coverage_hundredths, scan_results};
use spec_companion::model::{execution_status, test_file_extension, Requirement};

fn calculate_coverage_percent(total: i64, covered: i64) -> f64 {
    coverage_hundredths(total, covered) as f64 / 100.0
}

fn requirement(id: &str, description: &str) -> Requirement {
    Requirement {
        id: id.to_string(),
        spec_id: "spec".to_string(),
        section: "Spec > Requirements".to_string(),
        description: description.to_string(),
        req_type: "functional".to_string(),
        priority: "medium".to_string(),
    }
}

fn status(s: &str) -> Option<String> {
    Some(s.to_string())
}

#[test]
fn test_mismatch_no_test_generated() {
    let mismatch_type = classify_mismatch(false, false, false, false);
    assert_eq!(mismatch_type, Some("no_test_generated"));
}

#[test]
fn test_mismatch_test_not_executed() {
    let mismatch_type = classify_mismatch(true, false, false, false);
    assert_eq!(mismatch_type, Some("not_implemented"));
}

#[test]
fn test_covered_requirement_all_passed() {
    let mismatch_type = classify_mismatch(true, true, true, false);
    assert_eq!(mismatch_type, None);
}

#[test]
fn test_partial_coverage_some_failed() {
    let mismatch_type = classify_mismatch(true, true, true, true);
    assert_eq!(mismatch_type, Some("partial_coverage"));
}

#[test]
fn test_all_tests_failing() {
    let mismatch_type = classify_mismatch(true, true, false, true);
    assert_eq!(mismatch_type, Some("test_failing"));
}

#[test]
fn test_coverage_percentage_calculation() {
    let coverage = calculate_coverage_percent(3, 2);
    assert!((coverage - 66.666).abs() < 0.01);
}

#[test]
fn test_empty_project_coverage() {
    let coverage = calculate_coverage_percent(0, 0);
    assert_eq!(coverage, 0.0);
}

#[test]
fn test_full_coverage() {
    let coverage = calculate_coverage_percent(5, 5);
    assert_eq!(coverage, 100.0);
}

#[test]
fn test_zero_coverage() {
    let coverage = calculate_coverage_percent(10, 0);
    assert_eq!(coverage, 0.0);
}

#[test]
fn test_coverage_rounding() {
    let coverage = calculate_coverage_percent(7, 3);
    assert!((coverage - 42.857).abs() < 0.01);
}

#[test]
fn test_high_coverage() {
    let coverage = calculate_coverage_percent(100, 95);
    assert_eq!(coverage, 95.0);
}

#[test]
fn test_single_requirement_covered() {
    let coverage = calculate_coverage_percent(1, 1);
    assert_eq!(coverage, 100.0);
}

#[test]
fn test_single_requirement_not_covered() {
    let coverage = calculate_coverage_percent(1, 0);
    assert_eq!(coverage, 0.0);
}

#[test]
fn test_mismatch_classification_sequence() {
    assert_eq!(classify_mismatch(false, true, true, true), Some("no_test_generated"));
    assert_eq!(classify_mismatch(true, false, false, false), Some("not_implemented"));
    assert_eq!(classify_mismatch(true, true, false, true), Some("test_failing"));
    assert_eq!(classify_mismatch(true, true, true, true), Some("partial_coverage"));
    assert_eq!(classify_mismatch(true, true, true, false), None);
}

#[test]
fn test_edge_case_only_error_status() {
    let mismatch_type = classify_mismatch(true, true, false, true);
    assert_eq!(mismatch_type, Some("test_failing"));
}

#[test]
fn test_large_project_coverage() {
    let coverage = calculate_coverage_percent(500, 437);
    assert!((coverage - 87.4).abs() < 0.01);
}

#[test]
fn test_coverage_precision() {
    let coverage = calculate_coverage_percent(3, 1);
    assert!((coverage - 33.333).abs() < 0.01);
}

#[test]
fn coverage_hundredths_exact_values() {
    assert_eq!(coverage_hundredths(3, 2), 6666);
    assert_eq!(coverage_hundredths(7, 3), 4285);
    assert_eq!(coverage_hundredths(0, 0), 0);
    assert_eq!(coverage_hundredths(4, 4), 10000);
}

#[test]
fn requirement_without_tests_gets_one_no_test_mismatch() {
    let reqs = vec![requirement("r1", "Login works")];
    let report = build_report("p1", &reqs, &vec![vec![]]);
    assert_eq!(report.report.total_requirements, 1);
    assert_eq!(report.report.covered_requirements, 0);
    assert_eq!(report.mismatches.len(), 1);
    let m = &report.mismatches[0];
    assert_eq!(m.mismatch_type, "no_test_generated");
    assert_eq!(m.requirement_id, "r1");
    assert_eq!(m.spec_section, "Spec > Requirements");
    assert_eq!(m.report_id, report.report.id);
    assert_eq!(m.details, "No test has been generated for: Login works");
    assert!(m.code_element.is_none());
}

#[test]
fn passing_and_failing_tests_give_partial_coverage() {
    let reqs = vec![requirement("r1", "Export CSV")];
    let report = build_report("p1", &reqs, &vec![vec![status("passed"), status("failed")]]);
    assert_eq!(report.report.covered_requirements, 1);
    assert_eq!(report.mismatches.len(), 1);
    assert_eq!(report.mismatches[0].mismatch_type, "partial_coverage");
    assert_eq!(report.mismatches[0].details, "Some tests passing, some failing for: Export CSV");
}

#[test]
fn project_without_requirements_gives_empty_report() {
    let report = build_report("p1", &Vec::new(), &Vec::new());
    assert_eq!(report.report.total_requirements, 0);
    assert_eq!(report.report.covered_requirements, 0);
    assert_eq!(coverage_hundredths(0, 0), 0);
    assert!(report.mismatches.is_empty());
    assert_eq!(report.report.project_id, "p1");
    assert_eq!(report.report.id.len(), 36);
}

#[test]
fn report_over_mixed_requirements() {
    let reqs = vec![
        requirement("a", "A"),
        requirement("b", "B"),
        requirement("c", "C"),
        requirement("d", "D"),
        requirement("e", "E"),
    ];
    let latest = vec![
        vec![status("passed"), None],
        vec![None, None],
        vec![status("error")],
        vec![status("skipped")],
        vec![],
    ];
    let report = build_report("p", &reqs, &latest);
    assert_eq!(report.report.total_requirements, 5);
    assert_eq!(report.report.covered_requirements, 1);
    let kinds: Vec<(&str, &str)> = report
        .mismatches
        .iter()
        .map(|m| (m.requirement_id.as_str(), m.mismatch_type.as_str()))
        .collect();
    assert_eq!(
        kinds,
        vec![("b", "not_implemented"), ("c", "test_failing"), ("e", "no_test_generated")]
    );
    assert_eq!(report.mismatches[0].details, "Tests generated but never executed for: B");
    assert_eq!(report.mismatches[1].details, "Test(s) failing for: C");
}

#[test]
fn scanning_results_reads_each_status() {
    assert_eq!(scan_results(&vec![]), (false, false, false));
    assert_eq!(scan_results(&vec![None]), (false, false, false));
    assert_eq!(scan_results(&vec![status("passed"), status("error")]), (true, true, true));
    assert_eq!(scan_results(&vec![status("other")]), (true, false, false));
}

#[test]
fn run_outcomes_and_test_file_extensions() {
    assert_eq!(execution_status(true, true), "passed");
    assert_eq!(execution_status(true, false), "failed");
    assert_eq!(execution_status(false, true), "error");
    assert_eq!(test_file_extension("pytest"), "py");
    assert_eq!(test_file_extension("jest"), "test.js");
}
