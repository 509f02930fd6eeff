use spec_companion::classify::{
    classify_priority, classify_requirement_type, classify_requirement_type_lowered,
    is_requirement_like_section, looks_like_requirement,
};
use spec_companion::markdown::{MdEvent, MdTag};
use spec_companion::model::Requirement;
use spec_companion::spec_parser::{
    extract_requirement_marker, extract_requirements, parse_spec, replace_spec_requirements, split_marker_with,
    table_row_fields,
};

#[test]
fn test_parse_basic_spec() {
    let content = r#"# My Spec

## Requirements

- The system shall authenticate users via email and password
- The system shall allow users to reset their password
- As a user, I want to view my dashboard

## Non-Functional Requirements

- The system shall respond within 200ms for all API calls
"#;
    let reqs = parse_spec("test-spec-id", content);
    assert_eq!(reqs.len(), 4);
    assert_eq!(reqs[0].req_type, "functional");
    assert_eq!(reqs[3].req_type, "non_functional");
}

#[test]
fn test_heading_hierarchy() {
    let content = r#"# Product Spec

## Features

### User Management

- Must allow user registration
- Should support OAuth login

### Data Management

- Must support CSV export
"#;
    let reqs = parse_spec("test-spec-id", content);
    assert_eq!(reqs.len(), 3);
    assert!(reqs[0].section.contains("Product Spec > Features > User Management"));
    assert!(reqs[2].section.contains("Product Spec > Features > Data Management"));
}

#[test]
fn test_requirement_markers() {
    let content = r#"# Spec

## Requirements

- REQ-001: User must be able to login
- US-042: As a user, I want to logout
- FR-10: System shall validate email addresses
- Must: All passwords must be hashed
- Should: Add two-factor authentication
"#;
    let reqs = parse_spec("test-spec-id", content);
    assert_eq!(reqs.len(), 5);
    assert!(reqs[0].description.contains("[REQ-001]"));
    assert!(reqs[1].description.contains("[US-042]"));
    assert!(reqs[2].description.contains("[FR-10]"));
    assert!(reqs[3].description.contains("[MUST]"));
    assert!(reqs[4].description.contains("[SHOULD]"));
}

#[test]
fn test_table_parsing() {
    let content = r#"# Requirements

## Feature Requirements

| ID | Requirement | Priority | Type |
|----|-------------|----------|------|
| REQ-001 | User authentication via email | High | Functional |
| REQ-002 | API response time < 200ms | Critical | Non-Functional |
| REQ-003 | Support CSV export | Medium | Functional |
"#;
    let reqs = parse_spec("test-spec-id", content);
    assert!(reqs.len() >= 3, "Expected at least 3 requirements from table");
    let descriptions: Vec<&str> = reqs.iter().map(|r| r.description.as_str()).collect();
    assert!(descriptions.iter().any(|d| d.contains("User authentication")));
    assert!(descriptions.iter().any(|d| d.contains("API response time")));
}

#[test]
fn test_priority_classification() {
    let content = r#"# Spec

## Requirements

- Critical: Database backups must run daily
- Must have: User authentication
- Nice to have: Dark mode theme
- Optional: Export to PDF
- Regular requirement without keyword
"#;
    let reqs = parse_spec("test-spec-id", content);
    assert_eq!(reqs.len(), 5);
    assert_eq!(reqs[0].priority, "high");
    assert_eq!(reqs[1].priority, "high");
    assert_eq!(reqs[2].priority, "low");
    assert_eq!(reqs[3].priority, "low");
    assert_eq!(reqs[4].priority, "medium");
}

#[test]
fn test_requirement_type_classification() {
    let content = r#"# Spec

## Functional Requirements

- User can create an account

## Non-Functional Requirements

- System shall handle 1000 concurrent users

## Performance Requirements

- API latency must be under 100ms

## Constraints

- Must comply with GDPR

## Security Requirements

- All data must be encrypted at rest
"#;
    let reqs = parse_spec("test-spec-id", content);
    assert!(reqs.len() >= 5);

    let functional = reqs.iter().find(|r| r.description.contains("create an account"));
    assert_eq!(functional.unwrap().req_type, "functional");

    let performance = reqs.iter().find(|r| r.description.contains("1000 concurrent"));
    assert_eq!(performance.unwrap().req_type, "non_functional");

    let latency = reqs.iter().find(|r| r.description.contains("latency"));
    assert_eq!(latency.unwrap().req_type, "non_functional");

    let constraint = reqs.iter().find(|r| r.description.contains("GDPR"));
    assert_eq!(constraint.unwrap().req_type, "constraint");

    let security = reqs.iter().find(|r| r.description.contains("encrypted"));
    assert_eq!(security.unwrap().req_type, "non_functional");
}

#[test]
fn test_nested_hierarchy() {
    let content = r#"# Project

## Module A

### Feature 1

#### Sub-feature 1a

- Requirement at level 4

### Feature 2

- Requirement at level 3
"#;
    let reqs = parse_spec("test-spec-id", content);
    assert_eq!(reqs.len(), 2);
    assert!(reqs[0].section.contains("Module A > Feature 1 > Sub-feature 1a"));
    assert!(reqs[1].section.contains("Module A > Feature 2"));
}

#[test]
fn test_empty_spec() {
    let content = "";
    let reqs = parse_spec("test-spec-id", content);
    assert_eq!(reqs.len(), 0);
}

#[test]
fn test_no_requirements() {
    let content = r#"# Spec

This is just documentation with no requirements.

## Overview

Just text, no list items or tables.
"#;
    let reqs = parse_spec("test-spec-id", content);
    assert_eq!(reqs.len(), 0);
}

#[test]
fn test_mixed_formats() {
    let content = r#"# Spec

## Requirements

- List item requirement

| ID | Description |
|----|-------------|
| R1 | Table requirement |

- REQ-001: Marked requirement
- Should: Keyword requirement
"#;
    let reqs = parse_spec("test-spec-id", content);
    assert!(reqs.len() >= 4, "Should extract from list, table, and markers");
}

#[test]
fn single_requirement_under_requirements_heading() {
    let reqs = parse_spec("s1", "# Spec\n## Requirements\n- The system shall authenticate users\n");
    assert_eq!(reqs.len(), 1);
    assert_eq!(reqs[0].req_type, "functional");
    assert_eq!(reqs[0].section, "Spec > Requirements");
    assert_eq!(reqs[0].spec_id, "s1");
    assert_eq!(reqs[0].description, "The system shall authenticate users");
    assert_eq!(reqs[0].id.len(), 36);
}

#[test]
fn non_functional_heading_types_its_bullets() {
    let reqs = parse_spec("s1", "# Spec\n## Non-Functional Requirements\n- Pages load quickly\n");
    assert_eq!(reqs.len(), 1);
    assert_eq!(reqs[0].req_type, "non_functional");
}

#[test]
fn id_marker_is_moved_into_brackets() {
    let reqs = parse_spec("s1", "# Spec\n## Requirements\n- REQ-001: User must log in\n");
    assert_eq!(reqs.len(), 1);
    assert_eq!(reqs[0].description, "[REQ-001] User must log in");
}

#[test]
fn marker_extraction_ids_and_keywords() {
    let (text, marker) = extract_requirement_marker("REQ-001: User must log in");
    assert_eq!(text, "User must log in");
    assert_eq!(marker.as_deref(), Some("REQ-001"));
    let (text, marker) = extract_requirement_marker("FEAT-7:Export");
    assert_eq!(text, "Export");
    assert_eq!(marker.as_deref(), Some("FEAT-7"));
    let (text, marker) = extract_requirement_marker("Won't:  Support fax");
    assert_eq!(text, "Support fax");
    assert_eq!(marker.as_deref(), Some("WONT"));
    let (text, marker) = extract_requirement_marker("req-001: lower case is not a marker");
    assert_eq!(text, "req-001: lower case is not a marker");
    assert_eq!(marker, None);
}

#[test]
fn marker_split_with_given_capture() {
    let (text, marker) =
        split_marker_with("X", Some(("US-9".to_string(), "  rest of it ".to_string())));
    assert_eq!(text, "rest of it");
    assert_eq!(marker.as_deref(), Some("US-9"));
    let (text, marker) = split_marker_with("Will: do it", None);
    assert_eq!(text, "do it");
    assert_eq!(marker.as_deref(), Some("WILL"));
}

#[test]
fn items_outside_requirement_sections_need_requirement_wording() {
    let content = "# Notes\n- just a note\n- The system must log errors\n- **This bold line has five words**\n";
    let reqs = parse_spec("s", content);
    // the markdown parser turns `**...**` into emphasis, so the item's text
    // carries no asterisks and is not taken as a requirement
    assert_eq!(reqs.len(), 1);
    assert_eq!(reqs[0].description, "The system must log errors");
    assert_eq!(reqs[0].section, "Notes");
    assert!(looks_like_requirement("**This bold line has five words**"));
    assert!(!looks_like_requirement("**Too short to count**"));
}

#[test]
fn no_heading_gives_general_section() {
    let reqs = parse_spec("s", "- The system shall start\n");
    assert_eq!(reqs.len(), 1);
    assert_eq!(reqs[0].section, "General");
}

#[test]
fn code_spans_count_as_item_text() {
    let reqs = parse_spec("s", "## Requirements\n- Run `make check` daily\n");
    assert_eq!(reqs.len(), 1);
    assert_eq!(reqs[0].description, "Run make check daily");
}

#[test]
fn table_row_columns_and_fallback() {
    let h = vec!["ID".to_string(), "Requirement".to_string(), "Priority".to_string(), "Category".to_string()];
    let r = vec!["REQ-1".to_string(), "Encrypt all stored data".to_string(), "Nice to have".to_string(), "Security".to_string()];
    let (d, t, p) = table_row_fields(&h, &r).unwrap();
    assert_eq!(d, "Encrypt all stored data");
    assert_eq!(t, "non_functional");
    assert_eq!(p, "low");
    let h = vec!["ID".to_string(), "Notes".to_string()];
    let r = vec!["US-3".to_string(), "Fallback description text".to_string()];
    let (d, t, p) = table_row_fields(&h, &r).unwrap();
    assert_eq!(d, "Fallback description text");
    assert_eq!(t, "functional");
    assert_eq!(p, "medium");
    let r = vec!["US-3".to_string(), "too short".to_string()];
    assert!(table_row_fields(&h, &r).is_none());
    assert!(table_row_fields(&Vec::new(), &r).is_none());
}

#[test]
fn table_in_document_takes_section_and_columns() {
    let content = "# Spec\n## Limits\n\n| Description | Type |\n|---|---|\n| Max upload size is 10MB | Constraint |\n";
    let reqs = parse_spec("s", content);
    assert_eq!(reqs.len(), 1);
    assert_eq!(reqs[0].section, "Spec > Limits");
    assert_eq!(reqs[0].req_type, "constraint");
    assert_eq!(reqs[0].priority, "medium");
}

#[test]
fn classifiers_ignore_case() {
    assert_eq!(classify_requirement_type("SECURITY", "x"), "non_functional");
    assert_eq!(classify_requirement_type("Overview", "Known LIMITATION"), "constraint");
    assert_eq!(classify_requirement_type("Overview", "Login"), "functional");
    assert_eq!(classify_requirement_type_lowered("security", "x"), "non_functional");
    assert_eq!(classify_requirement_type_lowered("SECURITY", "x"), "functional");
    assert_eq!(classify_priority("CRITICAL path"), "high");
    assert_eq!(classify_priority("Could be nice"), "low");
    assert_eq!(classify_priority("plain"), "medium");
    assert!(is_requirement_like_section("USER STORIES"));
    assert!(!is_requirement_like_section("Overview"));
    assert!(looks_like_requirement("THE SYSTEM SHALL work"));
    assert!(!looks_like_requirement("A plain remark"));
}

#[test]
fn reparse_replaces_only_that_spec() {
    let mk = |id: &str, spec: &str| Requirement {
        id: id.to_string(),
        spec_id: spec.to_string(),
        section: "S".to_string(),
        description: "D".to_string(),
        req_type: "functional".to_string(),
        priority: "medium".to_string(),
    };
    let store = vec![mk("a", "s1"), mk("b", "s2"), mk("c", "s1"), mk("d", "s3")];
    let fresh = parse_spec("s1", "## Requirements\n- One\n- Two\n");
    let after = replace_spec_requirements(store, "s1", fresh);
    let ids: Vec<&str> = after.iter().map(|r| r.spec_id.as_str()).collect();
    assert_eq!(ids, vec!["s2", "s3", "s1", "s1"]);
    assert_eq!(after[2].description, "One");
    assert_eq!(after[3].description, "Two");
}

#[test]
fn two_extractions_agree_on_content() {
    let content = "# A\n## Requirements\n- The system shall x\n- Must: y\n";
    let a = parse_spec("s", content);
    let b = parse_spec("s", content);
    assert_eq!(a.len(), b.len());
    for (x, y) in a.iter().zip(b.iter()) {
        assert_eq!(x.section, y.section);
        assert_eq!(x.description, y.description);
        assert_eq!(x.req_type, y.req_type);
        assert_eq!(x.priority, y.priority);
        assert_ne!(x.id, y.id);
    }
}

#[test]
fn extraction_walks_a_given_event_stream() {
    let t = |s: &str| MdEvent::Text(s.to_string());
    let events = vec![
        MdEvent::Start(MdTag::Heading(1)),
        t("  Product  "),
        MdEvent::End(MdTag::Heading(1)),
        MdEvent::Start(MdTag::Heading(5)),
        t("Ignored depth"),
        MdEvent::End(MdTag::Heading(5)),
        MdEvent::Start(MdTag::Heading(2)),
        t("Security"),
        MdEvent::Code("Constraints".to_string()),
        MdEvent::End(MdTag::Heading(2)),
        MdEvent::Start(MdTag::Item),
        t("Should: encrypt "),
        MdEvent::Other,
        MdEvent::Code("data".to_string()),
        MdEvent::End(MdTag::Item),
        MdEvent::Start(MdTag::Table),
        MdEvent::Start(MdTag::TableHead),
        MdEvent::Start(MdTag::TableCell),
        t("Spec"),
        MdEvent::End(MdTag::TableCell),
        MdEvent::End(MdTag::TableHead),
        MdEvent::Start(MdTag::TableRow),
        MdEvent::Start(MdTag::TableCell),
        t(" Rotate keys every month "),
        MdEvent::End(MdTag::TableCell),
        MdEvent::End(MdTag::TableRow),
        MdEvent::End(MdTag::Table),
    ];
    let reqs = extract_requirements("spec-9", &events);
    assert_eq!(reqs.len(), 2);
    assert_eq!(reqs[0].section, "Product > SecurityConstraints");
    assert_eq!(reqs[0].description, "[SHOULD] encrypt data");
    assert_eq!(reqs[0].req_type, "non_functional");
    assert_eq!(reqs[0].priority, "medium");
    assert_eq!(reqs[1].section, "Product > SecurityConstraints");
    assert_eq!(reqs[1].description, "Rotate keys every month");
    assert_eq!(reqs[1].req_type, "functional");
    assert_eq!(reqs[1].spec_id, "spec-9");
}

#[test]
fn nested_list_items_each_give_one_requirement() {
    let content = "## Requirements\n- Parent item\n  - Child item\n- Sibling item\n";
    let reqs = parse_spec("s", content);
    let descriptions: Vec<&str> = reqs.iter().map(|r| r.description.as_str()).collect();
    assert_eq!(descriptions, vec!["Child item", "Parent item", "Sibling item"]);
}
