use spec_companion::model::{CodeSymbol, Requirement};
use spec_companion::template::{generate_jest_test, generate_pytest_test};

fn req(section: &str, description: &str) -> Requirement {
    Requirement {
        id: "r1".to_string(),
        spec_id: "s1".to_string(),
        section: section.to_string(),
        description: description.to_string(),
        req_type: "functional".to_string(),
        priority: "high".to_string(),
    }
}

fn sym(name: &str, path: &str) -> CodeSymbol {
    CodeSymbol { name: name.to_string(), kind: "function".to_string(), file_path: path.to_string() }
}

#[test]
fn jest_skeleton_exact_text() {
    let q = req("Auth > Login", "The system shall authenticate users");
    let symbols = vec![sym("authenticateUser", "src/auth.ts"), sym("render", "src/ui.ts")];
    let code = generate_jest_test(&q, &symbols);
    let expected = [
        "// Requirement: The system shall authenticate users\n",
        "// Section: Auth > Login\n",
        "// Type: functional | Priority: high\n\n",
        "// import { authenticateUser } from './src/auth.ts';\n\n",
        "describe('Auth > Login', () => {\n",
        "  it('should authenticate users', () => {\n",
        "    // TODO: Verify authentication flow works correctly\n",
        "    // Arrange\n    \n    // Act\n    \n    // Assert\n",
        "    expect(true).toBe(true); // TODO: Replace with actual assertion\n  });\n});\n",
    ]
    .concat();
    assert_eq!(code, expected);
}

#[test]
fn jest_skeleton_escapes_and_user_story() {
    let q = req("Bob's area", "As a user, I want to export reports");
    let code = generate_jest_test(&q, &[]);
    assert!(code.contains("describe('Bob\\'s area', () => {\n"));
    assert!(code.contains("  it('should allow export reports', () => {\n"));
    assert!(!code.contains("// import"));
    assert!(!code.contains("    // TODO: Verify"));
}

#[test]
fn pytest_skeleton_exact_text() {
    let q = req("user management", "Must create \"\"\"accounts\"\"\" quickly");
    let symbols = vec![sym("create_account", "app/models/account.py")];
    let code = generate_pytest_test(&q, &symbols);
    let expected = [
        "# Requirement: Must create \"\"\"accounts\"\"\" quickly\n",
        "# Section: user management\n",
        "# Type: functional | Priority: high\n\n",
        "# from app.models.account import create_account\n\n",
        "class TestUserManagement:\n",
        "    def test_must_create____accounts____quickly(self):\n",
        "        \"\"\"Test: Must create \\\"\\\"\\\"accounts\\\"\\\"\\\" quickly\"\"\"\n",
        "        # Arrange\n        \n        # Act\n        \n        # Assert\n",
        "        assert True  # TODO: Replace with actual assertion\n",
    ]
    .concat();
    assert_eq!(code, expected);
}

#[test]
fn relevant_symbols_are_capped_at_five() {
    let q = req("S", "Handle payments");
    let symbols: Vec<CodeSymbol> =
        (0..8).map(|i| sym(&format!("payments{}", i), &format!("p{}.ts", i))).collect();
    let code = generate_jest_test(&q, &symbols);
    assert_eq!(code.matches("// import {").count(), 5);
    assert!(code.contains("payments4"));
    assert!(!code.contains("payments5"));
}
