//! The prompt that asks a language model for a test of a requirement, the
//! codebase context it carries, the order in which models are tried, and the
//! code block taken out of a model's answer.

use vstd::prelude::*;
use crate::model::{CodeSymbol, Requirement};
use crate::text::{
    chars_of, find_chars, first_at, has_infix, push_str, same_chars, slice_chars,
    string_of, trim, trim_chars,
};

verus! {

// ---------------------------------------------------------------------------
// Context
// ---------------------------------------------------------------------------

/// The context lines for the first `n` symbols.
pub open spec fn context_lines(syms: Seq<CodeSymbol>, n: int) -> Seq<char>
    decreases n,
{
    if n <= 0 {
        Seq::empty()
    } else {
        context_lines(syms, n - 1) + "- "@ + syms[n - 1].kind@ + " "@ + syms[n - 1].name@ + " (in "@
            + syms[n - 1].file_path@ + ")\n"@
    }
}

/// The codebase context of a prompt: the first thirty symbols, one per line,
/// or a note that there are none.
pub open spec fn context_text(syms: Seq<CodeSymbol>) -> Seq<char> {
    if syms.len() == 0 {
        "No codebase context available."@
    } else {
        "Codebase symbols:\n"@ + context_lines(
            syms,
            if syms.len() < 30 {
                syms.len() as int
            } else {
                30
            },
        )
    }
}

/// The codebase context for a prompt: each of the first thirty symbols as
/// `- <kind> <name> (in <file>)`.
pub fn build_context(symbols: &[CodeSymbol]) -> (r: String)
    ensures
        r@ == context_text(symbols@),
{
    if symbols.len() == 0 {
        return string_of(&chars_of("No codebase context available."));
    }
    let n: usize = if symbols.len() < 30 {
        symbols.len()
    } else {
        30
    };
    let mut out = chars_of("Codebase symbols:\n");
    let ghost head = out@;
    let mut i: usize = 0;
    while i < n
        invariant
            i <= n <= symbols.len(),
            out@ == head + context_lines(symbols@, i as int),
        decreases n - i,
    {
        let s = &symbols[i];
        let ghost before = out@;
        push_str(&mut out, "- ");
        push_str(&mut out, s.kind.as_str());
        push_str(&mut out, " ");
        push_str(&mut out, s.name.as_str());
        push_str(&mut out, " (in ");
        push_str(&mut out, s.file_path.as_str());
        push_str(&mut out, ")\n");
        assert(out@ =~= head + context_lines(symbols@, i + 1));
        i = i + 1;
    }
    string_of(&out)
}

// ---------------------------------------------------------------------------
// Prompt
// ---------------------------------------------------------------------------

/// What the prompt says of a framework: its description and an example test.
pub open spec fn framework_texts(framework: Seq<char>) -> (Seq<char>, Seq<char>) {
    if framework == "jest"@ {
        ("Jest (JavaScript/TypeScript testing framework)"@, JEST_EXAMPLE@)
    } else if framework == "pytest"@ {
        ("pytest (Python testing framework)"@, PYTEST_EXAMPLE@)
    } else {
        ("Unknown framework"@, ""@)
    }
}

pub const JEST_EXAMPLE: &'static str = "\nExample Jest test structure:\n```typescript\n// REQ-001: User authentication\ndescribe('User Authentication', () => {\n  it('should authenticate user with valid credentials', () => {\n    // Arrange\n    const mockUser = { email: 'test@example.com', password: 'validPass123' };\n    const authService = new AuthService();\n\n    // Act\n    const result = authService.login(mockUser.email, mockUser.password);\n\n    // Assert\n    expect(result.success).toBe(true);\n    expect(result.user).toBeDefined();\n    expect(result.user.email).toBe(mockUser.email);\n  });\n\n  it('should reject invalid credentials', () => {\n    const authService = new AuthService();\n    const result = authService.login('test@example.com', 'wrongPass');\n    expect(result.success).toBe(false);\n    expect(result.error).toBe('Invalid credentials');\n  });\n});\n```";

pub const PYTEST_EXAMPLE: &'static str = "\nExample pytest test structure:\n```python\n# REQ-001: User authentication\n\nclass TestUserAuthentication:\n    def test_authenticate_with_valid_credentials(self):\n        \"\"\"Should authenticate user with valid email and password.\"\"\"\n        # Arrange\n        auth_service = AuthService()\n        email = \"test@example.com\"\n        password = \"validPass123\"\n\n        # Act\n        result = auth_service.login(email, password)\n\n        # Assert\n        assert result.success is True\n        assert result.user is not None\n        assert result.user.email == email\n\n    def test_reject_invalid_credentials(self):\n        \"\"\"Should reject authentication with wrong password.\"\"\"\n        auth_service = AuthService()\n        result = auth_service.login(\"test@example.com\", \"wrongPass\")\n        assert result.success is False\n        assert result.error == \"Invalid credentials\"\n```";

/// The prompt for a requirement: its details, the framework with an example
/// test, the codebase context, and what the generated test must do.
pub open spec fn prompt_text(q: Requirement, framework: Seq<char>, context: Seq<char>) -> Seq<char> {
    let (info, example) = framework_texts(framework);
    "Generate a test for the following requirement. Output ONLY the test code in a markdown code block, no explanations before or after.\n\n**Requirement Details:**\n- Description: "@ + q.description@ + "\n- Section: "@ + q.section@ + "\n- Type: "@ + q.req_type@
        + "\n- Priority: "@ + q.priority@ + "\n\n**Test Framework:** "@ + info + "\n\n**Codebase Context:**\n"@ + context
        + "\n\n"@ + example + "\n\n**Requirements for generated test:**\n1. Clear arrange/act/assert structure (AAA pattern)\n2. Meaningful assertions that actually test the requirement (not placeholders like `expect(true).toBe(true)`)\n3. Traceability comment at top linking to requirement ID or description\n4. Cover main happy path + at least one edge case or error scenario\n5. Use realistic mock data and object names matching the domain\n6. Include descriptive test names that explain what is being tested\n7. Follow framework best practices and conventions\n8. Keep tests focused and readable (each test should verify one behavior)\n\nOutput the complete, ready-to-run test code:"@
}

fn framework_texts_exec(framework: &str) -> (r: (&'static str, &'static str))
    ensures
        (r.0@, r.1@) == framework_texts(framework@),
{
    let f = chars_of(framework);
    if same_chars(&f, &chars_of("jest")) {
        ("Jest (JavaScript/TypeScript testing framework)", JEST_EXAMPLE)
    } else if same_chars(&f, &chars_of("pytest")) {
        ("pytest (Python testing framework)", PYTEST_EXAMPLE)
    } else {
        ("Unknown framework", "")
    }
}

/// The prompt that asks for a test of a requirement in a framework, with an
/// example test for that framework and the codebase context.
pub fn build_prompt_with_examples(requirement: &Requirement, framework: &str, context: &str) -> (r:
    String)
    ensures
        r@ == prompt_text(*requirement, framework@, context@),
{
    let (info, example) = framework_texts_exec(framework);
    let mut out: Vec<char> = Vec::new();
    push_str(&mut out, "Generate a test for the following requirement. Output ONLY the test code in a markdown code block, no explanations before or after.\n\n**Requirement Details:**\n- Description: ");
    push_str(&mut out, requirement.description.as_str());
    push_str(&mut out, "\n- Section: ");
    push_str(&mut out, requirement.section.as_str());
    push_str(&mut out, "\n- Type: ");
    push_str(&mut out, requirement.req_type.as_str());
    push_str(&mut out, "\n- Priority: ");
    push_str(&mut out, requirement.priority.as_str());
    push_str(&mut out, "\n\n**Test Framework:** ");
    push_str(&mut out, info);
    push_str(&mut out, "\n\n**Codebase Context:**\n");
    push_str(&mut out, context);
    push_str(&mut out, "\n\n");
    push_str(&mut out, example);
    push_str(&mut out, "\n\n**Requirements for generated test:**\n1. Clear arrange/act/assert structure (AAA pattern)\n2. Meaningful assertions that actually test the requirement (not placeholders like `expect(true).toBe(true)`)\n3. Traceability comment at top linking to requirement ID or description\n4. Cover main happy path + at least one edge case or error scenario\n5. Use realistic mock data and object names matching the domain\n6. Include descriptive test names that explain what is being tested\n7. Follow framework best practices and conventions\n8. Keep tests focused and readable (each test should verify one behavior)\n\nOutput the complete, ready-to-run test code:");
    assert(out@ =~= prompt_text(*requirement, framework@, context@));
    string_of(&out)
}

/// The prompt for a requirement (the one with examples).
pub fn build_prompt(requirement: &Requirement, framework: &str, context: &str) -> (r: String)
    ensures
        r@ == prompt_text(*requirement, framework@, context@),
{
    build_prompt_with_examples(requirement, framework, context)
}

// ---------------------------------------------------------------------------
// Models
// ---------------------------------------------------------------------------

/// The models to try, in order: a model of the fallback list alone, any
/// other model first and then the whole fallback list.
pub open spec fn models_order(model: Seq<char>, fallbacks: Seq<Seq<char>>) -> Seq<Seq<char>> {
    if fallbacks.contains(model) {
        seq![model]
    } else {
        seq![model] + fallbacks
    }
}

/// The models to try for a request, in order, given the fallback list.
pub fn models_to_try(model: &str, fallbacks: &Vec<String>) -> (r: Vec<String>)
    ensures
        r@.map_values(|s: String| s@) == models_order(model@, fallbacks@.map_values(|s: String| s@)),
{
    let ghost fb = fallbacks@.map_values(|s: String| s@);
    let m = chars_of(model);
    let mut known = false;
    let mut i: usize = 0;
    while i < fallbacks.len()
        invariant
            i <= fallbacks.len(),
            fb == fallbacks@.map_values(|s: String| s@),
            m@ == model@,
            known == (exists|k: int| 0 <= k < i && fb[k] == model@),
        decreases fallbacks.len() - i,
    {
        assert(fb[i as int] == fallbacks@[i as int]@);
        if same_chars(&m, &chars_of(fallbacks[i].as_str())) {
            known = true;
        }
        i = i + 1;
    }
    let mut out: Vec<String> = Vec::new();
    out.push(string_of(&m));
    if known {
        assert(fb.contains(model@));
        assert(out@.map_values(|s: String| s@) =~= models_order(model@, fb));
    } else {
        assert(!fb.contains(model@));
        let ghost head = out@.map_values(|s: String| s@);
        let mut j: usize = 0;
        while j < fallbacks.len()
            invariant
                j <= fallbacks.len(),
                fb == fallbacks@.map_values(|s: String| s@),
                head == seq![model@],
                out@.map_values(|s: String| s@) == head + fb.subrange(0, j as int),
            decreases fallbacks.len() - j,
        {
            let ghost before = out@.map_values(|s: String| s@);
            out.push(fallbacks[j].clone());
            assert(out@.map_values(|s: String| s@) =~= before.push(fb[j as int]));
            assert(head + fb.subrange(0, j + 1) =~= (head + fb.subrange(0, j as int)).push(
                fb[j as int],
            ));
            j = j + 1;
        }
        assert(fb.subrange(0, fallbacks.len() as int) =~= fb);
    }
    out
}

// ---------------------------------------------------------------------------
// Code blocks
// ---------------------------------------------------------------------------

/// The fences that may open a code block, in the order they are looked for.
pub open spec fn fence(k: int) -> Seq<char> {
    if k == 0 {
        "```typescript"@
    } else if k == 1 {
        "```javascript"@
    } else if k == 2 {
        "```python"@
    } else if k == 3 {
        "```js"@
    } else if k == 4 {
        "```ts"@
    } else if k == 5 {
        "```py"@
    } else {
        "```"@
    }
}

fn fence_text(k: usize) -> (r: &'static str)
    ensures
        r@ == fence(k as int),
{
    if k == 0 {
        "```typescript"
    } else if k == 1 {
        "```javascript"
    } else if k == 2 {
        "```python"
    } else if k == 3 {
        "```js"
    } else if k == 4 {
        "```ts"
    } else if k == 5 {
        "```py"
    } else {
        "```"
    }
}

/// The first position of `p` in `s`, where it occurs.
pub open spec fn first_pos(s: Seq<char>, p: Seq<char>) -> int {
    choose|i: int| first_at(s, p, i)
}

/// The code of the block opened by the first fence found, from the `k`-th on:
/// from the line after the fence to the next closing fence, trimmed. `None`
/// where that block has no line break or no closing fence after the fence.
pub open spec fn code_block_from(t: Seq<char>, k: int) -> Option<Seq<char>>
    decreases 7 - k,
{
    if k >= 7 {
        None
    } else if has_infix(t, fence(k)) {
        let after = first_pos(t, fence(k)) + fence(k).len();
        let rest = t.subrange(after, t.len() as int);
        if has_infix(rest, "\n"@) {
            let start = after + first_pos(rest, "\n"@) + 1;
            let body = t.subrange(start, t.len() as int);
            if has_infix(body, "```"@) {
                Some(trim(t.subrange(start, start + first_pos(body, "```"@))))
            } else {
                None
            }
        } else {
            None
        }
    } else {
        code_block_from(t, k + 1)
    }
}

fn first_found(s: &Vec<char>, p: &str) -> (r: Option<usize>)
    ensures
        match r {
            Some(i) => has_infix(s@, p@) && i == first_pos(s@, p@) && i + p@.len() <= s@.len(),
            None => !has_infix(s@, p@),
        },
{
    let pc = chars_of(p);
    match find_chars(s, &pc) {
        Some(i) => {
            proof {
                let c = choose|j: int| first_at(s@, p@, j);
                assert(c == i) by {
                    if c < i {
                    } else if c > i {
                    }
                }
            }
            Some(i)
        },
        None => None,
    }
}

/// The code inside the first fenced code block of a model's answer, trimmed.
pub fn extract_code_block(text: &str) -> (r: Option<String>)
    ensures
        match r {
            Some(c) => code_block_from(text@, 0) == Some(c@),
            None => code_block_from(text@, 0) is None,
        },
{
    let t = chars_of(text);
    let mut k: usize = 0;
    while k < 7
        invariant
            k <= 7,
            t@ == text@,
            code_block_from(text@, 0) == code_block_from(text@, k as int),
        decreases 7 - k,
    {
        let f = fence_text(k);
        match first_found(&t, f) {
            Some(s) => {
                let fl = chars_of(f);
                assert(t@.len() == t.len());
                let after = s + fl.len();
                let rest = slice_chars(&t, after, t.len());
                match first_found(&rest, "\n") {
                    Some(nl) => {
                        proof {
                            reveal_strlit("\n");
                        }
                        let start = after + nl + 1;
                        let body = slice_chars(&t, start, t.len());
                        match first_found(&body, "```") {
                            Some(e) => {
                                let code = trim_chars(&slice_chars(&t, start, start + e));
                                return Some(string_of(&code));
                            },
                            None => {
                                return None;
                            },
                        }
                    },
                    None => {
                        return None;
                    },
                }
            },
            None => {},
        }
        k = k + 1;
    }
    None
}

} // verus!
