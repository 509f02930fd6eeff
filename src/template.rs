//! Template-based test skeletons for a requirement: a Jest `describe` / `it`
//! block or a pytest class, with the requirement traced in comments and the
//! codebase symbols that its description mentions listed as imports.

use vstd::prelude::*;
use crate::heading::join;
use crate::model::{CodeSymbol, Requirement};
use crate::scanner::{alphanumeric, is_alnum, is_ident, is_ident_char};
use crate::text::{
    chars_of, contains_str, find_chars, first_at, has_infix, has_prefix, lower_chars, lower_of,
    push_chars, push_str, replace_all, replace_chars, slice_chars, split_words, starts_with_str,
    string_of, words,
};

verus! {

/// What `char::to_uppercase` yields for a character.
pub uninterp spec fn upper_of(c: char) -> Seq<char>;

/// Relies on `char::to_uppercase`: the uppercase mapping of a character (one
/// or more characters), which depends on the character alone.
#[verifier::external_body]
fn uppercase_char(c: char) -> (r: String)
    ensures
        r@ == upper_of(c),
{
    c.to_uppercase().collect()
}

// ---------------------------------------------------------------------------
// Relevant symbols
// ---------------------------------------------------------------------------

/// The words longer than three characters.
pub open spec fn long_words(ws: Seq<Seq<char>>) -> Seq<Seq<char>>
    decreases ws.len(),
{
    if ws.len() == 0 {
        ws
    } else if ws.last().len() > 3 {
        long_words(ws.drop_last()).push(ws.last())
    } else {
        long_words(ws.drop_last())
    }
}

/// A lowercase symbol name that contains one of the words or is contained in
/// one.
pub open spec fn name_matches(ws: Seq<Seq<char>>, lname: Seq<char>) -> bool {
    exists|k: int| 0 <= k < ws.len() && (has_infix(lname, ws[k]) || has_infix(ws[k], lname))
}

/// Positions of the first (at most five) symbols among the first `n` whose
/// lowercase name matches one of the words.
pub open spec fn relevant(ws: Seq<Seq<char>>, syms: Seq<CodeSymbol>, n: int) -> Seq<int>
    decreases n,
{
    if n <= 0 {
        Seq::empty()
    } else {
        let r = relevant(ws, syms, n - 1);
        if r.len() < 5 && name_matches(ws, lower_of(syms[n - 1].name@)) {
            r.push(n - 1)
        } else {
            r
        }
    }
}

/// Positions of the symbols (at most five, in order) that a requirement
/// description mentions: a symbol counts when its lowercase name and one of
/// the description's lowercase words of more than three characters contain
/// one another.
pub open spec fn relevant_symbols(desc: Seq<char>, syms: Seq<CodeSymbol>) -> Seq<int> {
    relevant(long_words(words(lower_of(desc))), syms, syms.len() as int)
}

fn long_words_exec(ws: &Vec<Vec<char>>) -> (r: Vec<Vec<char>>)
    ensures
        r@.map_values(|w: Vec<char>| w@) == long_words(ws@.map_values(|w: Vec<char>| w@)),
{
    let ghost all = ws@.map_values(|w: Vec<char>| w@);
    let mut out: Vec<Vec<char>> = Vec::new();
    let mut i: usize = 0;
    while i < ws.len()
        invariant
            i <= ws.len(),
            all == ws@.map_values(|w: Vec<char>| w@),
            out@.map_values(|w: Vec<char>| w@) == long_words(all.subrange(0, i as int)),
        decreases ws.len() - i,
    {
        let ghost pre = all.subrange(0, i as int);
        assert(all.subrange(0, i + 1).drop_last() =~= pre);
        assert(all.subrange(0, i + 1).last() == ws@[i as int]@);
        if ws[i].len() > 3 {
            let ghost before = out@.map_values(|w: Vec<char>| w@);
            let copy = slice_chars(&ws[i], 0, ws[i].len());
            assert(copy@ =~= ws@[i as int]@);
            out.push(copy);
            assert(out@.map_values(|w: Vec<char>| w@) =~= before.push(ws@[i as int]@));
        }
        i = i + 1;
    }
    assert(all.subrange(0, ws.len() as int) =~= all);
    out
}

fn name_matches_exec(ws: &Vec<Vec<char>>, lname: &Vec<char>) -> (r: bool)
    ensures
        r == name_matches(ws@.map_values(|w: Vec<char>| w@), lname@),
{
    let ghost all = ws@.map_values(|w: Vec<char>| w@);
    let mut k: usize = 0;
    while k < ws.len()
        invariant
            k <= ws.len(),
            all == ws@.map_values(|w: Vec<char>| w@),
            forall|j: int|
                0 <= j < k ==> !(has_infix(lname@, all[j]) || has_infix(all[j], lname@)),
        decreases ws.len() - k,
    {
        assert(all[k as int] == ws@[k as int]@);
        if find_chars(lname, &ws[k]).is_some() || find_chars(&ws[k], lname).is_some() {
            return true;
        }
        k = k + 1;
    }
    false
}

/// The symbols (at most five, as positions in `symbols`) that a requirement
/// description mentions.
fn find_relevant_symbols(description: &str, symbols: &[CodeSymbol]) -> (r: Vec<usize>)
    ensures
        r@.map_values(|k: usize| k as int) == relevant_symbols(description@, symbols@),
{
    let lower = lower_chars(description);
    let ws0 = split_words(&lower);
    let ws = long_words_exec(&ws0);
    let ghost lw = long_words(words(lower_of(description@)));
    assert(ws@.map_values(|w: Vec<char>| w@) == lw);
    let mut out: Vec<usize> = Vec::new();
    let mut i: usize = 0;
    while i < symbols.len()
        invariant
            i <= symbols.len(),
            ws@.map_values(|w: Vec<char>| w@) == lw,
            lw == long_words(words(lower_of(description@))),
            out@.map_values(|k: usize| k as int) == relevant(lw, symbols@, i as int),
        decreases symbols.len() - i,
    {
        let ghost before = out@.map_values(|k: usize| k as int);
        if out.len() < 5 {
            let lname = lower_chars(symbols[i].name.as_str());
            if name_matches_exec(&ws, &lname) {
                out.push(i);
                assert(out@.map_values(|k: usize| k as int) =~= before.push(i as int));
            }
        }
        i = i + 1;
    }
    out
}

// ---------------------------------------------------------------------------
// Names and descriptions
// ---------------------------------------------------------------------------

/// `s` after the first occurrence of `p`.
pub open spec fn after_first(s: Seq<char>, p: Seq<char>) -> Seq<char> {
    let i = choose|i: int| first_at(s, p, i);
    s.subrange(i + p.len(), s.len() as int)
}

/// The "should ..." phrase for a lowercase description: without a leading
/// "the system shall / must"; a user story becomes "allow <what the user
/// wants>".
pub open spec fn test_description(l: Seq<char>) -> Seq<char> {
    if has_prefix(l, "the system shall "@) {
        l.subrange("the system shall "@.len() as int, l.len() as int)
    } else if has_prefix(l, "the system must "@) {
        l.subrange("the system must "@.len() as int, l.len() as int)
    } else if has_prefix(l, "as a "@) {
        if has_infix(l, "i want to "@) {
            "allow "@ + after_first(l, "i want to "@)
        } else if has_infix(l, "i should be able to "@) {
            "allow "@ + after_first(l, "i should be able to "@)
        } else {
            l
        }
    } else {
        l
    }
}

fn after_first_exec(s: &Vec<char>, p: &str) -> (r: Option<Vec<char>>)
    ensures
        match r {
            Some(t) => has_infix(s@, p@) && t@ == after_first(s@, p@),
            None => !has_infix(s@, p@),
        },
{
    let pc = chars_of(p);
    match find_chars(s, &pc) {
        Some(i) => {
            proof {
                let c = choose|j: int| first_at(s@, p@, j);
                assert(c == i) by {
                    if c < i {
                    } else if c > i {
                    }
                }
            }
            assert(s@.len() == s.len());
            Some(slice_chars(s, i + pc.len(), s.len()))
        },
        None => None,
    }
}

/// The "should ..." phrase of a test for a requirement description.
fn make_test_description(desc: &str) -> (r: String)
    ensures
        r@ == test_description(lower_of(desc@)),
{
    let lower = lower_chars(desc);
    let shall = chars_of("the system shall ");
    let must = chars_of("the system must ");
    if starts_with_str(&lower, "the system shall ") {
        string_of(&slice_chars(&lower, shall.len(), lower.len()))
    } else if starts_with_str(&lower, "the system must ") {
        string_of(&slice_chars(&lower, must.len(), lower.len()))
    } else if starts_with_str(&lower, "as a ") {
        match after_first_exec(&lower, "i want to ") {
            Some(rest) => {
                let mut out = chars_of("allow ");
                push_chars(&mut out, &rest);
                string_of(&out)
            },
            None => match after_first_exec(&lower, "i should be able to ") {
                Some(rest) => {
                    let mut out = chars_of("allow ");
                    push_chars(&mut out, &rest);
                    string_of(&out)
                },
                None => string_of(&lower),
            },
        }
    } else {
        string_of(&lower)
    }
}

/// Each character that is not an identifier character replaced by `_`.
pub open spec fn underscored(s: Seq<char>) -> Seq<char> {
    s.map_values(|c: char| if is_ident(c) { c } else { '_' })
}

/// `s` without leading underscores.
pub open spec fn strip_us_start(s: Seq<char>) -> Seq<char>
    decreases s.len(),
{
    if s.len() > 0 && s[0] == '_' {
        strip_us_start(s.drop_first())
    } else {
        s
    }
}

/// `s` without trailing underscores.
pub open spec fn strip_us_end(s: Seq<char>) -> Seq<char>
    decreases s.len(),
{
    if s.len() > 0 && s.last() == '_' {
        strip_us_end(s.drop_last())
    } else {
        s
    }
}

/// The first eight words of `s`.
pub open spec fn first_words(s: Seq<char>) -> Seq<Seq<char>> {
    let ws = words(s);
    if ws.len() <= 8 {
        ws
    } else {
        ws.subrange(0, 8)
    }
}

/// A pytest function name: `test_` and the first eight words joined by `_`,
/// lowercased, other characters made `_`, outer underscores dropped.
pub open spec fn python_test_name(desc: Seq<char>) -> Seq<char> {
    "test_"@ + strip_us_end(strip_us_start(underscored(lower_of(join(first_words(desc), "_"@)))))
}

fn join_words(ws: &Vec<Vec<char>>, n: usize, sep: &str) -> (r: Vec<char>)
    requires
        n <= ws.len(),
    ensures
        r@ == join(ws@.map_values(|w: Vec<char>| w@).subrange(0, n as int), sep@),
{
    let ghost all = ws@.map_values(|w: Vec<char>| w@);
    let mut out: Vec<char> = Vec::new();
    let mut i: usize = 0;
    assert(all.subrange(0, 0) =~= Seq::<Seq<char>>::empty());
    while i < n
        invariant
            i <= n <= ws.len(),
            all == ws@.map_values(|w: Vec<char>| w@),
            out@ == join(all.subrange(0, i as int), sep@),
        decreases n - i,
    {
        let ghost pre = all.subrange(0, i as int);
        let ghost next = all.subrange(0, i + 1);
        assert(next.drop_last() =~= pre);
        assert(next.last() == ws@[i as int]@);
        if i > 0 {
            push_str(&mut out, sep);
        }
        push_chars(&mut out, &ws[i]);
        proof {
            if i == 0 {
                assert(out@ =~= join(next, sep@));
            }
        }
        i = i + 1;
    }
    out
}

fn underscore_exec(s: &Vec<char>) -> (r: Vec<char>)
    ensures
        r@ == underscored(s@),
{
    let mut out: Vec<char> = Vec::new();
    let mut i: usize = 0;
    while i < s.len()
        invariant
            i <= s.len(),
            out@ == underscored(s@.subrange(0, i as int)),
        decreases s.len() - i,
    {
        let c = s[i];
        if is_ident_char(c) {
            out.push(c);
        } else {
            out.push('_');
        }
        i = i + 1;
        assert(out@ =~= underscored(s@.subrange(0, i as int)));
    }
    assert(s@.subrange(0, s.len() as int) =~= s@);
    out
}

fn strip_underscores(s: &Vec<char>) -> (r: Vec<char>)
    ensures
        r@ == strip_us_end(strip_us_start(s@)),
{
    let mut i: usize = 0;
    assert(s@.subrange(0, s@.len() as int) =~= s@);
    while i < s.len() && s[i] == '_'
        invariant
            i <= s.len(),
            strip_us_start(s@) == strip_us_start(s@.subrange(i as int, s@.len() as int)),
        decreases s.len() - i,
    {
        assert(s@.subrange(i as int, s@.len() as int).drop_first() =~= s@.subrange(
            i + 1,
            s@.len() as int,
        ));
        i = i + 1;
    }
    let ghost t = s@.subrange(i as int, s@.len() as int);
    let mut j: usize = s.len();
    assert(t.subrange(0, t.len() as int) =~= t);
    while j > i && s[j - 1] == '_'
        invariant
            i <= j <= s.len(),
            t == s@.subrange(i as int, s@.len() as int),
            strip_us_end(t) == strip_us_end(t.subrange(0, j - i)),
        decreases j,
    {
        assert(t.subrange(0, j - i).drop_last() =~= t.subrange(0, j - i - 1));
        j = j - 1;
    }
    let r = slice_chars(s, i, j);
    assert(r@ =~= t.subrange(0, j - i));
    r
}

/// The pytest function name for a requirement description.
fn make_python_test_name(desc: &str) -> (r: String)
    ensures
        r@ == python_test_name(desc@),
{
    let ws = split_words(&chars_of(desc));
    let ghost all = ws@.map_values(|w: Vec<char>| w@);
    assert(all.len() == ws@.len());
    let n: usize = if ws.len() <= 8 {
        ws.len()
    } else {
        8
    };
    let joined = join_words(&ws, n, "_");
    assert(all.subrange(0, all.len() as int) =~= all);
    let lower = lower_chars(string_of(&joined).as_str());
    let cleaned = strip_underscores(&underscore_exec(&lower));
    let mut out = chars_of("test_");
    push_chars(&mut out, &cleaned);
    string_of(&out)
}

/// The alphanumeric characters of `s`, in order.
pub open spec fn alnum_only(s: Seq<char>) -> Seq<char>
    decreases s.len(),
{
    if s.len() == 0 {
        s
    } else if is_alnum(s.last()) {
        alnum_only(s.drop_last()).push(s.last())
    } else {
        alnum_only(s.drop_last())
    }
}

/// A word as part of a class name: its first character uppercased, the
/// rest kept where alphanumeric.
pub open spec fn class_word(w: Seq<char>) -> Seq<char> {
    if w.len() == 0 {
        Seq::empty()
    } else {
        upper_of(w[0]) + alnum_only(w.drop_first())
    }
}

/// The class words of `ws`, concatenated.
pub open spec fn class_words(ws: Seq<Seq<char>>) -> Seq<char>
    decreases ws.len(),
{
    if ws.len() == 0 {
        Seq::empty()
    } else {
        class_words(ws.drop_last()) + class_word(ws.last())
    }
}

/// A class name made of the words of a section title.
pub open spec fn class_name(section: Seq<char>) -> Seq<char> {
    class_words(words(section))
}

fn class_word_exec(w: &Vec<char>) -> (r: Vec<char>)
    ensures
        r@ == class_word(w@),
{
    if w.len() == 0 {
        return Vec::new();
    }
    let mut out = chars_of(uppercase_char(w[0]).as_str());
    let ghost head = out@;
    let mut i: usize = 1;
    assert(w@.drop_first().subrange(0, 0) =~= Seq::<char>::empty());
    while i < w.len()
        invariant
            1 <= i <= w.len(),
            head == upper_of(w@[0]),
            out@ == head + alnum_only(w@.drop_first().subrange(0, i - 1)),
        decreases w.len() - i,
    {
        let ghost rest = w@.drop_first().subrange(0, i - 1);
        let ghost next = w@.drop_first().subrange(0, i as int);
        assert(next.drop_last() =~= rest);
        assert(next.last() == w@[i as int]);
        if alphanumeric(w[i]) {
            out.push(w[i]);
            assert(out@ =~= head + alnum_only(next));
        }
        i = i + 1;
    }
    assert(w@.drop_first().subrange(0, w.len() - 1) =~= w@.drop_first());
    out
}

/// The pytest class name for a section title.
fn make_class_name(section: &str) -> (r: String)
    ensures
        r@ == class_name(section@),
{
    let ws = split_words(&chars_of(section));
    let ghost all = ws@.map_values(|w: Vec<char>| w@);
    let mut out: Vec<char> = Vec::new();
    let mut i: usize = 0;
    while i < ws.len()
        invariant
            i <= ws.len(),
            all == ws@.map_values(|w: Vec<char>| w@),
            all == words(section@),
            out@ == class_words(all.subrange(0, i as int)),
        decreases ws.len() - i,
    {
        let ghost next = all.subrange(0, i + 1);
        assert(next.drop_last() =~= all.subrange(0, i as int));
        assert(next.last() == ws@[i as int]@);
        let cw = class_word_exec(&ws[i]);
        push_chars(&mut out, &cw);
        i = i + 1;
    }
    assert(all.subrange(0, ws.len() as int) =~= all);
    string_of(&out)
}

/// A character as it stands inside a single-quoted JavaScript string.
pub open spec fn js_escape_char(c: char) -> Seq<char> {
    if c == '\\' {
        seq!['\\', '\\']
    } else if c == '\'' {
        seq!['\\', '\'']
    } else if c == '\n' {
        seq!['\\', 'n']
    } else if c == '\r' {
        seq!['\\', 'r']
    } else {
        seq![c]
    }
}

/// `s` escaped for a single-quoted JavaScript string: backslash, quote,
/// newline and carriage return.
pub open spec fn js_escaped(s: Seq<char>) -> Seq<char>
    decreases s.len(),
{
    if s.len() == 0 {
        Seq::empty()
    } else {
        js_escaped(s.drop_last()) + js_escape_char(s.last())
    }
}

/// `s` escaped for a single-quoted JavaScript string.
fn escape_js_string(s: &str) -> (r: String)
    ensures
        r@ == js_escaped(s@),
{
    let cs = chars_of(s);
    let mut out: Vec<char> = Vec::new();
    let mut i: usize = 0;
    while i < cs.len()
        invariant
            i <= cs.len(),
            cs@ == s@,
            out@ == js_escaped(cs@.subrange(0, i as int)),
        decreases cs.len() - i,
    {
        let ghost next = cs@.subrange(0, i + 1);
        assert(next.drop_last() =~= cs@.subrange(0, i as int));
        let c = cs[i];
        let ghost before = out@;
        if c == '\\' {
            out.push('\\');
            out.push('\\');
        } else if c == '\'' {
            out.push('\\');
            out.push('\'');
        } else if c == '\n' {
            out.push('\\');
            out.push('n');
        } else if c == '\r' {
            out.push('\\');
            out.push('r');
        } else {
            out.push(c);
        }
        assert(out@ =~= before + js_escape_char(c));
        i = i + 1;
    }
    assert(cs@.subrange(0, cs.len() as int) =~= cs@);
    string_of(&out)
}

/// The hint that a lowercase description suggests for the assertion.
pub open spec fn assertion_hint(l: Seq<char>) -> Option<Seq<char>> {
    if has_infix(l, "authenti"@) || has_infix(l, "login"@) {
        Some("Verify authentication flow works correctly"@)
    } else if has_infix(l, "creat"@) || has_infix(l, "add"@) {
        Some("Verify resource is created successfully"@)
    } else if has_infix(l, "delet"@) || has_infix(l, "remov"@) {
        Some("Verify resource is deleted successfully"@)
    } else if has_infix(l, "updat"@) || has_infix(l, "edit"@) || has_infix(l, "modif"@) {
        Some("Verify resource is updated correctly"@)
    } else if has_infix(l, "list"@) || has_infix(l, "display"@) || has_infix(l, "show"@)
        || has_infix(l, "view"@) {
        Some("Verify data is displayed correctly"@)
    } else if has_infix(l, "validat"@) || has_infix(l, "check"@) {
        Some("Verify validation rules are enforced"@)
    } else {
        None
    }
}

/// The assertion hint for a requirement description, if its wording suggests
/// one.
fn generate_assertion_hint(desc: &str) -> (r: Option<String>)
    ensures
        match r {
            Some(h) => assertion_hint(lower_of(desc@)) == Some(h@),
            None => assertion_hint(lower_of(desc@)) is None,
        },
{
    let l = lower_chars(desc);
    let hint = if contains_str(&l, "authenti") || contains_str(&l, "login") {
        Some("Verify authentication flow works correctly")
    } else if contains_str(&l, "creat") || contains_str(&l, "add") {
        Some("Verify resource is created successfully")
    } else if contains_str(&l, "delet") || contains_str(&l, "remov") {
        Some("Verify resource is deleted successfully")
    } else if contains_str(&l, "updat") || contains_str(&l, "edit") || contains_str(&l, "modif") {
        Some("Verify resource is updated correctly")
    } else if contains_str(&l, "list") || contains_str(&l, "display") || contains_str(&l, "show")
        || contains_str(&l, "view") {
        Some("Verify data is displayed correctly")
    } else if contains_str(&l, "validat") || contains_str(&l, "check") {
        Some("Verify validation rules are enforced")
    } else {
        None
    };
    match hint {
        Some(h) => Some(string_of(&chars_of(h))),
        None => None,
    }
}

// ---------------------------------------------------------------------------
// The skeletons
// ---------------------------------------------------------------------------

/// The comment lines that trace a requirement, with the given comment mark.
pub open spec fn trace_header(mark: Seq<char>, q: Requirement) -> Seq<char> {
    mark + "Requirement: "@ + q.description@ + "\n"@ + mark + "Section: "@ + q.section@ + "\n"@
        + mark + "Type: "@ + q.req_type@ + " | Priority: "@ + q.priority@ + "\n\n"@
}

/// One Jest import comment per relevant symbol.
pub open spec fn js_imports(syms: Seq<CodeSymbol>, rel: Seq<int>) -> Seq<char>
    decreases rel.len(),
{
    if rel.len() == 0 {
        Seq::empty()
    } else {
        js_imports(syms, rel.drop_last()) + "// import { "@ + syms[rel.last()].name@
            + " } from './"@ + syms[rel.last()].file_path@ + "';\n"@
    }
}

/// The Python module path of a file: `/` made `.`, every `.py` dropped.
pub open spec fn py_module(path: Seq<char>) -> Seq<char> {
    replace_all(replace_all(path, "/"@, "."@), ".py"@, Seq::empty())
}

/// One pytest import comment per relevant symbol.
pub open spec fn py_imports(syms: Seq<CodeSymbol>, rel: Seq<int>) -> Seq<char>
    decreases rel.len(),
{
    if rel.len() == 0 {
        Seq::empty()
    } else {
        py_imports(syms, rel.drop_last()) + "# from "@ + py_module(syms[rel.last()].file_path@)
            + " import "@ + syms[rel.last()].name@ + "\n"@
    }
}

/// The import block: the imports and a blank line, or nothing.
pub open spec fn import_block(imports: Seq<char>, rel: Seq<int>) -> Seq<char> {
    if rel.len() == 0 {
        Seq::empty()
    } else {
        imports + "\n"@
    }
}

/// The closing lines of a Jest skeleton.
pub open spec fn jest_tail() -> Seq<char> {
    "    // Arrange\n    \n    // Act\n    \n    // Assert\n    expect(true).toBe(true); // TODO: Replace with actual assertion\n  });\n});\n"@
}

/// The Jest skeleton for a requirement.
pub open spec fn jest_text(q: Requirement, syms: Seq<CodeSymbol>) -> Seq<char> {
    let rel = relevant_symbols(q.description@, syms);
    let l = lower_of(q.description@);
    trace_header("// "@, q) + import_block(js_imports(syms, rel), rel) + "describe('"@
        + js_escaped(q.section@) + "', () => {\n"@ + "  it('should "@ + js_escaped(
        test_description(l),
    ) + "', () => {\n"@ + (match assertion_hint(l) {
        Some(h) => "    // TODO: "@ + h + "\n"@,
        None => Seq::empty(),
    }) + jest_tail()
}

/// The closing lines of a pytest skeleton.
pub open spec fn pytest_tail() -> Seq<char> {
    "        # Arrange\n        \n        # Act\n        \n        # Assert\n        assert True  # TODO: Replace with actual assertion\n"@
}

/// The pytest skeleton for a requirement.
pub open spec fn pytest_text(q: Requirement, syms: Seq<CodeSymbol>) -> Seq<char> {
    let rel = relevant_symbols(q.description@, syms);
    trace_header("# "@, q) + import_block(py_imports(syms, rel), rel) + "class Test"@ + class_name(
        q.section@,
    ) + ":\n"@ + "    def "@ + python_test_name(q.description@) + "(self):\n"@
        + "        \"\"\"Test: "@ + replace_all(q.description@, "\"\"\""@, "\\\"\\\"\\\""@)
        + "\"\"\"\n"@ + pytest_tail()
}

fn push_trace_header(out: &mut Vec<char>, mark: &str, q: &Requirement)
    ensures
        final(out)@ == old(out)@ + trace_header(mark@, *q),
{
    let ghost before = out@;
    push_str(out, mark);
    push_str(out, "Requirement: ");
    push_str(out, q.description.as_str());
    push_str(out, "\n");
    push_str(out, mark);
    push_str(out, "Section: ");
    push_str(out, q.section.as_str());
    push_str(out, "\n");
    push_str(out, mark);
    push_str(out, "Type: ");
    push_str(out, q.req_type.as_str());
    push_str(out, " | Priority: ");
    push_str(out, q.priority.as_str());
    push_str(out, "\n\n");
    assert(out@ =~= before + trace_header(mark@, *q));
}

fn js_import_lines(symbols: &[CodeSymbol], rel: &Vec<usize>) -> (r: Vec<char>)
    requires
        forall|k: int| 0 <= k < rel@.len() ==> rel@[k] < symbols@.len(),
    ensures
        r@ == js_imports(symbols@, rel@.map_values(|k: usize| k as int)),
{
    let ghost rs = rel@.map_values(|k: usize| k as int);
    let mut out: Vec<char> = Vec::new();
    let mut i: usize = 0;
    while i < rel.len()
        invariant
            i <= rel.len(),
            rs == rel@.map_values(|k: usize| k as int),
            forall|k: int| 0 <= k < rel@.len() ==> rel@[k] < symbols@.len(),
            out@ == js_imports(symbols@, rs.subrange(0, i as int)),
        decreases rel.len() - i,
    {
        let ghost next = rs.subrange(0, i + 1);
        assert(next.drop_last() =~= rs.subrange(0, i as int));
        assert(next.last() == rel@[i as int] as int);
        let sym = &symbols[rel[i]];
        let ghost before = out@;
        push_str(&mut out, "// import { ");
        push_str(&mut out, sym.name.as_str());
        push_str(&mut out, " } from './");
        push_str(&mut out, sym.file_path.as_str());
        push_str(&mut out, "';\n");
        assert(out@ =~= js_imports(symbols@, next));
        i = i + 1;
    }
    assert(rs.subrange(0, rel.len() as int) =~= rs);
    out
}

fn py_import_lines(symbols: &[CodeSymbol], rel: &Vec<usize>) -> (r: Vec<char>)
    requires
        forall|k: int| 0 <= k < rel@.len() ==> rel@[k] < symbols@.len(),
    ensures
        r@ == py_imports(symbols@, rel@.map_values(|k: usize| k as int)),
{
    let ghost rs = rel@.map_values(|k: usize| k as int);
    let mut out: Vec<char> = Vec::new();
    let mut i: usize = 0;
    while i < rel.len()
        invariant
            i <= rel.len(),
            rs == rel@.map_values(|k: usize| k as int),
            forall|k: int| 0 <= k < rel@.len() ==> rel@[k] < symbols@.len(),
            out@ == py_imports(symbols@, rs.subrange(0, i as int)),
        decreases rel.len() - i,
    {
        let ghost next = rs.subrange(0, i + 1);
        assert(next.drop_last() =~= rs.subrange(0, i as int));
        assert(next.last() == rel@[i as int] as int);
        let sym = &symbols[rel[i]];
        let path = chars_of(sym.file_path.as_str());
        proof {
            reveal_strlit("/");
            reveal_strlit(".py");
            reveal_strlit("");
        }
        let dotted = replace_chars(&path, "/", ".");
        let module = replace_chars(&dotted, ".py", "");
        assert(""@ =~= Seq::<char>::empty());
        let ghost before = out@;
        push_str(&mut out, "# from ");
        push_chars(&mut out, &module);
        push_str(&mut out, " import ");
        push_str(&mut out, sym.name.as_str());
        push_str(&mut out, "\n");
        assert(out@ =~= py_imports(symbols@, next));
        i = i + 1;
    }
    assert(rs.subrange(0, rel.len() as int) =~= rs);
    out
}

proof fn lemma_relevant_in_range(ws: Seq<Seq<char>>, syms: Seq<CodeSymbol>, n: int)
    requires
        0 <= n <= syms.len(),
    ensures
        forall|k: int| 0 <= k < relevant(ws, syms, n).len() ==> 0 <= #[trigger] relevant(ws, syms, n)[k] < n,
    decreases n,
{
    if n > 0 {
        lemma_relevant_in_range(ws, syms, n - 1);
        let r = relevant(ws, syms, n - 1);
        if r.len() < 5 && name_matches(ws, lower_of(syms[n - 1].name@)) {
            assert(relevant(ws, syms, n) == r.push(n - 1));
            assert forall|k: int| 0 <= k < r.push(n - 1).len() implies 0 <= #[trigger] r.push(
                n - 1,
            )[k] < n by {
                if k < r.len() {
                    assert(r.push(n - 1)[k] == r[k]);
                }
            }
        }
    }
}

fn relevant_positions(description: &str, symbols: &[CodeSymbol]) -> (r: Vec<usize>)
    ensures
        r@.map_values(|k: usize| k as int) == relevant_symbols(description@, symbols@),
        forall|k: int| 0 <= k < r@.len() ==> r@[k] < symbols@.len(),
{
    let r = find_relevant_symbols(description, symbols);
    proof {
        lemma_relevant_in_range(
            long_words(words(lower_of(description@))),
            symbols@,
            symbols@.len() as int,
        );
        assert forall|k: int| 0 <= k < r@.len() implies r@[k] < symbols@.len() by {
            assert(r@.map_values(|k: usize| k as int)[k] == r@[k] as int);
        }
    }
    r
}

/// A Jest test skeleton for a requirement: comments that trace it, an import
/// comment for each codebase symbol its description mentions (at most five),
/// and a `describe` / `it` block named after its section and description.
pub fn generate_jest_test(requirement: &Requirement, symbols: &[CodeSymbol]) -> (r: String)
    ensures
        r@ == jest_text(*requirement, symbols@),
{
    let desc = requirement.description.as_str();
    let rel = relevant_positions(desc, symbols);
    let ghost rs = rel@.map_values(|k: usize| k as int);
    let mut code: Vec<char> = Vec::new();
    push_trace_header(&mut code, "// ", requirement);
    let ghost c1 = code@;
    if rel.len() > 0 {
        let imports = js_import_lines(symbols, &rel);
        push_chars(&mut code, &imports);
        push_str(&mut code, "\n");
    }
    assert(code@ =~= c1 + import_block(js_imports(symbols@, rs), rs));
    push_str(&mut code, "describe('");
    let section = escape_js_string(requirement.section.as_str());
    push_str(&mut code, section.as_str());
    push_str(&mut code, "', () => {\n");
    push_str(&mut code, "  it('should ");
    let phrase = escape_js_string(make_test_description(desc).as_str());
    push_str(&mut code, phrase.as_str());
    push_str(&mut code, "', () => {\n");
    let ghost c2 = code@;
    match generate_assertion_hint(desc) {
        Some(h) => {
            push_str(&mut code, "    // TODO: ");
            push_str(&mut code, h.as_str());
            push_str(&mut code, "\n");
        },
        None => {},
    }
    let ghost c3 = code@;
    push_str(&mut code, "    // Arrange\n");
    push_str(&mut code, "    \n");
    push_str(&mut code, "    // Act\n");
    push_str(&mut code, "    \n");
    push_str(&mut code, "    // Assert\n");
    push_str(&mut code, "    expect(true).toBe(true); // TODO: Replace with actual assertion\n");
    push_str(&mut code, "  });\n");
    push_str(&mut code, "});\n");
    proof {
        reveal_strlit("    // Arrange\n");
        reveal_strlit("    \n");
        reveal_strlit("    // Act\n");
        reveal_strlit("    // Assert\n");
        reveal_strlit("    expect(true).toBe(true); // TODO: Replace with actual assertion\n");
        reveal_strlit("  });\n");
        reveal_strlit("});\n");
        reveal_strlit(
            "    // Arrange\n    \n    // Act\n    \n    // Assert\n    expect(true).toBe(true); // TODO: Replace with actual assertion\n  });\n});\n",
        );
        assert(code@ =~= c3 + jest_tail());
    }
    assert(code@ =~= jest_text(*requirement, symbols@));
    string_of(&code)
}

/// A pytest test skeleton for a requirement: comments that trace it, an
/// import comment for each codebase symbol its description mentions (at most
/// five), and a test class named after its section with one test method
/// named after its description.
pub fn generate_pytest_test(requirement: &Requirement, symbols: &[CodeSymbol]) -> (r: String)
    ensures
        r@ == pytest_text(*requirement, symbols@),
{
    let desc = requirement.description.as_str();
    let rel = relevant_positions(desc, symbols);
    let ghost rs = rel@.map_values(|k: usize| k as int);
    let mut code: Vec<char> = Vec::new();
    push_trace_header(&mut code, "# ", requirement);
    let ghost c1 = code@;
    if rel.len() > 0 {
        let imports = py_import_lines(symbols, &rel);
        push_chars(&mut code, &imports);
        push_str(&mut code, "\n");
    }
    assert(code@ =~= c1 + import_block(py_imports(symbols@, rs), rs));
    push_str(&mut code, "class Test");
    push_str(&mut code, make_class_name(requirement.section.as_str()).as_str());
    push_str(&mut code, ":\n");
    push_str(&mut code, "    def ");
    push_str(&mut code, make_python_test_name(desc).as_str());
    push_str(&mut code, "(self):\n");
    push_str(&mut code, "        \"\"\"Test: ");
    proof {
        reveal_strlit("\"\"\"");
    }
    let quoted = replace_chars(&chars_of(desc), "\"\"\"", "\\\"\\\"\\\"");
    push_chars(&mut code, &quoted);
    push_str(&mut code, "\"\"\"\n");
    let ghost c3 = code@;
    push_str(&mut code, "        # Arrange\n");
    push_str(&mut code, "        \n");
    push_str(&mut code, "        # Act\n");
    push_str(&mut code, "        \n");
    push_str(&mut code, "        # Assert\n");
    push_str(&mut code, "        assert True  # TODO: Replace with actual assertion\n");
    proof {
        reveal_strlit("        # Arrange\n");
        reveal_strlit("        \n");
        reveal_strlit("        # Act\n");
        reveal_strlit("        # Assert\n");
        reveal_strlit("        assert True  # TODO: Replace with actual assertion\n");
        reveal_strlit(
            "        # Arrange\n        \n        # Act\n        \n        # Assert\n        assert True  # TODO: Replace with actual assertion\n",
        );
        assert(code@ =~= c3 + pytest_tail());
    }
    assert(code@ =~= pytest_text(*requirement, symbols@));
    string_of(&code)
}

} // verus!
