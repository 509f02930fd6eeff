//! Heuristic, line-based extraction of symbol names (functions, classes,
//! methods) from source files of several languages. No parsing: each line is
//! matched against a few keyword patterns.

use vstd::prelude::*;
use crate::model::CodeSymbol;
use crate::text::{
    chars_of, contains_char, contains_str, ends_with_str, find_char, find_chars, first_at,
    has_infix, has_prefix, has_suffix, lines, same_chars, slice_chars, split_lines, split_words,
    starts_with_str, string_of, trim, trim_chars, trim_start, trim_start_chars, words,
};

verus! {

/// What `char::is_alphanumeric` answers for a character.
pub uninterp spec fn is_alnum(c: char) -> bool;

/// Relies on `char::is_alphanumeric`: whether the character is alphabetic or
/// numeric in Unicode's terms, which depends on the character alone.
#[verifier::external_body]
pub(crate) fn alphanumeric(c: char) -> (r: bool)
    ensures
        r == is_alnum(c),
{
    c.is_alphanumeric()
}

/// A character that may stand in an identifier.
pub open spec fn is_ident(c: char) -> bool {
    is_alnum(c) || c == '_'
}

pub(crate) fn is_ident_char(c: char) -> (r: bool)
    ensures
        r == is_ident(c),
{
    alphanumeric(c) || c == '_'
}

/// The longest prefix of `s` made of identifier characters.
pub open spec fn ident_prefix(s: Seq<char>) -> Seq<char>
    decreases s.len(),
{
    if s.len() > 0 && is_ident(s[0]) {
        seq![s[0]] + ident_prefix(s.drop_first())
    } else {
        Seq::empty()
    }
}

/// The symbol as plain sequences.
pub struct SymbolView {
    pub name: Seq<char>,
    pub kind: Seq<char>,
    pub file_path: Seq<char>,
}

pub open spec fn symbol_view(s: CodeSymbol) -> SymbolView {
    SymbolView { name: s.name@, kind: s.kind@, file_path: s.file_path@ }
}

pub open spec fn symbol_views(v: Seq<CodeSymbol>) -> Seq<SymbolView> {
    v.map_values(|s: CodeSymbol| symbol_view(s))
}

/// The symbol of the given kind for a name that was found, if one was.
pub open spec fn found(name: Option<Seq<char>>, kind: Seq<char>, path: Seq<char>) -> Seq<
    SymbolView,
> {
    match name {
        Some(n) => seq![SymbolView { name: n, kind, file_path: path }],
        None => Seq::empty(),
    }
}

/// The identifiers that follow each occurrence of `kw` in a line at or after
/// position `start` (occurrences taken left to right without overlap), the
/// empty ones left out.
pub open spec fn names_after_from(line: Seq<char>, kw: Seq<char>, start: int) -> Seq<Seq<char>>
    decreases line.len() - start,
{
    if kw.len() == 0 || start < 0 || start > line.len() {
        Seq::empty()
    } else {
        let tail = line.subrange(start, line.len() as int);
        let ci = choose|i: int| first_at(tail, kw, i);
        if has_infix(tail, kw) && first_at(tail, kw, ci) {
            let i = start + ci;
            let name = ident_prefix(line.subrange(i + kw.len(), line.len() as int));
            (if name.len() > 0 {
                seq![name]
            } else {
                Seq::empty()
            }) + names_after_from(line, kw, i + kw.len())
        } else {
            Seq::empty()
        }
    }
}

/// The identifiers after every occurrence of `kw` in a line.
pub open spec fn names_after(line: Seq<char>, kw: Seq<char>) -> Seq<Seq<char>> {
    names_after_from(line, kw, 0)
}

/// One symbol of the given kind per name.
pub open spec fn all_found(names: Seq<Seq<char>>, kind: Seq<char>, path: Seq<char>) -> Seq<
    SymbolView,
> {
    names.map_values(|n: Seq<char>| SymbolView { name: n, kind, file_path: path })
}

/// The method that a Go `func` line with a receiver declares: the identifier
/// after the receiver's closing parenthesis.
pub open spec fn go_receiver_method(t: Seq<char>) -> Option<Seq<char>> {
    if has_prefix(t, "func ("@) && has_infix(t, seq![')']) {
        let p = choose|i: int| first_at(t, seq![')'], i);
        let name = ident_prefix(trim_start(t.subrange(p + 1, t.len() as int)));
        if name.len() > 0 {
            Some(name)
        } else {
            None
        }
    } else {
        None
    }
}

/// The name bound by a `const` (or `export const`) line that holds an arrow
/// function or a function expression: the identifier after the keyword, when
/// something other than identifier characters follows it.
pub open spec fn const_function(t: Seq<char>) -> Option<Seq<char>> {
    if (has_prefix(t, "export const "@) || has_prefix(t, "const "@)) && (has_infix(t, "=>"@)
        || has_infix(t, "= function"@)) {
        let rest = if has_prefix(t, "export "@) {
            t.subrange(13, t.len() as int)
        } else {
            t.subrange(6, t.len() as int)
        };
        let name = ident_prefix(rest);
        if name.len() < rest.len() && name.len() > 0 {
            Some(name)
        } else {
            None
        }
    } else {
        None
    }
}

/// A trimmed line that reads as a Java method declaration (a one-line body
/// counts too).
pub open spec fn java_method_like(t: Seq<char>) -> bool {
    t.contains('(') && t.contains(')') && (has_suffix(t, "{"@) || has_suffix(t, "}"@) || has_suffix(
        t,
        ";"@,
    ) || has_infix(t, " throws "@)) && !has_infix(t, " class "@) && !has_prefix(t, "if "@) && !has_prefix(t, "for "@)
        && !has_prefix(t, "while "@) && !has_prefix(t, "switch "@)
}

/// A trimmed line that reads as a C# method declaration (a one-line body
/// counts too).
pub open spec fn csharp_method_like(t: Seq<char>) -> bool {
    t.contains('(') && t.contains(')') && (has_suffix(t, "{"@) || has_suffix(t, "}"@) || has_suffix(
        t,
        "=>"@,
    ) || has_infix(t, " => "@)) && !has_infix(t, " class "@) && !has_prefix(t, "if "@) && !has_prefix(t, "for "@)
        && !has_prefix(t, "while "@) && !has_prefix(t, "switch "@)
}

/// A character that `trim_matches` strips from a method name.
pub open spec fn is_name_punct(c: char) -> bool {
    c == '<' || c == '>' || c == ':' || c == ','
}

/// `s` without leading name punctuation.
pub open spec fn strip_punct_start(s: Seq<char>) -> Seq<char>
    decreases s.len(),
{
    if s.len() > 0 && is_name_punct(s[0]) {
        strip_punct_start(s.drop_first())
    } else {
        s
    }
}

/// `s` without trailing name punctuation.
pub open spec fn strip_punct_end(s: Seq<char>) -> Seq<char>
    decreases s.len(),
{
    if s.len() > 0 && is_name_punct(s.last()) {
        strip_punct_end(s.drop_last())
    } else {
        s
    }
}

/// The last word before the first `(` of a line, without surrounding name
/// punctuation, if that leaves something.
pub open spec fn name_before_paren(line: Seq<char>) -> Option<Seq<char>> {
    if has_infix(line, seq!['(']) {
        let p = choose|i: int| first_at(line, seq!['('], i);
        let ws = words(trim(line.subrange(0, p)));
        if ws.len() == 0 {
            None
        } else {
            let cleaned = strip_punct_end(strip_punct_start(ws.last()));
            if cleaned.len() > 0 {
                Some(cleaned)
            } else {
                None
            }
        }
    } else {
        None
    }
}

/// The part of `s` before its first `c` (all of `s` if there is none).
pub open spec fn before_first(s: Seq<char>, c: char) -> Seq<char> {
    if has_infix(s, seq![c]) {
        let p = choose|i: int| first_at(s, seq![c], i);
        s.subrange(0, p)
    } else {
        s
    }
}

/// The part of `s` after its last `c` (all of `s` if there is none).
pub open spec fn after_last(s: Seq<char>, c: char) -> Seq<char>
    decreases s.len(),
{
    if s.len() == 0 {
        s
    } else if s.last() == c {
        Seq::empty()
    } else {
        after_last(s.drop_last(), c).push(s.last())
    }
}

/// The method that a Ruby `def` line defines: the first word after `def`,
/// up to any `(`, after any receiver such as `self.`.
pub open spec fn ruby_method(t: Seq<char>) -> Option<Seq<char>> {
    if has_prefix(t, "def "@) {
        let m = trim_start(t.subrange(4, t.len() as int));
        let ws = words(m);
        let first = if ws.len() > 0 {
            ws[0]
        } else {
            Seq::empty()
        };
        let name = after_last(before_first(first, '('), '.');
        if name.len() > 0 {
            Some(name)
        } else {
            None
        }
    } else {
        None
    }
}

/// The languages the scanner knows.
pub enum Lang {
    JsTs,
    Python,
    Rust,
    Go,
    Java,
    Ruby,
    CSharp,
}

pub open spec fn js_symbols(t: Seq<char>, path: Seq<char>) -> Seq<SymbolView> {
    all_found(names_after(t, "function "@), "function"@, path) + all_found(
        names_after(t, "class "@),
        "class"@,
        path,
    ) + found(const_function(t), "function"@, path)
}

/// A `def` on an indented line is a method, else a function.
pub open spec fn python_symbols(raw: Seq<char>, t: Seq<char>, path: Seq<char>) -> Seq<SymbolView> {
    all_found(
        names_after(t, "def "@),
        if has_prefix(raw, "    "@) || has_prefix(raw, "\t"@) {
            "method"@
        } else {
            "function"@
        },
        path,
    ) + all_found(names_after(t, "class "@), "class"@, path)
}

pub open spec fn rust_symbols(t: Seq<char>, path: Seq<char>) -> Seq<SymbolView> {
    all_found(names_after(t, "fn "@), "function"@, path) + all_found(
        names_after(t, "struct "@),
        "class"@,
        path,
    ) + all_found(names_after(t, "impl "@), "class"@, path)
}

/// A `type` declares a class only on a line that holds ` struct` or
/// ` interface`; a `func` with a receiver declares its method as a function.
pub open spec fn go_symbols(t: Seq<char>, path: Seq<char>) -> Seq<SymbolView> {
    all_found(names_after(t, "func "@), "function"@, path) + found(
        go_receiver_method(t),
        "function"@,
        path,
    ) + (if has_infix(t, " struct"@) || has_infix(t, " interface"@) {
        all_found(names_after(t, "type "@), "class"@, path)
    } else {
        Seq::empty()
    })
}

pub open spec fn java_symbols(t: Seq<char>, path: Seq<char>) -> Seq<SymbolView> {
    all_found(names_after(t, "class "@), "class"@, path) + all_found(
        names_after(t, "interface "@),
        "class"@,
        path,
    ) + (if java_method_like(t) {
        found(name_before_paren(t), "method"@, path)
    } else {
        Seq::empty()
    })
}

pub open spec fn ruby_symbols(t: Seq<char>, path: Seq<char>) -> Seq<SymbolView> {
    all_found(names_after(t, "class "@), "class"@, path) + found(ruby_method(t), "method"@, path)
}

pub open spec fn csharp_symbols(t: Seq<char>, path: Seq<char>) -> Seq<SymbolView> {
    all_found(names_after(t, "class "@), "class"@, path) + all_found(
        names_after(t, "interface "@),
        "class"@,
        path,
    ) + (if csharp_method_like(t) {
        found(name_before_paren(t), "method"@, path)
    } else {
        Seq::empty()
    })
}

/// The line-comment mark of a language.
pub open spec fn comment_mark(lang: Lang) -> Seq<char> {
    match lang {
        Lang::Python | Lang::Ruby => "#"@,
        _ => "//"@,
    }
}

/// The symbols that one line declares; most rules read it trimmed, and a
/// comment line declares none.
pub open spec fn line_symbols(lang: Lang, raw: Seq<char>, path: Seq<char>) -> Seq<SymbolView> {
    let t = trim(raw);
    if has_prefix(t, comment_mark(lang)) {
        Seq::empty()
    } else {
        match lang {
        Lang::JsTs => js_symbols(t, path),
        Lang::Python => python_symbols(raw, t, path),
        Lang::Rust => rust_symbols(t, path),
        Lang::Go => go_symbols(t, path),
        Lang::Java => java_symbols(t, path),
        Lang::Ruby => ruby_symbols(t, path),
        Lang::CSharp => csharp_symbols(t, path),
        }
    }
}

/// The symbols that a sequence of lines declares, in order.
pub open spec fn lines_symbols(lang: Lang, ls: Seq<Seq<char>>, path: Seq<char>) -> Seq<
    SymbolView,
>
    decreases ls.len(),
{
    if ls.len() == 0 {
        Seq::empty()
    } else {
        lines_symbols(lang, ls.drop_last(), path) + line_symbols(lang, ls.last(), path)
    }
}

/// The language of a file extension.
pub open spec fn lang_of(ext: Seq<char>) -> Option<Lang> {
    if ext == "ts"@ || ext == "tsx"@ || ext == "js"@ || ext == "jsx"@ {
        Some(Lang::JsTs)
    } else if ext == "py"@ {
        Some(Lang::Python)
    } else if ext == "rs"@ {
        Some(Lang::Rust)
    } else if ext == "go"@ {
        Some(Lang::Go)
    } else if ext == "java"@ {
        Some(Lang::Java)
    } else if ext == "rb"@ {
        Some(Lang::Ruby)
    } else if ext == "cs"@ {
        Some(Lang::CSharp)
    } else {
        None
    }
}

/// The symbols that a file with the given extension declares; none for an
/// extension the scanner does not know.
pub open spec fn file_symbols(content: Seq<char>, path: Seq<char>, ext: Seq<char>) -> Seq<
    SymbolView,
> {
    match lang_of(ext) {
        Some(lang) => lines_symbols(lang, lines(content), path),
        None => Seq::empty(),
    }
}

// ---------------------------------------------------------------------------

fn ident_prefix_exec(s: &Vec<char>, from: usize) -> (r: Vec<char>)
    requires
        from <= s.len(),
    ensures
        r@ == ident_prefix(s@.subrange(from as int, s.len() as int)),
{
    let mut i: usize = from;
    assert(s@.subrange(from as int, from as int) + s@.subrange(from as int, s.len() as int)
        =~= s@.subrange(from as int, s.len() as int));
    while i < s.len() && is_ident_char(s[i])
        invariant
            from <= i <= s.len(),
            ident_prefix(s@.subrange(from as int, s.len() as int)) == s@.subrange(
                from as int,
                i as int,
            ) + ident_prefix(s@.subrange(i as int, s.len() as int)),
        decreases s.len() - i,
    {
        let ghost rest = s@.subrange(i as int, s.len() as int);
        assert(rest.drop_first() =~= s@.subrange(i + 1, s.len() as int));
        assert(s@.subrange(from as int, i as int) + (seq![s@[i as int]] + ident_prefix(
            rest.drop_first(),
        )) =~= s@.subrange(from as int, i + 1) + ident_prefix(rest.drop_first()));
        i = i + 1;
    }
    let ghost rest = s@.subrange(i as int, s.len() as int);
    assert(ident_prefix(rest) =~= Seq::empty());
    assert(s@.subrange(from as int, i as int) + Seq::<char>::empty() =~= s@.subrange(
        from as int,
        i as int,
    ));
    slice_chars(s, from, i)
}

/// The identifiers after every occurrence of `keyword` in a line, left to
/// right (`class ` in `class Outer { class Inner {} }` gives both names).
fn extract_after_keyword(line: &Vec<char>, keyword: &str) -> (r: Vec<Vec<char>>)
    ensures
        r@.map_values(|w: Vec<char>| w@) == names_after(line@, keyword@),
{
    let kw = chars_of(keyword);
    let mut out: Vec<Vec<char>> = Vec::new();
    if kw.len() == 0 {
        return out;
    }
    let mut start: usize = 0;
    assert(out@.map_values(|w: Vec<char>| w@) + names_after_from(line@, kw@, 0) =~= names_after(
        line@,
        keyword@,
    ));
    loop
        invariant
            start <= line.len(),
            kw@ == keyword@,
            kw@.len() > 0,
            line@.len() == line.len(),
            out@.map_values(|w: Vec<char>| w@) + names_after_from(line@, kw@, start as int)
                == names_after(line@, keyword@),
        decreases line.len() - start,
    {
        let tail = slice_chars(line, start, line.len());
        match find_chars(&tail, &kw) {
            Some(i) => {
                proof {
                    let c = choose|j: int| first_at(tail@, kw@, j);
                    assert(c == i) by {
                        if c < i {
                        } else if c > i {
                        }
                    }
                    assert(tail@.subrange(i as int, i + kw@.len()) =~= line@.subrange(
                        start + i,
                        start + i + kw@.len(),
                    ));
                }
                let at = start + i + kw.len();
                let name = ident_prefix_exec(line, at);
                let ghost before = out@.map_values(|w: Vec<char>| w@);
                let ghost rest = names_after_from(line@, kw@, at as int);
                if name.len() > 0 {
                    let ghost nv = name@;
                    out.push(name);
                    assert(out@.map_values(|w: Vec<char>| w@) =~= before.push(nv));
                    assert(before + (seq![nv] + rest) =~= before.push(nv) + rest);
                } else {
                    assert(before + (Seq::<Seq<char>>::empty() + rest) =~= before + rest);
                }
                start = at;
            },
            None => {
                assert(out@.map_values(|w: Vec<char>| w@) + Seq::<Seq<char>>::empty()
                    =~= out@.map_values(|w: Vec<char>| w@));
                return out;
            },
        }
    }
}

fn push_all(symbols: &mut Vec<CodeSymbol>, names: Vec<Vec<char>>, kind: &str, file_path: &Vec<char>)
    ensures
        symbol_views(final(symbols)@) == symbol_views(old(symbols)@) + all_found(
            names@.map_values(|w: Vec<char>| w@),
            kind@,
            file_path@,
        ),
{
    let ghost start = symbol_views(symbols@);
    let ghost nv = names@.map_values(|w: Vec<char>| w@);
    let mut i: usize = 0;
    while i < names.len()
        invariant
            i <= names.len(),
            nv == names@.map_values(|w: Vec<char>| w@),
            symbol_views(symbols@) == start + all_found(nv.subrange(0, i as int), kind@, file_path@),
        decreases names.len() - i,
    {
        let ghost before = symbol_views(symbols@);
        let s = CodeSymbol {
            name: string_of(&names[i]),
            kind: string_of(&chars_of(kind)),
            file_path: string_of(file_path),
        };
        symbols.push(s);
        assert(symbol_views(symbols@) =~= before.push(
            SymbolView { name: nv[i as int], kind: kind@, file_path: file_path@ },
        ));
        assert(all_found(nv.subrange(0, i + 1), kind@, file_path@) =~= all_found(
            nv.subrange(0, i as int),
            kind@,
            file_path@,
        ).push(SymbolView { name: nv[i as int], kind: kind@, file_path: file_path@ }));
        i = i + 1;
    }
    assert(nv.subrange(0, names.len() as int) =~= nv);
}

fn go_receiver_method_exec(t: &Vec<char>) -> (r: Option<Vec<char>>)
    ensures
        match r {
            Some(n) => go_receiver_method(t@) == Some(n@),
            None => go_receiver_method(t@) is None,
        },
{
    if !starts_with_str(t, "func (") {
        return None;
    }
    match find_char(t, ')') {
        Some(p) => {
            proof {
                let c = choose|j: int| first_at(t@, seq![')'], j);
                assert(c == p) by {
                    if c < p {
                    } else if c > p {
                    }
                }
            }
            assert(p + 1 <= t@.len() && t@.len() == t.len());
            let after = trim_start_chars(&slice_chars(t, p + 1, t.len()));
            let name = ident_prefix_exec(&after, 0);
            assert(after@.subrange(0, after@.len() as int) =~= after@);
            if name.len() > 0 {
                Some(name)
            } else {
                None
            }
        },
        None => None,
    }
}

fn const_function_exec(t: &Vec<char>) -> (r: Option<Vec<char>>)
    ensures
        match r {
            Some(n) => const_function(t@) == Some(n@),
            None => const_function(t@) is None,
        },
{
    if (starts_with_str(t, "export const ") || starts_with_str(t, "const ")) && (contains_str(
        t,
        "=>",
    ) || contains_str(t, "= function")) {
        proof {
            reveal_strlit("export const ");
            reveal_strlit("const ");
        }
        let from: usize = if starts_with_str(t, "export ") {
            proof {
                reveal_strlit("export ");
                if !has_prefix(t@, "export const "@) {
                    assert(t@.subrange(0, 6) == "const "@);
                    assert(t@.subrange(0, 7) == "export "@);
                    assert(t@.subrange(0, 6)[0] == t@[0]);
                    assert(t@.subrange(0, 7)[0] == t@[0]);
                    assert("const "@[0] == 'c');
                    assert("export "@[0] == 'e');
                }
            }
            13
        } else {
            6
        };
        let rest = slice_chars(t, from, t.len());
        let name = ident_prefix_exec(&rest, 0);
        assert(rest@.subrange(0, rest@.len() as int) =~= rest@);
        if name.len() < rest.len() && name.len() > 0 {
            Some(name)
        } else {
            None
        }
    } else {
        None
    }
}

fn guard_prefixes(t: &Vec<char>) -> (r: bool)
    ensures
        r == (!has_infix(t@, " class "@) && !has_prefix(t@, "if "@) && !has_prefix(t@, "for "@)
            && !has_prefix(t@, "while "@) && !has_prefix(t@, "switch "@)),
{
    !contains_str(t, " class ") && !starts_with_str(t, "if ") && !starts_with_str(t, "for ")
        && !starts_with_str(t, "while ") && !starts_with_str(t, "switch ")
}

/// Whether a trimmed line reads as a Java method declaration.
fn looks_like_java_method(line: &Vec<char>) -> (r: bool)
    ensures
        r == java_method_like(line@),
{
    contains_char(line, '(') && contains_char(line, ')') && (ends_with_str(line, "{")
        || ends_with_str(line, "}") || ends_with_str(line, ";") || contains_str(line, " throws "))
        && guard_prefixes(line)
}

/// Whether a trimmed line reads as a C# method declaration.
fn looks_like_csharp_method(line: &Vec<char>) -> (r: bool)
    ensures
        r == csharp_method_like(line@),
{
    contains_char(line, '(') && contains_char(line, ')') && (ends_with_str(line, "{")
        || ends_with_str(line, "}") || ends_with_str(line, "=>") || contains_str(line, " => "))
        && guard_prefixes(line)
}

fn is_name_punct_char(c: char) -> (r: bool)
    ensures
        r == is_name_punct(c),
{
    c == '<' || c == '>' || c == ':' || c == ','
}

fn strip_punct(s: &Vec<char>) -> (r: Vec<char>)
    ensures
        r@ == strip_punct_end(strip_punct_start(s@)),
{
    let mut i: usize = 0;
    assert(s@.subrange(0, s@.len() as int) =~= s@);
    while i < s.len() && is_name_punct_char(s[i])
        invariant
            i <= s.len(),
            strip_punct_start(s@) == strip_punct_start(s@.subrange(i as int, s@.len() as int)),
        decreases s.len() - i,
    {
        assert(s@.subrange(i as int, s@.len() as int).drop_first() =~= s@.subrange(
            i + 1,
            s@.len() as int,
        ));
        i = i + 1;
    }
    let ghost t = s@.subrange(i as int, s@.len() as int);
    let mut j: usize = s.len();
    assert(t.subrange(0, t.len() as int) =~= t);
    while j > i && is_name_punct_char(s[j - 1])
        invariant
            i <= j <= s.len(),
            t == s@.subrange(i as int, s@.len() as int),
            strip_punct_end(t) == strip_punct_end(t.subrange(0, j - i)),
        decreases j,
    {
        assert(t.subrange(0, j - i).drop_last() =~= t.subrange(0, j - i - 1));
        j = j - 1;
    }
    let r = slice_chars(s, i, j);
    assert(r@ =~= t.subrange(0, j - i));
    r
}

/// The last word before the first `(` of a line, stripped of `<`, `>`, `:`
/// and `,` at its ends.
fn extract_method_name_before_paren(line: &Vec<char>) -> (r: Option<Vec<char>>)
    ensures
        match r {
            Some(n) => name_before_paren(line@) == Some(n@),
            None => name_before_paren(line@) is None,
        },
{
    match find_char(line, '(') {
        Some(p) => {
            proof {
                let c = choose|j: int| first_at(line@, seq!['('], j);
                assert(c == p) by {
                    if c < p {
                    } else if c > p {
                    }
                }
            }
            let before = trim_chars(&slice_chars(line, 0, p));
            let ws = split_words(&before);
            assert(ws@.map_values(|w: Vec<char>| w@).len() == ws@.len());
            if ws.len() == 0 {
                return None;
            }
            assert(ws@.map_values(|w: Vec<char>| w@).last() == ws@.last()@);
            let cleaned = strip_punct(&ws[ws.len() - 1]);
            if cleaned.len() == 0 {
                None
            } else {
                Some(cleaned)
            }
        },
        None => None,
    }
}

fn before_first_exec(s: &Vec<char>, c: char) -> (r: Vec<char>)
    ensures
        r@ == before_first(s@, c),
{
    match find_char(s, c) {
        Some(p) => {
            proof {
                let q = choose|j: int| first_at(s@, seq![c], j);
                assert(q == p) by {
                    if q < p {
                    } else if q > p {
                    }
                }
            }
            slice_chars(s, 0, p)
        },
        None => {
            let r = slice_chars(s, 0, s.len());
            assert(r@ =~= s@);
            r
        },
    }
}

#[verifier::rlimit(100)]
fn after_last_exec(s: &Vec<char>, c: char) -> (r: Vec<char>)
    ensures
        r@ == after_last(s@, c),
{
    let mut j: usize = s.len();
    assert(s@.subrange(0, s@.len() as int) =~= s@);
    while j > 0 && s[j - 1] != c
        invariant
            j <= s.len(),
            after_last(s@, c) == after_last(s@.subrange(0, j as int), c) + s@.subrange(
                j as int,
                s@.len() as int,
            ),
        decreases j,
    {
        let ghost pre = s@.subrange(0, j as int);
        assert(pre.drop_last() =~= s@.subrange(0, j - 1));
        assert(after_last(s@.subrange(0, j - 1), c).push(s@[j - 1]) + s@.subrange(
            j as int,
            s@.len() as int,
        ) =~= after_last(s@.subrange(0, j - 1), c) + s@.subrange(j - 1, s@.len() as int));
        j = j - 1;
    }
    let ghost pre = s@.subrange(0, j as int);
    assert(after_last(pre, c) =~= Seq::empty());
    assert(Seq::<char>::empty() + s@.subrange(j as int, s@.len() as int) =~= s@.subrange(
        j as int,
        s@.len() as int,
    ));
    slice_chars(s, j, s.len())
}

fn ruby_method_exec(t: &Vec<char>) -> (r: Option<Vec<char>>)
    ensures
        match r {
            Some(n) => ruby_method(t@) == Some(n@),
            None => ruby_method(t@) is None,
        },
{
    if !starts_with_str(t, "def ") {
        return None;
    }
    proof {
        reveal_strlit("def ");
    }
    let m = trim_start_chars(&slice_chars(t, 4, t.len()));
    let ws = split_words(&m);
    assert(ws@.map_values(|w: Vec<char>| w@).len() == ws@.len());
    let first: Vec<char> = if ws.len() > 0 {
        assert(ws@.map_values(|w: Vec<char>| w@)[0] == ws@[0]@);
        slice_chars(&ws[0], 0, ws[0].len())
    } else {
        Vec::new()
    };
    assert(ws@.len() > 0 ==> first@ =~= ws@[0]@);
    let name = after_last_exec(&before_first_exec(&first, '('), '.');
    if name.len() > 0 {
        Some(name)
    } else {
        None
    }
}

fn push_found(
    symbols: &mut Vec<CodeSymbol>,
    name: Option<Vec<char>>,
    kind: &str,
    file_path: &Vec<char>,
)
    ensures
        symbol_views(final(symbols)@) == symbol_views(old(symbols)@) + found(
            match name {
                Some(n) => Some(n@),
                None => None,
            },
            kind@,
            file_path@,
        ),
{
    let ghost before = symbol_views(symbols@);
    match name {
        Some(n) => {
            let s = CodeSymbol {
                name: string_of(&n),
                kind: string_of(&chars_of(kind)),
                file_path: string_of(file_path),
            };
            symbols.push(s);
            assert(symbol_views(symbols@) =~= before + found(Some(n@), kind@, file_path@));
        },
        None => {
            assert(symbol_views(symbols@) =~= before + found(None, kind@, file_path@));
        },
    }
}

fn js_line(t: &Vec<char>, file_path: &Vec<char>, symbols: &mut Vec<CodeSymbol>)
    ensures
        symbol_views(final(symbols)@) == symbol_views(old(symbols)@) + js_symbols(t@, file_path@),
{
    let ghost before = symbol_views(symbols@);
    push_all(symbols, extract_after_keyword(t, "function "), "function", file_path);
    push_all(symbols, extract_after_keyword(t, "class "), "class", file_path);
    push_found(symbols, const_function_exec(t), "function", file_path);
    assert(symbol_views(symbols@) =~= before + js_symbols(t@, file_path@));
}

fn python_line(raw: &Vec<char>, t: &Vec<char>, file_path: &Vec<char>, symbols: &mut Vec<CodeSymbol>)
    ensures
        symbol_views(final(symbols)@) == symbol_views(old(symbols)@) + python_symbols(
            raw@,
            t@,
            file_path@,
        ),
{
    let ghost before = symbol_views(symbols@);
    let kind = if starts_with_str(raw, "    ") || starts_with_str(raw, "\t") {
        "method"
    } else {
        "function"
    };
    push_all(symbols, extract_after_keyword(t, "def "), kind, file_path);
    push_all(symbols, extract_after_keyword(t, "class "), "class", file_path);
    assert(symbol_views(symbols@) =~= before + python_symbols(raw@, t@, file_path@));
}

fn rust_line(t: &Vec<char>, file_path: &Vec<char>, symbols: &mut Vec<CodeSymbol>)
    ensures
        symbol_views(final(symbols)@) == symbol_views(old(symbols)@) + rust_symbols(t@, file_path@),
{
    let ghost before = symbol_views(symbols@);
    push_all(symbols, extract_after_keyword(t, "fn "), "function", file_path);
    push_all(symbols, extract_after_keyword(t, "struct "), "class", file_path);
    push_all(symbols, extract_after_keyword(t, "impl "), "class", file_path);
    assert(symbol_views(symbols@) =~= before + rust_symbols(t@, file_path@));
}

fn go_line(t: &Vec<char>, file_path: &Vec<char>, symbols: &mut Vec<CodeSymbol>)
    ensures
        symbol_views(final(symbols)@) == symbol_views(old(symbols)@) + go_symbols(t@, file_path@),
{
    let ghost before = symbol_views(symbols@);
    push_all(symbols, extract_after_keyword(t, "func "), "function", file_path);
    push_found(symbols, go_receiver_method_exec(t), "function", file_path);
    if contains_str(t, " struct") || contains_str(t, " interface") {
        push_all(symbols, extract_after_keyword(t, "type "), "class", file_path);
    }
    assert(symbol_views(symbols@) =~= before + go_symbols(t@, file_path@));
}

fn java_line(t: &Vec<char>, file_path: &Vec<char>, symbols: &mut Vec<CodeSymbol>)
    ensures
        symbol_views(final(symbols)@) == symbol_views(old(symbols)@) + java_symbols(t@, file_path@),
{
    let ghost before = symbol_views(symbols@);
    push_all(symbols, extract_after_keyword(t, "class "), "class", file_path);
    push_all(symbols, extract_after_keyword(t, "interface "), "class", file_path);
    if looks_like_java_method(t) {
        push_found(symbols, extract_method_name_before_paren(t), "method", file_path);
    }
    assert(symbol_views(symbols@) =~= before + java_symbols(t@, file_path@));
}

fn ruby_line(t: &Vec<char>, file_path: &Vec<char>, symbols: &mut Vec<CodeSymbol>)
    ensures
        symbol_views(final(symbols)@) == symbol_views(old(symbols)@) + ruby_symbols(t@, file_path@),
{
    let ghost before = symbol_views(symbols@);
    push_all(symbols, extract_after_keyword(t, "class "), "class", file_path);
    push_found(symbols, ruby_method_exec(t), "method", file_path);
    assert(symbol_views(symbols@) =~= before + ruby_symbols(t@, file_path@));
}

fn csharp_line(t: &Vec<char>, file_path: &Vec<char>, symbols: &mut Vec<CodeSymbol>)
    ensures
        symbol_views(final(symbols)@) == symbol_views(old(symbols)@) + csharp_symbols(
            t@,
            file_path@,
        ),
{
    let ghost before = symbol_views(symbols@);
    push_all(symbols, extract_after_keyword(t, "class "), "class", file_path);
    push_all(symbols, extract_after_keyword(t, "interface "), "class", file_path);
    if looks_like_csharp_method(t) {
        push_found(symbols, extract_method_name_before_paren(t), "method", file_path);
    }
    assert(symbol_views(symbols@) =~= before + csharp_symbols(t@, file_path@));
}

fn line_symbols_exec(lang: &Lang, raw: &Vec<char>, file_path: &Vec<char>, symbols: &mut Vec<
    CodeSymbol,
>)
    ensures
        symbol_views(final(symbols)@) == symbol_views(old(symbols)@) + line_symbols(
            *lang,
            raw@,
            file_path@,
        ),
{
    let t = trim_chars(raw);
    let mark = match lang {
        Lang::Python | Lang::Ruby => "#",
        _ => "//",
    };
    assert(mark@ == comment_mark(*lang));
    if starts_with_str(&t, mark) {
        assert(symbol_views(symbols@) + Seq::<SymbolView>::empty() =~= symbol_views(symbols@));
        return;
    }
    match lang {
        Lang::JsTs => js_line(&t, file_path, symbols),
        Lang::Python => python_line(raw, &t, file_path, symbols),
        Lang::Rust => rust_line(&t, file_path, symbols),
        Lang::Go => go_line(&t, file_path, symbols),
        Lang::Java => java_line(&t, file_path, symbols),
        Lang::Ruby => ruby_line(&t, file_path, symbols),
        Lang::CSharp => csharp_line(&t, file_path, symbols),
    }
}

/// Appends the symbols that each line of `content` declares, in the given
/// language.
fn extract_lines(lang: &Lang, content: &str, file_path: &str, symbols: &mut Vec<CodeSymbol>)
    ensures
        symbol_views(final(symbols)@) == symbol_views(old(symbols)@) + lines_symbols(
            *lang,
            lines(content@),
            file_path@,
        ),
{
    let c = chars_of(content);
    let path = chars_of(file_path);
    let ls = split_lines(&c);
    let ghost all = ls@.map_values(|w: Vec<char>| w@);
    let ghost start = symbol_views(symbols@);
    let mut i: usize = 0;
    assert(all.subrange(0, 0) =~= Seq::<Seq<char>>::empty());
    assert(start + Seq::<SymbolView>::empty() =~= start);
    while i < ls.len()
        invariant
            i <= ls.len(),
            all == ls@.map_values(|w: Vec<char>| w@),
            all == lines(content@),
            path@ == file_path@,
            symbol_views(symbols@) == start + lines_symbols(
                *lang,
                all.subrange(0, i as int),
                file_path@,
            ),
        decreases ls.len() - i,
    {
        line_symbols_exec(lang, &ls[i], &path, symbols);
        assert(all.subrange(0, i + 1).drop_last() =~= all.subrange(0, i as int));
        assert(all.subrange(0, i + 1).last() == ls@[i as int]@);
        assert(start + lines_symbols(*lang, all.subrange(0, i as int), file_path@) + line_symbols(
            *lang,
            ls@[i as int]@,
            file_path@,
        ) =~= start + lines_symbols(*lang, all.subrange(0, i + 1), file_path@));
        i = i + 1;
    }
    assert(all.subrange(0, ls.len() as int) =~= all);
}

/// Appends the functions and classes of a JavaScript / TypeScript file.
fn extract_js_ts_symbols(content: &str, file_path: &str, symbols: &mut Vec<CodeSymbol>)
    ensures
        symbol_views(final(symbols)@) == symbol_views(old(symbols)@) + lines_symbols(
            Lang::JsTs,
            lines(content@),
            file_path@,
        ),
{
    extract_lines(&Lang::JsTs, content, file_path, symbols)
}

/// Appends the functions, methods and classes of a Python file.
fn extract_python_symbols(content: &str, file_path: &str, symbols: &mut Vec<CodeSymbol>)
    ensures
        symbol_views(final(symbols)@) == symbol_views(old(symbols)@) + lines_symbols(
            Lang::Python,
            lines(content@),
            file_path@,
        ),
{
    extract_lines(&Lang::Python, content, file_path, symbols)
}

/// Appends the functions, structs and impl blocks of a Rust file.
fn extract_rust_symbols(content: &str, file_path: &str, symbols: &mut Vec<CodeSymbol>)
    ensures
        symbol_views(final(symbols)@) == symbol_views(old(symbols)@) + lines_symbols(
            Lang::Rust,
            lines(content@),
            file_path@,
        ),
{
    extract_lines(&Lang::Rust, content, file_path, symbols)
}

/// Appends the functions, structs and interfaces of a Go file.
fn extract_go_symbols(content: &str, file_path: &str, symbols: &mut Vec<CodeSymbol>)
    ensures
        symbol_views(final(symbols)@) == symbol_views(old(symbols)@) + lines_symbols(
            Lang::Go,
            lines(content@),
            file_path@,
        ),
{
    extract_lines(&Lang::Go, content, file_path, symbols)
}

/// Appends the classes, interfaces and methods of a Java file.
fn extract_java_symbols(content: &str, file_path: &str, symbols: &mut Vec<CodeSymbol>)
    ensures
        symbol_views(final(symbols)@) == symbol_views(old(symbols)@) + lines_symbols(
            Lang::Java,
            lines(content@),
            file_path@,
        ),
{
    extract_lines(&Lang::Java, content, file_path, symbols)
}

/// Appends the classes and methods of a Ruby file.
fn extract_ruby_symbols(content: &str, file_path: &str, symbols: &mut Vec<CodeSymbol>)
    ensures
        symbol_views(final(symbols)@) == symbol_views(old(symbols)@) + lines_symbols(
            Lang::Ruby,
            lines(content@),
            file_path@,
        ),
{
    extract_lines(&Lang::Ruby, content, file_path, symbols)
}

/// Appends the classes, interfaces and methods of a C# file.
fn extract_csharp_symbols(content: &str, file_path: &str, symbols: &mut Vec<CodeSymbol>)
    ensures
        symbol_views(final(symbols)@) == symbol_views(old(symbols)@) + lines_symbols(
            Lang::CSharp,
            lines(content@),
            file_path@,
        ),
{
    extract_lines(&Lang::CSharp, content, file_path, symbols)
}

fn same_str(a: &str, b: &str) -> (r: bool)
    ensures
        r == (a@ == b@),
{
    same_chars(&chars_of(a), &chars_of(b))
}

/// Appends to `symbols` the functions, classes and methods that a source
/// file declares, by the language its extension names (`ts`, `tsx`, `js`,
/// `jsx`, `py`, `rs`, `go`, `java`, `rb`, `cs`); nothing for another
/// extension.
pub fn extract_symbols(content: &str, file_path: &str, ext: &str, symbols: &mut Vec<CodeSymbol>)
    ensures
        symbol_views(final(symbols)@) == symbol_views(old(symbols)@) + file_symbols(
            content@,
            file_path@,
            ext@,
        ),
{
    if same_str(ext, "ts") || same_str(ext, "tsx") || same_str(ext, "js") || same_str(ext, "jsx") {
        extract_js_ts_symbols(content, file_path, symbols)
    } else if same_str(ext, "py") {
        extract_python_symbols(content, file_path, symbols)
    } else if same_str(ext, "rs") {
        extract_rust_symbols(content, file_path, symbols)
    } else if same_str(ext, "go") {
        extract_go_symbols(content, file_path, symbols)
    } else if same_str(ext, "java") {
        extract_java_symbols(content, file_path, symbols)
    } else if same_str(ext, "rb") {
        extract_ruby_symbols(content, file_path, symbols)
    } else if same_str(ext, "cs") {
        extract_csharp_symbols(content, file_path, symbols)
    } else {
        assert(symbol_views(symbols@) + Seq::<SymbolView>::empty() =~= symbol_views(symbols@));
    }
}

// ---------------------------------------------------------------------------
// Which files a scan reads
// ---------------------------------------------------------------------------

/// Directories that hold dependencies, build output or tool state.
pub open spec fn ignored_dir(name: Seq<char>) -> bool {
    name == "node_modules"@ || name == ".git"@ || name == "dist"@ || name == "build"@ || name
        == "target"@ || name == ".next"@ || name == "__pycache__"@ || name == ".venv"@ || name
        == "venv"@ || name == ".tox"@ || name == "coverage"@ || name == ".nyc_output"@
}

/// The deepest directory level a scan descends to.
pub const MAX_SCAN_DEPTH: usize = 12;

/// Files larger than this many bytes are generated or bundled code, and are
/// not read.
pub const MAX_SOURCE_BYTES: u64 = 1024000;

/// Whether a scan passes over a directory entry: a well-known dependency or
/// output directory, or a name the user excluded.
pub fn is_skipped_entry(name: &str, exclusions: &Vec<String>) -> (r: bool)
    ensures
        r == (ignored_dir(name@) || exists|k: int|
            0 <= k < exclusions@.len() && exclusions@[k]@ == name@),
{
    let n = chars_of(name);
    let known = same_chars(&n, &chars_of("node_modules")) || same_chars(&n, &chars_of(".git"))
        || same_chars(&n, &chars_of("dist")) || same_chars(&n, &chars_of("build")) || same_chars(
        &n,
        &chars_of("target"),
    ) || same_chars(&n, &chars_of(".next")) || same_chars(&n, &chars_of("__pycache__"))
        || same_chars(&n, &chars_of(".venv")) || same_chars(&n, &chars_of("venv")) || same_chars(
        &n,
        &chars_of(".tox"),
    ) || same_chars(&n, &chars_of("coverage")) || same_chars(&n, &chars_of(".nyc_output"));
    if known {
        return true;
    }
    let mut k: usize = 0;
    while k < exclusions.len()
        invariant
            k <= exclusions.len(),
            n@ == name@,
            forall|j: int| 0 <= j < k ==> exclusions@[j]@ != name@,
        decreases exclusions.len() - k,
    {
        if same_chars(&n, &chars_of(exclusions[k].as_str())) {
            return true;
        }
        k = k + 1;
    }
    false
}

/// Whether a file extension names a language the scanner reads.
pub fn is_source_extension(ext: &str) -> (r: bool)
    ensures
        r == (lang_of(ext@) is Some),
{
    same_str(ext, "ts") || same_str(ext, "tsx") || same_str(ext, "js") || same_str(ext, "jsx")
        || same_str(ext, "py") || same_str(ext, "rs") || same_str(ext, "go") || same_str(
        ext,
        "java",
    ) || same_str(ext, "rb") || same_str(ext, "cs")
}

} // verus!
