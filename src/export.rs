//! The parts of a report export that depend on the mismatches alone: CSV
//! and HTML escaping, the CSV mismatch table and the HTML detail table.

use vstd::prelude::*;
use crate::alignment::Mismatch;
use crate::text::{
    chars_of, contains_char, push_chars, push_str, replace_all, replace_chars, string_of,
};

verus! {

/// A CSV field that must be quoted: it holds a comma, a quote or a line
/// break.
pub open spec fn needs_quotes(s: Seq<char>) -> bool {
    s.contains(',') || s.contains('"') || s.contains('\n') || s.contains('\r')
}

/// A value as a CSV field: quoted, with quotes doubled, where it needs it.
pub open spec fn csv_field(s: Seq<char>) -> Seq<char> {
    if needs_quotes(s) {
        "\""@ + replace_all(s, "\""@, "\"\""@) + "\""@
    } else {
        s
    }
}

/// A value as a CSV field.
pub fn escape_csv(s: &str) -> (r: String)
    ensures
        r@ == csv_field(s@),
{
    let c = chars_of(s);
    if contains_char(&c, ',') || contains_char(&c, '"') || contains_char(&c, '\n')
        || contains_char(&c, '\r') {
        proof {
            reveal_strlit("\"");
        }
        let mut out = chars_of("\"");
        let doubled = replace_chars(&c, "\"", "\"\"");
        push_chars(&mut out, &doubled);
        push_str(&mut out, "\"");
        string_of(&out)
    } else {
        string_of(&c)
    }
}

/// A character as it stands in HTML text or an attribute value.
pub open spec fn html_char(c: char) -> Seq<char> {
    if c == '&' {
        "&amp;"@
    } else if c == '<' {
        "&lt;"@
    } else if c == '>' {
        "&gt;"@
    } else if c == '"' {
        "&quot;"@
    } else {
        seq![c]
    }
}

/// `s` with `&`, `<`, `>` and `"` escaped for HTML.
pub open spec fn html_escaped(s: Seq<char>) -> Seq<char>
    decreases s.len(),
{
    if s.len() == 0 {
        Seq::empty()
    } else {
        html_escaped(s.drop_last()) + html_char(s.last())
    }
}

/// `s` escaped for HTML text or a quoted attribute value.
pub fn html_escape(s: &str) -> (r: String)
    ensures
        r@ == html_escaped(s@),
{
    let cs = chars_of(s);
    let mut out: Vec<char> = Vec::new();
    let mut i: usize = 0;
    while i < cs.len()
        invariant
            i <= cs.len(),
            cs@ == s@,
            out@ == html_escaped(cs@.subrange(0, i as int)),
        decreases cs.len() - i,
    {
        let ghost next = cs@.subrange(0, i + 1);
        assert(next.drop_last() =~= cs@.subrange(0, i as int));
        let c = cs[i];
        if c == '&' {
            push_str(&mut out, "&amp;");
        } else if c == '<' {
            push_str(&mut out, "&lt;");
        } else if c == '>' {
            push_str(&mut out, "&gt;");
        } else if c == '"' {
            push_str(&mut out, "&quot;");
        } else {
            out.push(c);
        }
        i = i + 1;
    }
    assert(cs@.subrange(0, cs.len() as int) =~= cs@);
    string_of(&out)
}

/// The code element of a mismatch, empty where it has none.
pub open spec fn element_of(m: Mismatch) -> Seq<char> {
    match m.code_element {
        Some(e) => e@,
        None => Seq::empty(),
    }
}

/// One CSV line for a mismatch.
pub open spec fn csv_line(m: Mismatch) -> Seq<char> {
    csv_field(m.requirement_id@) + ","@ + csv_field(m.spec_section@) + ","@ + csv_field(
        m.mismatch_type@,
    ) + ","@ + csv_field(element_of(m)) + ","@ + csv_field(m.details@) + "\n"@
}

/// The CSV lines of the first `n` mismatches.
pub open spec fn csv_lines(ms: Seq<Mismatch>, n: int) -> Seq<char>
    decreases n,
{
    if n <= 0 {
        Seq::empty()
    } else {
        csv_lines(ms, n - 1) + csv_line(ms[n - 1])
    }
}

/// The CSV table of mismatches: a header line, then one line per mismatch.
pub open spec fn csv_table(ms: Seq<Mismatch>) -> Seq<char> {
    "requirement_id,spec_section,mismatch_type,code_element,details\n"@ + csv_lines(
        ms,
        ms.len() as int,
    )
}

/// The CSV table of a report's mismatches, with its header line.
pub fn csv_mismatch_table(mismatches: &Vec<Mismatch>) -> (r: String)
    ensures
        r@ == csv_table(mismatches@),
{
    let mut out = chars_of("requirement_id,spec_section,mismatch_type,code_element,details\n");
    let ghost head = out@;
    let mut i: usize = 0;
    while i < mismatches.len()
        invariant
            i <= mismatches.len(),
            out@ == head + csv_lines(mismatches@, i as int),
        decreases mismatches.len() - i,
    {
        let m = &mismatches[i];
        let element = match &m.code_element {
            Some(e) => escape_csv(e.as_str()),
            None => escape_csv(""),
        };
        proof {
            reveal_strlit("");
            assert(""@ =~= Seq::<char>::empty());
        }
        push_str(&mut out, escape_csv(m.requirement_id.as_str()).as_str());
        push_str(&mut out, ",");
        push_str(&mut out, escape_csv(m.spec_section.as_str()).as_str());
        push_str(&mut out, ",");
        push_str(&mut out, escape_csv(m.mismatch_type.as_str()).as_str());
        push_str(&mut out, ",");
        push_str(&mut out, element.as_str());
        push_str(&mut out, ",");
        push_str(&mut out, escape_csv(m.details.as_str()).as_str());
        push_str(&mut out, "\n");
        assert(out@ =~= head + csv_lines(mismatches@, i + 1));
        i = i + 1;
    }
    string_of(&out)
}

/// One row of the HTML detail table.
pub open spec fn html_row(m: Mismatch) -> Seq<char> {
    "<tr><td>"@ + html_escaped(m.spec_section@) + "</td><td><span class=\"badge "@ + html_escaped(
        m.mismatch_type@,
    ) + "\">"@ + html_escaped(replace_all(m.mismatch_type@, "_"@, " "@))
        + "</span></td><td>"@ + html_escaped(m.details@) + "</td></tr>"@
}

/// The HTML rows of the first `n` mismatches.
pub open spec fn html_rows(ms: Seq<Mismatch>, n: int) -> Seq<char>
    decreases n,
{
    if n <= 0 {
        Seq::empty()
    } else {
        html_rows(ms, n - 1) + html_row(ms[n - 1])
    }
}

/// The HTML section that details a report's mismatches, or says that there
/// are none.
pub open spec fn html_details(ms: Seq<Mismatch>) -> Seq<char> {
    if ms.len() == 0 {
        "<div class=\"section\"><p>✅ No mismatches found. All requirements are covered!</p></div>"@
    } else {
        "<div class=\"section\"><h2>Detailed Mismatches</h2>"@
            + "<table><thead><tr><th>Section</th><th>Type</th><th>Details</th></tr></thead><tbody>"@
            + html_rows(ms, ms.len() as int) + "</tbody></table></div>"@
    }
}

/// The HTML section that details a report's mismatches.
pub fn html_mismatch_details(mismatches: &Vec<Mismatch>) -> (r: String)
    ensures
        r@ == html_details(mismatches@),
{
    if mismatches.len() == 0 {
        return string_of(
            &chars_of(
                "<div class=\"section\"><p>✅ No mismatches found. All requirements are covered!</p></div>",
            ),
        );
    }
    let mut out = chars_of("<div class=\"section\"><h2>Detailed Mismatches</h2>");
    push_str(
        &mut out,
        "<table><thead><tr><th>Section</th><th>Type</th><th>Details</th></tr></thead><tbody>",
    );
    let ghost head = out@;
    let mut i: usize = 0;
    while i < mismatches.len()
        invariant
            i <= mismatches.len(),
            out@ == head + html_rows(mismatches@, i as int),
        decreases mismatches.len() - i,
    {
        let m = &mismatches[i];
        proof {
            reveal_strlit("_");
        }
        let label = string_of(&replace_chars(&chars_of(m.mismatch_type.as_str()), "_", " "));
        push_str(&mut out, "<tr><td>");
        push_str(&mut out, html_escape(m.spec_section.as_str()).as_str());
        push_str(&mut out, "</td><td><span class=\"badge ");
        push_str(&mut out, html_escape(m.mismatch_type.as_str()).as_str());
        push_str(&mut out, "\">");
        push_str(&mut out, html_escape(label.as_str()).as_str());
        push_str(&mut out, "</span></td><td>");
        push_str(&mut out, html_escape(m.details.as_str()).as_str());
        push_str(&mut out, "</td></tr>");
        assert(out@ =~= head + html_rows(mismatches@, i + 1));
        i = i + 1;
    }
    push_str(&mut out, "</tbody></table></div>");
    string_of(&out)
}

/// How many of the first `n` mismatches are of the given type.
pub open spec fn type_count(ms: Seq<Mismatch>, kind: Seq<char>, n: int) -> nat
    decreases n,
{
    if n <= 0 {
        0
    } else {
        type_count(ms, kind, n - 1) + if ms[n - 1].mismatch_type@ == kind {
            1nat
        } else {
            0
        }
    }
}

fn find_key(keys: &Vec<String>, kind: &String) -> (r: Option<usize>)
    ensures
        match r {
            Some(j) => j < keys@.len() && keys@[j as int]@ == kind@,
            None => forall|i: int| 0 <= i < keys@.len() ==> keys@[i]@ != kind@,
        },
{
    let mut j: usize = 0;
    while j < keys.len()
        invariant
            j <= keys.len(),
            forall|i: int| 0 <= i < j ==> keys@[i]@ != kind@,
        decreases keys.len() - j,
    {
        if keys[j] == *kind {
            return Some(j);
        }
        j = j + 1;
    }
    None
}

/// The mismatch types of a report, each once, in order of first appearance,
/// with how many mismatches are of that type.
pub fn mismatch_type_counts(mismatches: &Vec<Mismatch>) -> (r: Vec<(String, usize)>)
    ensures
        forall|i: int, j: int| 0 <= i < j < r@.len() ==> r@[i].0@ != r@[j].0@,
        forall|i: int|
            0 <= i < r@.len() ==> r@[i].1 == type_count(
                mismatches@,
                #[trigger] r@[i].0@,
                mismatches@.len() as int,
            ),
        forall|k: int|
            0 <= k < mismatches@.len() ==> exists|i: int|
                0 <= i < r@.len() && r@[i].0@ == (#[trigger] mismatches@[k]).mismatch_type@,
{
    let ghost ms = mismatches@;
    let mut keys: Vec<String> = Vec::new();
    let mut counts: Vec<usize> = Vec::new();
    let mut k: usize = 0;
    while k < mismatches.len()
        invariant
            k <= mismatches.len(),
            ms == mismatches@,
            keys@.len() == counts@.len(),
            forall|i: int, j: int| 0 <= i < j < keys@.len() ==> keys@[i]@ != keys@[j]@,
            forall|i: int|
                0 <= i < keys@.len() ==> counts@[i] == type_count(ms, #[trigger] keys@[i]@, k as int),
            forall|m: int|
                #![trigger ms[m]]
                0 <= m < k ==> exists|i: int| 0 <= i < keys@.len() && keys@[i]@ == ms[m].mismatch_type@,
            forall|t: Seq<char>|
                (forall|i: int| 0 <= i < keys@.len() ==> keys@[i]@ != t) ==> #[trigger] type_count(
                    ms,
                    t,
                    k as int,
                ) == 0,
        decreases mismatches.len() - k,
    {
        let kind = &mismatches[k].mismatch_type;
        let ghost old_keys = keys@;
        match find_key(&keys, kind) {
            Some(j) => {
                proof {
                    lemma_type_count_bound(ms, kind@, k as int);
                }
                let c = counts[j];
                counts.set(j, c + 1);
                assert forall|i: int| 0 <= i < keys@.len() implies counts@[i] == type_count(
                    ms,
                    #[trigger] keys@[i]@,
                    k + 1,
                ) by {
                    if i != j {
                        assert(keys@[i]@ != kind@);
                    }
                }
                assert forall|m: int|
                    #![trigger ms[m]]
                    0 <= m < k + 1 implies exists|i: int|
                        0 <= i < keys@.len() && keys@[i]@ == ms[m].mismatch_type@ by {
                    if m == k {
                        assert(keys@[j as int]@ == ms[m].mismatch_type@);
                    }
                }
            },
            None => {
                assert(type_count(ms, kind@, k as int) == 0);
                keys.push(kind.clone());
                counts.push(1);
                assert forall|i: int| 0 <= i < keys@.len() implies counts@[i] == type_count(
                    ms,
                    #[trigger] keys@[i]@,
                    k + 1,
                ) by {
                    if i < old_keys.len() {
                        assert(keys@[i] == old_keys[i]);
                        assert(old_keys[i]@ != kind@);
                    }
                }
                assert forall|m: int|
                    #![trigger ms[m]]
                    0 <= m < k + 1 implies exists|i: int|
                        0 <= i < keys@.len() && keys@[i]@ == ms[m].mismatch_type@ by {
                    if m == k {
                        assert(keys@[old_keys.len() as int]@ == ms[m].mismatch_type@);
                    } else {
                        let i = choose|i: int|
                            0 <= i < old_keys.len() && old_keys[i]@ == ms[m].mismatch_type@;
                        assert(keys@[i] == old_keys[i]);
                    }
                }
            },
        }
        assert forall|t: Seq<char>|
            (forall|i: int| 0 <= i < keys@.len() ==> keys@[i]@ != t) implies #[trigger] type_count(
                ms,
                t,
                k + 1,
            ) == 0 by {
            let w = choose|i: int| 0 <= i < keys@.len() && keys@[i]@ == ms[k as int].mismatch_type@;
            assert(keys@[w]@ != t);
            assert forall|i: int| 0 <= i < old_keys.len() implies old_keys[i]@ != t by {
                assert(keys@[i] == old_keys[i]);
            }
            assert(type_count(ms, t, k as int) == 0);
            assert(ms[k as int].mismatch_type@ != t);
        }
        k = k + 1;
    }
    let mut out: Vec<(String, usize)> = Vec::new();
    let mut i: usize = 0;
    while i < keys.len()
        invariant
            i <= keys.len(),
            keys@.len() == counts@.len(),
            out@.len() == i,
            forall|t: int|
                0 <= t < i ==> (#[trigger] out@[t]).0@ == keys@[t]@ && out@[t].1 == counts@[t],
        decreases keys.len() - i,
    {
        let key = keys[i].clone();
        let c = counts[i];
        assert(key@ == keys@[i as int]@);
        let ghost before = out@;
        out.push((key, c));
        assert forall|t: int| 0 <= t < i + 1 implies out@[t].0@ == keys@[t]@ && out@[t].1
            == counts@[t] by {
            if t < i {
                assert(out@[t] == before[t]);
                assert(before[t].0@ == keys@[t]@);
            } else {
                assert(out@[t] == (key, c));
                assert(out@[t].0 == key);
                assert(key@ == keys@[t]@);
            }
        }
        i = i + 1;
    }
    assert forall|a: int, b: int| 0 <= a < b < out@.len() implies out@[a].0@ != out@[b].0@ by {
        assert(out@[a].0@ == keys@[a]@ && out@[b].0@ == keys@[b]@);
    }
    assert forall|a: int| 0 <= a < out@.len() implies out@[a].1 == type_count(
        mismatches@,
        #[trigger] out@[a].0@,
        mismatches@.len() as int,
    ) by {
        assert(out@[a].0@ == keys@[a]@);
    }
    assert forall|m: int| 0 <= m < mismatches@.len() implies exists|a: int|
        0 <= a < out@.len() && out@[a].0@ == (#[trigger] mismatches@[m]).mismatch_type@ by {
        let a = choose|a: int| 0 <= a < keys@.len() && keys@[a]@ == ms[m].mismatch_type@;
        assert(out@[a].0@ == keys@[a]@);
    }
    out
}

proof fn lemma_type_count_bound(ms: Seq<Mismatch>, kind: Seq<char>, n: int)
    requires
        0 <= n,
    ensures
        type_count(ms, kind, n) <= n,
    decreases n,
{
    if n > 0 {
        lemma_type_count_bound(ms, kind, n - 1);
    }
}

} // verus!
