//! Requirement extraction: a single forward walk over the markdown event
//! stream, with the heading hierarchy as side state, that turns list items
//! and table rows into requirement records.

use vstd::prelude::*;
use crate::classify::{
    classify_priority, classify_requirement_type, is_requirement_like_section,
    looks_like_requirement, priority_of, reads_as_requirement, section_like, type_of,
};
use crate::heading::{
    current_section, full_path, headings_after, join, levels, no_headings, opt_view, Headings,
    HeadingStack,
};
use crate::ids::new_id;
use crate::markdown::{markdown_events, markdown_events_of, MdEvent, MdTag};
use crate::model::Requirement;
use crate::text::{
    chars_of, contains_str, has_infix, has_prefix, lower_chars, lower_of, push_chars, push_str,
    same_chars, slice_chars, starts_with_str, string_of, trim, trim_chars,
};

verus! {

// ---------------------------------------------------------------------------
// Markers
// ---------------------------------------------------------------------------

/// What `regex::Regex::captures` finds for a pattern on a text: the first
/// group, and the text after the whole match. `None` where the pattern does
/// not compile, does not match, or its first group takes no part.
pub uninterp spec fn regex_captures(pattern: Seq<char>, text: Seq<char>) -> Option<
    (Seq<char>, Seq<char>),
>;

pub open spec fn capture_view(c: Option<(String, String)>) -> Option<(Seq<char>, Seq<char>)> {
    match c {
        Some((m, rest)) => Some((m@, rest@)),
        None => None,
    }
}

/// Relies on `regex::Regex::new` and `Regex::captures`: compiles the pattern
/// and matches it against the text; gives the first group and what follows
/// the whole match.
#[verifier::external_body]
fn regex_prefix_capture(pattern: &str, text: &str) -> (r: Option<(String, String)>)
    ensures
        capture_view(r) == regex_captures(pattern@, text@),
{
    let caps = regex::Regex::new(pattern).ok()?.captures(text)?;
    Some((caps.get(1)?.as_str().to_string(), text[caps.get(0)?.end()..].to_string()))
}

/// The explicit ID markers, tried in this order: `REQ-`, `US-`, `FR-`,
/// `NFR-`, `UC-`, `FEAT-`, each followed by digits, a colon and optional
/// white space, at the start of the text.
pub open spec fn id_pattern(k: int) -> Seq<char> {
    if k == 0 {
        "^(REQ-\\d+):\\s*"@
    } else if k == 1 {
        "^(US-\\d+):\\s*"@
    } else if k == 2 {
        "^(FR-\\d+):\\s*"@
    } else if k == 3 {
        "^(NFR-\\d+):\\s*"@
    } else if k == 4 {
        "^(UC-\\d+):\\s*"@
    } else {
        "^(FEAT-\\d+):\\s*"@
    }
}

/// The number of ID marker patterns.
pub const ID_PATTERN_COUNT: usize = 6;

fn id_pattern_text(k: usize) -> (r: &'static str)
    ensures
        r@ == id_pattern(k as int),
{
    if k == 0 {
        "^(REQ-\\d+):\\s*"
    } else if k == 1 {
        "^(US-\\d+):\\s*"
    } else if k == 2 {
        "^(FR-\\d+):\\s*"
    } else if k == 3 {
        "^(NFR-\\d+):\\s*"
    } else if k == 4 {
        "^(UC-\\d+):\\s*"
    } else {
        "^(FEAT-\\d+):\\s*"
    }
}

/// The capture of the first ID pattern, from the `k`-th on, that matches.
pub open spec fn first_id_capture(t: Seq<char>, k: int) -> Option<(Seq<char>, Seq<char>)>
    decreases 6 - k,
{
    if k >= 6 {
        None
    } else {
        match regex_captures(id_pattern(k), t) {
            Some(c) => Some(c),
            None => first_id_capture(t, k + 1),
        }
    }
}

/// The keyword prefix that opens a text, with its tag.
pub open spec fn keyword_marker(t: Seq<char>) -> Option<(Seq<char>, Seq<char>)> {
    if has_prefix(t, "Must:"@) {
        Some(("Must:"@, "MUST"@))
    } else if has_prefix(t, "Should:"@) {
        Some(("Should:"@, "SHOULD"@))
    } else if has_prefix(t, "Could:"@) {
        Some(("Could:"@, "COULD"@))
    } else if has_prefix(t, "Won't:"@) {
        Some(("Won't:"@, "WONT"@))
    } else if has_prefix(t, "Will:"@) {
        Some(("Will:"@, "WILL"@))
    } else {
        None
    }
}

/// The text without its marker, and the marker, given the ID capture found
/// for it: an ID marker wins; else a keyword prefix; else the text as it is.
pub open spec fn split_with(t: Seq<char>, cap: Option<(Seq<char>, Seq<char>)>) -> (
    Seq<char>,
    Option<Seq<char>>,
) {
    match cap {
        Some((m, rest)) => (trim(rest), Some(m)),
        None => match keyword_marker(t) {
            Some((p, tag)) => (trim(t.subrange(p.len() as int, t.len() as int)), Some(tag)),
            None => (t, None),
        },
    }
}

/// The text without its marker, and the marker.
pub open spec fn marker_split(t: Seq<char>) -> (Seq<char>, Option<Seq<char>>) {
    split_with(t, first_id_capture(t, 0))
}

/// A description with its marker tag in front: `"[<MARKER>] <text>"`.
pub open spec fn described(clean: Seq<char>, marker: Option<Seq<char>>) -> Seq<char> {
    match marker {
        Some(m) => "["@ + m + "] "@ + clean,
        None => clean,
    }
}

fn keyword_prefix(t: &Vec<char>) -> (r: Option<(&'static str, &'static str)>)
    ensures
        match r {
            Some((p, tag)) => keyword_marker(t@) == Some((p@, tag@)),
            None => keyword_marker(t@) is None,
        },
{
    if starts_with_str(t, "Must:") {
        Some(("Must:", "MUST"))
    } else if starts_with_str(t, "Should:") {
        Some(("Should:", "SHOULD"))
    } else if starts_with_str(t, "Could:") {
        Some(("Could:", "COULD"))
    } else if starts_with_str(t, "Won't:") {
        Some(("Won't:", "WONT"))
    } else if starts_with_str(t, "Will:") {
        Some(("Will:", "WILL"))
    } else {
        None
    }
}

/// Splits the marker off a text, given what the ID patterns captured on it
/// (the first group and the rest of the text, or `None`).
pub fn split_marker_with(text: &str, capture: Option<(String, String)>) -> (r: (
    String,
    Option<String>,
))
    ensures
        (r.0@, opt_view(r.1)) == split_with(text@, capture_view(capture)),
{
    match capture {
        Some((m, rest)) => {
            let rc = chars_of(rest.as_str());
            (string_of(&trim_chars(&rc)), Some(m))
        },
        None => {
            let t = chars_of(text);
            match keyword_prefix(&t) {
                Some((p, tag)) => {
                    let pc = chars_of(p);
                    let after = slice_chars(&t, pc.len(), t.len());
                    (string_of(&trim_chars(&after)), Some(string_of(&chars_of(tag))))
                },
                None => (string_of(&t), None),
            }
        },
    }
}

/// Splits a leading requirement marker off a text: an ID such as `REQ-12:`
/// or a keyword such as `Must:`; gives the remaining text and the marker.
pub fn extract_requirement_marker(text: &str) -> (r: (String, Option<String>))
    ensures
        (r.0@, opt_view(r.1)) == marker_split(text@),
{
    let mut k: usize = 0;
    while k < ID_PATTERN_COUNT
        invariant
            k <= 6,
            first_id_capture(text@, 0) == first_id_capture(text@, k as int),
        decreases 6 - k,
    {
        let c = regex_prefix_capture(id_pattern_text(k), text);
        if c.is_some() {
            return split_marker_with(text, c);
        }
        k = k + 1;
    }
    split_marker_with(text, None)
}

// ---------------------------------------------------------------------------
// Table rows
// ---------------------------------------------------------------------------

/// The sequences of characters of a list of strings.
pub open spec fn texts(v: Seq<String>) -> Seq<Seq<char>> {
    v.map_values(|s: String| s@)
}

/// A lowercase column header that names the description column.
pub open spec fn describes(lh: Seq<char>) -> bool {
    has_infix(lh, "requirement"@) || has_infix(lh, "description"@) || has_infix(lh, "spec"@)
        || has_infix(lh, "user story"@)
}

/// The priority that a lowercase priority cell names.
pub open spec fn priority_cell(l: Seq<char>) -> Seq<char> {
    if l == "high"@ || l == "critical"@ || l == "must"@ {
        "high"@
    } else if l == "low"@ || l == "nice to have"@ || l == "optional"@ {
        "low"@
    } else {
        "medium"@
    }
}

/// The requirement type that a lowercase type cell names.
pub open spec fn type_cell(l: Seq<char>) -> Seq<char> {
    if has_infix(l, "non-functional"@) || has_infix(l, "performance"@) || has_infix(
        l,
        "security"@,
    ) {
        "non_functional"@
    } else if has_infix(l, "constraint"@) {
        "constraint"@
    } else {
        "functional"@
    }
}

/// Description, priority and type read from the first `n` columns; a later
/// column of the same role overrides an earlier one.
pub open spec fn column_scan(headers: Seq<Seq<char>>, row: Seq<Seq<char>>, n: int) -> (
    Option<Seq<char>>,
    Seq<char>,
    Seq<char>,
)
    decreases n,
{
    if n <= 0 {
        (None, "medium"@, "functional"@)
    } else {
        let (d, p, ty) = column_scan(headers, row, n - 1);
        let lh = lower_of(headers[n - 1]);
        let cell = row[n - 1];
        if describes(lh) {
            (Some(cell), p, ty)
        } else if has_infix(lh, "priority"@) {
            (d, priority_cell(lower_of(cell)), ty)
        } else if has_infix(lh, "type"@) || has_infix(lh, "category"@) {
            (d, p, type_cell(lower_of(cell)))
        } else {
            (d, p, ty)
        }
    }
}

/// The first non-empty cell, from the `k`-th on, that is not an ID.
pub open spec fn first_plain_cell(row: Seq<Seq<char>>, k: int) -> Option<Seq<char>>
    decreases row.len() - k,
{
    if k < 0 || k >= row.len() {
        None
    } else if !has_prefix(row[k], "REQ-"@) && !has_prefix(row[k], "US-"@) && !has_prefix(
        row[k],
        "FR-"@,
    ) && row[k].len() > 0 {
        Some(row[k])
    } else {
        first_plain_cell(row, k + 1)
    }
}

/// The description, type and priority that a table row gives under the
/// column headers, or `None` where it gives no description of at least ten
/// characters.
pub open spec fn row_requirement(headers: Seq<Seq<char>>, row: Seq<Seq<char>>) -> Option<
    (Seq<char>, Seq<char>, Seq<char>),
> {
    if row.len() == 0 || headers.len() == 0 {
        None
    } else {
        let n = if headers.len() < row.len() {
            headers.len()
        } else {
            row.len()
        };
        let (d, p, ty) = column_scan(headers, row, n as int);
        let text = match d {
            Some(t) => Some(t),
            None => first_plain_cell(row, 0),
        };
        match text {
            Some(t) => if t.len() < 10 {
                None
            } else {
                Some((t, ty, p))
            },
            None => None,
        }
    }
}

fn priority_cell_exec(cell: &String) -> (r: &'static str)
    ensures
        r@ == priority_cell(lower_of(cell@)),
{
    let l = lower_chars(cell.as_str());
    let h1 = chars_of("high");
    let h2 = chars_of("critical");
    let h3 = chars_of("must");
    let l1 = chars_of("low");
    let l2 = chars_of("nice to have");
    let l3 = chars_of("optional");
    if same_chars(&l, &h1) || same_chars(&l, &h2) || same_chars(&l, &h3) {
        "high"
    } else if same_chars(&l, &l1) || same_chars(&l, &l2) || same_chars(&l, &l3) {
        "low"
    } else {
        "medium"
    }
}

fn type_cell_exec(cell: &String) -> (r: &'static str)
    ensures
        r@ == type_cell(lower_of(cell@)),
{
    let l = lower_chars(cell.as_str());
    if contains_str(&l, "non-functional") || contains_str(&l, "performance") || contains_str(
        &l,
        "security",
    ) {
        "non_functional"
    } else if contains_str(&l, "constraint") {
        "constraint"
    } else {
        "functional"
    }
}

fn describes_exec(lh: &Vec<char>) -> (r: bool)
    ensures
        r == describes(lh@),
{
    contains_str(lh, "requirement") || contains_str(lh, "description") || contains_str(lh, "spec")
        || contains_str(lh, "user story")
}

fn first_plain_index(row: &Vec<String>) -> (r: Option<usize>)
    ensures
        match r {
            Some(k) => k < row.len() && first_plain_cell(texts(row@), 0) == Some(row@[k as int]@),
            None => first_plain_cell(texts(row@), 0) is None,
        },
{
    let ghost rs = texts(row@);
    let mut k: usize = 0;
    while k < row.len()
        invariant
            k <= row.len(),
            rs == texts(row@),
            first_plain_cell(rs, 0) == first_plain_cell(rs, k as int),
        decreases row.len() - k,
    {
        let c = chars_of(row[k].as_str());
        if !starts_with_str(&c, "REQ-") && !starts_with_str(&c, "US-") && !starts_with_str(
            &c,
            "FR-",
        ) && c.len() > 0 {
            return Some(k);
        }
        k = k + 1;
    }
    None
}

/// The text of a requirement read from a table row, under the given column
/// headers: description, type and priority as the columns name them.
pub fn table_row_fields(headers: &Vec<String>, row: &Vec<String>) -> (r: Option<
    (String, String, String),
>)
    ensures
        match r {
            Some((d, ty, p)) => row_requirement(texts(headers@), texts(row@)) == Some(
                (d@, ty@, p@),
            ),
            None => row_requirement(texts(headers@), texts(row@)) is None,
        },
{
    let ghost hs = texts(headers@);
    let ghost rs = texts(row@);
    if row.len() == 0 || headers.len() == 0 {
        return None;
    }
    let n = if headers.len() < row.len() {
        headers.len()
    } else {
        row.len()
    };
    let mut desc: Option<usize> = None;
    let mut priority: &'static str = "medium";
    let mut req_type: &'static str = "functional";
    let mut i: usize = 0;
    while i < n
        invariant
            i <= n,
            n <= headers.len(),
            n <= row.len(),
            hs == texts(headers@),
            rs == texts(row@),
            desc matches Some(k) ==> k < row.len(),
            column_scan(hs, rs, i as int) == (
                match desc {
                    Some(k) => Some(rs[k as int]),
                    None => None,
                },
                priority@,
                req_type@,
            ),
        decreases n - i,
    {
        let lh = lower_chars(headers[i].as_str());
        if describes_exec(&lh) {
            desc = Some(i);
        } else if contains_str(&lh, "priority") {
            priority = priority_cell_exec(&row[i]);
        } else if contains_str(&lh, "type") || contains_str(&lh, "category") {
            req_type = type_cell_exec(&row[i]);
        }
        i = i + 1;
    }
    let text: Option<usize> = match desc {
        Some(k) => Some(k),
        None => {
            first_plain_index(row)
        },
    };
    match text {
        Some(k) => {
            let c = chars_of(row[k].as_str());
            if c.len() < 10 {
                None
            } else {
                Some(
                    (
                        row[k].clone(),
                        string_of(&chars_of(req_type)),
                        string_of(&chars_of(priority)),
                    ),
                )
            }
        },
        None => None,
    }
}

// ---------------------------------------------------------------------------
// The walk
// ---------------------------------------------------------------------------

/// The content of an extracted requirement: everything but its identifiers.
pub struct Extracted {
    pub section: Seq<char>,
    pub description: Seq<char>,
    pub req_type: Seq<char>,
    pub priority: Seq<char>,
}

/// The content of a requirement record.
pub open spec fn content_of(r: Requirement) -> Extracted {
    Extracted {
        section: r.section@,
        description: r.description@,
        req_type: r.req_type@,
        priority: r.priority@,
    }
}

/// The side state of the walk.
pub struct WalkState {
    pub headings: Headings,
    pub in_heading: bool,
    pub heading_text: Seq<char>,
    pub heading_level: u8,
    /// The text of each list item that is open, innermost last.
    pub items: Seq<Seq<char>>,
    pub req_section: bool,
    pub headers: Seq<Seq<char>>,
    pub row: Seq<Seq<char>>,
    pub in_head: bool,
    pub in_cell: bool,
    pub cell_text: Seq<char>,
}

pub open spec fn initial_walk() -> WalkState {
    WalkState {
        headings: no_headings(),
        in_heading: false,
        heading_text: Seq::empty(),
        heading_level: 1,
        items: Seq::empty(),
        req_section: false,
        headers: Seq::empty(),
        row: Seq::empty(),
        in_head: false,
        in_cell: false,
        cell_text: Seq::empty(),
    }
}

/// The requirement that a list item's (trimmed, non-empty) text gives under
/// the current headings.
pub open spec fn item_requirement(h: Headings, t: Seq<char>) -> Extracted {
    let (clean, marker) = marker_split(t);
    Extracted {
        section: full_path(h),
        description: described(clean, marker),
        req_type: type_of(lower_of(current_section(h)), lower_of(clean)),
        priority: priority_of(lower_of(clean)),
    }
}

/// Whether a finished list item, with trimmed text `t`, is a requirement.
pub open spec fn item_counts(s: WalkState, t: Seq<char>) -> bool {
    t.len() > 0 && (s.req_section || reads_as_requirement(t, lower_of(t)))
}

/// The requirement that a finished table row gives, if any.
pub open spec fn row_counts(s: WalkState) -> Option<Extracted> {
    if !s.in_head && s.row.len() > 0 {
        match row_requirement(s.headers, s.row) {
            Some((d, ty, p)) => Some(
                Extracted { section: full_path(s.headings), description: d, req_type: ty, priority: p },
            ),
            None => None,
        }
    } else {
        None
    }
}

/// Inline text goes to the open heading, else to the innermost open list
/// item, else to the open table cell.
pub open spec fn with_text(s: WalkState, x: Seq<char>) -> WalkState {
    if s.in_heading {
        WalkState { heading_text: s.heading_text + x, ..s }
    } else if s.items.len() > 0 {
        WalkState { items: s.items.update(s.items.len() - 1, s.items.last() + x), ..s }
    } else if s.in_cell {
        WalkState { cell_text: s.cell_text + x, ..s }
    } else {
        s
    }
}

/// One event of the walk: the new state, and the requirement it completes.
pub open spec fn step(s: WalkState, e: MdEvent) -> (WalkState, Option<Extracted>) {
    match e {
        MdEvent::Start(MdTag::Heading(l)) => (
            WalkState { in_heading: true, heading_text: Seq::empty(), heading_level: l, ..s },
            None,
        ),
        MdEvent::End(MdTag::Heading(_)) => {
            let h = headings_after(s.headings, s.heading_level, trim(s.heading_text));
            (
                WalkState {
                    in_heading: false,
                    headings: h,
                    req_section: section_like(lower_of(current_section(h))),
                    ..s
                },
                None,
            )
        },
        MdEvent::Start(MdTag::Table) => (WalkState { headers: Seq::empty(), ..s }, None),
        MdEvent::Start(MdTag::TableHead) => (WalkState { in_head: true, ..s }, None),
        MdEvent::End(MdTag::TableHead) => (WalkState { in_head: false, ..s }, None),
        MdEvent::Start(MdTag::TableRow) => (WalkState { row: Seq::empty(), ..s }, None),
        MdEvent::End(MdTag::TableRow) => (s, row_counts(s)),
        MdEvent::Start(MdTag::TableCell) => (
            WalkState { in_cell: true, cell_text: Seq::empty(), ..s },
            None,
        ),
        MdEvent::End(MdTag::TableCell) => {
            if s.in_head {
                (WalkState { in_cell: false, headers: s.headers.push(trim(s.cell_text)), ..s }, None)
            } else {
                (WalkState { in_cell: false, row: s.row.push(trim(s.cell_text)), ..s }, None)
            }
        },
        MdEvent::Start(MdTag::Item) => (
            WalkState { items: s.items.push(Seq::empty()), ..s },
            None,
        ),
        MdEvent::End(MdTag::Item) => {
            let (t, rest) = if s.items.len() > 0 {
                (trim(s.items.last()), s.items.drop_last())
            } else {
                (Seq::empty(), s.items)
            };
            (
                WalkState { items: rest, ..s },
                if item_counts(s, t) {
                    Some(item_requirement(s.headings, t))
                } else {
                    None
                },
            )
        },
        MdEvent::Text(x) => (with_text(s, x@), None),
        MdEvent::Code(x) => (with_text(s, x@), None),
        _ => (s, None),
    }
}

/// The walk over a prefix of the events: the state reached and the
/// requirements found, in the order in which their items and rows end (so an
/// item nested in another comes before the item that holds it).
pub open spec fn walk(events: Seq<MdEvent>) -> (WalkState, Seq<Extracted>)
    decreases events.len(),
{
    if events.len() == 0 {
        (initial_walk(), Seq::empty())
    } else {
        let (s, found) = walk(events.drop_last());
        let (s2, r) = step(s, events.last());
        (
            s2,
            match r {
                Some(x) => found.push(x),
                None => found,
            },
        )
    }
}

/// The requirements that an event stream yields, in document order.
pub open spec fn extracted(events: Seq<MdEvent>) -> Seq<Extracted> {
    walk(events).1
}

/// `reqs` are the requirements of spec `spec_id` that `events` yield.
pub open spec fn yields(spec_id: Seq<char>, events: Seq<MdEvent>, reqs: Seq<Requirement>) -> bool {
    &&& reqs.len() == extracted(events).len()
    &&& forall|i: int| 0 <= i < reqs.len() ==> #[trigger] content_of(reqs[i]) == extracted(events)[i]
    &&& forall|i: int| 0 <= i < reqs.len() ==> (#[trigger] reqs[i]).spec_id@ == spec_id
    &&& forall|i: int| 0 <= i < reqs.len() ==> (#[trigger] reqs[i]).id@.len() == 36
}

/// The requirement that a table row gives under its column headers and the
/// current headings, with a fresh identifier; `None` where the row yields no
/// description of at least ten characters.
pub fn extract_requirement_from_table_row(
    spec_id: &str,
    headers: &Vec<String>,
    row: &Vec<String>,
    heading_stack: &HeadingStack,
) -> (r: Option<Requirement>)
    ensures
        match r {
            Some(q) => row_requirement(texts(headers@), texts(row@)) == Some(
                (q.description@, q.req_type@, q.priority@),
            ) && q.section@ == full_path(heading_stack@) && q.spec_id@ == spec_id@ && q.id@.len()
                == 36,
            None => row_requirement(texts(headers@), texts(row@)) is None,
        },
{
    match table_row_fields(headers, row) {
        Some((description, req_type, priority)) => Some(
            Requirement {
                id: new_id(),
                spec_id: string_of(&chars_of(spec_id)),
                section: heading_stack.get_full_path(),
                description,
                req_type,
                priority,
            },
        ),
        None => None,
    }
}

/// The walk's side state as it runs: the heading stack and the open
/// buffers.
struct Walker {
    headings: HeadingStack,
    in_heading: bool,
    heading_text: Vec<char>,
    heading_level: u8,
    items: Vec<Vec<char>>,
    req_section: bool,
    headers: Vec<String>,
    row: Vec<String>,
    in_head: bool,
    in_cell: bool,
    cell_text: Vec<char>,
}

impl Walker {
    spec fn view(&self) -> WalkState {
        WalkState {
            headings: self.headings@,
            in_heading: self.in_heading,
            heading_text: self.heading_text@,
            heading_level: self.heading_level,
            items: self.items@.map_values(|v: Vec<char>| v@),
            req_section: self.req_section,
            headers: texts(self.headers@),
            row: texts(self.row@),
            in_head: self.in_head,
            in_cell: self.in_cell,
            cell_text: self.cell_text@,
        }
    }

    fn new() -> (r: Walker)
        ensures
            r.view() == initial_walk(),
    {
        let w = Walker {
            headings: HeadingStack::new(),
            in_heading: false,
            heading_text: Vec::new(),
            heading_level: 1,
            items: Vec::new(),
            req_section: false,
            headers: Vec::new(),
            row: Vec::new(),
            in_head: false,
            in_cell: false,
            cell_text: Vec::new(),
        };
        assert(texts(w.headers@) =~= Seq::empty());
        assert(w.items@.map_values(|v: Vec<char>| v@) =~= Seq::empty());
        assert(texts(w.row@) =~= Seq::empty());
        w
    }

    fn add_text(&mut self, x: &String)
        ensures
            final(self).view() == with_text(old(self).view(), x@),
    {
        let xc = chars_of(x.as_str());
        if self.in_heading {
            push_chars(&mut self.heading_text, &xc);
        } else if self.items.len() > 0 {
            let ghost before = self.items@.map_values(|v: Vec<char>| v@);
            let mut top = self.items.pop().unwrap();
            push_chars(&mut top, &xc);
            self.items.push(top);
            assert(self.items@.map_values(|v: Vec<char>| v@) =~= before.update(
                before.len() - 1,
                before.last() + x@,
            ));
        } else if self.in_cell {
            push_chars(&mut self.cell_text, &xc);
        }
    }

    /// The requirement that a finished list item, with text `item`, gives.
    fn finish_item(&self, item: &Vec<char>, spec_id: &str) -> (r: Option<Requirement>)
        ensures
            ({
                let t = trim(item@);
                match r {
                    Some(q) => item_counts(self.view(), t) && content_of(q) == item_requirement(
                        self.headings@,
                        t,
                    ) && q.spec_id@ == spec_id@ && q.id@.len() == 36,
                    None => !item_counts(self.view(), t),
                }
            }),
    {
        let tc = trim_chars(item);
        let t = string_of(&tc);
        if tc.len() == 0 {
            return None;
        }
        if !(self.req_section || looks_like_requirement(t.as_str())) {
            return None;
        }
        let (clean, marker) = extract_requirement_marker(t.as_str());
        let current = self.headings.get_current_section();
        let req_type = classify_requirement_type(current.as_str(), clean.as_str());
        let priority = classify_priority(clean.as_str());
        let description = match marker {
            Some(m) => {
                let mut d: Vec<char> = Vec::new();
                push_str(&mut d, "[");
                push_str(&mut d, m.as_str());
                push_str(&mut d, "] ");
                push_str(&mut d, clean.as_str());
                string_of(&d)
            },
            None => clean,
        };
        Some(
            Requirement {
                id: new_id(),
                spec_id: string_of(&chars_of(spec_id)),
                section: self.headings.get_full_path(),
                description,
                req_type,
                priority,
            },
        )
    }

    fn step(&mut self, e: &MdEvent, spec_id: &str) -> (r: Option<Requirement>)
        ensures
            final(self).view() == step(old(self).view(), *e).0,
            match r {
                Some(q) => step(old(self).view(), *e).1 == Some(content_of(q)) && q.spec_id@
                    == spec_id@ && q.id@.len() == 36,
                None => step(old(self).view(), *e).1 is None,
            },
    {
        match e {
            MdEvent::Start(MdTag::Heading(l)) => {
                self.in_heading = true;
                self.heading_text = Vec::new();
                self.heading_level = *l;
                None
            },
            MdEvent::End(MdTag::Heading(_)) => {
                self.in_heading = false;
                let t = string_of(&trim_chars(&self.heading_text));
                self.headings.update(self.heading_level, t);
                let current = self.headings.get_current_section();
                self.req_section = is_requirement_like_section(current.as_str());
                None
            },
            MdEvent::Start(MdTag::Table) => {
                self.headers = Vec::new();
                assert(texts(self.headers@) =~= Seq::empty());
                None
            },
            MdEvent::Start(MdTag::TableHead) => {
                self.in_head = true;
                None
            },
            MdEvent::End(MdTag::TableHead) => {
                self.in_head = false;
                None
            },
            MdEvent::Start(MdTag::TableRow) => {
                self.row = Vec::new();
                assert(texts(self.row@) =~= Seq::empty());
                None
            },
            MdEvent::End(MdTag::TableRow) => {
                if self.in_head || self.row.len() == 0 {
                    None
                } else {
                    extract_requirement_from_table_row(
                        spec_id,
                        &self.headers,
                        &self.row,
                        &self.headings,
                    )
                }
            },
            MdEvent::Start(MdTag::TableCell) => {
                self.in_cell = true;
                self.cell_text = Vec::new();
                None
            },
            MdEvent::End(MdTag::TableCell) => {
                self.in_cell = false;
                let t = string_of(&trim_chars(&self.cell_text));
                let ghost tv = t@;
                if self.in_head {
                    let ghost before = self.headers@;
                    self.headers.push(t);
                    assert(texts(self.headers@) =~= texts(before).push(tv));
                } else {
                    let ghost before = self.row@;
                    self.row.push(t);
                    assert(texts(self.row@) =~= texts(before).push(tv));
                }
                None
            },
            MdEvent::Start(MdTag::Item) => {
                let ghost before = self.items@.map_values(|v: Vec<char>| v@);
                self.items.push(Vec::new());
                assert(self.items@.map_values(|v: Vec<char>| v@) =~= before.push(Seq::empty()));
                None
            },
            MdEvent::End(MdTag::Item) => {
                let ghost before = self.items@.map_values(|v: Vec<char>| v@);
                let item = match self.items.pop() {
                    Some(t) => t,
                    None => Vec::new(),
                };
                proof {
                    if before.len() > 0 {
                        assert(self.items@.map_values(|v: Vec<char>| v@) =~= before.drop_last());
                        assert(item@ == before.last());
                    } else {
                        assert(self.items@.map_values(|v: Vec<char>| v@) =~= before);
                        assert(trim(item@) =~= Seq::<char>::empty());
                    }
                }
                self.finish_item(&item, spec_id)
            },
            MdEvent::Text(x) => {
                self.add_text(x);
                None
            },
            MdEvent::Code(x) => {
                self.add_text(x);
                None
            },
            _ => None,
        }
    }
}

/// The requirements of spec `spec_id` that a markdown event stream yields,
/// in document order, each with a fresh identifier.
pub fn extract_requirements(spec_id: &str, events: &Vec<MdEvent>) -> (r: Vec<Requirement>)
    ensures
        yields(spec_id@, events@, r@),
{
    let mut w = Walker::new();
    let mut out: Vec<Requirement> = Vec::new();
    let mut i: usize = 0;
    while i < events.len()
        invariant
            i <= events.len(),
            walk(events@.subrange(0, i as int)).0 == w.view(),
            yields(spec_id@, events@.subrange(0, i as int), out@),
        decreases events.len() - i,
    {
        let ghost pre = events@.subrange(0, i as int);
        let ghost next = events@.subrange(0, i + 1);
        assert(next.drop_last() =~= pre);
        assert(next.last() == events@[i as int]);
        let r = w.step(&events[i], spec_id);
        match r {
            Some(q) => {
                out.push(q);
            },
            None => {},
        }
        i = i + 1;
        assert(extracted(next) == walk(next).1);
    }
    assert(events@.subrange(0, events.len() as int) =~= events@);
    out
}

/// The requirements of spec `spec_id` extracted from markdown text, in
/// document order, each with a fresh identifier.
pub fn parse_spec(spec_id: &str, content: &str) -> (r: Vec<Requirement>)
    ensures
        yields(spec_id@, markdown_events_of(content@), r@),
{
    let events = markdown_events(content);
    extract_requirements(spec_id, &events)
}

/// Extraction is deterministic: two extractions of the same content give
/// records equal in section, description, type and priority (only their
/// identifiers differ).
pub proof fn extraction_is_deterministic(
    spec_id: Seq<char>,
    content: Seq<char>,
    first: Seq<Requirement>,
    second: Seq<Requirement>,
)
    requires
        yields(spec_id, markdown_events_of(content), first),
        yields(spec_id, markdown_events_of(content), second),
    ensures
        first.len() == second.len(),
        forall|i: int| 0 <= i < first.len() ==> #[trigger] content_of(first[i]) == content_of(second[i]),
{
}

/// Every heading level that is set holds some text.
pub open spec fn levels_have_text(h: Headings) -> bool {
    &&& (h.h1 matches Some(t) ==> t.len() > 0)
    &&& (h.h2 matches Some(t) ==> t.len() > 0)
    &&& (h.h3 matches Some(t) ==> t.len() > 0)
    &&& (h.h4 matches Some(t) ==> t.len() > 0)
}

/// A section is the breadcrumb of a heading state whose levels all hold text.
pub open spec fn breadcrumb(section: Seq<char>) -> bool {
    exists|h: Headings| levels_have_text(h) && section == full_path(h)
}

pub open spec fn ends_heading(e: MdEvent) -> bool {
    e matches MdEvent::End(MdTag::Heading(_))
}

/// Every heading that the breadcrumb tracks (levels one to four) has text
/// once trimmed.
pub open spec fn headings_have_text(events: Seq<MdEvent>) -> bool {
    forall|n: int|
        0 <= n < events.len() && #[trigger] ends_heading(events[n]) ==> ({
            let s = walk(events.subrange(0, n)).0;
            1 <= s.heading_level <= 4 ==> trim(s.heading_text).len() > 0
        })
}

proof fn lemma_join_keeps_last(parts: Seq<Seq<char>>, sep: Seq<char>)
    requires
        parts.len() > 0,
    ensures
        join(parts, sep).len() >= parts.last().len(),
    decreases parts.len(),
{
    if parts.len() > 1 {
        lemma_join_keeps_last(parts.drop_last(), sep);
    }
}

proof fn lemma_breadcrumb_not_empty(h: Headings)
    requires
        levels_have_text(h),
    ensures
        full_path(h).len() > 0,
{
    reveal_strlit("General");
    let ls = levels(h);
    if ls.len() > 0 {
        lemma_join_keeps_last(ls, " > "@);
        assert(ls.last().len() > 0) by {
            crate::heading::lemma_levels_have_text(h);
        }
    }
}

proof fn lemma_walk_sections(events: Seq<MdEvent>)
    requires
        headings_have_text(events),
    ensures
        levels_have_text(walk(events).0.headings),
        forall|i: int|
            0 <= i < walk(events).1.len() ==> breadcrumb(#[trigger] walk(events).1[i].section),
    decreases events.len(),
{
    if events.len() > 0 {
        let pre = events.drop_last();
        assert forall|n: int| 0 <= n < pre.len() && #[trigger] ends_heading(pre[n]) implies ({
            let s = walk(pre.subrange(0, n)).0;
            1 <= s.heading_level <= 4 ==> trim(s.heading_text).len() > 0
        }) by {
            assert(pre.subrange(0, n) =~= events.subrange(0, n));
            assert(ends_heading(events[n]));
        }
        lemma_walk_sections(pre);
        let (st, found) = walk(pre);
        let e = events.last();
        assert(events.subrange(0, events.len() - 1) =~= pre);
        if ends_heading(e) {
            assert(ends_heading(events[events.len() - 1]));
        }
        let (st2, r) = step(st, e);
        match r {
            Some(x) => {
                assert(x.section == full_path(st.headings));
                assert(breadcrumb(x.section));
                assert forall|i: int| 0 <= i < found.push(x).len() implies breadcrumb(
                    #[trigger] found.push(x)[i].section,
                ) by {
                    if i < found.len() {
                        assert(found.push(x)[i] == found[i]);
                    }
                }
            },
            None => {},
        }
    }
}

/// Sections are well formed: where every heading that the breadcrumb tracks
/// has text, each extracted requirement's section is non-empty, and it is
/// either `"General"` or the headings in effect (none of them empty) joined
/// by `" > "`, so no two separators stand with nothing between them.
pub proof fn sections_are_breadcrumbs(spec_id: Seq<char>, content: Seq<char>, reqs: Seq<Requirement>)
    requires
        yields(spec_id, markdown_events_of(content), reqs),
        headings_have_text(markdown_events_of(content)),
    ensures
        forall|i: int|
            0 <= i < reqs.len() ==> (#[trigger] reqs[i]).section@.len() > 0 && breadcrumb(
                reqs[i].section@,
            ),
{
    let events = markdown_events_of(content);
    lemma_walk_sections(events);
    assert forall|i: int| 0 <= i < reqs.len() implies (#[trigger] reqs[i]).section@.len() > 0
        && breadcrumb(reqs[i].section@) by {
        assert(content_of(reqs[i]) == extracted(events)[i]);
        assert(breadcrumb(walk(events).1[i].section));
        let h = choose|h: Headings| levels_have_text(h) && reqs[i].section@ == full_path(h);
        lemma_breadcrumb_not_empty(h);
    }
}

// ---------------------------------------------------------------------------
// Reparse
// ---------------------------------------------------------------------------

/// The records of `store` that belong to a spec other than `spec_id`, in order.
pub open spec fn others(store: Seq<Requirement>, spec_id: Seq<char>) -> Seq<Requirement>
    decreases store.len(),
{
    if store.len() == 0 {
        Seq::empty()
    } else if store.last().spec_id@ != spec_id {
        others(store.drop_last(), spec_id).push(store.last())
    } else {
        others(store.drop_last(), spec_id)
    }
}

/// The records of `store` that belong to spec `spec_id`, in order.
pub open spec fn records_of(store: Seq<Requirement>, spec_id: Seq<char>) -> Seq<Requirement>
    decreases store.len(),
{
    if store.len() == 0 {
        Seq::empty()
    } else if store.last().spec_id@ == spec_id {
        records_of(store.drop_last(), spec_id).push(store.last())
    } else {
        records_of(store.drop_last(), spec_id)
    }
}

/// Replaces the records of spec `spec_id` in a requirement store by `fresh`:
/// every earlier record of that spec is removed (the replacement is whole,
/// never a merge), the records of other specs stay in order, and the fresh
/// records follow them.
pub fn replace_spec_requirements(store: Vec<Requirement>, spec_id: &str, fresh: Vec<Requirement>) -> (r:
    Vec<Requirement>)
    ensures
        r@ == others(store@, spec_id@) + fresh@,
{
    let ghost old_store = store@;
    let id = string_of(&chars_of(spec_id));
    let mut out: Vec<Requirement> = Vec::new();
    for q in it: store.into_iter()
        invariant
            it.seq() == old_store,
            id@ == spec_id@,
            out@ == others(old_store.subrange(0, it.index() as int), spec_id@),
    {
        let ghost pre = old_store.subrange(0, it.index() as int);
        let ghost next = old_store.subrange(0, it.index() + 1);
        assert(next.drop_last() =~= pre);
        if q.spec_id != id {
            out.push(q);
        }
    }
    assert(old_store.subrange(0, old_store.len() as int) =~= old_store);
    let mut f = fresh;
    out.append(&mut f);
    out
}

proof fn lemma_records_of_append(a: Seq<Requirement>, b: Seq<Requirement>, spec_id: Seq<char>)
    ensures
        records_of(a + b, spec_id) == records_of(a, spec_id) + records_of(b, spec_id),
    decreases b.len(),
{
    if b.len() == 0 {
        assert(a + b =~= a);
        assert(records_of(a, spec_id) + Seq::empty() =~= records_of(a, spec_id));
    } else {
        assert((a + b).drop_last() =~= a + b.drop_last());
        lemma_records_of_append(a, b.drop_last(), spec_id);
        if b.last().spec_id@ == spec_id {
            assert(records_of(a, spec_id) + records_of(b.drop_last(), spec_id).push(b.last())
                =~= (records_of(a, spec_id) + records_of(b.drop_last(), spec_id)).push(b.last()));
        }
    }
}

proof fn lemma_others_have_none(store: Seq<Requirement>, spec_id: Seq<char>)
    ensures
        records_of(others(store, spec_id), spec_id) == Seq::<Requirement>::empty(),
    decreases store.len(),
{
    if store.len() > 0 {
        lemma_others_have_none(store.drop_last(), spec_id);
        let o = others(store.drop_last(), spec_id);
        if store.last().spec_id@ != spec_id {
            assert(o.push(store.last()).drop_last() =~= o);
        }
    }
}

proof fn lemma_records_of_all(fresh: Seq<Requirement>, spec_id: Seq<char>)
    requires
        forall|i: int| 0 <= i < fresh.len() ==> (#[trigger] fresh[i]).spec_id@ == spec_id,
    ensures
        records_of(fresh, spec_id) == fresh,
    decreases fresh.len(),
{
    if fresh.len() > 0 {
        lemma_records_of_all(fresh.drop_last(), spec_id);
        assert(fresh.drop_last().push(fresh.last()) =~= fresh);
    }
}

/// Reparsing is a full replacement: after the records of a spec are replaced
/// by those extracted from its current content, the store holds, for that
/// spec, exactly the records derivable from the current content, in
/// document order (nothing left from an earlier version, nothing twice),
/// and the records of other specs unchanged.
pub proof fn reparse_leaves_exactly_current(
    store: Seq<Requirement>,
    spec_id: Seq<char>,
    content: Seq<char>,
    fresh: Seq<Requirement>,
)
    requires
        yields(spec_id, markdown_events_of(content), fresh),
    ensures
        records_of(others(store, spec_id) + fresh, spec_id) == fresh,
        records_of(fresh, spec_id).len() == extracted(markdown_events_of(content)).len(),
        forall|i: int|
            0 <= i < fresh.len() ==> #[trigger] content_of(records_of(fresh, spec_id)[i])
                == extracted(markdown_events_of(content))[i],
{
    lemma_records_of_append(others(store, spec_id), fresh, spec_id);
    lemma_others_have_none(store, spec_id);
    lemma_records_of_all(fresh, spec_id);
    assert(Seq::<Requirement>::empty() + fresh =~= fresh);
}

} // verus!
