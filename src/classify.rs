//! Classification of sections and requirement texts: whether a section holds
//! requirements, whether a text reads as one, its type and its priority.
//! Each rule reads the lowercase form of a text; the functions named
//! `..._lowered` take that form ready made.

use vstd::prelude::*;
use crate::text::{
    chars_of, contains_str, ends_with_str, has_infix, has_prefix, has_suffix, lower_chars, lower_of,
    split_words, starts_with_str, string_of, words,
};

verus! {

/// A lowercase section title that names a requirements section.
pub open spec fn section_like(l: Seq<char>) -> bool {
    has_infix(l, "requirement"@) || has_infix(l, "user stor"@) || has_infix(l, "feature"@)
        || has_infix(l, "functional"@) || has_infix(l, "specification"@) || has_infix(
        l,
        "capability"@,
    ) || has_infix(l, "constraint"@) || has_infix(l, "acceptance criteria"@) || has_infix(
        l,
        "use case"@,
    )
}

/// A lowercase text that speaks of a non-functional quality.
pub open spec fn names_quality(l: Seq<char>) -> bool {
    has_infix(l, "non-functional"@) || has_infix(l, "performance"@) || has_infix(l, "security"@)
        || has_infix(l, "scalability"@) || has_infix(l, "latency"@) || has_infix(
        l,
        "availability"@,
    )
}

/// A lowercase text that speaks of a constraint.
pub open spec fn names_constraint(l: Seq<char>) -> bool {
    has_infix(l, "constraint"@) || has_infix(l, "limitation"@)
}

/// The type of a requirement from the lowercase section and text.
pub open spec fn type_of(ls: Seq<char>, lt: Seq<char>) -> Seq<char> {
    if names_quality(ls) || names_quality(lt) {
        "non_functional"@
    } else if names_constraint(ls) || names_constraint(lt) {
        "constraint"@
    } else {
        "functional"@
    }
}

/// The priority of a requirement from its lowercase text.
pub open spec fn priority_of(l: Seq<char>) -> Seq<char> {
    if has_infix(l, "critical"@) || has_infix(l, "must have"@) || has_infix(l, "**must**"@) {
        "high"@
    } else if has_infix(l, "nice to have"@) || has_infix(l, "optional"@) || has_infix(
        l,
        "could"@,
    ) {
        "low"@
    } else {
        "medium"@
    }
}

/// A lowercase text that begins like a requirement statement.
pub open spec fn opens_like_requirement(l: Seq<char>) -> bool {
    has_prefix(l, "as a "@) || has_prefix(l, "the system shall "@) || has_prefix(
        l,
        "the system must "@,
    ) || has_prefix(l, "the application shall "@) || has_prefix(l, "the application must "@)
        || has_prefix(l, "shall "@) || has_prefix(l, "must "@) || has_prefix(l, "should "@)
        || has_prefix(l, "could "@) || has_prefix(l, "req-"@) || has_prefix(l, "us-"@)
        || has_prefix(l, "fr-"@) || has_prefix(l, "nfr-"@)
}

/// A text (with its lowercase form `l`) that reads as a requirement wherever
/// it stands: an opening phrase or ID prefix, a bold `shall` / `must`, or a
/// bold-wrapped statement of at least five words.
pub open spec fn reads_as_requirement(t: Seq<char>, l: Seq<char>) -> bool {
    opens_like_requirement(l) || has_infix(l, "**shall**"@) || has_infix(l, "**must**"@) || (
    has_prefix(t, "**"@) && has_suffix(t, "**"@) && words(l).len() >= 5)
}

/// Whether a lowercase section title names a requirements section.
pub fn is_requirement_like_section_lowered(lower: &str) -> (r: bool)
    ensures
        r == section_like(lower@),
{
    let l = chars_of(lower);
    contains_str(&l, "requirement") || contains_str(&l, "user stor") || contains_str(&l, "feature")
        || contains_str(&l, "functional") || contains_str(&l, "specification") || contains_str(
        &l,
        "capability",
    ) || contains_str(&l, "constraint") || contains_str(&l, "acceptance criteria")
        || contains_str(&l, "use case")
}

/// Whether a section title names a requirements section (case-insensitive).
pub fn is_requirement_like_section(section: &str) -> (r: bool)
    ensures
        r == section_like(lower_of(section@)),
{
    let l = string_of(&lower_chars(section));
    is_requirement_like_section_lowered(l.as_str())
}

fn names_quality_exec(l: &Vec<char>) -> (r: bool)
    ensures
        r == names_quality(l@),
{
    contains_str(l, "non-functional") || contains_str(l, "performance") || contains_str(
        l,
        "security",
    ) || contains_str(l, "scalability") || contains_str(l, "latency") || contains_str(
        l,
        "availability",
    )
}

fn names_constraint_exec(l: &Vec<char>) -> (r: bool)
    ensures
        r == names_constraint(l@),
{
    contains_str(l, "constraint") || contains_str(l, "limitation")
}

/// The requirement type from a lowercase section and a lowercase text.
pub fn classify_requirement_type_lowered(lower_section: &str, lower_text: &str) -> (r: String)
    ensures
        r@ == type_of(lower_section@, lower_text@),
{
    let ls = chars_of(lower_section);
    let lt = chars_of(lower_text);
    if names_quality_exec(&ls) || names_quality_exec(&lt) {
        string_of(&chars_of("non_functional"))
    } else if names_constraint_exec(&ls) || names_constraint_exec(&lt) {
        string_of(&chars_of("constraint"))
    } else {
        string_of(&chars_of("functional"))
    }
}

/// The requirement type (`non_functional`, `constraint` or `functional`) of a
/// text under a section, case-insensitively.
pub fn classify_requirement_type(section: &str, text: &str) -> (r: String)
    ensures
        r@ == type_of(lower_of(section@), lower_of(text@)),
{
    let ls = string_of(&lower_chars(section));
    let lt = string_of(&lower_chars(text));
    classify_requirement_type_lowered(ls.as_str(), lt.as_str())
}

/// The priority from a lowercase text.
pub fn classify_priority_lowered(lower: &str) -> (r: String)
    ensures
        r@ == priority_of(lower@),
{
    let l = chars_of(lower);
    if contains_str(&l, "critical") || contains_str(&l, "must have") || contains_str(
        &l,
        "**must**",
    ) {
        string_of(&chars_of("high"))
    } else if contains_str(&l, "nice to have") || contains_str(&l, "optional") || contains_str(
        &l,
        "could",
    ) {
        string_of(&chars_of("low"))
    } else {
        string_of(&chars_of("medium"))
    }
}

/// The priority (`high`, `low` or `medium`) of a requirement text,
/// case-insensitively.
pub fn classify_priority(text: &str) -> (r: String)
    ensures
        r@ == priority_of(lower_of(text@)),
{
    let l = string_of(&lower_chars(text));
    classify_priority_lowered(l.as_str())
}

/// Whether a text, given with its lowercase form, reads as a requirement.
pub fn looks_like_requirement_lowered(text: &str, lower: &str) -> (r: bool)
    ensures
        r == reads_as_requirement(text@, lower@),
{
    let t = chars_of(text);
    let l = chars_of(lower);
    let opens = starts_with_str(&l, "as a ") || starts_with_str(&l, "the system shall ")
        || starts_with_str(&l, "the system must ") || starts_with_str(&l, "the application shall ")
        || starts_with_str(&l, "the application must ") || starts_with_str(&l, "shall ")
        || starts_with_str(&l, "must ") || starts_with_str(&l, "should ") || starts_with_str(
        &l,
        "could ",
    ) || starts_with_str(&l, "req-") || starts_with_str(&l, "us-") || starts_with_str(&l, "fr-")
        || starts_with_str(&l, "nfr-");
    if opens || contains_str(&l, "**shall**") || contains_str(&l, "**must**") {
        return true;
    }
    if starts_with_str(&t, "**") && ends_with_str(&t, "**") {
        let ws = split_words(&l);
        assert(ws@.map_values(|w: Vec<char>| w@).len() == ws@.len());
        ws.len() >= 5
    } else {
        false
    }
}

/// Whether a text reads as a requirement wherever it stands
/// (case-insensitive).
pub fn looks_like_requirement(text: &str) -> (r: bool)
    ensures
        r == reads_as_requirement(text@, lower_of(text@)),
{
    let l = string_of(&lower_chars(text));
    looks_like_requirement_lowered(text, l.as_str())
}

} // verus!
