//! The heading hierarchy (levels one to four) seen so far in a document walk.

use vstd::prelude::*;
use crate::text::{chars_of, push_str, push_chars, string_of};

verus! {

/// The heading texts of levels one to four, as plain sequences.
pub struct Headings {
    pub h1: Option<Seq<char>>,
    pub h2: Option<Seq<char>>,
    pub h3: Option<Seq<char>>,
    pub h4: Option<Seq<char>>,
}

/// No heading seen yet.
pub open spec fn no_headings() -> Headings {
    Headings { h1: None, h2: None, h3: None, h4: None }
}

/// The heading state after a heading of the given level: a heading of levels
/// one to four replaces that level and clears every deeper one; deeper
/// headings are not tracked.
pub open spec fn headings_after(h: Headings, level: u8, text: Seq<char>) -> Headings {
    if level == 1 {
        Headings { h1: Some(text), h2: None, h3: None, h4: None }
    } else if level == 2 {
        Headings { h2: Some(text), h3: None, h4: None, ..h }
    } else if level == 3 {
        Headings { h3: Some(text), h4: None, ..h }
    } else if level == 4 {
        Headings { h4: Some(text), ..h }
    } else {
        h
    }
}

/// The text of a level, if it is set, as a sequence of zero or one texts.
pub open spec fn one(o: Option<Seq<char>>) -> Seq<Seq<char>> {
    match o {
        Some(t) => seq![t],
        None => Seq::empty(),
    }
}

/// The texts of the levels that are set, shallow to deep.
pub open spec fn levels(h: Headings) -> Seq<Seq<char>> {
    one(h.h1) + one(h.h2) + one(h.h3) + one(h.h4)
}

/// Where every set level holds text, so does the deepest one.
pub proof fn lemma_levels_have_text(h: Headings)
    requires
        h.h1 matches Some(t) ==> t.len() > 0,
        h.h2 matches Some(t) ==> t.len() > 0,
        h.h3 matches Some(t) ==> t.len() > 0,
        h.h4 matches Some(t) ==> t.len() > 0,
        levels(h).len() > 0,
    ensures
        levels(h).last().len() > 0,
{
    let a = one(h.h1);
    let b = one(h.h2);
    let c = one(h.h3);
    let d = one(h.h4);
    assert(levels(h) == a + b + c + d);
    assert forall|k: int| 0 <= k < levels(h).len() implies (#[trigger] levels(h)[k]).len() > 0 by {
        if k < a.len() {
        } else if k < a.len() + b.len() {
            assert(levels(h)[k] == b[k - a.len()]);
        } else if k < a.len() + b.len() + c.len() {
            assert(levels(h)[k] == c[k - a.len() - b.len()]);
        } else {
            assert(levels(h)[k] == d[k - a.len() - b.len() - c.len()]);
        }
    }
}

/// `parts` joined with `sep` between each two.
pub open spec fn join(parts: Seq<Seq<char>>, sep: Seq<char>) -> Seq<char>
    decreases parts.len(),
{
    if parts.len() == 0 {
        Seq::empty()
    } else if parts.len() == 1 {
        parts[0]
    } else {
        join(parts.drop_last(), sep) + sep + parts.last()
    }
}

/// The breadcrumb: the set levels joined by `" > "`, or `"General"`.
pub open spec fn full_path(h: Headings) -> Seq<char> {
    if levels(h).len() == 0 {
        "General"@
    } else {
        join(levels(h), " > "@)
    }
}

/// The deepest set level's text, or `"General"`.
pub open spec fn current_section(h: Headings) -> Seq<char> {
    match (h.h4, h.h3, h.h2, h.h1) {
        (Some(t), _, _, _) => t,
        (None, Some(t), _, _) => t,
        (None, None, Some(t), _) => t,
        (None, None, None, Some(t)) => t,
        _ => "General"@,
    }
}

/// The text of an optional string, if there is one.
pub open spec fn opt_view(o: Option<String>) -> Option<Seq<char>> {
    match o {
        Some(s) => Some(s@),
        None => None,
    }
}

/// Tracks the most recent heading text at each of the levels one to four.
pub struct HeadingStack {
    pub h1: Option<String>,
    pub h2: Option<String>,
    pub h3: Option<String>,
    pub h4: Option<String>,
}

impl View for HeadingStack {
    type V = Headings;

    open spec fn view(&self) -> Headings {
        Headings {
            h1: opt_view(self.h1),
            h2: opt_view(self.h2),
            h3: opt_view(self.h3),
            h4: opt_view(self.h4),
        }
    }
}

fn clone_opt(o: &Option<String>) -> (r: Option<String>)
    ensures
        opt_view(r) == opt_view(*o),
{
    match o {
        Some(s) => Some(s.clone()),
        None => None,
    }
}

impl HeadingStack {
    pub fn new() -> (r: HeadingStack)
        ensures
            r@ == no_headings(),
    {
        HeadingStack { h1: None, h2: None, h3: None, h4: None }
    }

    /// Records a heading: setting a level clears all deeper levels; levels
    /// below four are ignored.
    pub fn update(&mut self, level: u8, text: String)
        ensures
            final(self)@ == headings_after(old(self)@, level, text@),
    {
        if level == 1 {
            self.h1 = Some(text);
            self.h2 = None;
            self.h3 = None;
            self.h4 = None;
        } else if level == 2 {
            self.h2 = Some(text);
            self.h3 = None;
            self.h4 = None;
        } else if level == 3 {
            self.h3 = Some(text);
            self.h4 = None;
        } else if level == 4 {
            self.h4 = Some(text);
        }
    }

    /// The set levels, shallow to deep, joined with `" > "`; `"General"` when
    /// none is set.
    pub fn get_full_path(&self) -> (r: String)
        ensures
            r@ == full_path(self@),
    {
        let ghost h = self@;
        let mut out: Vec<char> = Vec::new();
        let mut count: usize = 0;
        let ghost mut done: Seq<Seq<char>> = Seq::empty();
        let mut i: usize = 0;
        while i < 4
            invariant
                i <= 4,
                h == self@,
                done == (if i == 0 {
                    Seq::empty()
                } else if i == 1 {
                    one(h.h1)
                } else if i == 2 {
                    one(h.h1) + one(h.h2)
                } else if i == 3 {
                    one(h.h1) + one(h.h2) + one(h.h3)
                } else {
                    one(h.h1) + one(h.h2) + one(h.h3) + one(h.h4)
                }),
                out@ == join(done, " > "@),
                count == done.len(),
                count <= i,
            decreases 4 - i,
        {
            let level = if i == 0 {
                &self.h1
            } else if i == 1 {
                &self.h2
            } else if i == 2 {
                &self.h3
            } else {
                &self.h4
            };
            if let Some(t) = level {
                let tc = chars_of(t.as_str());
                if count > 0 {
                    push_str(&mut out, " > ");
                }
                count = count + 1;
                push_chars(&mut out, &tc);
                proof {
                    let nd = done.push(t@);
                    assert(nd.drop_last() =~= done);
                    if done.len() == 0 {
                        assert(out@ =~= join(nd, " > "@));
                    }
                    done = nd;
                }
            }
            proof {
                assert(one(None) =~= Seq::<Seq<char>>::empty());
            }
            i = i + 1;
            assert(done =~= (if i == 1 {
                one(h.h1)
            } else if i == 2 {
                one(h.h1) + one(h.h2)
            } else if i == 3 {
                one(h.h1) + one(h.h2) + one(h.h3)
            } else {
                one(h.h1) + one(h.h2) + one(h.h3) + one(h.h4)
            }));
        }
        if count == 0 {
            string_of(&chars_of("General"))
        } else {
            string_of(&out)
        }
    }

    /// The deepest set level's text, else `"General"`.
    pub fn get_current_section(&self) -> (r: String)
        ensures
            r@ == current_section(self@),
    {
        let t = clone_opt(&self.h4);
        let t = match t {
            Some(t) => Some(t),
            None => clone_opt(&self.h3),
        };
        let t = match t {
            Some(t) => Some(t),
            None => clone_opt(&self.h2),
        };
        let t = match t {
            Some(t) => Some(t),
            None => clone_opt(&self.h1),
        };
        match t {
            Some(t) => t,
            None => string_of(&chars_of("General")),
        }
    }
}

} // verus!
