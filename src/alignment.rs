//! The alignment engine: from each requirement's generated tests and their
//! latest results to a coverage verdict, and from the verdicts to a report
//! with its mismatches.

use vstd::prelude::*;
use crate::ids::{new_id, now_rfc3339};
use crate::model::Requirement;
use crate::text::{chars_of, push_str, string_of};

verus! {

/// A point-in-time snapshot of a project's coverage. The percentage is
/// `covered_requirements / total_requirements * 100`, zero when there are no
/// requirements.
pub struct AlignmentReport {
    pub id: String,
    pub project_id: String,
    pub total_requirements: i64,
    pub covered_requirements: i64,
    pub generated_at: String,
}

/// A reason why a requirement is not fully, cleanly covered.
pub struct Mismatch {
    pub id: String,
    pub report_id: String,
    pub requirement_id: String,
    pub spec_section: String,
    pub code_element: Option<String>,
    pub mismatch_type: String,
    pub details: String,
}

/// A report with its mismatches, in requirement order.
pub struct AlignmentReportWithMismatches {
    pub report: AlignmentReport,
    pub mismatches: Vec<Mismatch>,
}

/// The latest result status of each generated test of a requirement; `None`
/// for a test that was never run.
pub open spec fn statuses(latest: Seq<Option<String>>) -> Seq<Option<Seq<char>>> {
    latest.map_values(
        |o: Option<String>|
            match o {
                Some(s) => Some(s@),
                None => None,
            },
    )
}

/// Some test's latest result passed.
pub open spec fn any_passing(st: Seq<Option<Seq<char>>>) -> bool {
    exists|i: int| 0 <= i < st.len() && st[i] == Some("passed"@)
}

/// Some test's latest result failed or was an error.
pub open spec fn any_failing(st: Seq<Option<Seq<char>>>) -> bool {
    exists|i: int| 0 <= i < st.len() && (st[i] == Some("failed"@) || st[i] == Some("error"@))
}

/// Some test has a result at all.
pub open spec fn any_result(st: Seq<Option<Seq<char>>>) -> bool {
    exists|i: int| 0 <= i < st.len() && st[i] is Some
}

/// The mismatch category, in decision order: no tests; tests never run;
/// passing and failing; failing only; else none.
pub open spec fn mismatch_kind(has_tests: bool, has_results: bool, passing: bool, failing: bool) -> Option<
    Seq<char>,
> {
    if !has_tests {
        Some("no_test_generated"@)
    } else if !has_results {
        Some("not_implemented"@)
    } else if passing && failing {
        Some("partial_coverage"@)
    } else if failing && !passing {
        Some("test_failing"@)
    } else {
        None
    }
}

/// A requirement counts as covered when some test passes and its tests have
/// run; a failing test beside a passing one still leaves it covered.
pub open spec fn covers(has_tests: bool, has_results: bool, passing: bool) -> bool {
    has_tests && has_results && passing
}

/// The mismatch for a requirement whose tests have these latest statuses.
pub open spec fn verdict_mismatch(st: Seq<Option<Seq<char>>>) -> Option<Seq<char>> {
    mismatch_kind(st.len() > 0, any_result(st), any_passing(st), any_failing(st))
}

/// Whether a requirement whose tests have these latest statuses is covered.
pub open spec fn verdict_covered(st: Seq<Option<Seq<char>>>) -> bool {
    covers(st.len() > 0, any_result(st), any_passing(st))
}

/// The mismatch category of a requirement from what is known of its tests,
/// or `None` for a requirement that is cleanly covered.
pub fn classify_mismatch(has_tests: bool, has_results: bool, has_passing: bool, has_failing: bool) -> (r:
    Option<&'static str>)
    ensures
        match r {
            Some(k) => mismatch_kind(has_tests, has_results, has_passing, has_failing) == Some(k@),
            None => mismatch_kind(has_tests, has_results, has_passing, has_failing) is None,
        },
{
    if !has_tests {
        Some("no_test_generated")
    } else if !has_results {
        Some("not_implemented")
    } else if has_passing && has_failing {
        Some("partial_coverage")
    } else if has_failing && !has_passing {
        Some("test_failing")
    } else {
        None
    }
}

fn same_text(s: &String, lit: &str) -> (r: bool)
    ensures
        r == (s@ == lit@),
{
    let t = string_of(&chars_of(lit));
    *s == t
}

/// What the latest results of a requirement's tests show: whether any has a
/// result, whether any passed, whether any failed or erred.
pub fn scan_results(latest: &Vec<Option<String>>) -> (r: (bool, bool, bool))
    ensures
        r.0 == any_result(statuses(latest@)),
        r.1 == any_passing(statuses(latest@)),
        r.2 == any_failing(statuses(latest@)),
{
    let ghost st = statuses(latest@);
    let mut has_results = false;
    let mut passing = false;
    let mut failing = false;
    let mut i: usize = 0;
    while i < latest.len()
        invariant
            i <= latest.len(),
            st == statuses(latest@),
            st.len() == latest.len(),
            has_results == (exists|j: int| 0 <= j < i && st[j] is Some),
            passing == (exists|j: int| 0 <= j < i && st[j] == Some("passed"@)),
            failing == (exists|j: int|
                0 <= j < i && (st[j] == Some("failed"@) || st[j] == Some("error"@))),
        decreases latest.len() - i,
    {
        match &latest[i] {
            Some(s) => {
                assert(st[i as int] == Some(s@));
                has_results = true;
                if same_text(s, "passed") {
                    passing = true;
                }
                if same_text(s, "failed") || same_text(s, "error") {
                    failing = true;
                }
            },
            None => {
                assert(st[i as int] is None);
            },
        }
        i = i + 1;
    }
    (has_results, passing, failing)
}

/// The number of the first `n` requirements that are covered.
pub open spec fn covered_count(latest: Seq<Vec<Option<String>>>, n: int) -> int
    decreases n,
{
    if n <= 0 {
        0
    } else {
        covered_count(latest, n - 1) + if verdict_covered(statuses(latest[n - 1]@)) {
            1int
        } else {
            0
        }
    }
}

/// The positions of the requirements, among the first `n`, that get a
/// mismatch, in order.
pub open spec fn mismatch_rows(latest: Seq<Vec<Option<String>>>, n: int) -> Seq<int>
    decreases n,
{
    if n <= 0 {
        Seq::empty()
    } else if verdict_mismatch(statuses(latest[n - 1]@)) is Some {
        mismatch_rows(latest, n - 1).push(n - 1)
    } else {
        mismatch_rows(latest, n - 1)
    }
}

/// The explanation that accompanies a mismatch of the given category.
pub open spec fn mismatch_details(kind: Seq<char>, description: Seq<char>) -> Seq<char> {
    if kind == "no_test_generated"@ {
        "No test has been generated for: "@ + description
    } else if kind == "not_implemented"@ {
        "Tests generated but never executed for: "@ + description
    } else if kind == "partial_coverage"@ {
        "Some tests passing, some failing for: "@ + description
    } else {
        "Test(s) failing for: "@ + description
    }
}

/// `m` is the mismatch row of report `report_id` for requirement `q`.
pub open spec fn mismatch_for(
    m: Mismatch,
    report_id: Seq<char>,
    q: Requirement,
    kind: Seq<char>,
) -> bool {
    &&& m.report_id@ == report_id
    &&& m.requirement_id@ == q.id@
    &&& m.spec_section@ == q.section@
    &&& m.code_element is None
    &&& m.mismatch_type@ == kind
    &&& m.details@ == mismatch_details(kind, q.description@)
}

/// `r` is the alignment report of project `project_id` over `reqs`, whose
/// generated tests have the latest statuses `latest` (one list per
/// requirement).
pub open spec fn reports(
    project_id: Seq<char>,
    reqs: Seq<Requirement>,
    latest: Seq<Vec<Option<String>>>,
    r: AlignmentReportWithMismatches,
) -> bool {
    let rows = mismatch_rows(latest, reqs.len() as int);
    &&& r.report.project_id@ == project_id
    &&& r.report.total_requirements == reqs.len()
    &&& r.report.covered_requirements == covered_count(latest, reqs.len() as int)
    &&& r.mismatches@.len() == rows.len()
    &&& forall|k: int|
        0 <= k < rows.len() ==> mismatch_for(
            #[trigger] r.mismatches@[k],
            r.report.id@,
            reqs[rows[k]],
            verdict_mismatch(statuses(latest[rows[k]]@))->0,
        )
}

proof fn lemma_covered_count_bounds(latest: Seq<Vec<Option<String>>>, n: int)
    requires
        0 <= n,
    ensures
        0 <= covered_count(latest, n) <= n,
    decreases n,
{
    if n > 0 {
        lemma_covered_count_bounds(latest, n - 1);
    }
}

proof fn lemma_rows_bounds(latest: Seq<Vec<Option<String>>>, n: int)
    requires
        0 <= n,
    ensures
        mismatch_rows(latest, n).len() <= n,
        forall|k: int|
            0 <= k < mismatch_rows(latest, n).len() ==> 0 <= #[trigger] mismatch_rows(latest, n)[k]
                < n,
    decreases n,
{
    if n > 0 {
        lemma_rows_bounds(latest, n - 1);
    }
}

fn mismatch_text(kind: &'static str, description: &String) -> (r: String)
    requires
        kind@ == "no_test_generated"@ || kind@ == "not_implemented"@ || kind@
            == "partial_coverage"@ || kind@ == "test_failing"@,
    ensures
        r@ == mismatch_details(kind@, description@),
{
    let mut d: Vec<char> = Vec::new();
    if same_text(&string_of(&chars_of(kind)), "no_test_generated") {
        push_str(&mut d, "No test has been generated for: ");
    } else if same_text(&string_of(&chars_of(kind)), "not_implemented") {
        push_str(&mut d, "Tests generated but never executed for: ");
    } else if same_text(&string_of(&chars_of(kind)), "partial_coverage") {
        push_str(&mut d, "Some tests passing, some failing for: ");
    } else {
        push_str(&mut d, "Test(s) failing for: ");
    }
    push_str(&mut d, description.as_str());
    string_of(&d)
}

/// The alignment report of a project: for each requirement (in the order
/// given), with the latest status of each of its generated tests, its
/// coverage verdict and at most one mismatch.
pub fn build_report(
    project_id: &str,
    requirements: &Vec<Requirement>,
    latest: &Vec<Vec<Option<String>>>,
) -> (r: AlignmentReportWithMismatches)
    requires
        latest@.len() == requirements@.len(),
        requirements@.len() <= i64::MAX,
    ensures
        reports(project_id@, requirements@, latest@, r),
{
    let report_id = new_id();
    let mut covered: i64 = 0;
    let mut mismatches: Vec<Mismatch> = Vec::new();
    let mut i: usize = 0;
    while i < requirements.len()
        invariant
            i <= requirements.len(),
            latest@.len() == requirements@.len(),
            requirements@.len() <= i64::MAX,
            covered == covered_count(latest@, i as int),
            mismatches@.len() == mismatch_rows(latest@, i as int).len(),
            forall|k: int|
                0 <= k < mismatch_rows(latest@, i as int).len() ==> mismatch_for(
                    #[trigger] mismatches@[k],
                    report_id@,
                    requirements@[mismatch_rows(latest@, i as int)[k]],
                    verdict_mismatch(statuses(latest@[mismatch_rows(latest@, i as int)[k]]@))->0,
                ),
        decreases requirements.len() - i,
    {
        proof {
            lemma_covered_count_bounds(latest@, i as int);
        }
        let q = &requirements[i];
        let tests = &latest[i];
        let (has_results, passing, failing) = scan_results(tests);
        let kind = classify_mismatch(tests.len() > 0, has_results, passing, failing);
        if tests.len() > 0 && has_results && passing {
            covered = covered + 1;
        }
        let ghost before = mismatches@;
        match kind {
            Some(k) => {
                let m = Mismatch {
                    id: new_id(),
                    report_id: report_id.clone(),
                    requirement_id: q.id.clone(),
                    spec_section: q.section.clone(),
                    code_element: None,
                    mismatch_type: string_of(&chars_of(k)),
                    details: mismatch_text(k, &q.description),
                };
                mismatches.push(m);
                assert(mismatch_rows(latest@, i + 1) == mismatch_rows(latest@, i as int).push(
                    i as int,
                ));
            },
            None => {},
        }
        i = i + 1;
    }
    let report = AlignmentReport {
        id: report_id,
        project_id: string_of(&chars_of(project_id)),
        total_requirements: requirements.len() as i64,
        covered_requirements: covered,
        generated_at: now_rfc3339(),
    };
    AlignmentReportWithMismatches { report, mismatches }
}

/// Coverage in hundredths of a percent, rounded down:
/// `covered * 10000 / total`, zero when there are no requirements.
pub open spec fn coverage_hundredths_of(total: int, covered: int) -> int {
    if total <= 0 {
        0
    } else {
        covered * 10000 / total
    }
}

/// The coverage of `covered` out of `total` requirements, in hundredths of a
/// percent, rounded down; zero when there are no requirements.
pub fn coverage_hundredths(total: i64, covered: i64) -> (r: i64)
    requires
        0 <= covered <= total,
    ensures
        r == coverage_hundredths_of(total as int, covered as int),
        0 <= r <= 10000,
{
    if total == 0 {
        0
    } else {
        let c = covered as i128;
        let t = total as i128;
        let ghost ci = c as int;
        let ghost ti = t as int;
        assert(0 <= ci * 10000 / ti <= 10000) by (nonlinear_arith)
            requires
                0 <= ci <= ti,
                ti > 0,
        ;
        assert(c * 10000 <= 10000 * t) by (nonlinear_arith)
            requires
                c <= t,
        ;
        (c * 10000 / t) as i64
    }
}

/// Coverage stays in bounds: a report never counts more covered requirements
/// than it has, and its percentage lies between 0 and 100.
pub proof fn coverage_in_bounds(
    project_id: Seq<char>,
    reqs: Seq<Requirement>,
    latest: Seq<Vec<Option<String>>>,
    r: AlignmentReportWithMismatches,
)
    requires
        reports(project_id, reqs, latest, r),
    ensures
        0 <= r.report.covered_requirements <= r.report.total_requirements,
        0 <= coverage_hundredths_of(
            r.report.total_requirements as int,
            r.report.covered_requirements as int,
        ) <= 10000,
{
    lemma_covered_count_bounds(latest, reqs.len() as int);
    let t = r.report.total_requirements as int;
    let c = r.report.covered_requirements as int;
    if t > 0 {
        assert(0 <= c * 10000 / t <= 10000) by (nonlinear_arith)
            requires
                0 <= c <= t,
                t > 0,
        ;
    }
}

proof fn lemma_rows_increasing(latest: Seq<Vec<Option<String>>>, n: int)
    requires
        0 <= n,
    ensures
        forall|j: int, k: int|
            0 <= j < k < mismatch_rows(latest, n).len() ==> mismatch_rows(latest, n)[j]
                < mismatch_rows(latest, n)[k],
        forall|i: int|
            0 <= i < n && verdict_mismatch(statuses(latest[i]@)) is Some ==> exists|k: int|
                0 <= k < mismatch_rows(latest, n).len() && mismatch_rows(latest, n)[k] == i,
    decreases n,
{
    lemma_rows_bounds(latest, n);
    if n > 0 {
        lemma_rows_increasing(latest, n - 1);
        lemma_rows_bounds(latest, n - 1);
        let prev = mismatch_rows(latest, n - 1);
        let cur = mismatch_rows(latest, n);
        assert forall|i: int|
            0 <= i < n && verdict_mismatch(statuses(latest[i]@)) is Some implies exists|k: int|
                0 <= k < cur.len() && cur[k] == i by {
            if i < n - 1 {
                let k = choose|k: int| 0 <= k < prev.len() && prev[k] == i;
                assert(cur[k] == i);
            } else {
                assert(cur[prev.len() as int] == i);
            }
        }
    }
}

/// Each requirement is accounted for by at most one mismatch row, in
/// requirement order, and by exactly one when its verdict names a mismatch;
/// a requirement with no generated test gets a `no_test_generated` row and is
/// never counted as covered, and one with partial coverage still counts as
/// covered.
pub proof fn one_mismatch_per_requirement(
    project_id: Seq<char>,
    reqs: Seq<Requirement>,
    latest: Seq<Vec<Option<String>>>,
    r: AlignmentReportWithMismatches,
)
    requires
        reports(project_id, reqs, latest, r),
        latest.len() == reqs.len(),
    ensures
        ({
            let rows = mismatch_rows(latest, reqs.len() as int);
            &&& forall|j: int, k: int| 0 <= j < k < rows.len() ==> rows[j] < rows[k]
            &&& forall|k: int| 0 <= k < rows.len() ==> 0 <= #[trigger] rows[k] < reqs.len()
            &&& forall|i: int|
                0 <= i < reqs.len() && verdict_mismatch(statuses(latest[i]@)) is Some
                    ==> exists|k: int| 0 <= k < rows.len() && rows[k] == i
        }),
        forall|i: int|
            0 <= i < reqs.len() && latest[i].len() == 0 ==> verdict_mismatch(statuses(latest[i]@))
                == Some("no_test_generated"@) && !verdict_covered(statuses(latest[i]@)),
        forall|i: int|
            0 <= i < reqs.len() && verdict_mismatch(statuses(latest[i]@)) == Some(
                "partial_coverage"@,
            ) ==> verdict_covered(statuses(latest[i]@)),
{
    lemma_rows_increasing(latest, reqs.len() as int);
    lemma_rows_bounds(latest, reqs.len() as int);
    assert forall|i: int|
        0 <= i < reqs.len() && verdict_mismatch(statuses(latest[i]@)) == Some(
            "partial_coverage"@,
        ) implies verdict_covered(statuses(latest[i]@)) by {
        reveal_strlit("partial_coverage");
        reveal_strlit("no_test_generated");
        reveal_strlit("not_implemented");
        reveal_strlit("test_failing");
        let st = statuses(latest[i]@);
        if !(st.len() > 0) {
            assert("no_test_generated"@.len() != "partial_coverage"@.len());
        } else if !any_result(st) {
            assert("not_implemented"@.len() != "partial_coverage"@.len());
        } else if !(any_passing(st) && any_failing(st)) {
            if any_failing(st) && !any_passing(st) {
                assert("test_failing"@ != "partial_coverage"@);
            }
        }
    }
}

} // verus!
