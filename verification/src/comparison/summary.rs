//! The parts of the comparison report that are counts and lists: the
//! header, the structure section and the skipped variables.
use vstd::prelude::*;

use crate::comparison::structure::{
    count_where, is_failed, is_passed, is_warning, issues_view, IssueView, StructureIssue,
    StructureReport, StructureStatus,
};
use crate::debug_text::{decimal, u64_text};
use crate::text::{push_text, string_from_chars, texts};

verus! {

/// A variable whose data could not be compared, and why.
#[derive(Clone, Debug)]
pub struct SkippedVariable {
    pub path: String,
    pub reason: String,
}

fn push_line(lines: &mut Vec<String>, line: String)
    ensures
        texts(final(lines)@) == texts(old(lines)@).push(line@),
{
    lines.push(line);
    assert(texts(lines@) =~= texts(old(lines)@).push(line@));
}

/// The opening lines of a report: what is compared to what, the verdict,
/// and (for non-isomorphic products) that nothing more was compared, or
/// (when fatal structure differences stopped it) that data was skipped.
pub open spec fn header_lines(right: Seq<char>, left: Seq<char>, success: bool, isomorphic: bool, skip_data: bool) -> Seq<
    Seq<char>,
> {
    seq![
        "Compare “"@ + right + "” to reference “"@ + left + "”"@,
        "Overall: "@ + if success {
            "PASSED"@
        } else {
            "FAILED"@
        },
    ] + if !isomorphic {
        seq!["Products are not isomorphic."@]
    } else if skip_data {
        seq!["Fatal structure differences — variable data comparison was skipped."@]
    } else {
        Seq::empty()
    }
}

/// The opening lines of a report (see `header_lines`); for products that
/// are not isomorphic these are the whole report.
pub fn summary_header_lines(right: &str, left: &str, success: bool, isomorphic: bool, skip_data: bool) -> (r: Vec<
    String,
>)
    ensures
        texts(r@) == header_lines(right@, left@, success, isomorphic, skip_data),
{
    let mut lines: Vec<String> = Vec::new();
    let mut buf: Vec<char> = Vec::new();
    push_text(&mut buf, "Compare “");
    push_text(&mut buf, right);
    push_text(&mut buf, "” to reference “");
    push_text(&mut buf, left);
    push_text(&mut buf, "”");
    push_line(&mut lines, string_from_chars(&buf));
    let mut verdict: Vec<char> = Vec::new();
    push_text(&mut verdict, "Overall: ");
    push_text(&mut verdict, if success { "PASSED" } else { "FAILED" });
    push_line(&mut lines, string_from_chars(&verdict));
    if !isomorphic {
        push_line(&mut lines, String::from_str("Products are not isomorphic."));
    } else if skip_data {
        push_line(
            &mut lines,
            String::from_str("Fatal structure differences — variable data comparison was skipped."),
        );
    }
    assert(texts(lines@) =~= header_lines(right@, left@, success, isomorphic, skip_data));
    lines
}

/// `  <mark> [path][field] detail`.
pub open spec fn issue_line(mark: Seq<char>, i: IssueView) -> Seq<char> {
    "  "@ + mark + " ["@ + i.path + "]["@ + i.field + "] "@ + i.detail
}

/// The lines of the issues whose status is picked, in order.
pub open spec fn picked_lines(s: Seq<IssueView>, pick: spec_fn(StructureStatus) -> bool, mark: Seq<char>) -> Seq<
    Seq<char>,
>
    decreases s.len(),
{
    if s.len() == 0 {
        Seq::empty()
    } else {
        picked_lines(s.drop_last(), pick, mark) + if pick(s.last().status) {
            seq![issue_line(mark, s.last())]
        } else {
            Seq::empty()
        }
    }
}

/// At most `n` of the first lines.
pub open spec fn at_most(s: Seq<Seq<char>>, n: int) -> Seq<Seq<char>> {
    if s.len() <= n {
        s
    } else {
        s.subrange(0, n)
    }
}

/// The structure section: the counts, the first eight warnings, the first
/// twelve failures, and how many failures were not listed.
pub open spec fn structure_lines(s: Seq<IssueView>) -> Seq<Seq<char>> {
    let failed = count_where(s, |x: StructureStatus| is_failed(x));
    seq![
        "Structure: "@ + decimal(count_where(s, |x: StructureStatus| is_passed(x))) + " passed, "@
            + decimal(count_where(s, |x: StructureStatus| is_warning(x))) + " warnings, "@ + decimal(failed)
            + " failed"@,
    ] + at_most(picked_lines(s, |x: StructureStatus| is_warning(x), "⚠"@), 8) + at_most(
        picked_lines(s, |x: StructureStatus| is_failed(x), "✗"@),
        12,
    ) + if failed > 12 {
        seq!["  … and "@ + decimal((failed - 12) as nat) + " more structure issues"@]
    } else {
        Seq::empty()
    }
}

fn issue_text(mark: &str, issue: &StructureIssue) -> (r: String)
    ensures
        r@ == issue_line(mark@, issue@),
{
    let mut buf: Vec<char> = Vec::new();
    push_text(&mut buf, "  ");
    push_text(&mut buf, mark);
    push_text(&mut buf, " [");
    push_text(&mut buf, issue.path.as_str());
    push_text(&mut buf, "][");
    push_text(&mut buf, issue.field.as_str());
    push_text(&mut buf, "] ");
    push_text(&mut buf, issue.detail.as_str());
    string_from_chars(&buf)
}

/// The lines of the first `cap` warnings (`warnings`) or failures.
fn first_issue_lines(issues: &Vec<StructureIssue>, warnings: bool, cap: usize) -> (r: Vec<String>)
    ensures
        warnings ==> texts(r@) == at_most(
            picked_lines(issues_view(issues@), |x: StructureStatus| is_warning(x), "⚠"@),
            cap as int,
        ),
        !warnings ==> texts(r@) == at_most(
            picked_lines(issues_view(issues@), |x: StructureStatus| is_failed(x), "✗"@),
            cap as int,
        ),
{
    let ghost pick = if warnings {
        |x: StructureStatus| is_warning(x)
    } else {
        |x: StructureStatus| is_failed(x)
    };
    let ghost mark = if warnings {
        "⚠"@
    } else {
        "✗"@
    };
    let ghost all = issues_view(issues@);
    let mut out: Vec<String> = Vec::new();
    let mut i: usize = 0;
    while i < issues.len()
        invariant
            i <= issues.len(),
            all == issues_view(issues@),
            pick == (if warnings {
                |x: StructureStatus| is_warning(x)
            } else {
                |x: StructureStatus| is_failed(x)
            }),
            mark == (if warnings {
                "⚠"@
            } else {
                "✗"@
            }),
            texts(out@) == at_most(picked_lines(all.subrange(0, i as int), pick, mark), cap as int),
        decreases issues.len() - i,
    {
        let ghost pre = all.subrange(0, i as int);
        let ghost next = all.subrange(0, i + 1);
        assert(next.drop_last() =~= pre);
        assert(next.last() == issues@[i as int]@);
        let st = issues[i].status;
        let picked = if warnings {
            st == StructureStatus::Warning
        } else {
            st == StructureStatus::Failed || st == StructureStatus::MissingInNew
        };
        if picked && out.len() < cap {
            let t = issue_text(if warnings { "⚠" } else { "✗" }, &issues[i]);
            push_line(&mut out, t);
        }
        proof {
            let pl = picked_lines(pre, pick, mark);
            let nl = picked_lines(next, pick, mark);
            if picked {
                assert(nl =~= pl.push(issue_line(mark, issues@[i as int]@)));
            } else {
                assert(nl =~= pl);
            }
            assert(texts(out@) =~= at_most(nl, cap as int));
        }
        i = i + 1;
    }
    assert(all.subrange(0, issues@.len() as int) =~= all);
    out
}

/// The structure section of a report (see `structure_lines`).
pub fn structure_summary_lines(report: &StructureReport) -> (r: Vec<String>)
    ensures
        texts(r@) == structure_lines(issues_view(report.issues@)),
{
    let passed = report.passed_count();
    let warnings = report.warning_count();
    let failed = report.failed_count();
    let mut head: Vec<char> = Vec::new();
    push_text(&mut head, "Structure: ");
    push_text(&mut head, u64_text(passed as u64).as_str());
    push_text(&mut head, " passed, ");
    push_text(&mut head, u64_text(warnings as u64).as_str());
    push_text(&mut head, " warnings, ");
    push_text(&mut head, u64_text(failed as u64).as_str());
    push_text(&mut head, " failed");
    let mut lines: Vec<String> = Vec::new();
    push_line(&mut lines, string_from_chars(&head));
    let w = first_issue_lines(&report.issues, true, 8);
    let f = first_issue_lines(&report.issues, false, 12);
    let mut i: usize = 0;
    let ghost start = texts(lines@);
    while i < w.len()
        invariant
            i <= w.len(),
            texts(lines@) =~= start + texts(w@).subrange(0, i as int),
        decreases w.len() - i,
    {
        push_line(&mut lines, w[i].clone());
        i = i + 1;
    }
    let ghost mid = texts(lines@);
    let mut j: usize = 0;
    while j < f.len()
        invariant
            j <= f.len(),
            texts(lines@) =~= mid + texts(f@).subrange(0, j as int),
        decreases f.len() - j,
    {
        push_line(&mut lines, f[j].clone());
        j = j + 1;
    }
    if failed > 12 {
        let mut more: Vec<char> = Vec::new();
        push_text(&mut more, "  … and ");
        push_text(&mut more, u64_text((failed - 12) as u64).as_str());
        push_text(&mut more, " more structure issues");
        push_line(&mut lines, string_from_chars(&more));
    }
    proof {
        assert(texts(w@).subrange(0, w@.len() as int) =~= texts(w@));
        assert(texts(f@).subrange(0, f@.len() as int) =~= texts(f@));
        assert(texts(lines@) =~= structure_lines(issues_view(report.issues@)));
    }
    lines
}

/// The data section's first lines: the counts and the first eight skipped
/// variables (`  ⊘ path — reason`), and how many were not listed.
pub open spec fn skipped_lines(passed: nat, failed: nat, sk: Seq<(Seq<char>, Seq<char>)>) -> Seq<Seq<char>> {
    seq![
        "Variables: "@ + decimal(passed) + " passed, "@ + decimal(failed) + " failed, "@ + decimal(sk.len())
            + " skipped"@,
    ] + Seq::new(
        if sk.len() <= 8 {
            sk.len()
        } else {
            8
        },
        |i: int| "  ⊘ "@ + sk[i].0 + " — "@ + sk[i].1,
    ) + if sk.len() > 8 {
        seq!["  … and "@ + decimal((sk.len() - 8) as nat) + " more skipped variables"@]
    } else {
        Seq::empty()
    }
}

/// Path and reason of each skipped variable.
pub open spec fn skipped_view(s: Seq<SkippedVariable>) -> Seq<(Seq<char>, Seq<char>)> {
    s.map_values(|v: SkippedVariable| (v.path@, v.reason@))
}

/// The counts line of the data section and the skipped variables (see
/// `skipped_lines`), for `passed` and `failed` compared variables.
pub fn skipped_summary_lines(passed: usize, failed: usize, skipped: &Vec<SkippedVariable>) -> (r: Vec<String>)
    ensures
        texts(r@) == skipped_lines(passed as nat, failed as nat, skipped_view(skipped@)),
{
    let ghost sk = skipped_view(skipped@);
    let mut head: Vec<char> = Vec::new();
    push_text(&mut head, "Variables: ");
    push_text(&mut head, u64_text(passed as u64).as_str());
    push_text(&mut head, " passed, ");
    push_text(&mut head, u64_text(failed as u64).as_str());
    push_text(&mut head, " failed, ");
    push_text(&mut head, u64_text(skipped.len() as u64).as_str());
    push_text(&mut head, " skipped");
    let mut lines: Vec<String> = Vec::new();
    push_line(&mut lines, string_from_chars(&head));
    let ghost start = texts(lines@);
    let n: usize = if skipped.len() <= 8 {
        skipped.len()
    } else {
        8
    };
    let mut i: usize = 0;
    while i < n
        invariant
            i <= n,
            n <= skipped.len(),
            sk == skipped_view(skipped@),
            texts(lines@) =~= start + Seq::new(i as nat, |k: int| "  ⊘ "@ + sk[k].0 + " — "@ + sk[k].1),
        decreases n - i,
    {
        let mut buf: Vec<char> = Vec::new();
        push_text(&mut buf, "  ⊘ ");
        push_text(&mut buf, skipped[i].path.as_str());
        push_text(&mut buf, " — ");
        push_text(&mut buf, skipped[i].reason.as_str());
        push_line(&mut lines, string_from_chars(&buf));
        i = i + 1;
    }
    if skipped.len() > 8 {
        let mut more: Vec<char> = Vec::new();
        push_text(&mut more, "  … and ");
        push_text(&mut more, u64_text((skipped.len() - 8) as u64).as_str());
        push_text(&mut more, " more skipped variables");
        push_line(&mut lines, string_from_chars(&more));
    }
    assert(texts(lines@) =~= skipped_lines(passed as nat, failed as nat, sk));
    lines
}

/// The line that counts the failed variables not listed (none when verbose,
/// or when at most twelve failed).
pub open spec fn more_failed_lines(failed: nat, verbose: bool) -> Seq<Seq<char>> {
    if !verbose && failed > 12 {
        seq!["  … and "@ + decimal((failed - 12) as nat) + " more failed variables"@]
    } else {
        Seq::empty()
    }
}

pub fn more_failed_summary_lines(failed: usize, verbose: bool) -> (r: Vec<String>)
    ensures
        texts(r@) == more_failed_lines(failed as nat, verbose),
{
    let mut lines: Vec<String> = Vec::new();
    if !verbose && failed > 12 {
        let mut more: Vec<char> = Vec::new();
        push_text(&mut more, "  … and ");
        push_text(&mut more, u64_text((failed - 12) as u64).as_str());
        push_text(&mut more, " more failed variables");
        push_line(&mut lines, string_from_chars(&more));
    }
    assert(texts(lines@) =~= more_failed_lines(failed as nat, verbose));
    lines
}

/// The passed variables of a report that is not verbose: a note that they
/// are left out when nothing failed, else a `Passed:` heading; then the
/// first six (`  ✓ path`), and how many were not listed.
pub open spec fn passed_lines(failed: nat, ps: Seq<Seq<char>>) -> Seq<Seq<char>> {
    (if ps.len() > 0 && failed == 0 {
        seq!["  (passed variables omitted — use --verbose to list them)"@]
    } else if ps.len() > 0 {
        seq!["  Passed:"@]
    } else {
        Seq::empty()
    }) + Seq::new(
        if ps.len() <= 6 {
            ps.len()
        } else {
            6
        },
        |i: int| "  ✓ "@ + ps[i],
    ) + if ps.len() > 6 {
        seq!["  … and "@ + decimal((ps.len() - 6) as nat) + " more passed variables (use --verbose to list all)"@]
    } else {
        Seq::empty()
    }
}

/// The passed-variable lines of a report that is not verbose (see
/// `passed_lines`), for `failed` failed variables and the passed paths.
pub fn passed_summary_lines(failed: usize, passed: &Vec<String>) -> (r: Vec<String>)
    ensures
        texts(r@) == passed_lines(failed as nat, texts(passed@)),
{
    let ghost ps = texts(passed@);
    let mut lines: Vec<String> = Vec::new();
    if passed.len() > 0 && failed == 0 {
        push_line(&mut lines, String::from_str("  (passed variables omitted — use --verbose to list them)"));
    } else if passed.len() > 0 {
        push_line(&mut lines, String::from_str("  Passed:"));
    }
    let ghost start = texts(lines@);
    let n: usize = if passed.len() <= 6 {
        passed.len()
    } else {
        6
    };
    let mut i: usize = 0;
    while i < n
        invariant
            i <= n,
            n <= passed.len(),
            ps == texts(passed@),
            texts(lines@) =~= start + Seq::new(i as nat, |k: int| "  ✓ "@ + ps[k]),
        decreases n - i,
    {
        let mut buf: Vec<char> = Vec::new();
        push_text(&mut buf, "  ✓ ");
        push_text(&mut buf, passed[i].as_str());
        push_line(&mut lines, string_from_chars(&buf));
        i = i + 1;
    }
    if passed.len() > 6 {
        let mut more: Vec<char> = Vec::new();
        push_text(&mut more, "  … and ");
        push_text(&mut more, u64_text((passed.len() - 6) as u64).as_str());
        push_text(&mut more, " more passed variables (use --verbose to list all)");
        push_line(&mut lines, string_from_chars(&more));
    }
    assert(texts(lines@) =~= passed_lines(failed as nat, ps));
    lines
}

/// How many failed and passed variables a report lists: all of them when
/// verbose, else at most twelve failed and six passed.
pub fn variable_list_limits(failed: usize, passed: usize, verbose: bool) -> (r: (usize, usize))
    ensures
        r.0 == (if verbose || failed <= 12 {
            failed
        } else {
            12
        }),
        r.1 == (if verbose || passed <= 6 {
            passed
        } else {
            6
        }),
{
    let f = if verbose || failed <= 12 {
        failed
    } else {
        12
    };
    let p = if verbose || passed <= 6 {
        passed
    } else {
        6
    };
    (f, p)
}

/// The switches of a comparison run (its thresholds are numbers that the
/// data comparison reads).
#[derive(Clone, Copy, Debug, PartialEq, Eq, Structural)]
pub struct CompareToggles {
    pub relative: bool,
    pub absolute: bool,
    pub structure: bool,
    pub data: bool,
    pub flags: bool,
    pub chunks: bool,
}

impl CompareToggles {
    /// Relative errors; data and flags compared; structure not, chunk
    /// layout included when it is.
    pub fn default_toggles() -> (r: CompareToggles)
        ensures
            r == (CompareToggles {
                relative: true,
                absolute: false,
                structure: false,
                data: true,
                flags: true,
                chunks: true,
            }),
    {
        CompareToggles { relative: true, absolute: false, structure: false, data: true, flags: true, chunks: true }
    }
}

/// What a run does after the hierarchy check.
#[derive(Clone, Copy, Debug, PartialEq, Eq, Structural)]
pub struct RunPlan {
    pub compare_data: bool,
    pub compare_flags: bool,
    pub global_score: bool,
    pub skip_data: bool,
}

/// The plan for two products: nothing more for products that are not
/// isomorphic; else data and flags as switched on, unless the structure
/// check found fatal differences; the global score in relative mode.
pub fn run_plan(isomorphic: bool, toggles: CompareToggles, structure_skips_data: bool) -> (r: RunPlan)
    ensures
        !isomorphic ==> r == (RunPlan { compare_data: false, compare_flags: false, global_score: false, skip_data: true }),
        isomorphic ==> r == (RunPlan {
            compare_data: toggles.data && !(toggles.structure && structure_skips_data),
            compare_flags: toggles.flags && !(toggles.structure && structure_skips_data),
            global_score: toggles.relative,
            skip_data: toggles.structure && structure_skips_data,
        }),
{
    if !isomorphic {
        return RunPlan { compare_data: false, compare_flags: false, global_score: false, skip_data: true };
    }
    let skip = toggles.structure && structure_skips_data;
    RunPlan { compare_data: toggles.data && !skip, compare_flags: toggles.flags && !skip, global_score: toggles.relative, skip_data: skip }
}

/// A comparison passes when the products are isomorphic, no check failed
/// and the data was not skipped.
pub fn overall_success(isomorphic: bool, structure_failed: usize, data_failed: usize, flags_failed: usize, skip_data: bool) -> (r: bool)
    ensures
        r == (isomorphic && structure_failed == 0 && data_failed == 0 && flags_failed == 0 && !skip_data),
{
    isomorphic && structure_failed == 0 && data_failed == 0 && flags_failed == 0 && !skip_data
}

} // verus!
