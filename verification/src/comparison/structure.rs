//! Comparing the hierarchy metadata of two products (no array payload).
use vstd::prelude::*;

use crate::debug_text::{
    opt_json_debug, opt_json_debug_text, strings_debug, strings_debug_text, u64s_debug,
    u64s_debug_text,
};
use crate::json::{
    as_str, jequiv, json_eq, jview, lemma_jequiv_refl, lemma_members_equiv_refl, member_get, members_eq,
    members_equiv, members_view, obj_get, spec_as_str, JsonValue,
};
use crate::plot::flags::{parse_cf_flags, spec_cf_flags};
use crate::order::{lemma_sorted_unique, names_sorted, sort_strings};
use crate::text::{
    ascii_lower, chars_ascii_lower, chars_concat, chars_contain_sub, contains_sub, seq_ends_with,
    str_chars, str_contains, str_ends_with, str_is, string_from_chars,
};
use crate::zarr::location::clone_string;
use crate::zarr::tree::{
    descendants, first_with_path, forest, spec_normalize_path, subtree, ZarrNodeKind, ZarrTree, ZarrTreeNode,
};

verus! {

/// Outcome of one structure check.
#[derive(Clone, Copy, Debug, PartialEq, Eq, Structural)]
pub enum StructureStatus {
    Passed,
    /// Non-fatal difference (e.g. chunk layout) — data is still compared on the reference grid.
    Warning,
    Failed,
    MissingInNew,
}

/// One structure check: which node, which field, how it went, and why.
#[derive(Clone, Debug)]
pub struct StructureIssue {
    pub path: String,
    pub field: String,
    pub status: StructureStatus,
    pub detail: String,
}

/// All structure checks of a comparison, and whether data comparison must be skipped.
#[derive(Clone, Debug)]
pub struct StructureReport {
    pub issues: Vec<StructureIssue>,
    pub skip_data_comparison: bool,
}

pub struct IssueView {
    pub path: Seq<char>,
    pub field: Seq<char>,
    pub status: StructureStatus,
    pub detail: Seq<char>,
}

impl View for StructureIssue {
    type V = IssueView;

    open spec fn view(&self) -> IssueView {
        IssueView {
            path: self.path@,
            field: self.field@,
            status: self.status,
            detail: self.detail@,
        }
    }
}

pub open spec fn issues_view(s: Seq<StructureIssue>) -> Seq<IssueView> {
    s.map_values(|i: StructureIssue| i@)
}

/// Number of issues whose status satisfies `pick`.
pub open spec fn count_where(s: Seq<IssueView>, pick: spec_fn(StructureStatus) -> bool) -> nat
    decreases s.len(),
{
    if s.len() == 0 {
        0
    } else {
        count_where(s.drop_last(), pick) + if pick(s.last().status) {
            1nat
        } else {
            0nat
        }
    }
}

pub open spec fn is_passed(s: StructureStatus) -> bool {
    s == StructureStatus::Passed
}

pub open spec fn is_failed(s: StructureStatus) -> bool {
    s == StructureStatus::Failed || s == StructureStatus::MissingInNew
}

pub open spec fn is_warning(s: StructureStatus) -> bool {
    s == StructureStatus::Warning
}

impl StructureReport {
    /// An empty report.
    pub fn new() -> (r: StructureReport)
        ensures
            r.issues@.len() == 0,
            !r.skip_data_comparison,
    {
        StructureReport { issues: Vec::new(), skip_data_comparison: false }
    }

    fn count(&self, which: u8) -> (r: usize)
        requires
            which < 3,
        ensures
            r == count_where(
                issues_view(self.issues@),
                if which == 0 {
                    |s: StructureStatus| is_passed(s)
                } else if which == 1 {
                    |s: StructureStatus| is_failed(s)
                } else {
                    |s: StructureStatus| is_warning(s)
                },
            ),
    {
        let ghost pick = if which == 0 {
            |s: StructureStatus| is_passed(s)
        } else if which == 1 {
            |s: StructureStatus| is_failed(s)
        } else {
            |s: StructureStatus| is_warning(s)
        };
        let ghost all = issues_view(self.issues@);
        let mut n: usize = 0;
        let mut i: usize = 0;
        while i < self.issues.len()
            invariant
                i <= self.issues.len(),
                all == issues_view(self.issues@),
                n == count_where(all.subrange(0, i as int), pick),
                n <= i,
                which < 3,
                pick == (if which == 0 {
                    |s: StructureStatus| is_passed(s)
                } else if which == 1 {
                    |s: StructureStatus| is_failed(s)
                } else {
                    |s: StructureStatus| is_warning(s)
                }),
            decreases self.issues.len() - i,
        {
            let st = self.issues[i].status;
            let hit = if which == 0 {
                st == StructureStatus::Passed
            } else if which == 1 {
                st == StructureStatus::Failed || st == StructureStatus::MissingInNew
            } else {
                st == StructureStatus::Warning
            };
            proof {
                let pre = all.subrange(0, i + 1);
                assert(pre.drop_last() =~= all.subrange(0, i as int));
                assert(pre.last().status == st);
                assert(hit == pick(st));
            }
            if hit {
                n = n + 1;
            }
            i = i + 1;
        }
        assert(all.subrange(0, all.len() as int) =~= all);
        n
    }

    /// Number of checks that passed.
    pub fn passed_count(&self) -> (r: usize)
        ensures
            r == count_where(issues_view(self.issues@), |s: StructureStatus| is_passed(s)),
    {
        self.count(0)
    }

    /// Number of checks that failed, missing nodes included.
    pub fn failed_count(&self) -> (r: usize)
        ensures
            r == count_where(issues_view(self.issues@), |s: StructureStatus| is_failed(s)),
    {
        self.count(1)
    }

    /// Number of non-fatal differences.
    pub fn warning_count(&self) -> (r: usize)
        ensures
            r == count_where(issues_view(self.issues@), |s: StructureStatus| is_warning(s)),
    {
        self.count(2)
    }
}

/// Every check is counted exactly once by the three counts.
pub proof fn lemma_counts_partition(s: Seq<IssueView>)
    ensures
        count_where(s, |x: StructureStatus| is_passed(x)) + count_where(
            s,
            |x: StructureStatus| is_failed(x),
        ) + count_where(s, |x: StructureStatus| is_warning(x)) == s.len(),
    decreases s.len(),
{
    if s.len() > 0 {
        lemma_counts_partition(s.drop_last());
    }
}

/// A check of one field: `identical` when it holds, else `detail`.
pub open spec fn field_issue(path: Seq<char>, field: Seq<char>, ok: bool, detail: Seq<char>) -> IssueView {
    IssueView {
        path,
        field,
        status: if ok {
            StructureStatus::Passed
        } else {
            StructureStatus::Failed
        },
        detail: if ok {
            "identical"@
        } else {
            detail
        },
    }
}

/// `reference A vs new B`.
pub open spec fn ref_vs_new(a: Seq<char>, b: Seq<char>) -> Seq<char> {
    "reference "@ + a + " vs new "@ + b
}

/// The names in `str::cmp` order.
pub open spec fn sorted_names(s: Seq<Seq<char>>) -> Seq<Seq<char>> {
    choose|t: Seq<Seq<char>>| names_sorted(t) && t.to_multiset() == s.to_multiset()
}

pub open spec fn child_names(n: ZarrTreeNode) -> Seq<Seq<char>> {
    n.children@.map_values(|c: ZarrTreeNode| c.name@)
}

/// The check of the child names of two groups.
pub open spec fn children_issue(l: ZarrTreeNode, r: ZarrTreeNode) -> IssueView {
    let ln = sorted_names(child_names(l));
    let rn = sorted_names(child_names(r));
    field_issue(l.path@, "children"@, ln == rn, ref_vs_new(strings_debug(ln), strings_debug(rn)))
}

pub open spec fn opt_json_equal(a: Option<JsonValue>, b: Option<JsonValue>) -> bool {
    match (a, b) {
        (None, None) => true,
        (Some(x), Some(y)) => jequiv(x, y),
        _ => false,
    }
}

pub open spec fn names_view(v: Seq<String>) -> Seq<Seq<char>> {
    v.map_values(|s: String| s@)
}

/// The checks of two nodes found at the same path, in the order they are made.
pub open spec fn pair_issues(l: ZarrTreeNode, r: ZarrTreeNode, check_chunks: bool) -> Seq<IssueView> {
    let p = l.path@;
    match (l.kind, r.kind) {
        (ZarrNodeKind::Group { attributes: a }, ZarrNodeKind::Group { attributes: b }) => seq![
            field_issue(p, "attrs"@, members_equiv(a@, b@), "group attributes differ"@),
            children_issue(l, r),
        ],
        (
            ZarrNodeKind::Array {
                shape: ls,
                chunks: lc,
                dtype: lt,
                dimension_names: ld,
                attributes: la,
                fill_value: lf,
            },
            ZarrNodeKind::Array {
                shape: rs,
                chunks: rc,
                dtype: rt,
                dimension_names: rd,
                attributes: ra,
                fill_value: rf,
            },
        ) => {
            let shape_ok = ls@ == rs@;
            let head = seq![
                field_issue(p, "shape"@, shape_ok, ref_vs_new(u64s_debug(ls@), u64s_debug(rs@))),
                field_issue(p, "dtype"@, lt@ == rt@, ref_vs_new(lt@, rt@)),
                field_issue(
                    p,
                    "dimension_names"@,
                    names_view(ld@) == names_view(rd@),
                    ref_vs_new(strings_debug(names_view(ld@)), strings_debug(names_view(rd@))),
                ),
            ];
            let chunk_part = if !check_chunks {
                Seq::empty()
            } else if lc@ == rc@ {
                seq![field_issue(p, "chunks"@, true, "identical"@)]
            } else if shape_ok {
                seq![
                    IssueView {
                        path: p,
                        field: "chunks"@,
                        status: StructureStatus::Warning,
                        detail: ref_vs_new(u64s_debug(lc@), u64s_debug(rc@))
                            + " — data compared on reference chunk grid"@,
                    },
                ]
            } else {
                seq![field_issue(p, "chunks"@, false, ref_vs_new(u64s_debug(lc@), u64s_debug(rc@)))]
            };
            head + chunk_part + seq![
                field_issue(p, "attrs"@, members_equiv(la@, ra@), "array attributes differ"@),
                field_issue(
                    p,
                    "fill_value"@,
                    opt_json_equal(lf, rf),
                    ref_vs_new(opt_json_debug(lf), opt_json_debug(rf)),
                ),
            ]
        },
        _ => seq![
            IssueView {
                path: p,
                field: "kind"@,
                status: StructureStatus::Failed,
                detail: "node kind mismatch (group vs array)"@,
            },
        ],
    }
}

/// Whether the checks of two nodes rule out comparing data: differing
/// shapes, or a group against an array.
pub open spec fn pair_skips(l: ZarrTreeNode, r: ZarrTreeNode) -> bool {
    match (l.kind, r.kind) {
        (ZarrNodeKind::Group { .. }, ZarrNodeKind::Group { .. }) => false,
        (ZarrNodeKind::Array { shape: ls, .. }, ZarrNodeKind::Array { shape: rs, .. }) => ls@ != rs@,
        _ => true,
    }
}

fn push_issue(
    report: &mut StructureReport,
    path: &String,
    field: &str,
    status: StructureStatus,
    detail: String,
)
    ensures
        final(report).skip_data_comparison == old(report).skip_data_comparison,
        issues_view(final(report).issues@) == issues_view(old(report).issues@).push(
            IssueView { path: path@, field: field@, status, detail: detail@ },
        ),
{
    let ghost before = report.issues@;
    report.issues.push(
        StructureIssue { path: clone_string(path), field: String::from_str(field), status, detail },
    );
    assert(issues_view(report.issues@) =~= issues_view(before).push(
        IssueView { path: path@, field: field@, status, detail: detail@ },
    ));
}

/// Record the check of one field: `Passed` with `identical`, or `Failed` with `detail`.
pub fn compare_field(path: &String, field: &str, ok: bool, report: &mut StructureReport, detail: String)
    ensures
        final(report).skip_data_comparison == old(report).skip_data_comparison,
        issues_view(final(report).issues@) == issues_view(old(report).issues@).push(
            field_issue(path@, field@, ok, detail@),
        ),
{
    if ok {
        proof {
            reveal_strlit("identical");
        }
        push_issue(report, path, field, StructureStatus::Passed, String::from_str("identical"));
    } else {
        push_issue(report, path, field, StructureStatus::Failed, detail);
    }
}

fn ref_vs_new_text(a: &str, b: &str) -> (r: String)
    ensures
        r@ == ref_vs_new(a@, b@),
{
    let x = str_chars("reference ");
    let y = str_chars(a);
    let z = str_chars(" vs new ");
    let w = str_chars(b);
    let xy = chars_concat(&x, &y);
    let xyz = chars_concat(&xy, &z);
    let all = chars_concat(&xyz, &w);
    string_from_chars(&all)
}

fn names_of_children(n: &ZarrTreeNode) -> (r: Vec<String>)
    ensures
        names_view(r@) == child_names(*n),
{
    let mut out: Vec<String> = Vec::new();
    let mut i: usize = 0;
    while i < n.children.len()
        invariant
            i <= n.children.len(),
            names_view(out@) == child_names(*n).subrange(0, i as int),
        decreases n.children.len() - i,
    {
        let ghost before = out@;
        out.push(clone_string(&n.children[i].name));
        assert(names_view(out@) =~= names_view(before).push(n.children@[i as int].name@));
        assert(child_names(*n).subrange(0, i + 1) =~= child_names(*n).subrange(0, i as int).push(
            n.children@[i as int].name@,
        ));
        i = i + 1;
    }
    assert(child_names(*n).subrange(0, n.children@.len() as int) =~= child_names(*n));
    out
}

fn sorted_child_names(n: &ZarrTreeNode) -> (r: Vec<String>)
    ensures
        names_view(r@) == sorted_names(child_names(*n)),
{
    let names = names_of_children(n);
    let sorted = sort_strings(names);
    proof {
        let got = names_view(sorted@);
        assert(sorted@.map_values(|x: String| x@) == got);
        let want = sorted_names(child_names(*n));
        assert(names_sorted(want) && want.to_multiset() == child_names(*n).to_multiset());
        lemma_sorted_unique(got, want);
    }
    sorted
}

fn strings_equal(a: &Vec<String>, b: &Vec<String>) -> (r: bool)
    ensures
        r == (names_view(a@) == names_view(b@)),
{
    if a.len() != b.len() {
        assert(names_view(a@).len() != names_view(b@).len());
        return false;
    }
    let mut i: usize = 0;
    while i < a.len()
        invariant
            i <= a.len(),
            a.len() == b.len(),
            forall|j: int| 0 <= j < i ==> a@[j]@ == b@[j]@,
        decreases a.len() - i,
    {
        if a[i] != b[i] {
            assert(names_view(a@)[i as int] != names_view(b@)[i as int]);
            return false;
        }
        i = i + 1;
    }
    assert(names_view(a@) =~= names_view(b@));
    true
}

fn u64s_equal(a: &Vec<u64>, b: &Vec<u64>) -> (r: bool)
    ensures
        r == (a@ == b@),
{
    if a.len() != b.len() {
        return false;
    }
    let mut i: usize = 0;
    while i < a.len()
        invariant
            i <= a.len(),
            a.len() == b.len(),
            forall|j: int| 0 <= j < i ==> a@[j] == b@[j],
        decreases a.len() - i,
    {
        if a[i] != b[i] {
            return false;
        }
        i = i + 1;
    }
    assert(a@ =~= b@);
    true
}

fn opt_json_eq(a: &Option<JsonValue>, b: &Option<JsonValue>) -> (r: bool)
    ensures
        r == opt_json_equal(*a, *b),
{
    match (a, b) {
        (None, None) => true,
        (Some(x), Some(y)) => json_eq(x, y),
        _ => false,
    }
}

/// Record the check of the child names of two groups (compared as sorted lists).
fn compare_child_names(left: &ZarrTreeNode, right: &ZarrTreeNode, report: &mut StructureReport)
    ensures
        final(report).skip_data_comparison == old(report).skip_data_comparison,
        issues_view(final(report).issues@) == issues_view(old(report).issues@).push(
            children_issue(*left, *right),
        ),
{
    let ln = sorted_child_names(left);
    let rn = sorted_child_names(right);
    let ok = strings_equal(&ln, &rn);
    let a = strings_debug_text(&ln);
    let b = strings_debug_text(&rn);
    let detail = ref_vs_new_text(a.as_str(), b.as_str());
    compare_field(&left.path, "children", ok, report, detail);
}

/// Record the checks of two nodes found at the same path (see `pair_issues`),
/// and mark data comparison as skipped where `pair_skips` says so.
pub fn compare_node_pair(
    left: &ZarrTreeNode,
    right: &ZarrTreeNode,
    check_chunks: bool,
    report: &mut StructureReport,
)
    ensures
        issues_view(final(report).issues@) == issues_view(old(report).issues@) + pair_issues(
            *left,
            *right,
            check_chunks,
        ),
        final(report).skip_data_comparison == (old(report).skip_data_comparison || pair_skips(
            *left,
            *right,
        )),
{
    let ghost start = issues_view(report.issues@);
    proof {
        reveal_strlit("attrs");
        reveal_strlit("children");
    }
    match (&left.kind, &right.kind) {
        (ZarrNodeKind::Group { attributes: a }, ZarrNodeKind::Group { attributes: b }) => {
            let same = members_eq(a, b);
            compare_field(&left.path, "attrs", same, report, String::from_str("group attributes differ"));
            compare_child_names(left, right, report);
            assert(issues_view(report.issues@) =~= start + pair_issues(*left, *right, check_chunks));
        },
        (
            ZarrNodeKind::Array {
                shape: ls,
                chunks: lc,
                dtype: lt,
                dimension_names: ld,
                attributes: la,
                fill_value: lf,
            },
            ZarrNodeKind::Array {
                shape: rs,
                chunks: rc,
                dtype: rt,
                dimension_names: rd,
                attributes: ra,
                fill_value: rf,
            },
        ) => {
            let shape_ok = u64s_equal(ls, rs);
            let lsd = u64s_debug_text(ls.as_slice());
            let rsd = u64s_debug_text(rs.as_slice());
            compare_field(&left.path, "shape", shape_ok, report, ref_vs_new_text(lsd.as_str(), rsd.as_str()));
            if !shape_ok {
                report.skip_data_comparison = true;
            }
            let ghost after_shape = issues_view(report.issues@);
            compare_field(&left.path, "dtype", *lt == *rt, report, ref_vs_new_text(lt.as_str(), rt.as_str()));
            let ldd = strings_debug_text(ld);
            let rdd = strings_debug_text(rd);
            compare_field(
                &left.path,
                "dimension_names",
                strings_equal(ld, rd),
                report,
                ref_vs_new_text(ldd.as_str(), rdd.as_str()),
            );
            let ghost after_head = issues_view(report.issues@);
            if check_chunks {
                if u64s_equal(lc, rc) {
                    compare_field(&left.path, "chunks", true, report, String::from_str("identical"));
                } else {
                    let lcd = u64s_debug_text(lc.as_slice());
                    let rcd = u64s_debug_text(rc.as_slice());
                    let base = ref_vs_new_text(lcd.as_str(), rcd.as_str());
                    if shape_ok {
                        let b = str_chars(base.as_str());
                        let tail = str_chars(" — data compared on reference chunk grid");
                        let all = chars_concat(&b, &tail);
                        push_issue(report, &left.path, "chunks", StructureStatus::Warning, string_from_chars(&all));
                    } else {
                        compare_field(&left.path, "chunks", false, report, base);
                    }
                }
            }
            let same_attrs = members_eq(la, ra);
            compare_field(&left.path, "attrs", same_attrs, report, String::from_str("array attributes differ"));
            let fill_ok = opt_json_eq(lf, rf);
            let lfd = opt_json_debug_text(lf);
            let rfd = opt_json_debug_text(rf);
            compare_field(&left.path, "fill_value", fill_ok, report, ref_vs_new_text(lfd.as_str(), rfd.as_str()));
            assert(issues_view(report.issues@) =~= start + pair_issues(*left, *right, check_chunks));
        },
        _ => {
            push_issue(
                report,
                &left.path,
                "kind",
                StructureStatus::Failed,
                String::from_str("node kind mismatch (group vs array)"),
            );
            report.skip_data_comparison = true;
            assert(issues_view(report.issues@) =~= start + pair_issues(*left, *right, check_chunks));
        },
    }
}

/// The checks made for one node of the reference product: a missing node is
/// reported as such, a node found in the new product is compared with it.
pub open spec fn node_issues(n: ZarrTreeNode, right_root: ZarrTreeNode, check_chunks: bool) -> Seq<
    IssueView,
> {
    match first_with_path(subtree(right_root), spec_normalize_path(n.path@)) {
        None => seq![
            IssueView {
                path: n.path@,
                field: "node"@,
                status: StructureStatus::MissingInNew,
                detail: "exists in reference but not in new product"@,
            },
        ],
        Some(o) => pair_issues(n, o, check_chunks),
    }
}

pub open spec fn node_skips(n: ZarrTreeNode, right_root: ZarrTreeNode) -> bool {
    match first_with_path(subtree(right_root), spec_normalize_path(n.path@)) {
        None => false,
        Some(o) => pair_skips(n, o),
    }
}

/// The checks for each node of `nodes`, one node after the other.
pub open spec fn all_issues(nodes: Seq<ZarrTreeNode>, right_root: ZarrTreeNode, check_chunks: bool) -> Seq<
    IssueView,
>
    decreases nodes.len(),
{
    if nodes.len() == 0 {
        Seq::empty()
    } else {
        all_issues(nodes.drop_last(), right_root, check_chunks) + node_issues(
            nodes.last(),
            right_root,
            check_chunks,
        )
    }
}

pub open spec fn any_skip(nodes: Seq<ZarrTreeNode>, right_root: ZarrTreeNode) -> bool
    decreases nodes.len(),
{
    if nodes.len() == 0 {
        false
    } else {
        any_skip(nodes.drop_last(), right_root) || node_skips(nodes.last(), right_root)
    }
}

proof fn lemma_all_issues_concat(
    a: Seq<ZarrTreeNode>,
    b: Seq<ZarrTreeNode>,
    right_root: ZarrTreeNode,
    check_chunks: bool,
)
    ensures
        all_issues(a + b, right_root, check_chunks) == all_issues(a, right_root, check_chunks)
            + all_issues(b, right_root, check_chunks),
        any_skip(a + b, right_root) == (any_skip(a, right_root) || any_skip(b, right_root)),
    decreases b.len(),
{
    if b.len() == 0 {
        assert(a + b =~= a);
        assert(all_issues(a, right_root, check_chunks) + Seq::empty() =~= all_issues(
            a,
            right_root,
            check_chunks,
        ));
    } else {
        lemma_all_issues_concat(a, b.drop_last(), right_root, check_chunks);
        assert((a + b).drop_last() =~= a + b.drop_last());
        assert((a + b).last() == b.last());
        assert(all_issues(a + b, right_root, check_chunks) =~= all_issues(a, right_root, check_chunks)
            + all_issues(b, right_root, check_chunks));
    }
}

fn check_node(node: &ZarrTreeNode, right_root: &ZarrTreeNode, check_chunks: bool, report: &mut StructureReport)
    ensures
        issues_view(final(report).issues@) == issues_view(old(report).issues@) + node_issues(
            *node,
            *right_root,
            check_chunks,
        ),
        final(report).skip_data_comparison == (old(report).skip_data_comparison || node_skips(
            *node,
            *right_root,
        )),
{
    match right_root.find_by_path(node.path.as_str()) {
        None => {
            let ghost before = issues_view(report.issues@);
            push_issue(
                report,
                &node.path,
                "node",
                StructureStatus::MissingInNew,
                String::from_str("exists in reference but not in new product"),
            );
            assert(issues_view(report.issues@) =~= before + node_issues(*node, *right_root, check_chunks));
        },
        Some(other) => {
            compare_node_pair(node, other, check_chunks, report);
        },
    }
}

fn compare_subtree(node: &ZarrTreeNode, right_root: &ZarrTreeNode, check_chunks: bool, report: &mut StructureReport)
    ensures
        issues_view(final(report).issues@) == issues_view(old(report).issues@) + all_issues(
            subtree(*node),
            *right_root,
            check_chunks,
        ),
        final(report).skip_data_comparison == (old(report).skip_data_comparison || any_skip(
            subtree(*node),
            *right_root,
        )),
    decreases *node,
{
    let ghost start = issues_view(report.issues@);
    let ghost skip0 = report.skip_data_comparison;
    let ghost cs = node.children@;
    check_node(node, right_root, check_chunks, report);
    proof {
        let one = seq![*node];
        assert(one.drop_last().len() == 0);
        assert(one.last() == *node);
        assert(all_issues(one.drop_last(), *right_root, check_chunks).len() == 0);
        assert(!any_skip(one.drop_last(), *right_root));
        assert(all_issues(one, *right_root, check_chunks) =~= node_issues(*node, *right_root, check_chunks));
        assert(any_skip(one, *right_root) == node_skips(*node, *right_root));
        assert(forest(cs, 0).len() == 0);
        assert(issues_view(report.issues@) =~= start + all_issues(
            seq![*node] + forest(cs, 0),
            *right_root,
            check_chunks,
        )) by {
            assert(seq![*node] + forest(cs, 0) =~= seq![*node]);
        }
        assert(seq![*node] + forest(cs, 0) =~= seq![*node]);
    }
    let mut i: usize = 0;
    while i < node.children.len()
        invariant
            i <= node.children.len(),
            cs == node.children@,
            issues_view(report.issues@) == start + all_issues(
                seq![*node] + forest(cs, i as int),
                *right_root,
                check_chunks,
            ),
            report.skip_data_comparison == (skip0 || any_skip(seq![*node] + forest(cs, i as int), *right_root)),
        decreases node.children.len() - i,
    {
        proof {
            assert(decreases_to!(*node => node.children@[i as int]));
        }
        let ghost mid = issues_view(report.issues@);
        compare_subtree(&node.children[i], right_root, check_chunks, report);
        proof {
            let pre = seq![*node] + forest(cs, i as int);
            let sub = subtree(cs[i as int]);
            assert(forest(cs, i + 1) == forest(cs, i as int) + sub);
            assert(seq![*node] + forest(cs, i + 1) =~= pre + sub);
            lemma_all_issues_concat(pre, sub, *right_root, check_chunks);
            assert(issues_view(report.issues@) =~= start + all_issues(
                seq![*node] + forest(cs, i + 1),
                *right_root,
                check_chunks,
            ));
        }
        i = i + 1;
    }
    assert(subtree(*node) == seq![*node] + forest(cs, cs.len() as int));
}

/// Compare hierarchy metadata between two products (no array payload I/O):
/// every node below the reference root, depth first, is looked up by path in
/// the new product and checked (see `node_issues`). Chunk layouts are only
/// checked when `check_chunks` is set.
pub fn compare_structure(left: &ZarrTree, right: &ZarrTree, check_chunks: bool) -> (r: StructureReport)
    ensures
        issues_view(r.issues@) == all_issues(
            crate::zarr::tree::descendants(left.root),
            right.root,
            check_chunks,
        ),
        r.skip_data_comparison == any_skip(crate::zarr::tree::descendants(left.root), right.root),
{
    let mut report = StructureReport::new();
    let ghost cs = left.root.children@;
    assert(issues_view(report.issues@) =~= Seq::<IssueView>::empty());
    let mut i: usize = 0;
    while i < left.root.children.len()
        invariant
            i <= left.root.children.len(),
            cs == left.root.children@,
            issues_view(report.issues@) == all_issues(forest(cs, i as int), right.root, check_chunks),
            report.skip_data_comparison == any_skip(forest(cs, i as int), right.root),
        decreases left.root.children.len() - i,
    {
        compare_subtree(&left.root.children[i], &right.root, check_chunks, &mut report);
        proof {
            let sub = subtree(cs[i as int]);
            assert(forest(cs, i + 1) == forest(cs, i as int) + sub);
            lemma_all_issues_concat(forest(cs, i as int), sub, right.root, check_chunks);
        }
        i = i + 1;
    }
    report
}

/// `attrs[key]` when it is a string.
pub open spec fn attribute_str(attrs: Seq<(String, JsonValue)>, key: Seq<char>) -> Option<Seq<char>> {
    match member_get(attrs, key) {
        Some(v) => spec_as_str(v),
        None => None,
    }
}

pub open spec fn is_coordinate_name(name: Seq<char>) -> bool {
    name == "x"@ || name == "y"@ || name == "latitude"@ || name == "longitude"@ || name == "lon"@
        || name == "lat"@ || name == "columns"@ || name == "rows"@
}

pub open spec fn is_coordinate_standard_name(s: Seq<char>) -> bool {
    s == "time"@ || s == "latitude"@ || s == "longitude"@ || s == "projection"@ || s
        == "grid_mapping"@
}

pub open spec fn is_axis_name(s: Seq<char>) -> bool {
    s == "T"@ || s == "X"@ || s == "Y"@ || s == "Z"@
}

/// Coordinate variables: arrays under `/coordinates/` or
/// `/conditions/geometry/`, with a coordinate `standard_name` or an `axis`,
/// or with a coordinate name under `/geometry/`.
pub open spec fn spec_is_coordinate(n: ZarrTreeNode) -> bool {
    match n.kind {
        ZarrNodeKind::Array { attributes, .. } => {
            ||| contains_sub(n.path@, "/coordinates/"@)
            ||| contains_sub(n.path@, "/conditions/geometry/"@)
            ||| (attribute_str(attributes@, "standard_name"@) matches Some(s)
                && is_coordinate_standard_name(s))
            ||| (attribute_str(attributes@, "axis"@) matches Some(s) && is_axis_name(s))
            ||| (contains_sub(n.path@, "/geometry/"@) && is_coordinate_name(n.name@))
        },
        _ => false,
    }
}

/// Date and time types are not compared.
pub open spec fn spec_unsupported_dtype(dtype: Seq<char>) -> bool {
    contains_sub(ascii_lower(dtype), "datetime"@) || contains_sub(ascii_lower(dtype), "m8["@)
}

pub open spec fn spec_is_empty_array(n: ZarrTreeNode) -> bool {
    n.kind is Array && n.kind->shape@.contains(0u64)
}

/// Measurement variables whose values are compared: non-empty arrays that are
/// not coordinates, not flags, of a supported type, and not named `*spatial_ref`
/// or `*band`.
pub open spec fn spec_is_data_variable(n: ZarrTreeNode) -> bool {
    match n.kind {
        ZarrNodeKind::Array { attributes, dtype, .. } => {
            &&& !spec_is_empty_array(n)
            &&& !spec_is_coordinate(n)
            &&& spec_cf_flags(attributes@) is None
            &&& !spec_unsupported_dtype(dtype@)
            &&& !seq_ends_with(n.name@, "spatial_ref"@)
            &&& !seq_ends_with(n.name@, "band"@)
        },
        _ => false,
    }
}

/// Flag variables: non-empty arrays with CF flag metadata.
pub open spec fn spec_is_flag_variable(n: ZarrTreeNode) -> bool {
    match n.kind {
        ZarrNodeKind::Array { attributes, .. } => !spec_is_empty_array(n) && spec_cf_flags(
            attributes@,
        ) is Some,
        _ => false,
    }
}

fn attribute_is_one_of(attrs: &Vec<(String, JsonValue)>, key: &str, axis: bool) -> (r: bool)
    ensures
        r == (attribute_str(attrs@, key@) matches Some(s) && (if axis {
            is_axis_name(s)
        } else {
            is_coordinate_standard_name(s)
        })),
{
    match obj_get(attrs, key) {
        None => false,
        Some(v) => match as_str(v) {
            None => false,
            Some(s) => if axis {
                str_is(s, "T") || str_is(s, "X") || str_is(s, "Y") || str_is(s, "Z")
            } else {
                str_is(s, "time") || str_is(s, "latitude") || str_is(s, "longitude") || str_is(
                    s,
                    "projection",
                ) || str_is(s, "grid_mapping")
            },
        },
    }
}

/// Whether an array is a coordinate variable (see `spec_is_coordinate`).
pub fn is_coordinate_variable(node: &ZarrTreeNode) -> (r: bool)
    ensures
        r == spec_is_coordinate(*node),
{
    let attributes = match &node.kind {
        ZarrNodeKind::Array { attributes, .. } => attributes,
        _ => return false,
    };
    let path = node.path.as_str();
    if str_contains(path, "/coordinates/") || str_contains(path, "/conditions/geometry/") {
        return true;
    }
    if attribute_is_one_of(attributes, "standard_name", false) {
        return true;
    }
    if attribute_is_one_of(attributes, "axis", true) {
        return true;
    }
    let name = node.name.as_str();
    if str_contains(path, "/geometry/") && (str_is(name, "x") || str_is(name, "y") || str_is(
        name,
        "latitude",
    ) || str_is(name, "longitude") || str_is(name, "lon") || str_is(name, "lat") || str_is(
        name,
        "columns",
    ) || str_is(name, "rows")) {
        return true;
    }
    false
}

/// Whether a data type is a date or time type, which is not compared.
pub fn is_unsupported_dtype(dtype: &str) -> (r: bool)
    ensures
        r == spec_unsupported_dtype(dtype@),
{
    let d = str_chars(dtype);
    let lower = chars_ascii_lower(&d);
    let a = str_chars("datetime");
    let b = str_chars("m8[");
    chars_contain_sub(&lower, &a) || chars_contain_sub(&lower, &b)
}

/// Whether a node is a measurement variable whose values are compared.
pub fn is_data_variable(node: &ZarrTreeNode) -> (r: bool)
    ensures
        r == spec_is_data_variable(*node),
{
    let (attributes, dtype) = match &node.kind {
        ZarrNodeKind::Array { attributes, dtype, .. } => (attributes, dtype),
        _ => return false,
    };
    if node.is_empty_array() {
        return false;
    }
    if is_coordinate_variable(node) {
        return false;
    }
    if parse_cf_flags(attributes).is_some() {
        return false;
    }
    if is_unsupported_dtype(dtype.as_str()) {
        return false;
    }
    let name = node.name.as_str();
    if str_ends_with(name, "spatial_ref") || str_ends_with(name, "band") {
        return false;
    }
    true
}

/// Whether a node is a flag variable.
pub fn is_flag_variable(node: &ZarrTreeNode) -> (r: bool)
    ensures
        r == spec_is_flag_variable(*node),
{
    let attributes = match &node.kind {
        ZarrNodeKind::Array { attributes, .. } => attributes,
        _ => return false,
    };
    if node.is_empty_array() {
        return false;
    }
    parse_cf_flags(attributes).is_some()
}

/// Paths of the nodes of `nodes` that satisfy `pick`, in order.
pub open spec fn paths_where(nodes: Seq<ZarrTreeNode>, pick: spec_fn(ZarrTreeNode) -> bool) -> Seq<
    Seq<char>,
>
    decreases nodes.len(),
{
    if nodes.len() == 0 {
        Seq::empty()
    } else if pick(nodes.last()) {
        paths_where(nodes.drop_last(), pick).push(nodes.last().path@)
    } else {
        paths_where(nodes.drop_last(), pick)
    }
}

proof fn lemma_paths_where_concat(
    a: Seq<ZarrTreeNode>,
    b: Seq<ZarrTreeNode>,
    pick: spec_fn(ZarrTreeNode) -> bool,
)
    ensures
        paths_where(a + b, pick) == paths_where(a, pick) + paths_where(b, pick),
    decreases b.len(),
{
    if b.len() == 0 {
        assert(a + b =~= a);
        assert(paths_where(a, pick) + Seq::empty() =~= paths_where(a, pick));
    } else {
        lemma_paths_where_concat(a, b.drop_last(), pick);
        assert((a + b).drop_last() =~= a + b.drop_last());
        assert((a + b).last() == b.last());
        assert(paths_where(a + b, pick) =~= paths_where(a, pick) + paths_where(b, pick));
    }
}

/// Appends the paths of the nodes of the subtree of `node` that satisfy the
/// test `which` (0: data variable, 1: flag variable).
fn collect_where(node: &ZarrTreeNode, which: u8, out: &mut Vec<String>)
    ensures
        names_view(final(out)@) == names_view(old(out)@) + paths_where(
            subtree(*node),
            if which == 0 {
                |n: ZarrTreeNode| spec_is_data_variable(n)
            } else {
                |n: ZarrTreeNode| spec_is_flag_variable(n)
            },
        ),
    decreases *node,
{
    let ghost pick = if which == 0 {
        |n: ZarrTreeNode| spec_is_data_variable(n)
    } else {
        |n: ZarrTreeNode| spec_is_flag_variable(n)
    };
    let ghost start = names_view(out@);
    let ghost cs = node.children@;
    let hit = if which == 0 {
        is_data_variable(node)
    } else {
        is_flag_variable(node)
    };
    if hit {
        let ghost before = out@;
        out.push(clone_string(&node.path));
        assert(names_view(out@) =~= names_view(before).push(node.path@));
    }
    proof {
        let one = seq![*node];
        assert(one.drop_last().len() == 0);
        assert(one.last() == *node);
        assert(hit == pick(*node));
        assert(paths_where(one.drop_last(), pick) =~= Seq::<Seq<char>>::empty());
        assert(names_view(out@) =~= start + paths_where(one, pick));
        assert(one + forest(cs, 0) =~= one);
    }
    let mut i: usize = 0;
    while i < node.children.len()
        invariant
            i <= node.children.len(),
            cs == node.children@,
            pick == (if which == 0 {
                |n: ZarrTreeNode| spec_is_data_variable(n)
            } else {
                |n: ZarrTreeNode| spec_is_flag_variable(n)
            }),
            names_view(out@) == start + paths_where(seq![*node] + forest(cs, i as int), pick),
        decreases node.children.len() - i,
    {
        proof {
            assert(decreases_to!(*node => node.children@[i as int]));
        }
        collect_where(&node.children[i], which, out);
        proof {
            let pre = seq![*node] + forest(cs, i as int);
            let sub = subtree(cs[i as int]);
            assert(forest(cs, i + 1) == forest(cs, i as int) + sub);
            assert(seq![*node] + forest(cs, i + 1) =~= pre + sub);
            lemma_paths_where_concat(pre, sub, pick);
            assert(names_view(out@) =~= start + paths_where(seq![*node] + forest(cs, i + 1), pick));
        }
        i = i + 1;
    }
    assert(subtree(*node) == seq![*node] + forest(cs, cs.len() as int));
}

fn collect_sorted(root: &ZarrTreeNode, which: u8) -> (r: Vec<String>)
    ensures
        names_view(r@) == sorted_names(
            paths_where(
                crate::zarr::tree::descendants(*root),
                if which == 0 {
                    |n: ZarrTreeNode| spec_is_data_variable(n)
                } else {
                    |n: ZarrTreeNode| spec_is_flag_variable(n)
                },
            ),
        ),
        names_view(r@).to_multiset() == paths_where(
            crate::zarr::tree::descendants(*root),
            if which == 0 {
                |n: ZarrTreeNode| spec_is_data_variable(n)
            } else {
                |n: ZarrTreeNode| spec_is_flag_variable(n)
            },
        ).to_multiset(),
{
    let ghost pick = if which == 0 {
        |n: ZarrTreeNode| spec_is_data_variable(n)
    } else {
        |n: ZarrTreeNode| spec_is_flag_variable(n)
    };
    let ghost cs = root.children@;
    let mut out: Vec<String> = Vec::new();
    assert(names_view(out@) =~= paths_where(forest(cs, 0), pick));
    let mut i: usize = 0;
    while i < root.children.len()
        invariant
            i <= root.children.len(),
            cs == root.children@,
            pick == (if which == 0 {
                |n: ZarrTreeNode| spec_is_data_variable(n)
            } else {
                |n: ZarrTreeNode| spec_is_flag_variable(n)
            }),
            names_view(out@) == paths_where(forest(cs, i as int), pick),
        decreases root.children.len() - i,
    {
        collect_where(&root.children[i], which, &mut out);
        proof {
            let sub = subtree(cs[i as int]);
            assert(forest(cs, i + 1) == forest(cs, i as int) + sub);
            lemma_paths_where_concat(forest(cs, i as int), sub, pick);
        }
        i = i + 1;
    }
    let ghost unsorted = names_view(out@);
    let sorted = sort_strings(out);
    proof {
        let got = names_view(sorted@);
        assert(sorted@.map_values(|x: String| x@) == got);
        let want = sorted_names(unsorted);
        assert(names_sorted(got) && got.to_multiset() == unsorted.to_multiset());
        assert(names_sorted(want) && want.to_multiset() == unsorted.to_multiset());
        lemma_sorted_unique(got, want);
    }
    sorted
}

/// Sorted paths of the data variables below `root`; none lies under
/// `/coordinates/` or `/conditions/geometry/`.
pub fn collect_data_variables(root: &ZarrTreeNode) -> (r: Vec<String>)
    ensures
        names_view(r@) == sorted_names(
            paths_where(
                crate::zarr::tree::descendants(*root),
                |n: ZarrTreeNode| spec_is_data_variable(n),
            ),
        ),
        forall|k: int|
            0 <= k < r@.len() ==> !contains_sub((#[trigger] r@[k])@, "/conditions/geometry/"@) && !contains_sub(
                r@[k]@,
                "/coordinates/"@,
            ),
{
    broadcast use vstd::seq_lib::group_to_multiset_ensures;

    let r = collect_sorted(root, 0);
    proof {
        let nodes = crate::zarr::tree::descendants(*root);
        let ps = data_paths(nodes);
        lemma_data_paths_exclude_coordinates(nodes);
        let got = names_view(r@);
        assert forall|k: int| 0 <= k < r@.len() implies !contains_sub((#[trigger] r@[k])@, "/conditions/geometry/"@)
            && !contains_sub(r@[k]@, "/coordinates/"@) by {
            assert(got[k] == r@[k]@);
            assert(got.contains(got[k]));
            assert(got.to_multiset().contains(got[k]));
            assert(ps.contains(got[k]));
            let j = choose|j: int| 0 <= j < ps.len() && ps[j] == got[k];
            assert(ps[j] == got[k]);
        }
    }
    r
}

/// Sorted paths of the flag variables below `root`.
pub fn collect_flag_variables(root: &ZarrTreeNode) -> (r: Vec<String>)
    ensures
        names_view(r@) == sorted_names(
            paths_where(
                crate::zarr::tree::descendants(*root),
                |n: ZarrTreeNode| spec_is_flag_variable(n),
            ),
        ),
{
    collect_sorted(root, 1)
}

/// Every check of a node against itself passes.
proof fn lemma_pair_self_passes(n: ZarrTreeNode, check_chunks: bool)
    ensures
        forall|i: int|
            0 <= i < pair_issues(n, n, check_chunks).len() ==> (#[trigger] pair_issues(n, n, check_chunks)[i]).status
                == StructureStatus::Passed,
        !pair_skips(n, n),
{
    let s = pair_issues(n, n, check_chunks);
    match n.kind {
        ZarrNodeKind::Group { attributes } => {
            lemma_members_equiv_refl(attributes@);
            assert(s.len() == 2);
        },
        ZarrNodeKind::Array { chunks, attributes, fill_value, .. } => {
            lemma_members_equiv_refl(attributes@);
            if let Some(f) = fill_value {
                lemma_jequiv_refl(f);
            }
            assert(chunks@ == chunks@);
        },
    }
}

/// A node's issues are those of the prefix and of the node.
proof fn lemma_all_issues_passed(nodes: Seq<ZarrTreeNode>, root: ZarrTreeNode, check_chunks: bool)
    requires
        forall|i: int|
            0 <= i < nodes.len() ==> first_with_path(subtree(root), spec_normalize_path(#[trigger] nodes[i].path@))
                == Some(nodes[i]),
    ensures
        forall|i: int|
            0 <= i < all_issues(nodes, root, check_chunks).len() ==> (#[trigger] all_issues(
                nodes,
                root,
                check_chunks,
            )[i]).status == StructureStatus::Passed,
        !any_skip(nodes, root),
    decreases nodes.len(),
{
    if nodes.len() > 0 {
        let pre = nodes.drop_last();
        assert forall|i: int| 0 <= i < pre.len() implies first_with_path(
            subtree(root),
            spec_normalize_path(#[trigger] pre[i].path@),
        ) == Some(pre[i]) by {
            assert(pre[i] == nodes[i]);
        }
        lemma_all_issues_passed(pre, root, check_chunks);
        let last = nodes.last();
        assert(first_with_path(subtree(root), spec_normalize_path(nodes[nodes.len() - 1].path@)) == Some(last));
        lemma_pair_self_passes(last, check_chunks);
        let a = all_issues(pre, root, check_chunks);
        let b = node_issues(last, root, check_chunks);
        assert(b == pair_issues(last, last, check_chunks));
        assert forall|i: int| 0 <= i < (a + b).len() implies (#[trigger] (a + b)[i]).status
            == StructureStatus::Passed by {
            if i < a.len() {
                assert((a + b)[i] == a[i]);
            } else {
                assert((a + b)[i] == b[i - a.len()]);
            }
        }
    }
}

/// A product compared with itself passes every structure check and keeps its
/// data comparison, provided each node's path leads back to that node (no
/// two nodes share a path).
pub proof fn lemma_self_comparison_passes(t: ZarrTree, check_chunks: bool)
    requires
        forall|i: int|
            0 <= i < descendants(t.root).len() ==> first_with_path(
                subtree(t.root),
                spec_normalize_path(#[trigger] descendants(t.root)[i].path@),
            ) == Some(descendants(t.root)[i]),
    ensures
        forall|i: int|
            0 <= i < all_issues(descendants(t.root), t.root, check_chunks).len() ==> (#[trigger] all_issues(
                descendants(t.root),
                t.root,
                check_chunks,
            )[i]).status == StructureStatus::Passed,
        !any_skip(descendants(t.root), t.root),
{
    lemma_all_issues_passed(descendants(t.root), t.root, check_chunks);
}

/// For two arrays found at the same path, the comparison's dtype check
/// passes exactly when the reference dtype equals the new one; otherwise it
/// fails and shows both (`reference <ref> vs new <new>`).
pub proof fn lemma_dtype_check(l: ZarrTreeNode, r: ZarrTreeNode, check_chunks: bool)
    requires
        l.kind is Array,
        r.kind is Array,
    ensures
        pair_issues(l, r, check_chunks).len() > 1,
        pair_issues(l, r, check_chunks)[1].field == "dtype"@,
        pair_issues(l, r, check_chunks)[1].path == l.path@,
        (pair_issues(l, r, check_chunks)[1].status == StructureStatus::Passed) <==> (l.kind->dtype@
            == r.kind->dtype@),
        l.kind->dtype@ != r.kind->dtype@ ==> pair_issues(l, r, check_chunks)[1].status == StructureStatus::Failed
            && pair_issues(l, r, check_chunks)[1].detail == "reference "@ + l.kind->dtype@ + " vs new "@
            + r.kind->dtype@,
{
}

/// An array under `/coordinates/` or `/conditions/geometry/` is a coordinate
/// variable, never a data variable whose values are compared.
pub proof fn lemma_geometry_arrays_are_coordinates(n: ZarrTreeNode)
    requires
        n.kind is Array,
        contains_sub(n.path@, "/conditions/geometry/"@) || contains_sub(n.path@, "/coordinates/"@),
    ensures
        spec_is_coordinate(n),
        !spec_is_data_variable(n),
{
}

/// The paths of the data variables among `nodes`, in order.
pub open spec fn data_paths(nodes: Seq<ZarrTreeNode>) -> Seq<Seq<char>> {
    paths_where(nodes, |n: ZarrTreeNode| spec_is_data_variable(n))
}

/// No path selected for data comparison lies under `/coordinates/` or
/// `/conditions/geometry/`.
pub proof fn lemma_data_paths_exclude_coordinates(nodes: Seq<ZarrTreeNode>)
    ensures
        forall|k: int|
            0 <= k < data_paths(nodes).len() ==> !contains_sub(#[trigger] data_paths(nodes)[k], "/conditions/geometry/"@)
                && !contains_sub(data_paths(nodes)[k], "/coordinates/"@),
    decreases nodes.len(),
{
    let pick = |n: ZarrTreeNode| spec_is_data_variable(n);
    if nodes.len() > 0 {
        lemma_data_paths_exclude_coordinates(nodes.drop_last());
        assert(data_paths(nodes.drop_last()) == paths_where(nodes.drop_last(), pick));
        assert(data_paths(nodes) == paths_where(nodes, pick));
        let last = nodes.last();
        if pick(last) {
            if contains_sub(last.path@, "/conditions/geometry/"@) || contains_sub(last.path@, "/coordinates/"@) {
                lemma_geometry_arrays_are_coordinates(last);
            }
        }
        let prev = paths_where(nodes.drop_last(), pick);
        let cur = paths_where(nodes, pick);
        assert forall|k: int| 0 <= k < cur.len() implies !contains_sub(#[trigger] cur[k], "/conditions/geometry/"@)
            && !contains_sub(cur[k], "/coordinates/"@) by {
            if k < prev.len() {
                assert(cur[k] == prev[k]);
            }
        }
    }
}

} // verus!
