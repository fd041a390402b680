//! Lexicographic order on names and a stable sort by (rank, name).
//!
//! `str::cmp` compares UTF-8 bytes, which orders strings exactly as comparing
//! their characters' code points one after another; that is the order here.
use vstd::prelude::*;

verus! {

broadcast use vstd::seq_lib::group_to_multiset_ensures;

pub open spec fn char_lt(a: char, b: char) -> bool {
    a < b
}

/// `a <= b` in the order of `str::cmp`.
pub open spec fn lex_le(a: Seq<char>, b: Seq<char>) -> bool
    decreases a.len(),
{
    if a.len() == 0 {
        true
    } else if b.len() == 0 {
        false
    } else if char_lt(a[0], b[0]) {
        true
    } else if char_lt(b[0], a[0]) {
        false
    } else {
        lex_le(a.drop_first(), b.drop_first())
    }
}

pub proof fn lemma_lex_total(a: Seq<char>, b: Seq<char>)
    ensures
        lex_le(a, b) || lex_le(b, a),
    decreases a.len(),
{
    if a.len() > 0 && b.len() > 0 && !char_lt(a[0], b[0]) && !char_lt(b[0], a[0]) {
        lemma_lex_total(a.drop_first(), b.drop_first());
    }
}

pub proof fn lemma_lex_refl(a: Seq<char>)
    ensures
        lex_le(a, a),
    decreases a.len(),
{
    if a.len() > 0 {
        lemma_lex_refl(a.drop_first());
    }
}

pub proof fn lemma_lex_trans(a: Seq<char>, b: Seq<char>, c: Seq<char>)
    requires
        lex_le(a, b),
        lex_le(b, c),
    ensures
        lex_le(a, c),
    decreases a.len(),
{
    if a.len() > 0 && b.len() > 0 && c.len() > 0 {
        if !char_lt(a[0], b[0]) && !char_lt(b[0], a[0]) && !char_lt(b[0], c[0]) && !char_lt(
            c[0],
            b[0],
        ) {
            lemma_lex_trans(a.drop_first(), b.drop_first(), c.drop_first());
        }
    }
}

pub proof fn lemma_lex_antisym(a: Seq<char>, b: Seq<char>)
    requires
        lex_le(a, b),
        lex_le(b, a),
    ensures
        a == b,
    decreases a.len(),
{
    if a.len() > 0 && b.len() > 0 {
        lemma_lex_antisym(a.drop_first(), b.drop_first());
        assert(a[0] == b[0]);
        assert(a =~= seq![a[0]] + a.drop_first());
        assert(b =~= seq![b[0]] + b.drop_first());
    } else {
        assert(a.len() == 0 && b.len() == 0);
        assert(a =~= b);
    }
}

/// `a <= b` for two character slices, in the order of `str::cmp`.
pub fn chars_lex_le(a: &[char], b: &[char]) -> (r: bool)
    ensures
        r == lex_le(a@, b@),
{
    let mut i: usize = 0;
    assert(a@.subrange(0, a@.len() as int) =~= a@);
    assert(b@.subrange(0, b@.len() as int) =~= b@);
    while i < a.len() && i < b.len()
        invariant
            i <= a.len(),
            i <= b.len(),
            forall|j: int| 0 <= j < i ==> a@[j] == b@[j],
            lex_le(a@, b@) == lex_le(
                a@.subrange(i as int, a@.len() as int),
                b@.subrange(i as int, b@.len() as int),
            ),
        decreases a.len() - i,
    {
        let x = a[i];
        let y = b[i];
        if x < y {
            return true;
        }
        if y < x {
            return false;
        }
        proof {
            let sa = a@.subrange(i as int, a@.len() as int);
            let sb = b@.subrange(i as int, b@.len() as int);
            assert(sa.drop_first() =~= a@.subrange(i + 1, a@.len() as int));
            assert(sb.drop_first() =~= b@.subrange(i + 1, b@.len() as int));
            assert(x == y);
        }
        i = i + 1;
    }
    i == a.len()
}

/// Key of a sort: lower rank first, then names in `str::cmp` order.
pub open spec fn key_le(r1: int, n1: Seq<char>, r2: int, n2: Seq<char>) -> bool {
    r1 < r2 || (r1 == r2 && lex_le(n1, n2))
}

/// Values that are sorted by a (rank, name) key.
pub trait SortKey: Sized {
    spec fn rank(&self) -> int;

    spec fn name(&self) -> Seq<char>;

    fn key_le_exec(&self, other: &Self) -> (r: bool)
        ensures
            r == key_le(self.rank(), self.name(), other.rank(), other.name()),
    ;
}

pub open spec fn elem_le<T: SortKey>(a: T, b: T) -> bool {
    key_le(a.rank(), a.name(), b.rank(), b.name())
}

pub open spec fn sorted_by_key<T: SortKey>(s: Seq<T>) -> bool {
    forall|i: int, j: int| 0 <= i < j < s.len() ==> elem_le(#[trigger] s[i], #[trigger] s[j])
}

pub proof fn lemma_elem_total<T: SortKey>(a: T, b: T)
    ensures
        elem_le(a, b) || elem_le(b, a),
{
    lemma_lex_total(a.name(), b.name());
}

pub proof fn lemma_elem_trans<T: SortKey>(a: T, b: T, c: T)
    requires
        elem_le(a, b),
        elem_le(b, c),
    ensures
        elem_le(a, c),
{
    if a.rank() == b.rank() && b.rank() == c.rank() {
        lemma_lex_trans(a.name(), b.name(), c.name());
    }
}

/// Stable sort by (rank, name): the result is sorted and holds the same
/// elements; on an already sorted input it is the input itself.
pub fn sort_by_key<T: SortKey>(v: Vec<T>) -> (r: Vec<T>)
    ensures
        sorted_by_key(r@),
        r@.to_multiset() == v@.to_multiset(),
        r@.len() == v@.len(),
        sorted_by_key(v@) ==> r@ == v@,
{
    let ghost orig = v@;
    let mut src = v;
    let mut out: Vec<T> = Vec::new();
    let mut taken: usize = 0;
    let n = src.len();
    assert(orig.subrange(0, 0) =~= Seq::<T>::empty());
    assert(orig.subrange(0, orig.len() as int) =~= orig);
    while src.len() > 0
        invariant
            n == orig.len(),
            src@ == orig.subrange(taken as int, orig.len() as int),
            taken + src.len() == n,
            sorted_by_key(out@),
            out@.to_multiset() == orig.subrange(0, taken as int).to_multiset(),
            out@.len() == taken,
            sorted_by_key(orig) ==> out@ == orig.subrange(0, taken as int),
        decreases src.len(),
    {
        let x = src.remove(0);
        proof {
            assert(src@ =~= orig.subrange(taken + 1, orig.len() as int));
            assert(orig[taken as int] == x);
        }
        // first position whose element is strictly after `x`
        let mut pos: usize = 0;
        while pos < out.len() && out[pos].key_le_exec(&x)
            invariant
                pos <= out.len(),
                forall|k: int| 0 <= k < pos ==> elem_le(#[trigger] out@[k], x),
            decreases out.len() - pos,
        {
            pos = pos + 1;
        }
        proof {
            if pos < out.len() {
                assert(!elem_le(out@[pos as int], x));
                assert forall|k: int| pos <= k < out@.len() implies !elem_le(
                    #[trigger] out@[k],
                    x,
                ) by {
                    if elem_le(out@[k], x) {
                        if k > pos {
                            lemma_elem_trans(out@[pos as int], out@[k], x);
                        }
                    }
                }
            }
            if sorted_by_key(orig) {
                assert forall|k: int| 0 <= k < out@.len() implies elem_le(#[trigger] out@[k], x) by {
                    assert(out@[k] == orig[k]);
                }
            }
        }
        let ghost before = out@;
        out.insert(pos, x);
        proof {
            assert(out@ == before.insert(pos as int, x));
            assert forall|i: int, j: int| 0 <= i < j < out@.len() implies elem_le(
                #[trigger] out@[i],
                #[trigger] out@[j],
            ) by {
                if i < pos && j == pos {
                } else if i == pos && j > pos {
                    lemma_elem_total(before[j - 1], x);
                } else if i < pos && j > pos {
                    assert(out@[i] == before[i]);
                    assert(out@[j] == before[j - 1]);
                } else if j < pos {
                    assert(out@[i] == before[i]);
                    assert(out@[j] == before[j]);
                } else {
                    assert(out@[i] == before[i - 1]);
                    assert(out@[j] == before[j - 1]);
                }
            }
            assert(orig.subrange(0, taken + 1) =~= orig.subrange(0, taken as int).push(x));
            if sorted_by_key(orig) {
                assert(pos == before.len());
                assert(out@ =~= orig.subrange(0, taken + 1));
            }
        }
        taken = taken + 1;
    }
    proof {
        assert(orig.subrange(0, taken as int) =~= orig);
    }
    out
}

/// Mapping two sequences that hold the same elements gives two sequences that
/// hold the same elements.
pub proof fn lemma_map_multiset<A, B>(s: Seq<A>, t: Seq<A>, f: spec_fn(A) -> B)
    requires
        s.to_multiset() == t.to_multiset(),
    ensures
        s.map_values(f).to_multiset() == t.map_values(f).to_multiset(),
    decreases s.len(),
{
    broadcast use vstd::multiset::group_multiset_axioms;

    if s.len() == 0 {
        vstd::seq_lib::to_multiset_len(s);
        vstd::seq_lib::to_multiset_len(t);
        assert(t.len() == 0);
        assert(s.map_values(f) =~= t.map_values(f));
    } else {
        let x = s.last();
        let s1 = s.drop_last();
        assert(s == s1.push(x));
        assert(s.to_multiset().count(x) > 0) by {
            assert(s.contains(x)) by {
                assert(s[s.len() - 1] == x);
            }
        }
        assert(t.contains(x));
        let k = choose|k: int| 0 <= k < t.len() && t[k] == x;
        assert(0 <= k < t.len() && t[k] == x);
        let t1 = t.remove(k);
        assert(t1.to_multiset() == t.to_multiset().remove(x));
        assert(s1.to_multiset() == s.to_multiset().remove(x));
        lemma_map_multiset(s1, t1, f);
        assert(s.map_values(f) =~= s1.map_values(f).push(f(x)));
        assert(t =~= t1.insert(k, x));
        assert(t.map_values(f) =~= t1.map_values(f).insert(k, f(x)));
    }
}

impl SortKey for String {
    open spec fn rank(&self) -> int {
        0
    }

    open spec fn name(&self) -> Seq<char> {
        self@
    }

    fn key_le_exec(&self, other: &Self) -> (r: bool) {
        let a = crate::text::str_chars(self.as_str());
        let b = crate::text::str_chars(other.as_str());
        chars_lex_le(&a, &b)
    }
}

/// Strings in non-decreasing `str::cmp` order.
pub open spec fn names_sorted(s: Seq<Seq<char>>) -> bool {
    forall|i: int, j: int| 0 <= i < j < s.len() ==> lex_le(#[trigger] s[i], #[trigger] s[j])
}

/// `Vec<String>::sort`: the same strings, in `str::cmp` order.
pub fn sort_strings(v: Vec<String>) -> (r: Vec<String>)
    ensures
        names_sorted(r@.map_values(|x: String| x@)),
        r@.map_values(|x: String| x@).to_multiset() == v@.map_values(|x: String| x@).to_multiset(),
{
    let ghost orig = v@;
    let r = sort_by_key(v);
    proof {
        lemma_map_multiset(r@, orig, |x: String| x@);
        let m = r@.map_values(|x: String| x@);
        assert forall|i: int, j: int| 0 <= i < j < m.len() implies lex_le(
            #[trigger] m[i],
            #[trigger] m[j],
        ) by {
            assert(elem_le(r@[i], r@[j]));
        }
    }
    r
}

proof fn lemma_sorted_max(s: Seq<Seq<char>>, x: Seq<char>)
    requires
        names_sorted(s),
        s.len() > 0,
        s.contains(x),
    ensures
        lex_le(x, s.last()),
{
    let i = choose|i: int| 0 <= i < s.len() && s[i] == x;
    if i < s.len() - 1 {
        assert(lex_le(s[i], s[s.len() - 1]));
    } else {
        lemma_lex_refl(x);
    }
}

/// Two sorted sequences of strings that hold the same strings are equal.
pub proof fn lemma_sorted_unique(s: Seq<Seq<char>>, t: Seq<Seq<char>>)
    requires
        names_sorted(s),
        names_sorted(t),
        s.to_multiset() == t.to_multiset(),
    ensures
        s == t,
    decreases s.len(),
{
    broadcast use vstd::multiset::group_multiset_axioms;

    vstd::seq_lib::to_multiset_len(s);
    vstd::seq_lib::to_multiset_len(t);
    if s.len() == 0 {
        assert(s =~= t);
    } else {
        let a = s.last();
        let b = t.last();
        assert(s.to_multiset().count(a) > 0) by {
            vstd::seq_lib::to_multiset_contains(s, a);
            assert(s[s.len() - 1] == a);
        }
        assert(t.to_multiset().count(b) > 0) by {
            vstd::seq_lib::to_multiset_contains(t, b);
            assert(t[t.len() - 1] == b);
        }
        vstd::seq_lib::to_multiset_contains(t, a);
        vstd::seq_lib::to_multiset_contains(s, b);
        lemma_sorted_max(t, a);
        lemma_sorted_max(s, b);
        lemma_lex_antisym(a, b);
        let s1 = s.drop_last();
        let t1 = t.drop_last();
        assert(s =~= s1.push(a));
        assert(t =~= t1.push(b));
        vstd::seq_lib::to_multiset_build(s1, a);
        vstd::seq_lib::to_multiset_build(t1, b);
        assert(s1.to_multiset() =~= t1.to_multiset()) by {
            assert(s1.to_multiset() == s.to_multiset().remove(a));
            assert(t1.to_multiset() == t.to_multiset().remove(b));
        }
        lemma_sorted_unique(s1, t1);
    }
}

/// Insert index `x` into `s`, after every index whose key is at most the
/// key of `x` at the end of the run (the step of a stable insertion sort).
pub open spec fn ins_idx(s: Seq<int>, keys: Seq<Seq<char>>, x: int) -> Seq<int>
    decreases s.len(),
{
    if s.len() == 0 {
        seq![x]
    } else if lex_le(keys[s.last()], keys[x]) {
        s.push(x)
    } else {
        ins_idx(s.drop_last(), keys, x).push(s.last())
    }
}

/// The indices `0..n` in the order that stably sorts `keys[..n]` in
/// `str::cmp` order (the order `sort` gives the keys).
pub open spec fn sort_idx(keys: Seq<Seq<char>>, n: nat) -> Seq<int>
    decreases n,
{
    if n == 0 {
        Seq::empty()
    } else {
        ins_idx(sort_idx(keys, (n - 1) as nat), keys, n - 1)
    }
}

proof fn lemma_ins_idx_range(s: Seq<int>, keys: Seq<Seq<char>>, x: int, n: int)
    requires
        forall|k: int| 0 <= k < s.len() ==> 0 <= #[trigger] s[k] < n,
        0 <= x < n,
    ensures
        ins_idx(s, keys, x).len() == s.len() + 1,
        forall|k: int| 0 <= k < ins_idx(s, keys, x).len() ==> 0 <= #[trigger] ins_idx(s, keys, x)[k] < n,
    decreases s.len(),
{
    if s.len() > 0 && !lex_le(keys[s.last()], keys[x]) {
        lemma_ins_idx_range(s.drop_last(), keys, x, n);
        let t = ins_idx(s.drop_last(), keys, x);
        assert forall|k: int| 0 <= k < t.push(s.last()).len() implies 0 <= #[trigger] t.push(s.last())[k] < n by {
            if k < t.len() {
                assert(t.push(s.last())[k] == t[k]);
            }
        }
    }
}

/// The sorted indices are `n` indices below `n`.
pub proof fn lemma_sort_idx_range(keys: Seq<Seq<char>>, n: nat)
    ensures
        sort_idx(keys, n).len() == n,
        forall|k: int| 0 <= k < n ==> 0 <= #[trigger] sort_idx(keys, n)[k] < n,
    decreases n,
{
    if n > 0 {
        lemma_sort_idx_range(keys, (n - 1) as nat);
        lemma_ins_idx_range(sort_idx(keys, (n - 1) as nat), keys, n - 1, n as int);
    }
}

proof fn lemma_ins_idx_split(s: Seq<int>, keys: Seq<Seq<char>>, x: int, p: int)
    requires
        0 < p <= s.len(),
        !lex_le(keys[s[p - 1]], keys[x]),
    ensures
        ins_idx(s.subrange(0, p), keys, x) + s.subrange(p, s.len() as int) == ins_idx(
            s.subrange(0, p - 1),
            keys,
            x,
        ) + s.subrange(p - 1, s.len() as int),
{
    let a = s.subrange(0, p);
    assert(a.drop_last() =~= s.subrange(0, p - 1));
    assert(a.last() == s[p - 1]);
    let t = ins_idx(s.subrange(0, p - 1), keys, x);
    assert(ins_idx(a, keys, x) == t.push(s[p - 1]));
    assert(t.push(s[p - 1]) + s.subrange(p, s.len() as int) =~= t + s.subrange(p - 1, s.len() as int));
}

/// `a <= b` in `str::cmp` order.
pub fn str_lex_le(a: &str, b: &str) -> (r: bool)
    ensures
        r == lex_le(a@, b@),
{
    let x = crate::text::str_chars(a);
    let y = crate::text::str_chars(b);
    chars_lex_le(&x, &y)
}

pub open spec fn keys_view(keys: Seq<String>) -> Seq<Seq<char>> {
    keys.map_values(|k: String| k@)
}

pub open spec fn idx_view(v: Seq<usize>) -> Seq<int> {
    v.map_values(|i: usize| i as int)
}

/// The order in which `sort` puts `keys`, as indices into `keys`
/// (stable: equal keys keep their order).
pub fn sorted_indices(keys: &Vec<String>) -> (r: Vec<usize>)
    ensures
        idx_view(r@) == sort_idx(keys_view(keys@), keys@.len() as nat),
        r@.len() == keys@.len(),
        forall|k: int| 0 <= k < r@.len() ==> #[trigger] r@[k] < keys@.len(),
{
    let ghost kv = keys_view(keys@);
    let mut out: Vec<usize> = Vec::new();
    let mut i: usize = 0;
    while i < keys.len()
        invariant
            i <= keys.len(),
            kv == keys_view(keys@),
            idx_view(out@) == sort_idx(kv, i as nat),
            out@.len() == i,
            forall|k: int| 0 <= k < out@.len() ==> #[trigger] out@[k] < i,
        decreases keys.len() - i,
    {
        let ghost s = idx_view(out@);
        proof {
            lemma_sort_idx_range(kv, i as nat);
        }
        let mut p: usize = out.len();
        assert(s.subrange(0, p as int) =~= s);
        assert(s.subrange(p as int, s.len() as int) =~= Seq::<int>::empty());
        while p > 0 && !str_lex_le(keys[out[p - 1]].as_str(), keys[i].as_str())
            invariant
                p <= out@.len(),
                out@.len() == i,
                i < keys@.len(),
                s == idx_view(out@),
                kv == keys_view(keys@),
                forall|k: int| 0 <= k < out@.len() ==> #[trigger] out@[k] < i,
                ins_idx(s, kv, i as int) == ins_idx(s.subrange(0, p as int), kv, i as int) + s.subrange(
                    p as int,
                    s.len() as int,
                ),
            decreases p,
        {
            proof {
                assert(s[p - 1] == out@[p - 1] as int);
                assert(kv[s[p - 1]] == keys@[out@[p - 1] as int]@);
                lemma_ins_idx_split(s, kv, i as int, p as int);
            }
            p = p - 1;
        }
        proof {
            let a = s.subrange(0, p as int);
            if p > 0 {
                assert(a.last() == s[p - 1]);
                assert(kv[s[p - 1]] == keys@[out@[p - 1] as int]@);
                assert(ins_idx(a, kv, i as int) == a.push(i as int));
            } else {
                assert(ins_idx(a, kv, i as int) == seq![i as int]);
            }
        }
        out.insert(p, i);
        proof {
            assert(idx_view(out@) =~= s.subrange(0, p as int).push(i as int) + s.subrange(p as int, s.len() as int));
            assert(idx_view(out@) =~= sort_idx(kv, (i + 1) as nat));
        }
        i = i + 1;
    }
    proof {
        lemma_sort_idx_range(kv, i as nat);
    }
    out
}

} // verus!
