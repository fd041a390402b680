//! Integer parsing as `str::parse` and `from_str_radix` do it.
use vstd::prelude::*;

verus! {

/// Value of `c` as a digit in `radix` (2, 10 or 16; letters either case).
pub open spec fn digit_value(c: char, radix: nat) -> Option<nat> {
    let v: int = if '0' <= c && c <= '9' {
        c as int - '0' as int
    } else if 'a' <= c && c <= 'z' {
        c as int - 'a' as int + 10
    } else if 'A' <= c && c <= 'Z' {
        c as int - 'A' as int + 10
    } else {
        -1
    };
    if 0 <= v < radix {
        Some(v as nat)
    } else {
        None
    }
}

/// Value of a string of digits, most significant first; `None` when a
/// character is not a digit.
pub open spec fn digits_value(ds: Seq<char>, radix: nat) -> Option<nat>
    decreases ds.len(),
{
    if ds.len() == 0 {
        Some(0)
    } else {
        match (digits_value(ds.drop_last(), radix), digit_value(ds.last(), radix)) {
            (Some(hi), Some(d)) => Some(hi * radix + d),
            _ => None,
        }
    }
}

/// `u64::from_str_radix`: an optional `+`, then at least one digit, and a
/// value that fits.
pub open spec fn spec_parse_u64_radix(s: Seq<char>, radix: nat) -> Option<u64> {
    let body = if s.len() > 0 && s[0] == '+' {
        s.drop_first()
    } else {
        s
    };
    if body.len() == 0 {
        None
    } else {
        match digits_value(body, radix) {
            Some(v) => if v <= u64::MAX {
                Some(v as u64)
            } else {
                None
            },
            None => None,
        }
    }
}

/// `str::parse::<i64>`: an optional sign, then at least one decimal digit,
/// and a value in range.
pub open spec fn spec_parse_i64(s: Seq<char>) -> Option<i64> {
    let neg = s.len() > 0 && s[0] == '-';
    let body = if s.len() > 0 && (s[0] == '+' || s[0] == '-') {
        s.drop_first()
    } else {
        s
    };
    if body.len() == 0 {
        None
    } else {
        match digits_value(body, 10) {
            Some(v) => if neg && v <= 0x8000_0000_0000_0000 {
                Some((-(v as int)) as i64)
            } else if !neg && v <= i64::MAX {
                Some(v as i64)
            } else {
                None
            },
            None => None,
        }
    }
}

fn digit_of(c: char, radix: u32) -> (r: Option<u32>)
    requires
        radix == 2 || radix == 10 || radix == 16,
    ensures
        match digit_value(c, radix as nat) {
            Some(v) => r == Some(v as u32),
            None => r is None,
        },
{
    let v: u32 = if '0' <= c && c <= '9' {
        (c as u32) - ('0' as u32)
    } else if 'a' <= c && c <= 'z' {
        (c as u32) - ('a' as u32) + 10
    } else if 'A' <= c && c <= 'Z' {
        (c as u32) - ('A' as u32) + 10
    } else {
        return None;
    };
    if v < radix {
        Some(v)
    } else {
        None
    }
}

/// Value of `ds[from..]` as digits in `radix`, when it fits in a `u64` after
/// the limit `bound` is applied; `None` for a non-digit or a value above `bound`.
fn digits_u64(ds: &[char], from: usize, radix: u32, bound: u64) -> (r: Option<u64>)
    requires
        radix == 2 || radix == 10 || radix == 16,
        from <= ds.len(),
    ensures
        match digits_value(ds@.subrange(from as int, ds@.len() as int), radix as nat) {
            Some(v) => if v <= bound {
                r == Some(v as u64)
            } else {
                r is None
            },
            None => r is None,
        },
{
    let mut acc: u64 = 0;
    let mut i: usize = from;
    let mut overflow = false;
    let ghost body = ds@.subrange(from as int, ds@.len() as int);
    assert(ds@.subrange(from as int, from as int).len() == 0);
    while i < ds.len()
        invariant
            from <= i <= ds.len(),
            radix == 2 || radix == 10 || radix == 16,
            body == ds@.subrange(from as int, ds@.len() as int),
            match digits_value(ds@.subrange(from as int, i as int), radix as nat) {
                Some(v) => if overflow {
                    v > bound
                } else {
                    acc == v && v <= bound
                },
                None => false,
            },
        decreases ds.len() - i,
    {
        let d = digit_of(ds[i], radix);
        let ghost pre = ds@.subrange(from as int, i + 1);
        proof {
            assert(pre.drop_last() =~= ds@.subrange(from as int, i as int));
            assert(pre.last() == ds@[i as int]);
        }
        match d {
            None => {
                proof {
                    lemma_digits_none_extends(ds@, from as int, i as int + 1, radix as nat);
                }
                return None;
            },
            Some(dv) => {
                if !overflow {
                    let m = acc.checked_mul(radix as u64);
                    match m {
                        Some(mv) => match mv.checked_add(dv as u64) {
                            Some(nv) => {
                                if nv <= bound {
                                    acc = nv;
                                } else {
                                    overflow = true;
                                }
                            },
                            None => {
                                overflow = true;
                            },
                        },
                        None => {
                            overflow = true;
                        },
                    }
                } else {
                    proof {
                        let hi = digits_value(ds@.subrange(from as int, i as int), radix as nat)->0;
                        assert(hi * radix >= hi) by (nonlinear_arith)
                            requires
                                radix >= 2,
                                hi >= 0,
                        ;
                    }
                }
            },
        }
        i = i + 1;
    }
    assert(ds@.subrange(from as int, i as int) == body);
    if overflow {
        None
    } else {
        Some(acc)
    }
}

proof fn lemma_digits_none_extends(ds: Seq<char>, from: int, k: int, radix: nat)
    requires
        0 <= from <= k <= ds.len(),
        digits_value(ds.subrange(from, k), radix) is None,
    ensures
        digits_value(ds.subrange(from, ds.len() as int), radix) is None,
    decreases ds.len() - k,
{
    if k < ds.len() {
        let n = ds.subrange(from, k + 1);
        assert(n.drop_last() =~= ds.subrange(from, k));
        lemma_digits_none_extends(ds, from, k + 1, radix);
    }
}

/// `u64::from_str_radix` on a character slice (radix 2, 10 or 16).
pub fn parse_u64_radix(s: &[char], radix: u32) -> (r: Option<u64>)
    requires
        radix == 2 || radix == 10 || radix == 16,
    ensures
        r == spec_parse_u64_radix(s@, radix as nat),
{
    let from: usize = if s.len() > 0 && s[0] == '+' {
        1
    } else {
        0
    };
    proof {
        assert(s@.subrange(from as int, s@.len() as int) =~= (if s@.len() > 0 && s@[0] == '+' {
            s@.drop_first()
        } else {
            s@
        }));
    }
    if from == s.len() {
        return None;
    }
    digits_u64(s, from, radix, u64::MAX)
}

/// `str::parse::<i64>` on a character slice.
pub fn parse_i64(s: &[char]) -> (r: Option<i64>)
    ensures
        r == spec_parse_i64(s@),
{
    let neg = s.len() > 0 && s[0] == '-';
    let from: usize = if s.len() > 0 && (s[0] == '+' || s[0] == '-') {
        1
    } else {
        0
    };
    proof {
        assert(s@.subrange(from as int, s@.len() as int) =~= (if s@.len() > 0 && (s@[0] == '+'
            || s@[0] == '-') {
            s@.drop_first()
        } else {
            s@
        }));
    }
    if from == s.len() {
        return None;
    }
    if neg {
        match digits_u64(s, from, 10, 0x8000_0000_0000_0000u64) {
            Some(v) => {
                if v == 0x8000_0000_0000_0000u64 {
                    Some(i64::MIN)
                } else {
                    let w: i64 = v as i64;
                    Some(-w)
                }
            },
            None => None,
        }
    } else {
        match digits_u64(s, from, 10, 0x7fff_ffff_ffff_ffffu64) {
            Some(v) => Some(v as i64),
            None => None,
        }
    }
}

} // verus!
