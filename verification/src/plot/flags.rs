//! CF flag metadata: `flag_meanings` with `flag_values` or `flag_masks`.
use vstd::prelude::*;

use crate::debug_text::{decimal, u64_text};
use crate::json::{as_str, member_get, obj_get, spec_as_str, JsonNumber, JsonValue};
use crate::numparse::{digit_value, digits_value, parse_i64, parse_u64_radix, spec_parse_i64, spec_parse_u64_radix};
use crate::text::{chars_concat, chars_slice, chars_words, str_chars, string_from_chars, words};
use crate::zarr::location::clone_string;

verus! {

/// Which layer of an array is plotted: the raw values or one flag.
#[derive(Clone, Copy, Debug, Default, PartialEq, Eq, Structural)]
pub enum FlagSelection {
    #[default]
    Raw,
    Flag(usize),
}

/// Whether flag codes are exclusive values or bit masks.
#[derive(Clone, Copy, Debug, PartialEq, Eq, Structural)]
pub enum CfFlagMode {
    Values,
    Masks,
}

/// Parsed CF flag metadata: one meaning per code.
#[derive(Clone, Debug)]
pub struct CfFlags {
    pub meanings: Vec<String>,
    pub codes: Vec<u64>,
    pub mode: CfFlagMode,
}

pub struct FlagsView {
    pub meanings: Seq<Seq<char>>,
    pub codes: Seq<u64>,
    pub mode: CfFlagMode,
}

impl View for CfFlags {
    type V = FlagsView;

    open spec fn view(&self) -> FlagsView {
        FlagsView {
            meanings: self.meanings@.map_values(|s: String| s@),
            codes: self.codes@,
            mode: self.mode,
        }
    }
}

/// `2^k`.
pub open spec fn pow2_of(k: nat) -> nat
    decreases k,
{
    if k == 0 {
        1
    } else {
        2 * pow2_of((k - 1) as nat)
    }
}

/// A flag code token: `0x`/`0X` hexadecimal, `0b`/`0B` binary, or a signed
/// decimal taken as its two's-complement bits.
pub open spec fn spec_token_value(t: Seq<char>) -> Option<u64> {
    if t.len() >= 2 && t[0] == '0' && (t[1] == 'x' || t[1] == 'X') {
        spec_parse_u64_radix(t.subrange(2, t.len() as int), 16)
    } else if t.len() >= 2 && t[0] == '0' && (t[1] == 'b' || t[1] == 'B') {
        spec_parse_u64_radix(t.subrange(2, t.len() as int), 2)
    } else {
        match spec_parse_i64(t) {
            Some(v) => Some(v as u64),
            None => None,
        }
    }
}

/// A JSON number as an integer code: non-negative integers as they are,
/// negative ones as their two's-complement bits; other numbers none.
pub open spec fn spec_number_u64(n: JsonNumber) -> Option<u64> {
    match n {
        JsonNumber::PosInt(u) => Some(u),
        JsonNumber::NegInt(i) => Some(i as u64),
        JsonNumber::Float(_) => None,
    }
}

pub open spec fn spec_json_u64(v: JsonValue) -> Option<u64> {
    match v {
        JsonValue::Number(n) => spec_number_u64(n),
        JsonValue::Str(t) => spec_token_value(t@),
        _ => None,
    }
}

/// All tokens as codes, or none when one is not a code.
pub open spec fn all_tokens(ts: Seq<Seq<char>>) -> Option<Seq<u64>>
    decreases ts.len(),
{
    if ts.len() == 0 {
        Some(Seq::empty())
    } else {
        match (all_tokens(ts.drop_last()), spec_token_value(ts.last())) {
            (Some(a), Some(x)) => Some(a.push(x)),
            _ => None,
        }
    }
}

/// All JSON values as codes, or none when one is not a code.
pub open spec fn all_json_u64(xs: Seq<JsonValue>) -> Option<Seq<u64>>
    decreases xs.len(),
{
    if xs.len() == 0 {
        Some(Seq::empty())
    } else {
        match (all_json_u64(xs.drop_last()), spec_json_u64(xs.last())) {
            (Some(a), Some(x)) => Some(a.push(x)),
            _ => None,
        }
    }
}

/// A list of codes from a JSON value: whitespace-separated tokens, an array,
/// or a single number; never empty.
pub open spec fn spec_numeric_list(v: JsonValue) -> Option<Seq<u64>> {
    match v {
        JsonValue::Str(t) => match all_tokens(words(t@)) {
            Some(l) => if l.len() == 0 {
                None
            } else {
                Some(l)
            },
            None => None,
        },
        JsonValue::Array(xs) => match all_json_u64(xs@) {
            Some(l) => if l.len() == 0 {
                None
            } else {
                Some(l)
            },
            None => None,
        },
        JsonValue::Number(n) => match spec_number_u64(n) {
            Some(x) => Some(seq![x]),
            None => None,
        },
        _ => None,
    }
}

/// `attrs[a]`, else `attrs[b]`.
pub open spec fn get_either(attrs: Seq<(String, JsonValue)>, a: Seq<char>, b: Seq<char>) -> Option<
    JsonValue,
> {
    match member_get(attrs, a) {
        Some(v) => Some(v),
        None => member_get(attrs, b),
    }
}

/// The flag meanings: the words of `flag_meanings` (or `flags_meanings`),
/// which must be a non-empty string.
pub open spec fn spec_meanings(attrs: Seq<(String, JsonValue)>) -> Option<Seq<Seq<char>>> {
    match get_either(attrs, "flag_meanings"@, "flags_meanings"@) {
        None => None,
        Some(v) => match spec_as_str(v) {
            None => None,
            Some(t) => if words(t).len() == 0 {
                None
            } else {
                Some(words(t))
            },
        },
    }
}

/// The flag codes: `flag_masks` (or `flags_masks`) as masks when present,
/// else `flag_values` (or `flags_values`) as values.
pub open spec fn spec_codes(attrs: Seq<(String, JsonValue)>) -> Option<(Seq<u64>, CfFlagMode)> {
    match get_either(attrs, "flag_masks"@, "flags_masks"@) {
        Some(v) => match spec_numeric_list(v) {
            Some(l) => Some((l, CfFlagMode::Masks)),
            None => None,
        },
        None => match get_either(attrs, "flag_values"@, "flags_values"@) {
            Some(v) => match spec_numeric_list(v) {
                Some(l) => Some((l, CfFlagMode::Values)),
                None => None,
            },
            None => None,
        },
    }
}

/// CF flags of an array's attributes: meanings and codes, as many of each.
pub open spec fn spec_cf_flags(attrs: Seq<(String, JsonValue)>) -> Option<FlagsView> {
    match (spec_meanings(attrs), spec_codes(attrs)) {
        (Some(m), Some((c, mode))) => if m.len() == c.len() {
            Some(FlagsView { meanings: m, codes: c, mode })
        } else {
            None
        },
        _ => None,
    }
}

/// The lower-case hexadecimal digit of `d` (below 16).
pub open spec fn hex_char(d: nat) -> char {
    if d < 10 {
        (48 + d) as char
    } else {
        (87 + d) as char
    }
}

/// The lower-case hexadecimal numeral of `v`, most significant digit first,
/// without leading zeros (`0` for zero).
pub open spec fn hex_numeral(v: nat) -> Seq<char>
    decreases v,
{
    if v < 16 {
        seq![hex_char(v)]
    } else {
        hex_numeral(v / 16).push(hex_char(v % 16))
    }
}

proof fn lemma_hex_digits_value(v: nat)
    ensures
        digits_value(hex_numeral(v), 16) == Some(v),
        hex_numeral(v).len() > 0,
        hex_numeral(v)[0] != '+',
    decreases v,
{
    let d = if v < 16 { v } else { v % 16 };
    assert(digit_value(hex_char(d), 16) == Some(d)) by {
        if d < 10 {
            assert(hex_char(d) as int == 48 + d);
        } else {
            assert(hex_char(d) as int == 87 + d);
        }
    }
    if v < 16 {
        let h = hex_numeral(v);
        assert(h.drop_last() =~= Seq::<char>::empty());
        assert(h.last() == hex_char(v));
        assert(hex_char(v) as int == 48 + v || hex_char(v) as int == 87 + v);
        assert(digits_value(h.drop_last(), 16) == Some(0nat));
        assert(0nat * 16 + v == v);
        assert(digits_value(h, 16) == Some(v));
    } else {
        lemma_hex_digits_value(v / 16);
        let h = hex_numeral(v);
        assert(h.drop_last() =~= hex_numeral(v / 16));
        assert(h.last() == hex_char(v % 16));
        assert((v / 16) * 16 + v % 16 == v) by (nonlinear_arith);
        assert(digits_value(h.drop_last(), 16) == Some(v / 16));
        assert(digits_value(h, 16) == Some(v));
        assert(h[0] == hex_numeral(v / 16)[0]);
    }
}

/// A flag code written `0x` followed by the hexadecimal digits of a value
/// denotes that value: for every `u64` `v`, `0x` + the lower-case hex of `v`
/// (and the same after `0X`) is read as `v`.
pub proof fn lemma_hex_token_value(v: u64)
    ensures
        spec_token_value(seq!['0', 'x'] + hex_numeral(v as nat)) == Some(v),
        spec_token_value(seq!['0', 'X'] + hex_numeral(v as nat)) == Some(v),
{
    lemma_hex_digits_value(v as nat);
    let h = hex_numeral(v as nat);
    let t = seq!['0', 'x'] + h;
    assert(t.subrange(2, t.len() as int) =~= h);
    let u = seq!['0', 'X'] + h;
    assert(u.subrange(2, u.len() as int) =~= h);
    assert(t[0] == '0' && t[1] == 'x');
    assert(u[0] == '0' && u[1] == 'X');
}

/// A flag code token (see `spec_token_value`).
pub fn parse_u64_token(token: &str) -> (r: Option<u64>)
    ensures
        r == spec_token_value(token@),
{
    let t = str_chars(token);
    if t.len() >= 2 && t[0] == '0' && (t[1] == 'x' || t[1] == 'X') {
        let rest = chars_slice(&t, 2, t.len());
        return parse_u64_radix(&rest, 16);
    }
    if t.len() >= 2 && t[0] == '0' && (t[1] == 'b' || t[1] == 'B') {
        let rest = chars_slice(&t, 2, t.len());
        return parse_u64_radix(&rest, 2);
    }
    match parse_i64(&t) {
        Some(v) => Some(v as u64),
        None => None,
    }
}

fn number_u64(n: &JsonNumber) -> (r: Option<u64>)
    ensures
        r == spec_number_u64(*n),
{
    match n {
        JsonNumber::PosInt(u) => Some(*u),
        JsonNumber::NegInt(i) => Some(*i as u64),
        JsonNumber::Float(_) => None,
    }
}

/// A JSON value as an integer code (see `spec_json_u64`).
pub fn parse_json_number(v: &JsonValue) -> (r: Option<u64>)
    ensures
        r == spec_json_u64(*v),
{
    match v {
        JsonValue::Number(n) => number_u64(n),
        JsonValue::Str(t) => parse_u64_token(t.as_str()),
        _ => None,
    }
}

/// A list of codes from a JSON value (see `spec_numeric_list`).
pub fn parse_numeric_list(value: &JsonValue) -> (r: Option<Vec<u64>>)
    ensures
        match spec_numeric_list(*value) {
            Some(l) => r matches Some(v) && v@ == l,
            None => r is None,
        },
{
    match value {
        JsonValue::Str(text) => {
            let t = str_chars(text.as_str());
            let ws = chars_words(&t);
            let ghost toks = words(text@);
            let mut out: Vec<u64> = Vec::new();
            let mut i: usize = 0;
            while i < ws.len()
                invariant
                    i <= ws.len(),
                    *value == JsonValue::Str(*text),
                    toks == words(text@),
                    ws@.len() == toks.len(),
                    forall|k: int| 0 <= k < ws@.len() ==> #[trigger] ws@[k]@ == toks[k],
                    all_tokens(toks.subrange(0, i as int)) == Some(out@),
                decreases ws.len() - i,
            {
                let tok = string_from_chars(&ws[i]);
                let ghost pre = toks.subrange(0, i + 1);
                proof {
                    assert(pre.drop_last() =~= toks.subrange(0, i as int));
                    assert(pre.last() == ws@[i as int]@);
                }
                match parse_u64_token(tok.as_str()) {
                    Some(x) => {
                        out.push(x);
                    },
                    None => {
                        proof {
                            lemma_all_tokens_none(toks, i as int + 1);
                        }
                        return None;
                    },
                }
                i = i + 1;
            }
            assert(toks.subrange(0, toks.len() as int) =~= toks);
            if out.len() == 0 {
                None
            } else {
                Some(out)
            }
        },
        JsonValue::Array(xs) => {
            let mut out: Vec<u64> = Vec::new();
            let mut i: usize = 0;
            while i < xs.len()
                invariant
                    i <= xs.len(),
                    *value == JsonValue::Array(*xs),
                    all_json_u64(xs@.subrange(0, i as int)) == Some(out@),
                decreases xs.len() - i,
            {
                let ghost pre = xs@.subrange(0, i + 1);
                proof {
                    assert(pre.drop_last() =~= xs@.subrange(0, i as int));
                    assert(pre.last() == xs@[i as int]);
                }
                match parse_json_number(&xs[i]) {
                    Some(x) => {
                        out.push(x);
                    },
                    None => {
                        proof {
                            lemma_all_json_none(xs@, i as int + 1);
                        }
                        return None;
                    },
                }
                i = i + 1;
            }
            assert(xs@.subrange(0, xs@.len() as int) =~= xs@);
            if out.len() == 0 {
                None
            } else {
                Some(out)
            }
        },
        JsonValue::Number(n) => match number_u64(n) {
            Some(x) => {
                let mut v: Vec<u64> = Vec::new();
                v.push(x);
                assert(v@ =~= seq![x]);
                Some(v)
            },
            None => None,
        },
        _ => None,
    }
}

proof fn lemma_all_tokens_none(ts: Seq<Seq<char>>, k: int)
    requires
        0 <= k <= ts.len(),
        all_tokens(ts.subrange(0, k)) is None,
    ensures
        all_tokens(ts) is None,
    decreases ts.len() - k,
{
    if k < ts.len() {
        assert(ts.subrange(0, k + 1).drop_last() =~= ts.subrange(0, k));
        lemma_all_tokens_none(ts, k + 1);
    } else {
        assert(ts.subrange(0, k) =~= ts);
    }
}

proof fn lemma_all_json_none(xs: Seq<JsonValue>, k: int)
    requires
        0 <= k <= xs.len(),
        all_json_u64(xs.subrange(0, k)) is None,
    ensures
        all_json_u64(xs) is None,
    decreases xs.len() - k,
{
    if k < xs.len() {
        assert(xs.subrange(0, k + 1).drop_last() =~= xs.subrange(0, k));
        lemma_all_json_none(xs, k + 1);
    } else {
        assert(xs.subrange(0, k) =~= xs);
    }
}

fn get_either_exec<'a>(attrs: &'a Vec<(String, JsonValue)>, a: &str, b: &str) -> (r: Option<
    &'a JsonValue,
>)
    ensures
        match get_either(attrs@, a@, b@) {
            Some(v) => r matches Some(x) && *x == v,
            None => r is None,
        },
{
    match obj_get(attrs, a) {
        Some(v) => Some(v),
        None => obj_get(attrs, b),
    }
}

/// The flag meanings of an array's attributes (see `spec_meanings`).
pub fn parse_meanings(attrs: &Vec<(String, JsonValue)>) -> (r: Option<Vec<String>>)
    ensures
        match spec_meanings(attrs@) {
            Some(m) => r matches Some(v) && v@.map_values(|s: String| s@) == m,
            None => r is None,
        },
{
    let value = match get_either_exec(attrs, "flag_meanings", "flags_meanings") {
        Some(v) => v,
        None => return None,
    };
    let text = match as_str(value) {
        Some(t) => t,
        None => return None,
    };
    let t = str_chars(text);
    let ws = chars_words(&t);
    let mut out: Vec<String> = Vec::new();
    let mut i: usize = 0;
    while i < ws.len()
        invariant
            i <= ws.len(),
            forall|k: int| 0 <= k < ws@.len() ==> #[trigger] ws@[k]@ == words(text@)[k],
            ws@.len() == words(text@).len(),
            out@.map_values(|s: String| s@) == words(text@).subrange(0, i as int),
        decreases ws.len() - i,
    {
        let ghost before = out@;
        out.push(string_from_chars(&ws[i]));
        assert(out@.map_values(|s: String| s@) =~= before.map_values(|s: String| s@).push(
            ws@[i as int]@,
        ));
        assert(words(text@).subrange(0, i + 1) =~= words(text@).subrange(0, i as int).push(
            words(text@)[i as int],
        ));
        i = i + 1;
    }
    assert(words(text@).subrange(0, words(text@).len() as int) =~= words(text@));
    if out.len() == 0 {
        None
    } else {
        Some(out)
    }
}

/// The flag codes of an array's attributes (see `spec_codes`).
pub fn parse_codes(attrs: &Vec<(String, JsonValue)>) -> (r: Option<(Vec<u64>, CfFlagMode)>)
    ensures
        match spec_codes(attrs@) {
            Some((l, m)) => r matches Some((v, mode)) && v@ == l && mode == m,
            None => r is None,
        },
{
    match get_either_exec(attrs, "flag_masks", "flags_masks") {
        Some(value) => {
            return match parse_numeric_list(value) {
                Some(codes) => Some((codes, CfFlagMode::Masks)),
                None => None,
            };
        },
        None => {},
    }
    match get_either_exec(attrs, "flag_values", "flags_values") {
        Some(value) => match parse_numeric_list(value) {
            Some(codes) => Some((codes, CfFlagMode::Values)),
            None => None,
        },
        None => None,
    }
}

/// Parse CF `flag_meanings` with `flag_values` or `flag_masks` from array attributes.
pub fn parse_cf_flags(attrs: &Vec<(String, JsonValue)>) -> (r: Option<CfFlags>)
    ensures
        match spec_cf_flags(attrs@) {
            Some(f) => r matches Some(x) && x@ == f,
            None => r is None,
        },
{
    let meanings = match parse_meanings(attrs) {
        Some(m) => m,
        None => return None,
    };
    let (codes, mode) = match parse_codes(attrs) {
        Some(c) => c,
        None => return None,
    };
    if meanings.len() != codes.len() {
        return None;
    }
    Some(CfFlags { meanings, codes, mode })
}

/// `code.is_power_of_two()`, with the exponent.
pub open spec fn spec_pow2_index(code: u64) -> Option<nat> {
    if exists|k: nat| k < 64 && pow2_of(k) == code {
        Some(choose|k: nat| k < 64 && pow2_of(k) == code)
    } else {
        None
    }
}

proof fn lemma_pow2_grows(k: nat)
    ensures
        pow2_of(k) >= 1,
        pow2_of(k + 1) > pow2_of(k),
    decreases k,
{
    if k > 0 {
        lemma_pow2_grows((k - 1) as nat);
    }
}

proof fn lemma_pow2_mono(a: nat, b: nat)
    requires
        a <= b,
    ensures
        pow2_of(a) <= pow2_of(b),
    decreases b - a,
{
    if a < b {
        lemma_pow2_mono(a, (b - 1) as nat);
        lemma_pow2_grows((b - 1) as nat);
    }
}

proof fn lemma_pow2_injective(a: nat, b: nat)
    requires
        pow2_of(a) == pow2_of(b),
    ensures
        a == b,
{
    if a < b {
        lemma_pow2_mono(a + 1, b);
        lemma_pow2_grows(a);
    } else if b < a {
        lemma_pow2_mono(b + 1, a);
        lemma_pow2_grows(b);
    }
}

proof fn lemma_pow2_62()
    ensures
        pow2_of(62) == 0x4000_0000_0000_0000,
{
    assert(pow2_of(8) == 256) by {
        reveal_with_fuel(pow2_of, 9);
    }
    assert(pow2_of(16) == 65536) by {
        lemma_pow2_add(8, 8);
    }
    assert(pow2_of(32) == 0x1_0000_0000) by {
        lemma_pow2_add(16, 16);
    }
    assert(pow2_of(48) == 0x1_0000_0000_0000) by {
        lemma_pow2_add(32, 16);
    }
    assert(pow2_of(56) == 0x100_0000_0000_0000) by {
        lemma_pow2_add(48, 8);
    }
    assert(pow2_of(6) == 64) by {
        reveal_with_fuel(pow2_of, 7);
    }
    lemma_pow2_add(56, 6);
}

proof fn lemma_pow2_add(a: nat, b: nat)
    ensures
        pow2_of(a + b) == pow2_of(a) * pow2_of(b),
    decreases b,
{
    if b > 0 {
        let b1 = (b - 1) as nat;
        lemma_pow2_add(a, b1);
        assert((a + b - 1) as nat == a + b1);
        assert(pow2_of(a + b) == 2 * pow2_of((a + b - 1) as nat));
        let x = pow2_of(a);
        let y = pow2_of(b1);
        assert(pow2_of(a + b1) == x * y);
        assert(pow2_of(b) == 2 * y);
        assert(2 * (x * y) == x * (2 * y)) by (nonlinear_arith);
    } else {
        assert(pow2_of(0) == 1);
        assert(a + b == a);
    }
}

fn pow2_index(code: u64) -> (r: Option<u32>)
    ensures
        match spec_pow2_index(code) {
            Some(k) => r == Some(k as u32),
            None => r is None,
        },
{
    let mut p: u64 = 1;
    let mut k: u32 = 0;
    proof {
        lemma_pow2_62();
    }
    while k < 64
        invariant
            k <= 64,
            k < 64 ==> p as nat == pow2_of(k as nat),
            forall|j: nat| j < k ==> pow2_of(j) != code,
            pow2_of(62) == 0x4000_0000_0000_0000,
        decreases 64 - k,
    {
        if p == code {
            proof {
                let kk = k as nat;
                assert(kk < 64 && pow2_of(kk) == code);
                let c = choose|j: nat| j < 64 && pow2_of(j) == code;
                lemma_pow2_injective(c, kk);
            }
            return Some(k);
        }
        if k < 63 {
            proof {
                lemma_pow2_mono(k as nat, 62);
            }
            p = p * 2;
        }
        k = k + 1;
    }
    proof {
        if exists|j: nat| j < 64 && pow2_of(j) == code {
            let j = choose|j: nat| j < 64 && pow2_of(j) == code;
            assert(pow2_of(j) != code);
        }
    }
    None
}

/// The description of the code of flag `index` (0 when there is none).
pub open spec fn spec_code_description(f: FlagsView, index: int) -> Seq<char> {
    let code: u64 = if 0 <= index < f.codes.len() {
        f.codes[index]
    } else {
        0
    };
    match f.mode {
        CfFlagMode::Values => decimal(code as nat),
        CfFlagMode::Masks => match spec_pow2_index(code) {
            Some(k) => "bit "@ + decimal(k) + ", mask "@ + decimal(code as nat),
            None => "mask "@ + decimal(code as nat),
        },
    }
}

/// The label of flag `index`: `[index] meaning (description)`, with `?` for
/// a missing meaning.
pub open spec fn spec_flag_label(f: FlagsView, index: int) -> Seq<char> {
    let meaning = if 0 <= index < f.meanings.len() {
        f.meanings[index]
    } else {
        "?"@
    };
    seq!['['] + decimal(index as nat) + "] "@ + meaning + " ("@ + spec_code_description(f, index)
        + seq![')']
}

fn concat_str(a: &str, b: &str) -> (r: Vec<char>)
    ensures
        r@ == a@ + b@,
{
    let x = str_chars(a);
    let y = str_chars(b);
    chars_concat(&x, &y)
}

impl CfFlags {
    /// Text describing the code of flag `index`: the value itself, or for a
    /// mask `bit k, mask m` when it is a single bit and `mask m` otherwise.
    pub fn code_description(&self, index: usize) -> (r: String)
        ensures
            r@ == spec_code_description(self@, index as int),
    {
        let code: u64 = if index < self.codes.len() {
            self.codes[index]
        } else {
            0
        };
        let digits = u64_text(code);
        match self.mode {
            CfFlagMode::Values => digits,
            CfFlagMode::Masks => match pow2_index(code) {
                Some(k) => {
                    let kt = u64_text(k as u64);
                    let a = concat_str("bit ", kt.as_str());
                    let b = concat_str(", mask ", digits.as_str());
                    let all = chars_concat(&a, &b);
                    string_from_chars(&all)
                },
                None => {
                    let all = concat_str("mask ", digits.as_str());
                    string_from_chars(&all)
                },
            },
        }
    }

    /// `[index] meaning (description)`.
    pub fn flag_label(&self, index: usize) -> (r: String)
        ensures
            r@ == spec_flag_label(self@, index as int),
    {
        let meaning: &str = if index < self.meanings.len() {
            self.meanings[index].as_str()
        } else {
            "?"
        };
        let it = u64_text(index as u64);
        let desc = self.code_description(index);
        let mut buf: Vec<char> = Vec::new();
        buf.push('[');
        let a = str_chars(it.as_str());
        let b = concat_str("] ", meaning);
        let c = concat_str(" (", desc.as_str());
        let ab = chars_concat(&a, &b);
        let abc = chars_concat(&ab, &c);
        let mut all = chars_concat(&buf, &abc);
        all.push(')');
        assert(all@ =~= spec_flag_label(self@, index as int));
        string_from_chars(&all)
    }

    /// Whether the codes are bit masks.
    pub fn uses_bitmasks(&self) -> (r: bool)
        ensures
            r == (self.mode == CfFlagMode::Masks),
    {
        match self.mode {
            CfFlagMode::Masks => true,
            CfFlagMode::Values => false,
        }
    }
}

} // verus!
