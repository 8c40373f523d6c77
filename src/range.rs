//! Numeric literals and range expressions such as `1..20 | 22 | 35..max`.
use vstd::prelude::*;
use crate::text::{
    has_char, has_tag, is_digit, scan, skip_ws, char_at, lemma_scan_bounds, scan_at, skip_ws_at,
    tag_at, text_out, CharClass, Input, PResult, ParseError,
};
use crate::types::{IntVal, RangeInt, RangeUint, RangeVal, UintVal};

verus! {

pub open spec fn is_nonzero_digit(c: char) -> bool {
    '1' <= c && c <= '9'
}

/// An unsigned literal at `i`: `0`, or a nonzero digit and more digits.
pub open spec fn spec_uint(s: Seq<char>, i: int) -> Option<int> {
    if has_char(s, i, '0') {
        Some(i + 1)
    } else if 0 <= i < s.len() && is_nonzero_digit(s[i]) {
        Some(scan(s, i + 1, CharClass::Digit))
    } else {
        None
    }
}

/// A signed literal at `i`: an optional `-`, then an unsigned literal.
pub open spec fn spec_int(s: Seq<char>, i: int) -> Option<int> {
    if has_char(s, i, '-') {
        spec_uint(s, i + 1)
    } else {
        spec_uint(s, i)
    }
}

pub open spec fn digit_val(c: char) -> int {
    (c as u32) as int - ('0' as u32) as int
}

/// The number that a string of decimal digits denotes.
pub open spec fn decimal(d: Seq<char>) -> int
    decreases d.len(),
{
    if d.len() == 0 {
        0
    } else {
        decimal(d.drop_last()) * 10 + digit_val(d.last())
    }
}

pub open spec fn all_digits(d: Seq<char>) -> bool {
    forall|k: int| 0 <= k < d.len() ==> is_digit(#[trigger] d[k])
}

/// The value of an unsigned literal, where it fits in 64 bits.
pub open spec fn uint_value(t: Seq<char>) -> Option<u64> {
    if decimal(t) <= u64::MAX {
        Some(decimal(t) as u64)
    } else {
        None
    }
}

/// The value of a signed literal, where it fits in 64 bits.
pub open spec fn int_value(t: Seq<char>) -> Option<i64> {
    let v = if t.len() > 0 && t[0] == '-' {
        -decimal(t.subrange(1, t.len() as int))
    } else {
        decimal(t)
    };
    if i64::MIN <= v <= i64::MAX {
        Some(v as i64)
    } else {
        None
    }
}

/// An end of an unsigned range at `i`: `min` (where allowed), `max` (where
/// allowed), or a literal whose value fits.
pub open spec fn spec_uend(s: Seq<char>, i: int, min_ok: bool, max_ok: bool) -> Option<(int, RangeVal<u64>)> {
    if min_ok && has_tag(s, i, "min"@) {
        Some((i + 3, RangeVal::Min))
    } else if max_ok && has_tag(s, i, "max"@) {
        Some((i + 3, RangeVal::Max))
    } else {
        match spec_uint(s, i) {
            Some(e) => match uint_value(s.subrange(i, e)) {
                Some(v) => Some((e, RangeVal::Val(v))),
                None => None,
            },
            None => None,
        }
    }
}

/// Same as `spec_uend`, for signed literals.
pub open spec fn spec_iend(s: Seq<char>, i: int, min_ok: bool, max_ok: bool) -> Option<(int, RangeVal<i64>)> {
    if min_ok && has_tag(s, i, "min"@) {
        Some((i + 3, RangeVal::Min))
    } else if max_ok && has_tag(s, i, "max"@) {
        Some((i + 3, RangeVal::Max))
    } else {
        match spec_int(s, i) {
            Some(e) => match int_value(s.subrange(i, e)) {
                Some(v) => Some((e, RangeVal::Val(v))),
                None => None,
            },
            None => None,
        }
    }
}

/// A single value `v`, with whitespace around it.
pub open spec fn spec_usingle(s: Seq<char>, i: int) -> Option<(int, RangeUint)> {
    match spec_uend(s, skip_ws(s, i), true, true) {
        Some((e, v)) => Some((skip_ws(s, e), RangeUint { start: v, end: RangeVal::Absent })),
        None => None,
    }
}

pub open spec fn spec_isingle(s: Seq<char>, i: int) -> Option<(int, RangeInt)> {
    match spec_iend(s, skip_ws(s, i), true, true) {
        Some((e, v)) => Some((skip_ws(s, e), RangeInt { start: v, end: RangeVal::Absent })),
        None => None,
    }
}

/// A pair `a..b`: each end `min`, `max` or a literal.
pub open spec fn spec_upair(s: Seq<char>, i: int) -> Option<(int, RangeUint)> {
    match spec_uend(s, skip_ws(s, i), true, true) {
        Some((e, a)) => {
            let j = skip_ws(s, e);
            if has_tag(s, j, ".."@) {
                match spec_uend(s, skip_ws(s, j + 2), true, true) {
                    Some((f, b)) => Some((f, RangeUint { start: a, end: b })),
                    None => None,
                }
            } else {
                None
            }
        },
        None => None,
    }
}

pub open spec fn spec_ipair(s: Seq<char>, i: int) -> Option<(int, RangeInt)> {
    match spec_iend(s, skip_ws(s, i), true, true) {
        Some((e, a)) => {
            let j = skip_ws(s, e);
            if has_tag(s, j, ".."@) {
                match spec_iend(s, skip_ws(s, j + 2), true, true) {
                    Some((f, b)) => Some((f, RangeInt { start: a, end: b })),
                    None => None,
                }
            } else {
                None
            }
        },
        None => None,
    }
}

/// One range of a range expression: a pair, or failing that a single value.
pub open spec fn spec_uitem(s: Seq<char>, i: int) -> Option<(int, RangeUint)> {
    match spec_upair(s, i) {
        Some(r) => Some(r),
        None => spec_usingle(s, i),
    }
}

pub open spec fn spec_iitem(s: Seq<char>, i: int) -> Option<(int, RangeInt)> {
    match spec_ipair(s, i) {
        Some(r) => Some(r),
        None => spec_isingle(s, i),
    }
}

/// The ranges that follow `| ` after position `i`; stops before a `|` that
/// no range follows.
pub open spec fn urest(s: Seq<char>, i: int) -> (int, Seq<RangeUint>)
    decreases s.len() - i,
{
    let j = skip_ws(s, i);
    if 0 <= i && has_char(s, j, '|') {
        match spec_uitem(s, skip_ws(s, j + 1)) {
            Some((e, r)) => if i < e <= s.len() {
                let (e2, rs) = urest(s, e);
                (e2, seq![r] + rs)
            } else {
                (i, Seq::empty())
            },
            None => (i, Seq::empty()),
        }
    } else {
        (i, Seq::empty())
    }
}

pub open spec fn irest(s: Seq<char>, i: int) -> (int, Seq<RangeInt>)
    decreases s.len() - i,
{
    let j = skip_ws(s, i);
    if 0 <= i && has_char(s, j, '|') {
        match spec_iitem(s, skip_ws(s, j + 1)) {
            Some((e, r)) => if i < e <= s.len() {
                let (e2, rs) = irest(s, e);
                (e2, seq![r] + rs)
            } else {
                (i, Seq::empty())
            },
            None => (i, Seq::empty()),
        }
    } else {
        (i, Seq::empty())
    }
}

/// A range expression: one or more ranges separated by `|`.
pub open spec fn spec_urange(s: Seq<char>, i: int) -> Option<(int, Seq<RangeUint>)> {
    match spec_uitem(s, i) {
        Some((e, r)) => {
            let (e2, rs) = urest(s, e);
            Some((e2, seq![r] + rs))
        },
        None => None,
    }
}

pub open spec fn spec_irange(s: Seq<char>, i: int) -> Option<(int, Seq<RangeInt>)> {
    match spec_iitem(s, i) {
        Some((e, r)) => {
            let (e2, rs) = irest(s, e);
            Some((e2, seq![r] + rs))
        },
        None => None,
    }
}

/// A public parser's result agrees with a spec result `(end, value)`.
pub open spec fn value_out<T>(s: Seq<char>, r: PResult<T>, m: Option<(int, T)>) -> bool {
    match m {
        Some((e, v)) => r matches Ok((rest, x)) && rest@ == s.subrange(e, s.len() as int) && x == v,
        None => r is Err,
    }
}

/// An internal parser's result agrees with a spec result `(end, value)`.
pub open spec fn same_value<T>(r: Option<(usize, T)>, m: Option<(int, T)>) -> bool {
    match m {
        Some((e, v)) => r matches Some((p, x)) && p == e && x == v,
        None => r is None,
    }
}

/// A public parser's result agrees with a spec result `(end, values)`.
pub open spec fn values_out<T>(s: Seq<char>, r: PResult<Vec<T>>, m: Option<(int, Seq<T>)>) -> bool {
    match m {
        Some((e, v)) => r matches Ok((rest, x)) && rest@ == s.subrange(e, s.len() as int) && x@ == v,
        None => r is Err,
    }
}

proof fn lemma_decimal_nonneg(d: Seq<char>)
    requires
        all_digits(d),
    ensures
        decimal(d) >= 0,
    decreases d.len(),
{
    if d.len() > 0 {
        lemma_decimal_nonneg(d.drop_last());
        assert(is_digit(d[d.len() - 1]));
    }
}

/// A longer run of digits denotes a number at least as large.
proof fn lemma_decimal_mono(d: Seq<char>, k: int)
    requires
        all_digits(d),
        0 <= k <= d.len(),
    ensures
        decimal(d.subrange(0, k)) <= decimal(d),
    decreases d.len() - k,
{
    if k == d.len() {
        assert(d.subrange(0, k) =~= d);
    } else {
        lemma_decimal_mono(d, k + 1);
        let p = d.subrange(0, k + 1);
        assert(p.drop_last() =~= d.subrange(0, k));
        lemma_decimal_nonneg(d.subrange(0, k));
        assert(is_digit(d[k]));
    }
}

/// At `j` there is no unsigned endpoint: the text ends, or holds `-` or
/// another non-digit that does not begin `min` or `max`.
pub open spec fn no_unsigned_end_at(s: Seq<char>, j: int) -> bool {
    &&& !has_tag(s, j, "min"@)
    &&& !has_tag(s, j, "max"@)
    &&& (j >= s.len() || s[j] == '-' || !is_digit(s[j]))
}

/// An unsigned range, single or pair, and so a whole unsigned range
/// expression, is refused where its first character after whitespace is `-`
/// or another non-digit that does not begin `min` or `max`.
pub proof fn unsigned_refuses_negative_or_non_numeric(s: Seq<char>)
    requires
        no_unsigned_end_at(s, skip_ws(s, 0)),
    ensures
        spec_usingle(s, 0) is None,
        spec_upair(s, 0) is None,
        spec_urange(s, 0) is None,
{
    lemma_scan_bounds(s, 0, CharClass::Space);
    let j = skip_ws(s, 0);
    if j < s.len() {
        assert(!is_nonzero_digit(s[j]) && s[j] != '0');
    }
    assert(spec_uint(s, j) is None);
    assert(spec_uend(s, j, true, true) is None);
}

/// The value of the digits `s[from..to]`, or `None` where it exceeds 64 bits.
pub fn decimal_at(s: &Vec<char>, from: usize, to: usize) -> (r: Option<u64>)
    requires
        from <= to <= s.len(),
        all_digits(s@.subrange(from as int, to as int)),
    ensures
        match r {
            Some(v) => v == decimal(s@.subrange(from as int, to as int)),
            None => decimal(s@.subrange(from as int, to as int)) > u64::MAX,
        },
{
    let ghost d = s@.subrange(from as int, to as int);
    let mut acc: u64 = 0;
    let mut k = from;
    assert(d.subrange(0, 0) =~= Seq::<char>::empty());
    while k < to
        invariant
            from <= k <= to <= s.len(),
            d == s@.subrange(from as int, to as int),
            all_digits(d),
            acc == decimal(d.subrange(0, k - from)),
        decreases to - k,
    {
        let c = s[k];
        assert(d[k - from] == c);
        assert(is_digit(d[k - from]));
        let dv = (c as u32 - '0' as u32) as u64;
        let ghost p = d.subrange(0, k - from + 1);
        assert(p.drop_last() =~= d.subrange(0, k - from));
        assert(p.last() == c);
        match acc.checked_mul(10) {
            Some(m) => match m.checked_add(dv) {
                Some(v) => {
                    acc = v;
                },
                None => {
                    proof {
                        lemma_decimal_mono(d, k - from + 1);
                    }
                    return None;
                },
            },
            None => {
                proof {
                    lemma_decimal_nonneg(d.subrange(0, k - from));
                    lemma_decimal_mono(d, k - from + 1);
                }
                return None;
            },
        }
        k = k + 1;
    }
    assert(d.subrange(0, to - from) =~= d);
    Some(acc)
}

pub fn uint_at(s: &Vec<char>, i: usize) -> (r: Option<usize>)
    requires
        i <= s.len(),
    ensures
        match spec_uint(s@, i as int) {
            Some(e) => r matches Some(x) && x == e,
            None => r is None,
        },
        r matches Some(e) ==> i < e <= s.len() && all_digits(s@.subrange(i as int, e as int)),
{
    if char_at(s, i, '0') {
        assert(s@.subrange(i as int, i + 1)[0] == '0');
        Some(i + 1)
    } else if i < s.len() && '1' <= s[i] && s[i] <= '9' {
        let e = scan_at(s, i + 1, CharClass::Digit);
        proof {
            lemma_scan_bounds(s@, i + 1, CharClass::Digit);
            assert forall|k: int| 0 <= k < e - i implies is_digit(#[trigger] s@.subrange(i as int, e as int)[k]) by {
                if k > 0 {
                    assert(s@.subrange(i as int, e as int)[k] == s@[i + k]);
                }
            }
        }
        Some(e)
    } else {
        None
    }
}

pub fn int_at(s: &Vec<char>, i: usize) -> (r: Option<usize>)
    requires
        i <= s.len(),
    ensures
        match spec_int(s@, i as int) {
            Some(e) => r matches Some(x) && x == e,
            None => r is None,
        },
        r matches Some(e) ==> i < e <= s.len(),
        r matches Some(e) ==> (if has_char(s@, i as int, '-') {
            i + 1 < e && all_digits(s@.subrange(i + 1, e as int))
        } else {
            all_digits(s@.subrange(i as int, e as int))
        }),
{
    if char_at(s, i, '-') {
        uint_at(s, i + 1)
    } else {
        uint_at(s, i)
    }
}

/// An unsigned literal: `0`, or a nonzero digit followed by digits.
pub fn uint_parse(s: &str) -> (r: PResult<&str>)
    ensures
        text_out(
            s@,
            r,
            match spec_uint(s@, 0) {
                Some(e) => Some((e, s@.subrange(0, e))),
                None => None,
            },
        ),
{
    let inp = Input::new(s);
    match uint_at(&inp.chars, 0) {
        Some(e) => Ok((inp.rest(e), inp.slice(0, e))),
        None => Err(ParseError {}),
    }
}

/// A signed literal: an optional `-` and an unsigned literal.
pub fn int_parse(s: &str) -> (r: PResult<&str>)
    ensures
        text_out(
            s@,
            r,
            match spec_int(s@, 0) {
                Some(e) => Some((e, s@.subrange(0, e))),
                None => None,
            },
        ),
{
    let inp = Input::new(s);
    match int_at(&inp.chars, 0) {
        Some(e) => Ok((inp.rest(e), inp.slice(0, e))),
        None => Err(ParseError {}),
    }
}

pub fn uend_at(s: &Vec<char>, i: usize, min_ok: bool, max_ok: bool) -> (r: Option<(usize, RangeVal<u64>)>)
    requires
        i <= s.len(),
    ensures
        same_value(r, spec_uend(s@, i as int, min_ok, max_ok)),
        r matches Some((e, _)) ==> i < e <= s.len(),
{
    proof {
        reveal_strlit("min");
        reveal_strlit("max");
    }
    if min_ok && tag_at(s, i, "min") {
        Some((i + 3, RangeVal::Min))
    } else if max_ok && tag_at(s, i, "max") {
        Some((i + 3, RangeVal::Max))
    } else {
        match uint_at(s, i) {
            Some(e) => match decimal_at(s, i, e) {
                Some(v) => Some((e, RangeVal::Val(v))),
                None => None,
            },
            None => None,
        }
    }
}

/// The value of a signed literal `s[i..e]`, or `None` where it does not fit.
fn int_value_at(s: &Vec<char>, i: usize, e: usize) -> (r: Option<i64>)
    requires
        i < e <= s.len(),
        if has_char(s@, i as int, '-') {
            i + 1 < e && all_digits(s@.subrange(i + 1, e as int))
        } else {
            all_digits(s@.subrange(i as int, e as int))
        },
    ensures
        r == int_value(s@.subrange(i as int, e as int)),
{
    let ghost t = s@.subrange(i as int, e as int);
    if s[i] == '-' {
        assert(t[0] == '-');
        assert(t.subrange(1, t.len() as int) =~= s@.subrange(i + 1, e as int));
        match decimal_at(s, i + 1, e) {
            Some(m) => {
                if m <= 9223372036854775807 {
                    Some(-(m as i64))
                } else if m == 9223372036854775808 {
                    Some(i64::MIN)
                } else {
                    None
                }
            },
            None => None,
        }
    } else {
        assert(t[0] == s@[i as int]);
        match decimal_at(s, i, e) {
            Some(m) => {
                if m <= 9223372036854775807 {
                    Some(m as i64)
                } else {
                    None
                }
            },
            None => None,
        }
    }
}

pub fn iend_at(s: &Vec<char>, i: usize, min_ok: bool, max_ok: bool) -> (r: Option<(usize, RangeVal<i64>)>)
    requires
        i <= s.len(),
    ensures
        same_value(r, spec_iend(s@, i as int, min_ok, max_ok)),
        r matches Some((e, _)) ==> i < e <= s.len(),
{
    proof {
        reveal_strlit("min");
        reveal_strlit("max");
    }
    if min_ok && tag_at(s, i, "min") {
        Some((i + 3, RangeVal::Min))
    } else if max_ok && tag_at(s, i, "max") {
        Some((i + 3, RangeVal::Max))
    } else {
        match int_at(s, i) {
            Some(e) => match int_value_at(s, i, e) {
                Some(v) => Some((e, RangeVal::Val(v))),
                None => None,
            },
            None => None,
        }
    }
}

pub fn usingle_at(s: &Vec<char>, i: usize) -> (r: Option<(usize, RangeUint)>)
    requires
        i <= s.len(),
    ensures
        same_value(r, spec_usingle(s@, i as int)),
        r matches Some((e, _)) ==> i < e <= s.len(),
{
    let j = skip_ws_at(s, i);
    match uend_at(s, j, true, true) {
        Some((e, v)) => Some((skip_ws_at(s, e), RangeUint { start: v, end: RangeVal::Absent })),
        None => None,
    }
}

pub fn isingle_at(s: &Vec<char>, i: usize) -> (r: Option<(usize, RangeInt)>)
    requires
        i <= s.len(),
    ensures
        same_value(r, spec_isingle(s@, i as int)),
        r matches Some((e, _)) ==> i < e <= s.len(),
{
    let j = skip_ws_at(s, i);
    match iend_at(s, j, true, true) {
        Some((e, v)) => Some((skip_ws_at(s, e), RangeInt { start: v, end: RangeVal::Absent })),
        None => None,
    }
}

pub fn upair_at(s: &Vec<char>, i: usize) -> (r: Option<(usize, RangeUint)>)
    requires
        i <= s.len(),
    ensures
        same_value(r, spec_upair(s@, i as int)),
        r matches Some((e, _)) ==> i < e <= s.len(),
{
    let j0 = skip_ws_at(s, i);
    match uend_at(s, j0, true, true) {
        Some((e, a)) => {
            let j = skip_ws_at(s, e);
            if tag_at(s, j, "..") {
                proof {
                    reveal_strlit("..");
                }
                match uend_at(s, skip_ws_at(s, j + 2), true, true) {
                    Some((f, b)) => Some((f, RangeUint { start: a, end: b })),
                    None => None,
                }
            } else {
                None
            }
        },
        None => None,
    }
}

pub fn ipair_at(s: &Vec<char>, i: usize) -> (r: Option<(usize, RangeInt)>)
    requires
        i <= s.len(),
    ensures
        same_value(r, spec_ipair(s@, i as int)),
        r matches Some((e, _)) ==> i < e <= s.len(),
{
    let j0 = skip_ws_at(s, i);
    match iend_at(s, j0, true, true) {
        Some((e, a)) => {
            let j = skip_ws_at(s, e);
            if tag_at(s, j, "..") {
                proof {
                    reveal_strlit("..");
                }
                match iend_at(s, skip_ws_at(s, j + 2), true, true) {
                    Some((f, b)) => Some((f, RangeInt { start: a, end: b })),
                    None => None,
                }
            } else {
                None
            }
        },
        None => None,
    }
}

pub fn uitem_at(s: &Vec<char>, i: usize) -> (r: Option<(usize, RangeUint)>)
    requires
        i <= s.len(),
    ensures
        same_value(r, spec_uitem(s@, i as int)),
        r matches Some((e, _)) ==> i < e <= s.len(),
{
    match upair_at(s, i) {
        Some(r) => Some(r),
        None => usingle_at(s, i),
    }
}

pub fn iitem_at(s: &Vec<char>, i: usize) -> (r: Option<(usize, RangeInt)>)
    requires
        i <= s.len(),
    ensures
        same_value(r, spec_iitem(s@, i as int)),
        r matches Some((e, _)) ==> i < e <= s.len(),
{
    match ipair_at(s, i) {
        Some(r) => Some(r),
        None => isingle_at(s, i),
    }
}

pub fn urange_at(s: &Vec<char>, i: usize) -> (r: Option<(usize, Vec<RangeUint>)>)
    requires
        i <= s.len(),
    ensures
        match spec_urange(s@, i as int) {
            Some((e, v)) => r matches Some((p, x)) && p == e && x@ == v,
            None => r is None,
        },
        r matches Some((e, _)) ==> i < e <= s.len(),
{
    match uitem_at(s, i) {
        None => None,
        Some((e0, first)) => {
            let mut acc: Vec<RangeUint> = Vec::new();
            acc.push(first);
            let mut p = e0;
            loop
                invariant
                    i < p <= s.len(),
                    spec_urange(s@, i as int) == Some((urest(s@, p as int).0, acc@ + urest(s@, p as int).1)),
                decreases s.len() - p,
            {
                let j = skip_ws_at(s, p);
                if !char_at(s, j, '|') {
                    assert(acc@ + Seq::<RangeUint>::empty() =~= acc@);
                    return Some((p, acc));
                }
                match uitem_at(s, skip_ws_at(s, j + 1)) {
                    None => {
                        assert(acc@ + Seq::<RangeUint>::empty() =~= acc@);
                        return Some((p, acc));
                    },
                    Some((e, x)) => {
                        proof {
                            let (e2, rr) = urest(s@, e as int);
                            assert(acc@ + (seq![x] + rr) =~= acc@.push(x) + rr);
                        }
                        acc.push(x);
                        p = e;
                    },
                }
            }
        },
    }
}

pub fn irange_at(s: &Vec<char>, i: usize) -> (r: Option<(usize, Vec<RangeInt>)>)
    requires
        i <= s.len(),
    ensures
        match spec_irange(s@, i as int) {
            Some((e, v)) => r matches Some((p, x)) && p == e && x@ == v,
            None => r is None,
        },
        r matches Some((e, _)) ==> i < e <= s.len(),
{
    match iitem_at(s, i) {
        None => None,
        Some((e0, first)) => {
            let mut acc: Vec<RangeInt> = Vec::new();
            acc.push(first);
            let mut p = e0;
            loop
                invariant
                    i < p <= s.len(),
                    spec_irange(s@, i as int) == Some((irest(s@, p as int).0, acc@ + irest(s@, p as int).1)),
                decreases s.len() - p,
            {
                let j = skip_ws_at(s, p);
                if !char_at(s, j, '|') {
                    assert(acc@ + Seq::<RangeInt>::empty() =~= acc@);
                    return Some((p, acc));
                }
                match iitem_at(s, skip_ws_at(s, j + 1)) {
                    None => {
                        assert(acc@ + Seq::<RangeInt>::empty() =~= acc@);
                        return Some((p, acc));
                    },
                    Some((e, x)) => {
                        proof {
                            let (e2, rr) = irest(s@, e as int);
                            assert(acc@ + (seq![x] + rr) =~= acc@.push(x) + rr);
                        }
                        acc.push(x);
                        p = e;
                    },
                }
            }
        },
    }
}

/// A single unsigned value (`min`, `max` or a literal) with whitespace around it.
pub fn range_uint_single_parse(s: &str) -> (r: PResult<RangeUint>)
    ensures
        value_out(s@, r, spec_usingle(s@, 0)),
{
    let inp = Input::new(s);
    match usingle_at(&inp.chars, 0) {
        Some((e, v)) => Ok((inp.rest(e), v)),
        None => Err(ParseError {}),
    }
}

/// A single signed value (`min`, `max` or a literal) with whitespace around it.
pub fn range_int_single_parse(s: &str) -> (r: PResult<RangeInt>)
    ensures
        value_out(s@, r, spec_isingle(s@, 0)),
{
    let inp = Input::new(s);
    match isingle_at(&inp.chars, 0) {
        Some((e, v)) => Ok((inp.rest(e), v)),
        None => Err(ParseError {}),
    }
}

/// An unsigned pair `a..b`; each end may be `min`, `max` or a literal.  The order
/// of the two ends is not checked.
pub fn range_uint_pair_parse(s: &str) -> (r: PResult<RangeUint>)
    ensures
        value_out(s@, r, spec_upair(s@, 0)),
{
    let inp = Input::new(s);
    match upair_at(&inp.chars, 0) {
        Some((e, v)) => Ok((inp.rest(e), v)),
        None => Err(ParseError {}),
    }
}

/// A signed pair `a..b`; each end may be `min`, `max` or a literal.
pub fn range_int_pair_parse(s: &str) -> (r: PResult<RangeInt>)
    ensures
        value_out(s@, r, spec_ipair(s@, 0)),
{
    let inp = Input::new(s);
    match ipair_at(&inp.chars, 0) {
        Some((e, v)) => Ok((inp.rest(e), v)),
        None => Err(ParseError {}),
    }
}

/// An unsigned range expression: pairs or single values separated by `|`,
/// in source order.  Neither order nor disjointness is checked.
pub fn range_uint_parse(s: &str) -> (r: PResult<Vec<RangeUint>>)
    ensures
        values_out(s@, r, spec_urange(s@, 0)),
{
    let inp = Input::new(s);
    match urange_at(&inp.chars, 0) {
        Some((e, v)) => Ok((inp.rest(e), v)),
        None => Err(ParseError {}),
    }
}

/// A signed range expression: pairs or single values separated by `|`.
pub fn range_int_parse(s: &str) -> (r: PResult<Vec<RangeInt>>)
    ensures
        values_out(s@, r, spec_irange(s@, 0)),
{
    let inp = Input::new(s);
    match irange_at(&inp.chars, 0) {
        Some((e, v)) => Ok((inp.rest(e), v)),
        None => Err(ParseError {}),
    }
}

pub open spec fn to_uint_val(v: RangeVal<u64>) -> UintVal {
    match v {
        RangeVal::Min => UintVal::Min,
        RangeVal::Max => UintVal::Max,
        RangeVal::Val(n) => UintVal::Val(n),
        RangeVal::Absent => UintVal::Min,
    }
}

pub open spec fn to_int_val(v: RangeVal<i64>) -> IntVal {
    match v {
        RangeVal::Min => IntVal::Min,
        RangeVal::Max => IntVal::Max,
        RangeVal::Val(n) => IntVal::Val(n),
        RangeVal::Absent => IntVal::Min,
    }
}

/// An unsigned literal, or the keyword `mmax` (`"min"` or `"max"`).
pub fn uint_parse_value<'a>(input: &'a str, mmax: &str) -> (r: PResult<'a, UintVal>)
    requires
        mmax@ == "min"@ || mmax@ == "max"@,
    ensures
        value_out(
            input@,
            r,
            match spec_uend(input@, 0, mmax@ == "min"@, mmax@ == "max"@) {
                Some((e, v)) => Some((e, to_uint_val(v))),
                None => None,
            },
        ),
{
    proof {
        reveal_strlit("min");
        reveal_strlit("max");
    }
    let is_min = mmax.get_char(1) == 'i';
    let inp = Input::new(input);
    match uend_at(&inp.chars, 0, is_min, !is_min) {
        Some((e, RangeVal::Min)) => Ok((inp.rest(e), UintVal::Min)),
        Some((e, RangeVal::Max)) => Ok((inp.rest(e), UintVal::Max)),
        Some((e, RangeVal::Val(n))) => Ok((inp.rest(e), UintVal::Val(n))),
        _ => Err(ParseError {}),
    }
}

/// A signed literal, or the keyword `mmax` (`"min"` or `"max"`).
pub fn int_parse_value<'a>(input: &'a str, mmax: &str) -> (r: PResult<'a, IntVal>)
    requires
        mmax@ == "min"@ || mmax@ == "max"@,
    ensures
        value_out(
            input@,
            r,
            match spec_iend(input@, 0, mmax@ == "min"@, mmax@ == "max"@) {
                Some((e, v)) => Some((e, to_int_val(v))),
                None => None,
            },
        ),
{
    proof {
        reveal_strlit("min");
        reveal_strlit("max");
    }
    let is_min = mmax.get_char(1) == 'i';
    let inp = Input::new(input);
    match iend_at(&inp.chars, 0, is_min, !is_min) {
        Some((e, RangeVal::Min)) => Ok((inp.rest(e), IntVal::Min)),
        Some((e, RangeVal::Max)) => Ok((inp.rest(e), IntVal::Max)),
        Some((e, RangeVal::Val(n))) => Ok((inp.rest(e), IntVal::Val(n))),
        _ => Err(ParseError {}),
    }
}

} // verus!
