use vstd::prelude::*;
use vstd::string::StringSliceAdditionalSpecFns;

verus! {

/// A calendar date as written on the command line: year, month and day.
#[derive(Clone, Copy, PartialEq, Eq, Structural, Debug)]
pub struct DateFields {
    pub year: i32,
    pub month: u32,
    pub day: u32,
}

/// Whether `c` is an ASCII decimal digit.
pub open spec fn is_digit(c: u8) -> bool {
    48 <= c <= 57
}

/// The value of a run of decimal digits, most significant first.
pub open spec fn digits_value(s: Seq<u8>) -> int
    decreases s.len(),
{
    if s.len() == 0 {
        0
    } else {
        digits_value(s.drop_last()) * 10 + (s.last() - 48)
    }
}

/// `s` without a leading `+`.
pub open spec fn unsigned_part(s: Seq<u8>) -> Seq<u8> {
    if s.len() > 0 && s[0] == 43u8 {
        s.drop_first()
    } else {
        s
    }
}

/// The number that `s` writes in decimal, with an optional leading `+`, if it
/// is one and at most `max`.
pub open spec fn number_of(s: Seq<u8>, max: int) -> Option<int> {
    let t = unsigned_part(s);
    if t.len() > 0 && (forall|i: int| 0 <= i < t.len() ==> is_digit(#[trigger] t[i]))
        && digits_value(t) <= max {
        Some(digits_value(t))
    } else {
        None
    }
}

/// Index of the first `-` in `s` at or after `from`, or the length of `s`.
pub open spec fn dash_from(s: Seq<u8>, from: int) -> int
    decreases s.len() - from,
{
    if from >= s.len() {
        s.len() as int
    } else if s[from] == 45u8 {
        from
    } else {
        dash_from(s, from + 1)
    }
}

/// The date that `s` writes as `year-month-day`: exactly three fields
/// separated by `-`, each a number within the range of its type.
pub open spec fn date_of(s: Seq<u8>) -> Option<(int, int, int)> {
    let a = dash_from(s, 0);
    let b = dash_from(s, a + 1);
    if a >= s.len() || b >= s.len() || dash_from(s, b + 1) < s.len() {
        None
    } else {
        match (
            number_of(s.subrange(0, a), i32::MAX as int),
            number_of(s.subrange(a + 1, b), u32::MAX as int),
            number_of(s.subrange(b + 1, s.len() as int), u32::MAX as int),
        ) {
            (Some(y), Some(m), Some(d)) => Some((y, m, d)),
            _ => None,
        }
    }
}

/// A run of digits is worth at least any of its prefixes.
proof fn lemma_value_grows(s: Seq<u8>, k: int)
    requires
        0 <= k <= s.len(),
        forall|i: int| 0 <= i < s.len() ==> is_digit(#[trigger] s[i]),
    ensures
        digits_value(s) >= digits_value(s.subrange(0, k)),
        digits_value(s) >= 0,
    decreases s.len(),
{
    if s.len() > 0 {
        let t = s.drop_last();
        assert forall|i: int| 0 <= i < t.len() implies is_digit(#[trigger] t[i]) by {
            assert(t[i] == s[i]);
        }
        if k == s.len() {
            assert(s.subrange(0, k) =~= s);
            lemma_value_grows(t, 0);
        } else {
            lemma_value_grows(t, k);
            assert(t.subrange(0, k) =~= s.subrange(0, k));
        }
    } else {
        assert(s.subrange(0, k) =~= s);
    }
}

/// Index of the first `-` of `b` at or after `from`, or the length of `b`.
fn find_dash(b: &[u8], from: usize) -> (r: usize)
    requires
        from <= b@.len(),
    ensures
        r == dash_from(b@, from as int),
        from <= r <= b@.len(),
{
    let mut i = from;
    while i < b.len()
        invariant
            from <= i <= b@.len(),
            dash_from(b@, from as int) == dash_from(b@, i as int),
        decreases b@.len() - i,
    {
        if b[i] == 45u8 {
            return i;
        }
        i = i + 1;
    }
    i
}

/// The number that `b[lo..hi]` writes, if it is one and at most `max`.
fn parse_number(b: &[u8], lo: usize, hi: usize, max: u64) -> (r: Option<u64>)
    requires
        lo <= hi <= b@.len(),
        9 <= max <= u32::MAX,
    ensures
        match r {
            Some(v) => number_of(b@.subrange(lo as int, hi as int), max as int) == Some(v as int),
            None => number_of(b@.subrange(lo as int, hi as int), max as int) is None,
        },
{
    let ghost s = b@.subrange(lo as int, hi as int);
    let start: usize = if lo < hi && b[lo] == 43u8 {
        lo + 1
    } else {
        lo
    };
    let ghost t = unsigned_part(s);
    assert(t =~= b@.subrange(start as int, hi as int));
    if start == hi {
        return None;
    }
    let mut v: u64 = 0;
    let mut k = start;
    while k < hi
        invariant
            lo <= start <= k <= hi <= b@.len(),
            t == b@.subrange(start as int, hi as int),
            t == unsigned_part(s),
            s == b@.subrange(lo as int, hi as int),
            9 <= max <= u32::MAX,
            v <= max,
            v == digits_value(b@.subrange(start as int, k as int)),
            forall|i: int| start <= i < k ==> is_digit(#[trigger] b@[i]),
        decreases hi - k,
    {
        let c = b[k];
        let ghost prefix = b@.subrange(start as int, k as int);
        let ghost extended = b@.subrange(start as int, k + 1);
        assert(extended.drop_last() =~= prefix);
        if c < 48u8 || c > 57u8 {
            assert(t[k - start] == c);
            return None;
        }
        let d = (c - 48u8) as u64;
        if v > (max - d) / 10 {
            proof {
                assert(digits_value(extended) == v * 10 + d);
                assert(v * 10 + d > max) by (nonlinear_arith)
                    requires
                        v > (max - d) / 10,
                        d <= 9,
                        max >= 9,
                {
                }
                if forall|i: int| 0 <= i < t.len() ==> is_digit(#[trigger] t[i]) {
                    lemma_value_grows(t, (k + 1 - start) as int);
                    assert(t.subrange(0, (k + 1 - start) as int) =~= extended);
                }
            }
            return None;
        }
        v = v * 10 + d;
        k = k + 1;
    }
    assert(b@.subrange(start as int, k as int) =~= t);
    Some(v)
}

/// Reads a date written `year-month-day`; `Err` unless the text is exactly
/// three `-`-separated decimal fields within range.
pub fn datestr_to_local(s: &str) -> (r: Result<DateFields, ()>)
    ensures
        match r {
            Ok(f) => date_of(s.spec_bytes()) == Some((f.year as int, f.month as int, f.day as int)),
            Err(()) => date_of(s.spec_bytes()) is None,
        },
{
    let b = s.as_bytes();
    let a = find_dash(b, 0);
    if a >= b.len() {
        return Err(());
    }
    let c = find_dash(b, a + 1);
    if c >= b.len() {
        return Err(());
    }
    let e = find_dash(b, c + 1);
    if e < b.len() {
        return Err(());
    }
    let y = parse_number(b, 0, a, i32::MAX as u64);
    let m = parse_number(b, a + 1, c, u32::MAX as u64);
    let d = parse_number(b, c + 1, b.len(), u32::MAX as u64);
    match (y, m, d) {
        (Some(y), Some(m), Some(d)) => Ok(DateFields { year: y as i32, month: m as u32, day: d as u32 }),
        _ => Err(()),
    }
}

} // verus!
