use vstd::prelude::*;

verus! {

/// The smaller of two counts.
pub fn min(a: usize, b: usize) -> (r: usize)
    ensures
        r == if a < b { a } else { b },
{
    if a < b {
        return a;
    }
    b
}

/// A duration of `secs` seconds as whole hours, then the minutes and the
/// seconds left over, as a clock shows it.
pub fn clock_parts(secs: u64) -> (r: (u64, u64, u64))
    ensures
        r.0 == secs / 3600,
        r.1 == (secs / 60) % 60,
        r.2 == secs % 60,
        r.0 * 3600 + r.1 * 60 + r.2 == secs,
{
    let h = secs / 3600;
    let m = (secs / 60) % 60;
    let s = secs % 60;
    assert(h * 3600 + m * 60 + s == secs) by (nonlinear_arith)
        requires
            h == secs / 3600,
            m == (secs / 60) % 60,
            s == secs % 60,
    {
        assert(secs == 60 * (secs / 60) + secs % 60);
        assert(secs / 60 == 60 * ((secs / 60) / 60) + (secs / 60) % 60);
        assert((secs / 60) / 60 == secs / 3600);
    }
    (h, m, s)
}

/// Hours of a day counted as started: the whole hours of `secs`, plus one
/// once the day holds more than a quarter hour of activity.
pub fn started_hours(secs: u64) -> (r: u64)
    ensures
        r == if secs / 60 > 15 { secs / 3600 + 1 } else { (secs / 3600) as int },
{
    if secs / 60 > 15 {
        secs / 3600 + 1
    } else {
        secs / 3600
    }
}

} // verus!
