//! The inclusive year interval whose members are injected as tokens.

use vstd::prelude::*;

verus! {

/// The interval was given with its lower bound above its upper bound.
#[derive(Debug, Clone, Copy, PartialEq, Eq, Structural)]
pub struct YearRangeError {
    pub from: u16,
    pub to: u16,
}

/// The years `from, from + 1, ..., to`, in ascending order.
pub open spec fn year_seq(from: int, to: int) -> Seq<u16> {
    Seq::new((to - from + 1) as nat, |i: int| (from + i) as u16)
}

/// Every year of the closed interval `[from, to]`, ascending; an interval
/// whose lower bound lies above its upper bound is refused.
pub fn gen_years(from: u16, to: u16) -> (r: Result<Vec<u16>, YearRangeError>)
    ensures
        from > to <==> r is Err,
        r matches Err(e) ==> e == (YearRangeError { from, to }),
        r matches Ok(ys) ==> {
            &&& ys@ == year_seq(from as int, to as int)
            &&& ys@.len() == to - from + 1
            &&& ys@[0] == from
            &&& ys@.last() == to
            &&& forall|i: int, j: int| 0 <= i < j < ys@.len() ==> ys@[i] < ys@[j]
        },
{
    if from > to {
        return Err(YearRangeError { from, to });
    }
    let mut years: Vec<u16> = Vec::new();
    let mut year: u16 = from;
    loop
        invariant_except_break
            from <= year <= to,
            years@ == year_seq(from as int, year as int - 1),
        ensures
            years@ == year_seq(from as int, to as int),
        decreases to - year,
    {
        years.push(year);
        assert(years@ =~= year_seq(from as int, year as int));
        if year == to {
            break;
        }
        year = year + 1;
    }
    Ok(years)
}

} // verus!
