//! What the bits of a score say of its order.

use vstd::prelude::*;

use crate::score::{is_unit_or_absent, Score};

verus! {

/// Of scores without a sign, the one with the larger bits is the larger; a signed
/// one comes below every one without, and of two signed ones the one with the
/// larger bits comes first. Zero is zero with either sign.
pub proof fn law_scores_are_ordered_by_their_bits(a: Score, b: Score, x: i128, y: i128)
    requires
        call_ensures(Score::order, (a,), x),
        call_ensures(Score::order, (b,), y),
    ensures
        a.bits < 0x8000_0000_0000_0000 && b.bits < 0x8000_0000_0000_0000 ==> (x < y <==> a.bits
            < b.bits),
        a.bits >= 0x8000_0000_0000_0000 && b.bits >= 0x8000_0000_0000_0000 ==> (x < y <==> a.bits
            > b.bits),
        a.bits > 0x8000_0000_0000_0000 && b.bits < 0x8000_0000_0000_0000 ==> x < y,
        a.bits == 0x8000_0000_0000_0000 ==> x == 0,
        b.bits == 0 ==> y == 0,
{
}

/// A score is of the unit range where its bits lie between those of zero and one,
/// or are those of zero with a sign; a score that is absent is accepted.
pub proof fn law_unit_scores_lie_between_zero_and_one(
    score: Score,
    unit: bool,
    optional: Option<Score>,
    accepted: bool,
    number: bool,
)
    requires
        call_ensures(Score::is_unit, (score,), unit),
        call_ensures(is_unit_or_absent, (optional,), accepted),
        call_ensures(Score::is_nan, (score,), number),
    ensures
        unit <==> score.bits <= 0x3ff0_0000_0000_0000 || score.bits == 0x8000_0000_0000_0000,
        accepted <==> optional is None || optional->0.bits <= 0x3ff0_0000_0000_0000
            || optional->0.bits == 0x8000_0000_0000_0000,
        number <==> 0x7ff0_0000_0000_0000 < score.bits < 0x8000_0000_0000_0000 || score.bits
            > 0xfff0_0000_0000_0000,
{
}

/// One score is at least another where both are numbers and it is not ordered
/// before the other.
pub proof fn law_least_scores_are_met(
    a: Score,
    b: Score,
    r: bool,
    x: i128,
    y: i128,
    broken_a: bool,
    broken_b: bool,
)
    requires
        call_ensures(Score::is_at_least, (a, b), r),
        call_ensures(Score::order, (a,), x),
        call_ensures(Score::order, (b,), y),
        call_ensures(Score::is_nan, (a,), broken_a),
        call_ensures(Score::is_nan, (b,), broken_b),
    ensures
        r <==> !broken_a && !broken_b && y <= x,
{
}

} // verus!
