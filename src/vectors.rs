//! Small operations on vectors.

use vstd::prelude::*;

use crate::football::MatchResult;

verus! {

/// The sum of a sequence of integers.
pub open spec fn sum_of(s: Seq<i32>) -> int
    decreases s.len(),
{
    if s.len() == 0 {
        0
    } else {
        sum_of(s.drop_last()) + s.last()
    }
}

/// Appends the sum of the elements.
pub fn append_sum(vec: &mut Vec<i32>)
    requires
        i32::MIN <= sum_of(old(vec)@) <= i32::MAX,
    ensures
        final(vec)@ == old(vec)@.push(sum_of(old(vec)@) as i32),
{
    let mut sum: i128 = 0;
    let mut i: usize = 0;
    while i < vec.len()
        invariant
            i <= vec@.len(),
            sum == sum_of(vec@.subrange(0, i as int)),
            -0x8000_0000 * i <= sum <= 0x7fff_ffff * i,
        decreases vec@.len() - i,
    {
        assert(vec@.subrange(0, i + 1).drop_last() =~= vec@.subrange(0, i as int));
        sum = sum + vec[i] as i128;
        i = i + 1;
    }
    assert(vec@.subrange(0, i as int) =~= vec@);
    vec.push(sum as i32);
}

/// References to the games still to be played, in their order.
pub fn games_to_be_played(all_games: &[MatchResult]) -> (r: Vec<&MatchResult>)
    ensures
        r@.map_values(|g: &MatchResult| *g) == all_games@.filter(|g: MatchResult| g is Scheduled),
{
    let mut scheduled_games: Vec<&MatchResult> = Vec::new();
    let mut i: usize = 0;
    while i < all_games.len()
        invariant
            i <= all_games@.len(),
            scheduled_games@.map_values(|g: &MatchResult| *g) == all_games@.subrange(0, i as int).filter(
                |g: MatchResult| g is Scheduled,
            ),
        decreases all_games@.len() - i,
    {
        let g = &all_games[i];
        proof {
            let pre = all_games@.subrange(0, i + 1);
            assert(pre.drop_last() =~= all_games@.subrange(0, i as int));
            reveal(Seq::filter);
        }
        let ghost before = scheduled_games@;
        if let MatchResult::Scheduled(..) = g {
            scheduled_games.push(g);
            assert(scheduled_games@.map_values(|g: &MatchResult| *g) =~= before.map_values(
                |g: &MatchResult| *g,
            ).push(*g));
        }
        i = i + 1;
    }
    assert(all_games@.subrange(0, i as int) =~= all_games@);
    scheduled_games
}

} // verus!
