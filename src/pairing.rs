use vstd::prelude::*;

use crate::action::Action;

verus! {

/// A paired situation that borrows its two actions from the input streams.
#[derive(Clone, Copy, Debug)]
pub struct RowRef<'a> {
    pub opponent_initiation: &'a Action,
    pub player_response: &'a Action,
    pub response_delay: usize,
}

/// A paired situation that owns copies of its two actions.
#[derive(Clone, Copy, Debug, PartialEq, Eq)]
pub struct Row {
    pub opponent_initiation: Action,
    pub player_response: Action,
    pub response_delay: usize,
}

impl<'a> RowRef<'a> {
    /// The owned row that this borrowed row stands for.
    pub open spec fn view(&self) -> Row {
        Row {
            opponent_initiation: *self.opponent_initiation,
            player_response: *self.player_response,
            response_delay: self.response_delay,
        }
    }

    /// Copies both actions out of the input streams.
    pub fn to_owned_row(&self) -> (r: Row)
        ensures
            r == self@,
    {
        Row {
            opponent_initiation: *self.opponent_initiation,
            player_response: *self.player_response,
            response_delay: self.response_delay,
        }
    }
}

impl Row {
    /// A borrowed view of this row.
    pub fn borrow_view(&self) -> (r: RowRef<'_>)
        ensures
            r@ == *self,
    {
        RowRef {
            opponent_initiation: &self.opponent_initiation,
            player_response: &self.player_response,
            response_delay: self.response_delay,
        }
    }
}

/// The (opponent index, player index) pairs that the forward-only two-pointer
/// join emits, starting with initiation candidate `i` and response
/// candidate `j`.
///
/// A response candidate that does not start strictly after the initiation is
/// skipped for good; once a response is found the row is emitted and the
/// next initiation is tried against the same response candidate.
pub open spec fn pairs_from(p: Seq<Action>, o: Seq<Action>, i: int, j: int) -> Seq<(int, int)>
    decreases o.len() - i + p.len() - j,
{
    if i < 0 || j < 0 || i >= o.len() || j >= p.len() {
        Seq::empty()
    } else if p[j].frame_start <= o[i].frame_start {
        pairs_from(p, o, i, j + 1)
    } else {
        seq![(i, j)] + pairs_from(p, o, i + 1, j)
    }
}

/// The index pairs of the whole pass over player stream `p` and opponent
/// stream `o`.
pub open spec fn pair_indices(p: Seq<Action>, o: Seq<Action>) -> Seq<(int, int)> {
    pairs_from(p, o, 0, 0)
}

/// The row made of opponent action `o[i]` and player action `p[j]`.
pub open spec fn row_at(p: Seq<Action>, o: Seq<Action>, ij: (int, int)) -> Row {
    Row {
        opponent_initiation: o[ij.0],
        player_response: p[ij.1],
        response_delay: (p[ij.1].frame_start - o[ij.0].frame_start) as usize,
    }
}

/// The rows that pairing player stream `p` against opponent stream `o` yields.
pub open spec fn paired_rows(p: Seq<Action>, o: Seq<Action>) -> Seq<Row> {
    pair_indices(p, o).map_values(|ij: (int, int)| row_at(p, o, ij))
}

proof fn lemma_pairs_from_bounds(p: Seq<Action>, o: Seq<Action>, i: int, j: int)
    ensures
        forall|k: int|
            0 <= k < pairs_from(p, o, i, j).len() ==> {
                let ij = #[trigger] pairs_from(p, o, i, j)[k];
                &&& i <= ij.0 < o.len()
                &&& j <= ij.1 < p.len()
                &&& o[ij.0].frame_start < p[ij.1].frame_start
            },
    decreases o.len() - i + p.len() - j,
{
    if i < 0 || j < 0 || i >= o.len() || j >= p.len() {
    } else if p[j].frame_start <= o[i].frame_start {
        lemma_pairs_from_bounds(p, o, i, j + 1);
        assert(pairs_from(p, o, i, j) == pairs_from(p, o, i, j + 1));
    } else {
        lemma_pairs_from_bounds(p, o, i + 1, j);
        let rest = pairs_from(p, o, i + 1, j);
        assert(pairs_from(p, o, i, j) == seq![(i, j)] + rest);
        assert forall|k: int| 0 <= k < pairs_from(p, o, i, j).len() implies {
            let ij = #[trigger] pairs_from(p, o, i, j)[k];
            &&& i <= ij.0 < o.len()
            &&& j <= ij.1 < p.len()
            &&& o[ij.0].frame_start < p[ij.1].frame_start
        } by {
            if k > 0 {
                assert(pairs_from(p, o, i, j)[k] == rest[k - 1]);
            }
        }
    }
}

proof fn lemma_pairs_from_len(p: Seq<Action>, o: Seq<Action>, i: int, j: int)
    requires
        0 <= i <= o.len(),
    ensures
        pairs_from(p, o, i, j).len() <= o.len() - i,
    decreases o.len() - i + p.len() - j,
{
    if i < 0 || j < 0 || i >= o.len() || j >= p.len() {
    } else if p[j].frame_start <= o[i].frame_start {
        lemma_pairs_from_len(p, o, i, j + 1);
    } else {
        lemma_pairs_from_len(p, o, i + 1, j);
    }
}

proof fn lemma_pairs_from_order(p: Seq<Action>, o: Seq<Action>, i: int, j: int)
    ensures
        pairs_from(p, o, i, j).len() > 0 ==> pairs_from(p, o, i, j)[0].0 == i,
        forall|k: int|
            0 <= k < pairs_from(p, o, i, j).len() - 1 ==> {
                &&& (#[trigger] pairs_from(p, o, i, j)[k + 1]).0 == pairs_from(p, o, i, j)[k].0 + 1
                &&& pairs_from(p, o, i, j)[k].1 <= pairs_from(p, o, i, j)[k + 1].1
            },
    decreases o.len() - i + p.len() - j,
{
    if i < 0 || j < 0 || i >= o.len() || j >= p.len() {
    } else if p[j].frame_start <= o[i].frame_start {
        lemma_pairs_from_order(p, o, i, j + 1);
        assert(pairs_from(p, o, i, j) == pairs_from(p, o, i, j + 1));
    } else {
        lemma_pairs_from_order(p, o, i + 1, j);
        lemma_pairs_from_bounds(p, o, i + 1, j);
        let rest = pairs_from(p, o, i + 1, j);
        let s = pairs_from(p, o, i, j);
        assert(s == seq![(i, j)] + rest);
        assert forall|k: int| 0 <= k < s.len() - 1 implies {
            &&& (#[trigger] s[k + 1]).0 == s[k].0 + 1
            &&& s[k].1 <= s[k + 1].1
        } by {
            assert(s[k + 1] == rest[k]);
            if k > 0 {
                assert(s[k] == rest[k - 1]);
                assert(rest[(k - 1) + 1].0 == rest[k - 1].0 + 1);
            } else {
                assert(rest[0].0 == i + 1);
                assert(j <= rest[0].1);
            }
        }
    }
}

/// Every row delay is strictly positive and equals the response's start
/// frame minus the initiation's, and there are never more rows than opponent
/// actions.
pub proof fn lemma_pairing_bounds(p: Seq<Action>, o: Seq<Action>)
    ensures
        paired_rows(p, o).len() <= o.len(),
        forall|k: int|
            0 <= k < paired_rows(p, o).len() ==> {
                let r = #[trigger] paired_rows(p, o)[k];
                &&& r.response_delay > 0
                &&& r.response_delay == r.player_response.frame_start - r.opponent_initiation.frame_start
            },
{
    lemma_pairs_from_len(p, o, 0, 0);
    lemma_pairs_from_bounds(p, o, 0, 0);
    assert forall|k: int| 0 <= k < paired_rows(p, o).len() implies {
        let r = #[trigger] paired_rows(p, o)[k];
        &&& r.response_delay > 0
        &&& r.response_delay == r.player_response.frame_start - r.opponent_initiation.frame_start
    } by {
        let ij = pair_indices(p, o)[k];
        assert(paired_rows(p, o)[k] == row_at(p, o, ij));
    }
}

/// The pass only moves forward: consecutive rows take consecutive opponent
/// actions, starting with the first, and their responses never go back in
/// the player stream.
pub proof fn lemma_pairing_forward_only(p: Seq<Action>, o: Seq<Action>)
    ensures
        pair_indices(p, o).len() > 0 ==> pair_indices(p, o)[0].0 == 0,
        forall|k: int|
            0 <= k < pair_indices(p, o).len() - 1 ==> {
                &&& (#[trigger] pair_indices(p, o)[k + 1]).0 == pair_indices(p, o)[k].0 + 1
                &&& pair_indices(p, o)[k].1 <= pair_indices(p, o)[k + 1].1
            },
{
    lemma_pairs_from_order(p, o, 0, 0);
}

/// A player action is the response of two rows only when it starts after
/// the next opponent action as well. So when every matched response starts
/// no later than the opponent action after its initiation, each player
/// action is used at most once and there are at most as many rows as player
/// actions.
pub proof fn lemma_responses_used_once(p: Seq<Action>, o: Seq<Action>)
    requires
        forall|k: int|
            0 <= k < pair_indices(p, o).len() && (#[trigger] pair_indices(p, o)[k]).0 + 1 < o.len()
                ==> p[pair_indices(p, o)[k].1].frame_start <= o[pair_indices(p, o)[k].0 + 1].frame_start,
    ensures
        forall|k: int, l: int|
            0 <= k < l < pair_indices(p, o).len() ==> #[trigger] pair_indices(p, o)[k].1
                < #[trigger] pair_indices(p, o)[l].1,
        paired_rows(p, o).len() <= p.len(),
{
    let s = pair_indices(p, o);
    lemma_pairs_from_order(p, o, 0, 0);
    lemma_pairs_from_bounds(p, o, 0, 0);
    assert forall|k: int| 0 <= k < s.len() - 1 implies s[k].1 < #[trigger] s[k + 1].1 by {
        assert(s[k + 1].0 == s[k].0 + 1);
        assert(o[s[k + 1].0].frame_start < p[s[k + 1].1].frame_start);
    }
    assert forall|k: int, l: int| 0 <= k < l < s.len() implies #[trigger] s[k].1 < #[trigger] s[l].1 by {
        lemma_strictly_increasing(s, k, l);
    }
    if s.len() > 0 {
        lemma_strictly_increasing(s, 0, s.len() - 1);
        lemma_index_at_least(s, s.len() - 1);
    }
}

proof fn lemma_strictly_increasing(s: Seq<(int, int)>, k: int, l: int)
    requires
        0 <= k <= l < s.len(),
        forall|m: int| 0 <= m < s.len() - 1 ==> s[m].1 < #[trigger] s[m + 1].1,
    ensures
        k < l ==> s[k].1 < s[l].1,
        s[l].1 - s[k].1 >= l - k,
    decreases l - k,
{
    if k < l {
        lemma_strictly_increasing(s, k, l - 1);
        assert(s[l - 1].1 < s[(l - 1) + 1].1);
    }
}

proof fn lemma_index_at_least(s: Seq<(int, int)>, l: int)
    requires
        0 <= l < s.len(),
        s[0].1 >= 0,
        s[l].1 - s[0].1 >= l,
    ensures
        s[l].1 >= l,
{
}

/// Pairing is a function of its two input streams alone: equal inputs give
/// equal rows.
pub proof fn lemma_pairing_deterministic(p1: Seq<Action>, o1: Seq<Action>, p2: Seq<Action>, o2: Seq<Action>)
    requires
        p1 == p2,
        o1 == o2,
    ensures
        paired_rows(p1, o1) == paired_rows(p2, o2),
{
}

/// Pairs each opponent initiation with the player response candidate held by
/// a forward-only cursor: the first player action not yet passed over that
/// starts strictly after the initiation. Pairing stops as soon as either
/// stream is exhausted.
pub fn generate_rows_from_game<'a>(player_actions: &'a [Action], opponent_actions: &'a [Action]) -> (rows: Vec<RowRef<'a>>)
    ensures
        rows@.len() == paired_rows(player_actions@, opponent_actions@).len(),
        forall|k: int|
            0 <= k < rows@.len() ==> (#[trigger] rows@[k])@ == paired_rows(player_actions@, opponent_actions@)[k],
{
    let ghost p = player_actions@;
    let ghost o = opponent_actions@;
    let mut rows: Vec<RowRef<'a>> = Vec::new();
    let ghost mut done: Seq<(int, int)> = Seq::empty();
    let mut i: usize = 0;
    let mut j: usize = 0;
    while i < opponent_actions.len() && j < player_actions.len()
        invariant
            p == player_actions@,
            o == opponent_actions@,
            i <= o.len(),
            j <= p.len(),
            pair_indices(p, o) == done + pairs_from(p, o, i as int, j as int),
            rows@.len() == done.len(),
            forall|k: int| 0 <= k < done.len() ==> 0 <= (#[trigger] done[k]).0 < o.len() && 0 <= done[k].1 < p.len(),
            forall|k: int| 0 <= k < done.len() ==> (#[trigger] rows@[k])@ == row_at(p, o, done[k]),
        decreases o.len() - i + p.len() - j,
    {
        let initiation = &opponent_actions[i];
        let response = &player_actions[j];
        if response.frame_start <= initiation.frame_start {
            j = j + 1;
        } else {
            proof {
                assert(pairs_from(p, o, i as int, j as int)
                    == seq![(i as int, j as int)] + pairs_from(p, o, i as int + 1, j as int));
                done = done.push((i as int, j as int));
            }
            rows.push(RowRef {
                opponent_initiation: initiation,
                player_response: response,
                response_delay: response.frame_start - initiation.frame_start,
            });
            i = i + 1;
        }
    }
    assert(pairs_from(p, o, i as int, j as int) =~= Seq::empty());
    assert(done =~= pair_indices(p, o));
    rows
}

} // verus!
