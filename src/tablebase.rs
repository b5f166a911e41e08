use vstd::prelude::*;

use crate::codec::DBRow;

verus! {

/// Whether rows `a` and `b` agree on all eleven situation columns (every
/// column but the two action columns).
pub open spec fn same_situation(a: DBRow, b: DBRow) -> bool {
    &&& a.init_pos_x == b.init_pos_x
    &&& a.init_pos_y == b.init_pos_y
    &&& a.init_vel_x == b.init_vel_x
    &&& a.init_vel_y == b.init_vel_y
    &&& a.resp_pos_x == b.resp_pos_x
    &&& a.resp_pos_y == b.resp_pos_y
    &&& a.resp_vel_x == b.resp_vel_x
    &&& a.resp_vel_y == b.resp_vel_y
    &&& a.init_state == b.init_state
    &&& a.resp_state == b.resp_state
    &&& a.delay == b.delay
}

/// The number of rows of `rows` in situation `key` whose initiation action
/// is `a`.
pub open spec fn init_hits(rows: Seq<DBRow>, key: DBRow, a: int) -> nat
    decreases rows.len(),
{
    if rows.len() == 0 {
        0
    } else {
        init_hits(rows.drop_last(), key, a) + if same_situation(rows.last(), key) && rows.last().init_action
            == a {
            1nat
        } else {
            0nat
        }
    }
}

/// The number of rows of `rows` in situation `key` whose response action is
/// `a`.
pub open spec fn resp_hits(rows: Seq<DBRow>, key: DBRow, a: int) -> nat
    decreases rows.len(),
{
    if rows.len() == 0 {
        0
    } else {
        resp_hits(rows.drop_last(), key, a) + if same_situation(rows.last(), key) && rows.last().resp_action
            == a {
            1nat
        } else {
            0nat
        }
    }
}

/// Whether some row of `rows` in situation `key` has an action code that a
/// histogram of `n` variants has no counter for.
pub open spec fn has_unknown_action(rows: Seq<DBRow>, key: DBRow, n: int) -> bool {
    exists|k: int|
        0 <= k < rows.len() && same_situation(#[trigger] rows[k], key) && (rows[k].init_action >= n
            || rows[k].resp_action >= n)
}

/// A stored row is counted by a query on its own situation: its initiation
/// action and its response action each have a count of at least one.
pub proof fn lemma_stored_row_counted(rows: Seq<DBRow>, k: int, key: DBRow)
    requires
        0 <= k < rows.len(),
        same_situation(rows[k], key),
    ensures
        init_hits(rows, key, rows[k].init_action as int) >= 1,
        resp_hits(rows, key, rows[k].resp_action as int) >= 1,
    decreases rows.len(),
{
    if k < rows.len() - 1 {
        lemma_stored_row_counted(rows.drop_last(), k, key);
        assert(rows.drop_last()[k] == rows[k]);
    }
}

/// A situation that no stored row is in has every count at zero.
pub proof fn lemma_unmatched_key_zero(rows: Seq<DBRow>, key: DBRow, a: int)
    requires
        forall|k: int| 0 <= k < rows.len() ==> !same_situation(#[trigger] rows[k], key),
    ensures
        init_hits(rows, key, a) == 0,
        resp_hits(rows, key, a) == 0,
        !has_unknown_action(rows, key, a),
    decreases rows.len(),
{
    if rows.len() > 0 {
        let rest = rows.drop_last();
        assert forall|k: int| 0 <= k < rest.len() implies !same_situation(#[trigger] rest[k], key) by {
            assert(rest[k] == rows[k]);
        }
        lemma_unmatched_key_zero(rest, key, a);
        assert(!same_situation(rows[rows.len() - 1], key));
    }
}

/// The number of rows of `rows` in situation `key`.
pub open spec fn matching_count(rows: Seq<DBRow>, key: DBRow) -> nat
    decreases rows.len(),
{
    if rows.len() == 0 {
        0
    } else {
        matching_count(rows.drop_last(), key) + if same_situation(rows.last(), key) {
            1nat
        } else {
            0nat
        }
    }
}

/// The sum of the initiation counts of actions `0 .. n`.
pub open spec fn init_total(rows: Seq<DBRow>, key: DBRow, n: int) -> nat
    decreases n,
{
    if n <= 0 {
        0
    } else {
        init_total(rows, key, n - 1) + init_hits(rows, key, n - 1)
    }
}

/// The sum of the response counts of actions `0 .. n`.
pub open spec fn resp_total(rows: Seq<DBRow>, key: DBRow, n: int) -> nat
    decreases n,
{
    if n <= 0 {
        0
    } else {
        resp_total(rows, key, n - 1) + resp_hits(rows, key, n - 1)
    }
}

proof fn lemma_totals_step(rows: Seq<DBRow>, key: DBRow, m: int)
    requires
        rows.len() > 0,
    ensures
        init_total(rows, key, m) == init_total(rows.drop_last(), key, m) + if same_situation(rows.last(), key)
            && 0 <= rows.last().init_action < m {
            1nat
        } else {
            0nat
        },
        resp_total(rows, key, m) == resp_total(rows.drop_last(), key, m) + if same_situation(rows.last(), key)
            && 0 <= rows.last().resp_action < m {
            1nat
        } else {
            0nat
        },
    decreases m,
{
    if m > 0 {
        lemma_totals_step(rows, key, m - 1);
    }
}

/// When every matching row's actions have counters, each side of the
/// histogram over `n` variants sums to the number of matching rows.
pub proof fn lemma_histogram_totals(rows: Seq<DBRow>, key: DBRow, n: int)
    requires
        !has_unknown_action(rows, key, n),
    ensures
        init_total(rows, key, n) == matching_count(rows, key),
        resp_total(rows, key, n) == matching_count(rows, key),
    decreases rows.len(),
{
    if rows.len() == 0 {
        lemma_totals_empty(rows, key, n);
    } else {
        let rest = rows.drop_last();
        assert(!has_unknown_action(rest, key, n)) by {
            if has_unknown_action(rest, key, n) {
                let k = choose|k: int|
                    0 <= k < rest.len() && same_situation(#[trigger] rest[k], key) && (rest[k].init_action >= n
                        || rest[k].resp_action >= n);
                assert(rows[k] == rest[k]);
            }
        }
        lemma_histogram_totals(rest, key, n);
        lemma_totals_step(rows, key, n);
        if same_situation(rows.last(), key) {
            assert(rows[rows.len() - 1] == rows.last());
        }
    }
}

proof fn lemma_totals_empty(rows: Seq<DBRow>, key: DBRow, m: int)
    requires
        rows.len() == 0,
    ensures
        init_total(rows, key, m) == 0,
        resp_total(rows, key, m) == 0,
    decreases m,
{
    if m > 0 {
        lemma_totals_empty(rows, key, m - 1);
    }
}

/// Per-action occurrence counts: counter `a` of each side counts the rows
/// whose initiation (or response) action has ordinal `a`.
pub struct QueryResponce {
    pub init_action_counts: Vec<u32>,
    pub resp_action_counts: Vec<u32>,
}

impl QueryResponce {
    /// Both sides have one counter per action variant.
    pub open spec fn wf(&self) -> bool {
        self.init_action_counts@.len() == self.resp_action_counts@.len()
    }

    /// The number of action variants counted.
    pub open spec fn variants(&self) -> nat {
        self.init_action_counts@.len()
    }

    /// Whether every counter is zero.
    pub open spec fn is_zeroed(&self) -> bool {
        &&& forall|a: int| 0 <= a < self.init_action_counts@.len() ==> #[trigger] self.init_action_counts@[a] == 0
        &&& forall|a: int| 0 <= a < self.resp_action_counts@.len() ==> #[trigger] self.resp_action_counts@[a] == 0
    }

    /// A zeroed histogram with `variant_count` counters on each side.
    pub fn new(variant_count: usize) -> (r: QueryResponce)
        ensures
            r.wf(),
            r.variants() == variant_count,
            r.is_zeroed(),
    {
        let mut init_action_counts: Vec<u32> = Vec::new();
        let mut resp_action_counts: Vec<u32> = Vec::new();
        let mut k: usize = 0;
        while k < variant_count
            invariant
                k <= variant_count,
                init_action_counts@.len() == k,
                resp_action_counts@.len() == k,
                forall|a: int| 0 <= a < k ==> #[trigger] init_action_counts@[a] == 0,
                forall|a: int| 0 <= a < k ==> #[trigger] resp_action_counts@[a] == 0,
            decreases variant_count - k,
        {
            init_action_counts.push(0);
            resp_action_counts.push(0);
            k = k + 1;
        }
        QueryResponce { init_action_counts, resp_action_counts }
    }

    /// Counts one stored outcome. Returns `false`, and changes nothing, when
    /// either action has no counter or its counter is already at its
    /// largest value; otherwise adds one to both counters.
    pub fn record(&mut self, init_action: u16, resp_action: u16) -> (ok: bool)
        requires
            old(self).wf(),
        ensures
            final(self).wf(),
            ok == (init_action < old(self).variants() && resp_action < old(self).variants()
                && old(self).init_action_counts@[init_action as int] < u32::MAX
                && old(self).resp_action_counts@[resp_action as int] < u32::MAX),
            ok ==> final(self).init_action_counts@ == old(self).init_action_counts@.update(
                init_action as int,
                (old(self).init_action_counts@[init_action as int] + 1) as u32,
            ),
            ok ==> final(self).resp_action_counts@ == old(self).resp_action_counts@.update(
                resp_action as int,
                (old(self).resp_action_counts@[resp_action as int] + 1) as u32,
            ),
            !ok ==> *final(self) == *old(self),
    {
        let n = self.init_action_counts.len();
        if (init_action as usize) >= n || (resp_action as usize) >= n {
            return false;
        }
        let ic = self.init_action_counts[init_action as usize];
        let rc = self.resp_action_counts[resp_action as usize];
        if ic == u32::MAX || rc == u32::MAX {
            return false;
        }
        self.init_action_counts.set(init_action as usize, ic + 1);
        self.resp_action_counts.set(resp_action as usize, rc + 1);
        true
    }
}

/// An append-only multiset of stored rows, answering exact-match queries.
pub struct Tablebase {
    rows: Vec<DBRow>,
}

impl Tablebase {
    /// The stored rows, in insertion order.
    pub closed spec fn view(&self) -> Seq<DBRow> {
        self.rows@
    }

    /// The table never holds more rows than a counter can count.
    pub open spec fn wf(&self) -> bool {
        self@.len() <= u32::MAX
    }

    /// An empty table.
    pub fn new() -> (t: Tablebase)
        ensures
            t.wf(),
            t@ == Seq::<DBRow>::empty(),
    {
        Tablebase { rows: Vec::new() }
    }

    /// The number of stored rows.
    pub fn len(&self) -> (n: usize)
        ensures
            n == self@.len(),
    {
        self.rows.len()
    }

    /// Appends `row`; duplicates are kept. Returns `false`, and stores
    /// nothing, when the table is full.
    pub fn insert(&mut self, row: DBRow) -> (ok: bool)
        requires
            old(self).wf(),
        ensures
            final(self).wf(),
            ok == (old(self)@.len() < u32::MAX),
            ok ==> final(self)@ == old(self)@.push(row),
            !ok ==> final(self)@ == old(self)@,
    {
        if self.rows.len() >= u32::MAX as usize {
            return false;
        }
        self.rows.push(row);
        true
    }

    /// Appends the rows of `rows` in order, as many as the table has room
    /// for, and returns how many were stored.
    pub fn insert_all(&mut self, rows: &[DBRow]) -> (n: usize)
        requires
            old(self).wf(),
        ensures
            final(self).wf(),
            n as int == if rows@.len() <= u32::MAX - old(self)@.len() {
                rows@.len() as int
            } else {
                u32::MAX - old(self)@.len()
            },
            final(self)@ == old(self)@ + rows@.take(n as int),
    {
        let mut n: usize = 0;
        while n < rows.len()
            invariant
                self.wf(),
                n <= rows@.len(),
                self@ == old(self)@ + rows@.take(n as int),
            ensures
                self@ == old(self)@ + rows@.take(n as int),
                n == rows@.len() || self@.len() == u32::MAX,
            decreases rows@.len() - n,
        {
            if !self.insert(rows[n]) {
                break;
            }
            assert(rows@.take(n as int + 1) =~= rows@.take(n as int).push(rows@[n as int]));
            n = n + 1;
        }
        n
    }

    /// Counts, into the zeroed histogram `qresp`, the actions of every stored
    /// row in the situation of `key` (its action columns are ignored).
    /// Returns `None` when such a row has an action without a counter.
    pub fn query_preallocated(&self, qresp: QueryResponce, key: &DBRow) -> (r: Option<QueryResponce>)
        requires
            self.wf(),
            qresp.wf(),
            qresp.is_zeroed(),
        ensures
            r is None <==> has_unknown_action(self@, *key, qresp.variants() as int),
            r matches Some(h) ==> {
                &&& h.wf()
                &&& h.variants() == qresp.variants()
                &&& forall|a: int| 0 <= a < h.variants() ==> #[trigger] h.init_action_counts@[a] == init_hits(self@, *key, a)
                &&& forall|a: int| 0 <= a < h.variants() ==> #[trigger] h.resp_action_counts@[a] == resp_hits(self@, *key, a)
            },
    {
        let mut h = qresp;
        let ghost rows = self.rows@;
        let ghost n = h.variants() as int;
        let mut i: usize = 0;
        while i < self.rows.len()
            invariant
                rows == self.rows@,
                rows == self@,
                n == qresp.variants(),
                rows.len() <= u32::MAX,
                i <= rows.len(),
                h.wf(),
                h.variants() == n,
                !has_unknown_action(rows.take(i as int), *key, n),
                forall|a: int| 0 <= a < n ==> #[trigger] h.init_action_counts@[a] == init_hits(rows.take(i as int), *key, a),
                forall|a: int| 0 <= a < n ==> #[trigger] h.resp_action_counts@[a] == resp_hits(rows.take(i as int), *key, a),
                forall|a: int| 0 <= a < n ==> h.init_action_counts@[a] <= i,
                forall|a: int| 0 <= a < n ==> h.resp_action_counts@[a] <= i,
            decreases rows.len() - i,
        {
            let row = self.rows[i];
            let ghost prefix = rows.take(i as int);
            let ghost next = rows.take(i as int + 1);
            assert(next.drop_last() =~= prefix);
            assert(next.last() == row);
            if same_situation_exec(&row, key) {
                proof {
                    if (row.init_action as int) < n {
                        assert(h.init_action_counts@[row.init_action as int] <= i);
                    }
                    if (row.resp_action as int) < n {
                        assert(h.resp_action_counts@[row.resp_action as int] <= i);
                    }
                }
                let ok = h.record(row.init_action, row.resp_action);
                if !ok {
                    assert(rows[i as int] == row);
                    assert(same_situation(rows[i as int], *key));
                    assert(rows[i as int].init_action >= n || rows[i as int].resp_action >= n);
                    assert(has_unknown_action(rows, *key, n));
                    return None;
                }
            }
            proof {
                assert forall|k: int| 0 <= k < next.len() && same_situation(#[trigger] next[k], *key)
                    implies !(next[k].init_action >= n || next[k].resp_action >= n) by {
                    if k < i {
                        assert(next[k] == prefix[k]);
                    }
                }
            }
            i = i + 1;
        }
        assert(rows.take(i as int) =~= rows);
        Some(h)
    }

    /// The histogram over `variant_count` action variants of every stored
    /// row in the situation of `key`; `None` when such a row has an action
    /// without a counter.
    pub fn query(&self, key: &DBRow, variant_count: usize) -> (r: Option<QueryResponce>)
        requires
            self.wf(),
        ensures
            r is None <==> has_unknown_action(self@, *key, variant_count as int),
            r matches Some(h) ==> {
                &&& h.wf()
                &&& h.variants() == variant_count
                &&& forall|a: int| 0 <= a < h.variants() ==> #[trigger] h.init_action_counts@[a] == init_hits(self@, *key, a)
                &&& forall|a: int| 0 <= a < h.variants() ==> #[trigger] h.resp_action_counts@[a] == resp_hits(self@, *key, a)
            },
    {
        self.query_preallocated(QueryResponce::new(variant_count), key)
    }
}

/// Whether `a` and `b` agree on all eleven situation columns.
pub fn same_situation_exec(a: &DBRow, b: &DBRow) -> (r: bool)
    ensures
        r == same_situation(*a, *b),
{
    a.init_pos_x == b.init_pos_x && a.init_pos_y == b.init_pos_y && a.init_vel_x == b.init_vel_x
        && a.init_vel_y == b.init_vel_y && a.resp_pos_x == b.resp_pos_x && a.resp_pos_y == b.resp_pos_y
        && a.resp_vel_x == b.resp_vel_x && a.resp_vel_y == b.resp_vel_y && a.init_state == b.init_state
        && a.resp_state == b.resp_state && a.delay == b.delay
}

} // verus!
