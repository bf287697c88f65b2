//! Socket counts of a collection pass, by state name.

use vstd::prelude::*;
use crate::record::RawSocketRecord;
use crate::sysctl::TcpSysStats;

verus! {

/// A collection pass as the exporter reports it: the socket total, the
/// number of sockets per state name (ordered by name) and the system-wide
/// counters.
pub struct Snapshot {
    pub total_sockets: u64,
    pub state_counts: Vec<(String, u64)>,
    pub sys_stats: TcpSysStats,
}

/// Name of a kernel TCP state (0-10); anything else is `UNKNOWN`.
pub open spec fn state_name_spec(state: i32) -> Seq<char> {
    if state == 0 {
        "CLOSED"@
    } else if state == 1 {
        "LISTEN"@
    } else if state == 2 {
        "SYN_SENT"@
    } else if state == 3 {
        "SYN_RECEIVED"@
    } else if state == 4 {
        "ESTABLISHED"@
    } else if state == 5 {
        "CLOSE_WAIT"@
    } else if state == 6 {
        "FIN_WAIT_1"@
    } else if state == 7 {
        "CLOSING"@
    } else if state == 8 {
        "LAST_ACK"@
    } else if state == 9 {
        "FIN_WAIT_2"@
    } else if state == 10 {
        "TIME_WAIT"@
    } else {
        "UNKNOWN"@
    }
}

/// Map kernel TCP state (0-10) to a human-readable name.
pub fn state_name(state: i32) -> (name: &'static str)
    ensures
        name@ == state_name_spec(state),
{
    match state {
        0 => "CLOSED",
        1 => "LISTEN",
        2 => "SYN_SENT",
        3 => "SYN_RECEIVED",
        4 => "ESTABLISHED",
        5 => "CLOSE_WAIT",
        6 => "FIN_WAIT_1",
        7 => "CLOSING",
        8 => "LAST_ACK",
        9 => "FIN_WAIT_2",
        10 => "TIME_WAIT",
        _ => "UNKNOWN",
    }
}

/// Number of distinct state names.
pub const STATE_NAMES: usize = 12;

/// The state whose name is the `k`-th in lexicographic order (CLOSED,
/// CLOSE_WAIT, CLOSING, ESTABLISHED, FIN_WAIT_1, FIN_WAIT_2, LAST_ACK,
/// LISTEN, SYN_RECEIVED, SYN_SENT, TIME_WAIT, UNKNOWN); -1 stands for the
/// unknown states.
pub open spec fn state_in_name_order(k: int) -> i32 {
    if k == 0 {
        0
    } else if k == 1 {
        5
    } else if k == 2 {
        7
    } else if k == 3 {
        4
    } else if k == 4 {
        6
    } else if k == 5 {
        9
    } else if k == 6 {
        8
    } else if k == 7 {
        1
    } else if k == 8 {
        3
    } else if k == 9 {
        2
    } else if k == 10 {
        10
    } else {
        -1i32
    }
}

/// The position of a state's name in lexicographic order.
pub open spec fn name_rank(state: i32) -> int {
    if state == 0 {
        0
    } else if state == 5 {
        1
    } else if state == 7 {
        2
    } else if state == 4 {
        3
    } else if state == 6 {
        4
    } else if state == 9 {
        5
    } else if state == 8 {
        6
    } else if state == 1 {
        7
    } else if state == 3 {
        8
    } else if state == 2 {
        9
    } else if state == 10 {
        10
    } else {
        11
    }
}

/// The state a record counts under: its kernel state, -1 when absent.
pub open spec fn record_state(r: RawSocketRecord) -> i32 {
    match r.state {
        Some(s) => s,
        None => -1i32,
    }
}

/// Records of `recs` whose state name has rank `k`.
pub open spec fn rank_count(recs: Seq<RawSocketRecord>, k: int) -> nat
    decreases recs.len(),
{
    if recs.len() == 0 {
        0
    } else {
        rank_count(recs.drop_last(), k) + if name_rank(record_state(recs.last())) == k {
            1nat
        } else {
            0nat
        }
    }
}

/// The (name, count) pairs of the names of rank `k` and above that occur
/// in `recs`, in name order.
pub open spec fn name_counts_from(recs: Seq<RawSocketRecord>, k: int) -> Seq<(Seq<char>, nat)>
    decreases STATE_NAMES - k,
{
    if k < 0 || k >= STATE_NAMES {
        Seq::empty()
    } else {
        let c = rank_count(recs, k);
        let rest = name_counts_from(recs, k + 1);
        if c > 0 {
            seq![(state_name_spec(state_in_name_order(k)), c)] + rest
        } else {
            rest
        }
    }
}

/// The views of (name, count) pairs.
pub open spec fn pair_views(v: Seq<(String, u64)>) -> Seq<(Seq<char>, nat)> {
    v.map_values(|p: (String, u64)| (p.0@, p.1 as nat))
}

fn rank_of(state: i32) -> (k: usize)
    ensures
        k as int == name_rank(state),
{
    match state {
        0 => 0,
        5 => 1,
        7 => 2,
        4 => 3,
        6 => 4,
        9 => 5,
        8 => 6,
        1 => 7,
        3 => 8,
        2 => 9,
        10 => 10,
        _ => 11,
    }
}

fn count_rank(records: &[RawSocketRecord], k: usize) -> (c: u64)
    requires
        records@.len() <= u64::MAX,
    ensures
        c == rank_count(records@, k as int),
{
    let mut c: u64 = 0;
    let mut i: usize = 0;
    while i < records.len()
        invariant
            i <= records@.len(),
            records@.len() <= u64::MAX,
            c == rank_count(records@.take(i as int), k as int),
            c <= i,
        decreases records@.len() - i,
    {
        assert(records@.take(i + 1).drop_last() =~= records@.take(i as int));
        let s = match records[i].state {
            Some(s) => s,
            None => -1,
        };
        if rank_of(s) == k {
            c = c + 1;
        }
        i = i + 1;
    }
    assert(records@.take(records@.len() as int) =~= records@);
    c
}

/// The number of sockets per state name, ordered by name; a record without
/// a state counts as `UNKNOWN`.
pub fn count_state_names(records: &[RawSocketRecord]) -> (counts: Vec<(String, u64)>)
    requires
        records@.len() <= u64::MAX,
    ensures
        pair_views(counts@) == name_counts_from(records@, 0),
{
    let mut counts: Vec<(String, u64)> = Vec::new();
    let mut k: usize = STATE_NAMES;
    // Built from the last name backwards, then reversed into name order.
    let mut reversed: Vec<(String, u64)> = Vec::new();
    while k > 0
        invariant
            k <= STATE_NAMES,
            records@.len() <= u64::MAX,
            pair_views(reversed@).reverse() == name_counts_from(records@, k as int),
        decreases k,
    {
        k = k - 1;
        let c = count_rank(records, k);
        if c > 0 {
            let name = String::from_str(state_name(state_in_order(k)));
            let ghost before = reversed@;
            reversed.push((name, c));
            assert(pair_views(reversed@) =~= pair_views(before).push((name@, c as nat)));
            assert(pair_views(reversed@).reverse() =~= seq![(name@, c as nat)] + pair_views(
                before,
            ).reverse());
        }
    }
    while reversed.len() > 0
        invariant
            pair_views(counts@) + pair_views(reversed@).reverse() == name_counts_from(records@, 0),
        decreases reversed@.len(),
    {
        let ghost before_c = pair_views(counts@);
        let ghost before_r = pair_views(reversed@);
        match reversed.pop() {
            Some(p) => {
                assert(pair_views(reversed@) =~= before_r.drop_last());
                counts.push(p);
                assert(pair_views(counts@) =~= before_c.push((p.0@, p.1 as nat)));
                assert(before_r.reverse() =~= seq![(p.0@, p.1 as nat)] + before_r.drop_last().reverse());
            },
            None => {},
        }
    }
    assert(pair_views(reversed@).reverse() =~= Seq::<(Seq<char>, nat)>::empty());
    assert(pair_views(counts@) =~= name_counts_from(records@, 0));
    counts
}

fn state_in_order(k: usize) -> (s: i32)
    ensures
        s == state_in_name_order(k as int),
{
    match k {
        0 => 0,
        1 => 5,
        2 => 7,
        3 => 4,
        4 => 6,
        5 => 9,
        6 => 8,
        7 => 1,
        8 => 3,
        9 => 2,
        10 => 10,
        _ => -1,
    }
}

/// The exporter's snapshot of a collection pass and the system-wide
/// counters read with it.
pub fn snapshot_of(records: &[RawSocketRecord], sys_stats: TcpSysStats) -> (s: Snapshot)
    requires
        records@.len() <= u64::MAX,
    ensures
        s.total_sockets == records@.len(),
        pair_views(s.state_counts@) == name_counts_from(records@, 0),
        s.sys_stats == sys_stats,
{
    Snapshot {
        total_sockets: records.len() as u64,
        state_counts: count_state_names(records),
        sys_stats,
    }
}

/// The counts of (name, count) pairs, summed.
pub open spec fn pairs_total(v: Seq<(Seq<char>, nat)>) -> nat
    decreases v.len(),
{
    if v.len() == 0 {
        0
    } else {
        v[0].1 + pairs_total(v.drop_first())
    }
}

/// Records of `recs` whose state name has rank `k` or above.
spec fn rank_count_from(recs: Seq<RawSocketRecord>, k: int) -> nat
    decreases STATE_NAMES - k,
{
    if k < 0 || k >= STATE_NAMES {
        0
    } else {
        rank_count(recs, k) + rank_count_from(recs, k + 1)
    }
}

proof fn lemma_pairs_total_from(recs: Seq<RawSocketRecord>, k: int)
    requires
        0 <= k,
    ensures
        pairs_total(name_counts_from(recs, k)) == rank_count_from(recs, k),
    decreases STATE_NAMES - k,
{
    if k < STATE_NAMES {
        lemma_pairs_total_from(recs, k + 1);
        let c = rank_count(recs, k);
        let rest = name_counts_from(recs, k + 1);
        if c > 0 {
            let v = seq![(state_name_spec(state_in_name_order(k)), c)] + rest;
            assert(v.drop_first() =~= rest);
        }
    }
}

proof fn lemma_rank_count_from_last(recs: Seq<RawSocketRecord>, k: int)
    requires
        recs.len() > 0,
        0 <= k,
    ensures
        rank_count_from(recs, k) == rank_count_from(recs.drop_last(), k) + if k <= name_rank(
            record_state(recs.last()),
        ) {
            1nat
        } else {
            0nat
        },
    decreases STATE_NAMES - k,
{
    if k < STATE_NAMES {
        lemma_rank_count_from_last(recs, k + 1);
    }
}

proof fn lemma_rank_count_total(recs: Seq<RawSocketRecord>)
    ensures
        rank_count_from(recs, 0) == recs.len(),
    decreases recs.len(),
{
    if recs.len() > 0 {
        lemma_rank_count_total(recs.drop_last());
        lemma_rank_count_from_last(recs, 0);
    } else {
        lemma_rank_count_from_empty(recs, 0);
    }
}

proof fn lemma_rank_count_from_empty(recs: Seq<RawSocketRecord>, k: int)
    requires
        recs.len() == 0,
    ensures
        rank_count_from(recs, k) == 0,
    decreases STATE_NAMES - k,
{
    if 0 <= k < STATE_NAMES {
        lemma_rank_count_from_empty(recs, k + 1);
    }
}

/// The per-state counts add up to the number of records: every record is
/// counted under exactly one state name.
pub proof fn lemma_state_name_counts_add_up(recs: Seq<RawSocketRecord>)
    ensures
        pairs_total(name_counts_from(recs, 0)) == recs.len(),
{
    lemma_pairs_total_from(recs, 0);
    lemma_rank_count_total(recs);
}

/// Two states share a name exactly when they share a rank: the names of the
/// eleven kernel states and `UNKNOWN` are all different.
proof fn lemma_names_distinct(s: i32, t: i32)
    ensures
        (state_name_spec(s) == state_name_spec(t)) == (name_rank(s) == name_rank(t)),
{
    reveal_strlit("CLOSED");
    reveal_strlit("LISTEN");
    reveal_strlit("SYN_SENT");
    reveal_strlit("SYN_RECEIVED");
    reveal_strlit("ESTABLISHED");
    reveal_strlit("CLOSE_WAIT");
    reveal_strlit("FIN_WAIT_1");
    reveal_strlit("CLOSING");
    reveal_strlit("LAST_ACK");
    reveal_strlit("FIN_WAIT_2");
    reveal_strlit("TIME_WAIT");
    reveal_strlit("UNKNOWN");
    let a = state_name_spec(s);
    let b = state_name_spec(t);
    if name_rank(s) != name_rank(t) {
        if a.len() == b.len() {
            assert(a[0] != b[0] || a[1] != b[1] || a[4] != b[4] || a[5] != b[5] || a[9] != b[9]);
        }
    }
}

/// Records of `recs` whose state has the name `name`.
pub open spec fn name_count(recs: Seq<RawSocketRecord>, name: Seq<char>) -> nat
    decreases recs.len(),
{
    if recs.len() == 0 {
        0
    } else {
        name_count(recs.drop_last(), name) + if state_name_spec(record_state(recs.last())) == name {
            1nat
        } else {
            0nat
        }
    }
}

/// A state is counted under its own name: the name at its rank is its name,
/// and for a kernel state (0 to 10) the state at its rank is itself.
pub proof fn lemma_counted_under_own_name(s: i32)
    ensures
        state_name_spec(state_in_name_order(name_rank(s))) == state_name_spec(s),
        0 <= s <= 10 ==> state_in_name_order(name_rank(s)) == s,
        0 <= name_rank(s) < STATE_NAMES,
{
}

proof fn lemma_rank_count_is_name_count(recs: Seq<RawSocketRecord>, k: int)
    requires
        0 <= k < STATE_NAMES,
    ensures
        rank_count(recs, k) == name_count(recs, state_name_spec(state_in_name_order(k))),
    decreases recs.len(),
{
    if recs.len() > 0 {
        lemma_rank_count_is_name_count(recs.drop_last(), k);
        let st = record_state(recs.last());
        let q = state_in_name_order(k);
        lemma_names_distinct(st, q);
        assert(name_rank(q) == k);
    }
}

proof fn lemma_pairs_are_name_counts_from(recs: Seq<RawSocketRecord>, k: int)
    requires
        0 <= k,
    ensures
        forall|j: int|
            0 <= j < name_counts_from(recs, k).len() ==> #[trigger] name_counts_from(recs, k)[j].1
                == name_count(recs, name_counts_from(recs, k)[j].0),
    decreases STATE_NAMES - k,
{
    if k < STATE_NAMES {
        lemma_pairs_are_name_counts_from(recs, k + 1);
        lemma_rank_count_is_name_count(recs, k);
        let rest = name_counts_from(recs, k + 1);
        let c = rank_count(recs, k);
        if c > 0 {
            let v = seq![(state_name_spec(state_in_name_order(k)), c)] + rest;
            assert forall|j: int| 0 <= j < v.len() implies #[trigger] v[j].1 == name_count(
                recs,
                v[j].0,
            ) by {
                if j > 0 {
                    assert(v[j] == rest[j - 1]);
                }
            }
        }
    }
}

/// Every (name, count) pair of the exporter counts exactly the records whose
/// state has that name.
pub proof fn lemma_pairs_are_name_counts(recs: Seq<RawSocketRecord>)
    ensures
        forall|j: int|
            0 <= j < name_counts_from(recs, 0).len() ==> #[trigger] name_counts_from(recs, 0)[j].1
                == name_count(recs, name_counts_from(recs, 0)[j].0),
{
    lemma_pairs_are_name_counts_from(recs, 0);
}

/// `a` sorts strictly before `b` (byte-wise lexicographic order, as
/// `BTreeMap<&str, _>` orders keys).
pub open spec fn text_lt(a: Seq<char>, b: Seq<char>) -> bool
    decreases a.len(),
{
    if b.len() == 0 {
        false
    } else if a.len() == 0 {
        true
    } else if a[0] != b[0] {
        (a[0] as u32) < (b[0] as u32)
    } else {
        text_lt(a.drop_first(), b.drop_first())
    }
}

/// The names come in strictly increasing order of rank.
pub proof fn lemma_names_in_order(k: int)
    requires
        0 <= k < STATE_NAMES - 1,
    ensures
        text_lt(state_name_spec(state_in_name_order(k)), state_name_spec(state_in_name_order(k + 1))),
{
    reveal_strlit("CLOSED");
    reveal_strlit("CLOSE_WAIT");
    reveal_strlit("CLOSING");
    reveal_strlit("ESTABLISHED");
    reveal_strlit("FIN_WAIT_1");
    reveal_strlit("FIN_WAIT_2");
    reveal_strlit("LAST_ACK");
    reveal_strlit("LISTEN");
    reveal_strlit("SYN_RECEIVED");
    reveal_strlit("SYN_SENT");
    reveal_strlit("TIME_WAIT");
    reveal_strlit("UNKNOWN");
    reveal_with_fuel(text_lt, 12);
}

} // verus!
