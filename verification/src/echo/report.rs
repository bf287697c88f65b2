//! Pure parts of the client and server: the payload pattern, the target
//! address of a connection, and the per-port traffic report.

use vstd::prelude::*;
use crate::text::{decimal, push_decimal};

verus! {

/// A rotating byte pattern: byte `i` is `i % 256`.
pub fn make_payload(size: usize) -> (buf: Vec<u8>)
    ensures
        buf@.len() == size,
        forall|i: int| 0 <= i < size ==> #[trigger] buf@[i] == (i % 256) as u8,
{
    let mut buf: Vec<u8> = Vec::new();
    let mut i: usize = 0;
    while i < size
        invariant
            i <= size,
            buf@.len() == i,
            forall|j: int| 0 <= j < i ==> #[trigger] buf@[j] == (j % 256) as u8,
        decreases size - i,
    {
        buf.push((i % 256) as u8);
        i = i + 1;
    }
    buf
}

/// The address text of connection `conn_index`: connections go round-robin
/// over the ports; a host containing `:` (IPv6) is bracketed.
pub open spec fn target_address_spec(host: Seq<char>, ports: Seq<u16>, conn_index: u32) -> Seq<char> {
    let port = ports[conn_index as int % ports.len() as int];
    if host.contains(':') {
        "["@ + host + "]:"@ + decimal(port as nat)
    } else {
        host + ":"@ + decimal(port as nat)
    }
}

fn contains_colon(s: &str) -> (r: bool)
    ensures
        r == s@.contains(':'),
{
    let n = s.unicode_len();
    let mut i: usize = 0;
    while i < n
        invariant
            n == s@.len(),
            i <= n,
            forall|j: int| 0 <= j < i ==> s@[j] != ':',
        decreases n - i,
    {
        if s.get_char(i) == ':' {
            assert(s@[i as int] == ':');
            return true;
        }
        i = i + 1;
    }
    false
}

/// The socket address text to connect to for connection `conn_index`.
pub fn target_address(host: &str, ports: &[u16], conn_index: u32) -> (addr: String)
    requires
        ports@.len() > 0,
    ensures
        addr@ == target_address_spec(host@, ports@, conn_index),
{
    let port = ports[conn_index as usize % ports.len()];
    let mut addr;
    if contains_colon(host) {
        addr = String::from_str("[");
        addr.append(host);
        addr.append("]:");
    } else {
        addr = String::from_str(host);
        addr.append(":");
    }
    push_decimal(&mut addr, port as u64);
    addr
}

/// One connection's counters at report time.
#[derive(Debug, Clone, Copy, PartialEq, Eq)]
pub struct ConnectionSample {
    pub port: u16,
    pub written: u64,
    pub read: u64,
}

/// Traffic of all connections to one port.
#[derive(Debug, Clone, Copy, PartialEq, Eq)]
pub struct PortSummary {
    pub port: u16,
    pub connections: u32,
    pub written: u64,
    pub read: u64,
}

/// Connections to `port` among `s`.
pub open spec fn port_connections(s: Seq<ConnectionSample>, port: u16) -> nat
    decreases s.len(),
{
    if s.len() == 0 {
        0
    } else {
        port_connections(s.drop_last(), port) + if s.last().port == port {
            1nat
        } else {
            0nat
        }
    }
}

/// Bytes written on connections to `port` among `s`.
pub open spec fn port_written(s: Seq<ConnectionSample>, port: u16) -> nat
    decreases s.len(),
{
    if s.len() == 0 {
        0
    } else {
        port_written(s.drop_last(), port) + if s.last().port == port {
            s.last().written as nat
        } else {
            0nat
        }
    }
}

/// Bytes read on connections to `port` among `s`.
pub open spec fn port_read(s: Seq<ConnectionSample>, port: u16) -> nat
    decreases s.len(),
{
    if s.len() == 0 {
        0
    } else {
        port_read(s.drop_last(), port) + if s.last().port == port {
            s.last().read as nat
        } else {
            0nat
        }
    }
}

/// Bytes written on all connections of `s`.
pub open spec fn total_written(s: Seq<ConnectionSample>) -> nat
    decreases s.len(),
{
    if s.len() == 0 {
        0
    } else {
        total_written(s.drop_last()) + s.last().written as nat
    }
}

/// Bytes read on all connections of `s`.
pub open spec fn total_read(s: Seq<ConnectionSample>) -> nat
    decreases s.len(),
{
    if s.len() == 0 {
        0
    } else {
        total_read(s.drop_last()) + s.last().read as nat
    }
}

/// `rows` summarizes `s` per port: ordered by strictly increasing port, one
/// row per port that occurs, with the number of connections and the bytes
/// written and read on them.
pub open spec fn summarizes_ports(rows: Seq<PortSummary>, s: Seq<ConnectionSample>) -> bool {
    &&& forall|i: int, j: int| 0 <= i < j < rows.len() ==> #[trigger] rows[i].port < #[trigger] rows[j].port
    &&& forall|i: int|
        0 <= i < rows.len() ==> {
            &&& (#[trigger] rows[i]).connections == port_connections(s, rows[i].port)
            &&& rows[i].written == port_written(s, rows[i].port)
            &&& rows[i].read == port_read(s, rows[i].port)
            &&& rows[i].connections > 0
        }
    &&& forall|k: int|
        0 <= k < s.len() ==> exists|i: int|
            0 <= i < rows.len() && #[trigger] rows[i].port == (#[trigger] s[k]).port
}

proof fn lemma_port_bounds(s: Seq<ConnectionSample>, port: u16)
    ensures
        port_connections(s, port) <= s.len(),
        port_written(s, port) <= total_written(s),
        port_read(s, port) <= total_read(s),
    decreases s.len(),
{
    if s.len() > 0 {
        lemma_port_bounds(s.drop_last(), port);
    }
}

proof fn lemma_port_absent(s: Seq<ConnectionSample>, port: u16)
    requires
        forall|k: int| 0 <= k < s.len() ==> (#[trigger] s[k]).port != port,
    ensures
        port_connections(s, port) == 0,
        port_written(s, port) == 0,
        port_read(s, port) == 0,
    decreases s.len(),
{
    if s.len() > 0 {
        let d = s.drop_last();
        assert forall|k: int| 0 <= k < d.len() implies (#[trigger] d[k]).port != port by {
            assert(d[k] == s[k]);
        }
        lemma_port_absent(d, port);
        assert(s.last() == s[s.len() - 1]);
    }
}

fn add_sample(rows: &mut Vec<PortSummary>, Ghost(s): Ghost<Seq<ConnectionSample>>, c: ConnectionSample)
    requires
        summarizes_ports(old(rows)@, s),
        s.len() + 1 <= u32::MAX,
        total_written(s.push(c)) <= u64::MAX,
        total_read(s.push(c)) <= u64::MAX,
    ensures
        summarizes_ports(final(rows)@, s.push(c)),
{
    let ghost ns = s.push(c);
    assert(ns.drop_last() =~= s);
    assert(ns.last() == c);
    let mut p: usize = 0;
    while p < rows.len() && rows[p].port < c.port
        invariant
            p <= rows@.len(),
            forall|i: int| 0 <= i < p ==> (#[trigger] rows@[i]).port < c.port,
        decreases rows@.len() - p,
    {
        p = p + 1;
    }
    proof {
        lemma_port_bounds(ns, c.port);
    }
    let ghost old_rows = rows@;
    if p < rows.len() && rows[p].port == c.port {
        let r = rows[p];
        rows.set(
            p,
            PortSummary {
                port: c.port,
                connections: r.connections + 1,
                written: r.written + c.written,
                read: r.read + c.read,
            },
        );
        proof {
            assert forall|k: int| 0 <= k < ns.len() implies exists|i: int|
                0 <= i < rows@.len() && #[trigger] rows@[i].port == (#[trigger] ns[k]).port by {
                if k < s.len() {
                    assert(ns[k] == s[k]);
                    let i = choose|i: int| 0 <= i < old_rows.len() && #[trigger] old_rows[i].port == (#[trigger] s[k]).port;
                    assert(rows@[i].port == old_rows[i].port);
                } else {
                    assert(rows@[p as int].port == ns[k].port);
                }
            }
        }
    } else {
        proof {
            assert forall|i: int| 0 <= i < old_rows.len() implies (#[trigger] old_rows[i]).port != c.port by {
                if i > p {
                    assert(old_rows[p as int].port < old_rows[i].port);
                }
            }
            assert forall|k: int| 0 <= k < s.len() implies (#[trigger] s[k]).port != c.port by {
                let i = choose|i: int| 0 <= i < old_rows.len() && #[trigger] old_rows[i].port == (#[trigger] s[k]).port;
            }
            lemma_port_absent(s, c.port);
        }
        rows.insert(p, PortSummary { port: c.port, connections: 1, written: c.written, read: c.read });
        proof {
            assert forall|i: int, j: int|
                0 <= i < j < rows@.len() implies #[trigger] rows@[i].port < #[trigger] rows@[j].port by {
                if j < p {
                    assert(rows@[i] == old_rows[i] && rows@[j] == old_rows[j]);
                } else if j == p {
                    assert(rows@[i] == old_rows[i]);
                } else if i < p {
                    assert(rows@[i] == old_rows[i] && rows@[j] == old_rows[j - 1]);
                    if j - 1 > p {
                        assert(old_rows[p as int].port < old_rows[j - 1].port);
                    }
                } else if i == p {
                    assert(rows@[j] == old_rows[j - 1]);
                    if j - 1 > p {
                        assert(old_rows[p as int].port < old_rows[j - 1].port);
                    }
                } else {
                    assert(rows@[i] == old_rows[i - 1] && rows@[j] == old_rows[j - 1]);
                }
            }
            assert forall|i: int| 0 <= i < rows@.len() implies {
                &&& (#[trigger] rows@[i]).connections == port_connections(ns, rows@[i].port)
                &&& rows@[i].written == port_written(ns, rows@[i].port)
                &&& rows@[i].read == port_read(ns, rows@[i].port)
                &&& rows@[i].connections > 0
            } by {
                if i < p {
                    assert(rows@[i] == old_rows[i]);
                } else if i > p {
                    assert(rows@[i] == old_rows[i - 1]);
                }
            }
            assert forall|k: int| 0 <= k < ns.len() implies exists|i: int|
                0 <= i < rows@.len() && #[trigger] rows@[i].port == (#[trigger] ns[k]).port by {
                if k < s.len() {
                    assert(ns[k] == s[k]);
                    let i = choose|i: int| 0 <= i < old_rows.len() && #[trigger] old_rows[i].port == (#[trigger] s[k]).port;
                    if i < p {
                        assert(rows@[i] == old_rows[i]);
                    } else {
                        assert(rows@[i + 1] == old_rows[i]);
                    }
                } else {
                    assert(rows@[p as int].port == ns[k].port);
                }
            }
        }
    }
}

proof fn lemma_totals_prefix(s: Seq<ConnectionSample>, n: int)
    requires
        0 <= n <= s.len(),
    ensures
        total_written(s.take(n)) <= total_written(s),
        total_read(s.take(n)) <= total_read(s),
    decreases s.len() - n,
{
    if n < s.len() {
        lemma_totals_prefix(s, n + 1);
        assert(s.take(n + 1).drop_last() =~= s.take(n));
    } else {
        assert(s.take(n) =~= s);
    }
}

/// Per-port connection counts and traffic of `samples`, ordered by port.
pub fn summarize_ports(samples: &[ConnectionSample]) -> (rows: Vec<PortSummary>)
    requires
        samples@.len() <= u32::MAX,
        total_written(samples@) <= u64::MAX,
        total_read(samples@) <= u64::MAX,
    ensures
        summarizes_ports(rows@, samples@),
{
    let mut rows: Vec<PortSummary> = Vec::new();
    let mut i: usize = 0;
    while i < samples.len()
        invariant
            i <= samples@.len(),
            samples@.len() <= u32::MAX,
            total_written(samples@) <= u64::MAX,
            total_read(samples@) <= u64::MAX,
            summarizes_ports(rows@, samples@.take(i as int)),
        decreases samples@.len() - i,
    {
        assert(samples@.take(i as int).push(samples@[i as int]) =~= samples@.take(i + 1));
        proof {
            lemma_totals_prefix(samples@, i + 1);
        }
        add_sample(&mut rows, Ghost(samples@.take(i as int)), samples[i]);
        i = i + 1;
    }
    assert(samples@.take(samples@.len() as int) =~= samples@);
    rows
}

/// Bytes written and read on all connections; `None` when a total does not
/// fit in 64 bits.
pub fn traffic_totals(samples: &[ConnectionSample]) -> (r: Option<(u64, u64)>)
    ensures
        match r {
            Some((w, rd)) => w == total_written(samples@) && rd == total_read(samples@),
            None => total_written(samples@) > u64::MAX || total_read(samples@) > u64::MAX,
        },
{
    let mut w: u64 = 0;
    let mut r: u64 = 0;
    let mut i: usize = 0;
    let mut overflow = false;
    while i < samples.len()
        invariant
            i <= samples@.len(),
            !overflow ==> w == total_written(samples@.take(i as int)) && r == total_read(
                samples@.take(i as int),
            ),
            overflow ==> total_written(samples@) > u64::MAX || total_read(samples@) > u64::MAX,
        decreases samples@.len() - i,
    {
        proof {
            lemma_totals_prefix(samples@, i + 1);
            assert(samples@.take(i + 1).drop_last() =~= samples@.take(i as int));
        }
        if !overflow {
            match (w.checked_add(samples[i].written), r.checked_add(samples[i].read)) {
                (Some(nw), Some(nr)) => {
                    w = nw;
                    r = nr;
                },
                _ => {
                    overflow = true;
                },
            }
        }
        i = i + 1;
    }
    assert(samples@.take(samples@.len() as int) =~= samples@);
    if overflow {
        None
    } else {
        Some((w, r))
    }
}

/// Connections counted over all rows.
pub open spec fn rows_connections(rows: Seq<PortSummary>) -> nat
    decreases rows.len(),
{
    if rows.len() == 0 {
        0
    } else {
        rows_connections(rows.drop_last()) + rows.last().connections as nat
    }
}

/// Bytes written over all rows.
pub open spec fn rows_written(rows: Seq<PortSummary>) -> nat
    decreases rows.len(),
{
    if rows.len() == 0 {
        0
    } else {
        rows_written(rows.drop_last()) + rows.last().written as nat
    }
}

/// Bytes read over all rows.
pub open spec fn rows_read(rows: Seq<PortSummary>) -> nat
    decreases rows.len(),
{
    if rows.len() == 0 {
        0
    } else {
        rows_read(rows.drop_last()) + rows.last().read as nat
    }
}

/// What the report sums over connections: their number, or the bytes
/// written or read on them.
enum Measure {
    Count,
    Written,
    Read,
}

spec fn measure(c: ConnectionSample, m: Measure) -> nat {
    match m {
        Measure::Count => 1,
        Measure::Written => c.written as nat,
        Measure::Read => c.read as nat,
    }
}

spec fn row_measure(r: PortSummary, m: Measure) -> nat {
    match m {
        Measure::Count => r.connections as nat,
        Measure::Written => r.written as nat,
        Measure::Read => r.read as nat,
    }
}

/// The measure summed over the connections of `s` to a port in `ports`.
spec fn ports_measure(s: Seq<ConnectionSample>, ports: Set<u16>, m: Measure) -> nat
    decreases s.len(),
{
    if s.len() == 0 {
        0
    } else {
        ports_measure(s.drop_last(), ports, m) + if ports.contains(s.last().port) {
            measure(s.last(), m)
        } else {
            0
        }
    }
}

/// The measure summed over all connections of `s`.
spec fn total_measure(s: Seq<ConnectionSample>, m: Measure) -> nat
    decreases s.len(),
{
    if s.len() == 0 {
        0
    } else {
        total_measure(s.drop_last(), m) + measure(s.last(), m)
    }
}

spec fn rows_measure(rows: Seq<PortSummary>, m: Measure) -> nat
    decreases rows.len(),
{
    if rows.len() == 0 {
        0
    } else {
        rows_measure(rows.drop_last(), m) + row_measure(rows.last(), m)
    }
}

/// The ports of `rows`.
spec fn rows_ports(rows: Seq<PortSummary>) -> Set<u16>
    decreases rows.len(),
{
    if rows.len() == 0 {
        Set::empty()
    } else {
        rows_ports(rows.drop_last()).insert(rows.last().port)
    }
}

proof fn lemma_measures_agree(s: Seq<ConnectionSample>, port: u16)
    ensures
        port_connections(s, port) == ports_measure(s, set![port], Measure::Count),
        port_written(s, port) == ports_measure(s, set![port], Measure::Written),
        port_read(s, port) == ports_measure(s, set![port], Measure::Read),
        s.len() == total_measure(s, Measure::Count),
        total_written(s) == total_measure(s, Measure::Written),
        total_read(s) == total_measure(s, Measure::Read),
    decreases s.len(),
{
    if s.len() > 0 {
        lemma_measures_agree(s.drop_last(), port);
    }
}

proof fn lemma_rows_measures_agree(rows: Seq<PortSummary>)
    ensures
        rows_connections(rows) == rows_measure(rows, Measure::Count),
        rows_written(rows) == rows_measure(rows, Measure::Written),
        rows_read(rows) == rows_measure(rows, Measure::Read),
    decreases rows.len(),
{
    if rows.len() > 0 {
        lemma_rows_measures_agree(rows.drop_last());
    }
}

/// Adding a port not yet counted adds that port's connections.
proof fn lemma_ports_measure_insert(s: Seq<ConnectionSample>, ports: Set<u16>, p: u16, m: Measure)
    requires
        !ports.contains(p),
    ensures
        ports_measure(s, ports.insert(p), m) == ports_measure(s, ports, m) + ports_measure(
            s,
            set![p],
            m,
        ),
    decreases s.len(),
{
    if s.len() > 0 {
        lemma_ports_measure_insert(s.drop_last(), ports, p, m);
        let q = s.last().port;
        assert(ports.insert(p).contains(q) == (ports.contains(q) || q == p));
        assert(set![p].contains(q) == (q == p));
    }
}

/// Over a set holding every connection's port, the sum is the total.
proof fn lemma_ports_measure_all(s: Seq<ConnectionSample>, ports: Set<u16>, m: Measure)
    requires
        forall|k: int| 0 <= k < s.len() ==> ports.contains(#[trigger] s[k].port),
    ensures
        ports_measure(s, ports, m) == total_measure(s, m),
    decreases s.len(),
{
    if s.len() > 0 {
        let d = s.drop_last();
        assert forall|k: int| 0 <= k < d.len() implies ports.contains(#[trigger] d[k].port) by {
            assert(d[k] == s[k]);
        }
        lemma_ports_measure_all(d, ports, m);
        assert(s.last() == s[s.len() - 1]);
    }
}

proof fn lemma_rows_ports_contains(rows: Seq<PortSummary>, p: u16)
    ensures
        rows_ports(rows).contains(p) <==> exists|i: int| 0 <= i < rows.len() && rows[i].port == p,
    decreases rows.len(),
{
    if rows.len() > 0 {
        let d = rows.drop_last();
        lemma_rows_ports_contains(d, p);
        if rows_ports(rows).contains(p) {
            if rows.last().port != p {
                let i = choose|i: int| 0 <= i < d.len() && #[trigger] d[i].port == p;
                assert(rows[i] == d[i]);
            }
        }
        if exists|i: int| 0 <= i < rows.len() && #[trigger] rows[i].port == p {
            let i = choose|i: int| 0 <= i < rows.len() && #[trigger] rows[i].port == p;
            if i < d.len() {
                assert(d[i] == rows[i]);
            }
        }
    }
}

/// The first `k` rows sum to the connections on their ports.
proof fn lemma_rows_prefix(rows: Seq<PortSummary>, s: Seq<ConnectionSample>, k: int, m: Measure)
    requires
        summarizes_ports(rows, s),
        0 <= k <= rows.len(),
    ensures
        rows_measure(rows.take(k), m) == ports_measure(s, rows_ports(rows.take(k)), m),
    decreases k,
{
    if k == 0 {
        assert(rows_ports(rows.take(0)) =~= Set::<u16>::empty());
        lemma_ports_measure_none(s, m);
    } else {
        lemma_rows_prefix(rows, s, k - 1, m);
        let t = rows.take(k);
        assert(t.drop_last() =~= rows.take(k - 1));
        let p = rows[k - 1].port;
        assert(t.last() == rows[k - 1]);
        let prev = rows.take(k - 1);
        lemma_rows_ports_contains(prev, p);
        if rows_ports(prev).contains(p) {
            let i = choose|i: int| 0 <= i < prev.len() && #[trigger] prev[i].port == p;
            assert(prev[i] == rows[i]);
            assert(rows[i].port < rows[k - 1].port);
        }
        lemma_ports_measure_insert(s, rows_ports(rows.take(k - 1)), p, m);
        lemma_measures_agree(s, p);
        assert(row_measure(rows[k - 1], m) == ports_measure(s, set![p], m));
    }
}

proof fn lemma_ports_measure_none(s: Seq<ConnectionSample>, m: Measure)
    ensures
        ports_measure(s, Set::empty(), m) == 0,
    decreases s.len(),
{
    if s.len() > 0 {
        lemma_ports_measure_none(s.drop_last(), m);
    }
}

/// The per-port rows add up to the totals: their connections to the number
/// of connections, their bytes written and read to the bytes written and
/// read on all connections.
pub proof fn lemma_port_rows_add_up(rows: Seq<PortSummary>, s: Seq<ConnectionSample>)
    requires
        summarizes_ports(rows, s),
    ensures
        rows_connections(rows) == s.len(),
        rows_written(rows) == total_written(s),
        rows_read(rows) == total_read(s),
{
    assert(rows.take(rows.len() as int) =~= rows);
    assert forall|k: int| 0 <= k < s.len() implies rows_ports(rows).contains(#[trigger] s[k].port) by {
        let i = choose|i: int| 0 <= i < rows.len() && #[trigger] rows[i].port == (#[trigger] s[k]).port;
        lemma_rows_ports_contains(rows, s[k].port);
    }
    lemma_rows_prefix(rows, s, rows.len() as int, Measure::Count);
    lemma_rows_prefix(rows, s, rows.len() as int, Measure::Written);
    lemma_rows_prefix(rows, s, rows.len() as int, Measure::Read);
    lemma_ports_measure_all(s, rows_ports(rows), Measure::Count);
    lemma_ports_measure_all(s, rows_ports(rows), Measure::Written);
    lemma_ports_measure_all(s, rows_ports(rows), Measure::Read);
    lemma_measures_agree(s, 0);
    lemma_rows_measures_agree(rows);
}

} // verus!
