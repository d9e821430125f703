use vstd::prelude::*;
use vstd::multiset::Multiset;

verus! {

/// Socket address of a discovered server.
#[derive(Debug, Clone, Copy, PartialEq, Eq, Hash, Structural)]
pub enum ServerAddr {
    /// IPv4 address (as a big-endian number) and port.
    V4(u32, u16),
    /// IPv6 address (as a big-endian number) and port.
    V6(u128, u16),
}

/// What a server announces about itself on the local network.
pub struct ServerSummary {
    pub server_name: String,
    pub motd: String,
    pub current_players: u32,
    pub max_players: u32,
    pub game_port: u16,
}

/// A server found on the local network.
pub struct DiscoveredServer {
    pub addr: ServerAddr,
    pub summary: ServerSummary,
}

/// The servers that the browser lists, in display order.
pub struct BrowserState {
    pub servers: Vec<DiscoveredServer>,
}

/// Whether `a` sorts strictly before `b`: lexicographic order of the
/// characters' code points (the order of their UTF-8 bytes).
pub open spec fn name_lt(a: Seq<char>, b: Seq<char>) -> bool
    decreases a.len(),
{
    if a.len() == 0 {
        b.len() > 0
    } else if b.len() == 0 {
        false
    } else if a[0] != b[0] {
        (a[0] as u32) < (b[0] as u32)
    } else {
        name_lt(a.drop_first(), b.drop_first())
    }
}

/// The name by which a server is sorted.
pub open spec fn name_of(s: DiscoveredServer) -> Seq<char> {
    s.summary.server_name@
}

/// `e` inserted into `r` after every server whose name does not sort
/// after `e`'s.
pub open spec fn insert_by_name(r: Seq<DiscoveredServer>, e: DiscoveredServer) -> Seq<DiscoveredServer>
    decreases r.len(),
{
    if r.len() == 0 {
        seq![e]
    } else if name_lt(name_of(e), name_of(r[0])) {
        seq![e] + r
    } else {
        seq![r[0]] + insert_by_name(r.drop_first(), e)
    }
}

/// `s` sorted by name, servers with equal names in their original order.
pub open spec fn sort_by_name(s: Seq<DiscoveredServer>) -> Seq<DiscoveredServer>
    decreases s.len(),
{
    if s.len() == 0 {
        Seq::empty()
    } else {
        insert_by_name(sort_by_name(s.drop_last()), s.last())
    }
}

/// The browser's list after a server answered: a server already listed
/// under the same address is replaced in place; a new one is added and the
/// list sorted by name (keeping the order of equal names).
pub open spec fn merge_spec(servers: Seq<DiscoveredServer>, server: DiscoveredServer) -> Seq<
    DiscoveredServer,
> {
    if exists|i: int| 0 <= i < servers.len() && servers[i].addr == server.addr {
        let i = choose|i: int|
            0 <= i < servers.len() && servers[i].addr == server.addr && forall|j: int|
                0 <= j < i ==> servers[j].addr != server.addr;
        servers.update(i, server)
    } else {
        sort_by_name(servers.push(server))
    }
}

/// Whether name `a` sorts strictly before name `b`.
pub fn name_less(a: &str, b: &str) -> (r: bool)
    ensures
        r == name_lt(a@, b@),
{
    let na = a.unicode_len();
    let nb = b.unicode_len();
    let mut i: usize = 0;
    assert(a@.skip(0) =~= a@ && b@.skip(0) =~= b@);
    while i < na && i < nb
        invariant
            na == a@.len(),
            nb == b@.len(),
            i <= na,
            i <= nb,
            a@.subrange(0, i as int) == b@.subrange(0, i as int),
            name_lt(a@, b@) == name_lt(a@.skip(i as int), b@.skip(i as int)),
        decreases na - i,
    {
        let ca = a.get_char(i);
        let cb = b.get_char(i);
        let ghost sa = a@.skip(i as int);
        let ghost sb = b@.skip(i as int);
        assert(sa[0] == ca && sb[0] == cb);
        if ca != cb {
            return (ca as u32) < (cb as u32);
        }
        assert(sa.drop_first() =~= a@.skip(i + 1));
        assert(sb.drop_first() =~= b@.skip(i + 1));
        assert(a@.subrange(0, i + 1) =~= a@.subrange(0, i as int).push(ca));
        assert(b@.subrange(0, i + 1) =~= b@.subrange(0, i as int).push(cb));
        i = i + 1;
    }
    assert(a@.skip(i as int).len() == na - i);
    i == na && i < nb
}

/// `insert_by_name` places `e` at the first position whose name sorts
/// after `e`'s.
proof fn lemma_insert_at(r: Seq<DiscoveredServer>, e: DiscoveredServer, p: int)
    requires
        0 <= p <= r.len(),
        forall|j: int| 0 <= j < p ==> !name_lt(name_of(e), name_of(#[trigger] r[j])),
        p < r.len() ==> name_lt(name_of(e), name_of(r[p])),
    ensures
        insert_by_name(r, e) == r.take(p) + seq![e] + r.skip(p),
    decreases r.len(),
{
    if r.len() == 0 {
        assert(r.take(p) + seq![e] + r.skip(p) =~= seq![e]);
    } else if p == 0 {
        assert(r.take(p) + seq![e] + r.skip(p) =~= seq![e] + r);
    } else {
        let t = r.drop_first();
        assert forall|j: int| 0 <= j < p - 1 implies !name_lt(name_of(e), name_of(#[trigger] t[j])) by {
            assert(t[j] == r[j + 1]);
        }
        if p < r.len() {
            assert(t[p - 1] == r[p]);
        }
        lemma_insert_at(t, e, p - 1);
        assert(seq![r[0]] + (t.take(p - 1) + seq![e] + t.skip(p - 1)) =~= r.take(p) + seq![e]
            + r.skip(p));
    }
}

/// Inserts `e` into `v` by name (see `insert_by_name`).
fn insert_sorted(v: &mut Vec<DiscoveredServer>, e: DiscoveredServer)
    ensures
        final(v)@ == insert_by_name(old(v)@, e),
{
    let mut p: usize = 0;
    let mut found = false;
    while !found && p < v.len()
        invariant
            p <= v@.len(),
            v@ == old(v)@,
            forall|j: int| 0 <= j < p ==> !name_lt(name_of(e), name_of(#[trigger] v@[j])),
            found ==> p < v@.len() && name_lt(name_of(e), name_of(v@[p as int])),
        decreases v@.len() - p + (if found {
            0int
        } else {
            1int
        }),
    {
        if name_less(e.summary.server_name.as_str(), v[p].summary.server_name.as_str()) {
            found = true;
        } else {
            p = p + 1;
        }
    }
    proof {
        lemma_insert_at(v@, e, p as int);
    }
    v.insert(p, e);
    assert(v@ =~= old(v)@.take(p as int) + seq![e] + old(v)@.skip(p as int));
}

/// Sorts by name, keeping the order of equal names (see `sort_by_name`).
fn sort_servers(servers: Vec<DiscoveredServer>) -> (sorted: Vec<DiscoveredServer>)
    ensures
        sorted@ == sort_by_name(servers@),
{
    let ghost s = servers@;
    let mut rest = servers;
    let mut sorted: Vec<DiscoveredServer> = Vec::new();
    let mut k: usize = 0;
    let total = rest.len();
    assert(s.skip(0) =~= s);
    while rest.len() > 0
        invariant
            k <= s.len(),
            s.len() <= usize::MAX,
            rest@ == s.skip(k as int),
            sorted@ == sort_by_name(s.take(k as int)),
        decreases rest@.len(),
    {
        let e = rest.remove(0);
        proof {
            assert(s.take(k + 1).drop_last() =~= s.take(k as int));
            assert(s.take(k + 1).last() == e);
            assert(rest@ =~= s.skip(k + 1));
        }
        insert_sorted(&mut sorted, e);
        k = k + 1;
    }
    assert(s.take(k as int) =~= s);
    sorted
}

/// Records a server's answer: a server already listed under the same
/// address is replaced where it stands; a new server is added and the list
/// is sorted by name, servers with equal names keeping their order.
pub fn collect_discovery_result(browser: &mut BrowserState, server: DiscoveredServer)
    ensures
        final(browser).servers@ == merge_spec(old(browser).servers@, server),
{
    let ghost old_s = old(browser).servers@;
    match find_address(&browser.servers, server.addr) {
        Some(i) => {
            assert(merge_spec(old_s, server) == old_s.update(i as int, server)) by {
                assert(exists|j: int| 0 <= j < old_s.len() && old_s[j].addr == server.addr);
                let c = choose|c: int|
                    0 <= c < old_s.len() && old_s[c].addr == server.addr && forall|j: int|
                        0 <= j < c ==> old_s[j].addr != server.addr;
                assert(c == i) by {
                    if c < i {
                        assert(old_s[c].addr != server.addr);
                    }
                    if c > i {
                        assert(old_s[i as int].addr != server.addr);
                    }
                }
            }
            browser.servers.remove(i);
            browser.servers.insert(i, server);
            assert(browser.servers@ =~= old_s.update(i as int, server));
        },
        None => {
            let mut all: Vec<DiscoveredServer> = Vec::new();
            std::mem::swap(&mut all, &mut browser.servers);
            all.push(server);
            browser.servers = sort_servers(all);
        },
    }
}

/// Records the answers that came in since the last call, in the order in
/// which they came (see `collect_discovery_result`).
pub fn collect_discovery_results(browser: &mut BrowserState, answers: Vec<DiscoveredServer>)
    ensures
        final(browser).servers@ == merge_all(old(browser).servers@, answers@),
{
    let ghost start = browser.servers@;
    let ghost all = answers@;
    let mut rest = answers;
    let mut k: usize = 0;
    let total = rest.len();
    assert(all.skip(0) =~= all);
    assert(all.take(0) =~= Seq::<DiscoveredServer>::empty());
    while rest.len() > 0
        invariant
            k <= all.len(),
            all.len() == total,
            rest@ == all.skip(k as int),
            browser.servers@ == merge_all(start, all.take(k as int)),
        decreases rest@.len(),
    {
        let server = rest.remove(0);
        proof {
            assert(all.take(k + 1).drop_last() =~= all.take(k as int));
            assert(all.take(k + 1).last() == server);
            assert(rest@ =~= all.skip(k + 1));
        }
        collect_discovery_result(browser, server);
        k = k + 1;
    }
    assert(all.take(k as int) =~= all);
}

/// Index of the first listed server with address `addr`.
fn find_address(servers: &Vec<DiscoveredServer>, addr: ServerAddr) -> (r: Option<usize>)
    ensures
        match r {
            Some(i) => i < servers@.len() && servers@[i as int].addr == addr && forall|j: int|
                0 <= j < i ==> servers@[j].addr != addr,
            None => forall|j: int| 0 <= j < servers@.len() ==> servers@[j].addr != addr,
        },
{
    let mut i: usize = 0;
    while i < servers.len()
        invariant
            i <= servers@.len(),
            forall|j: int| 0 <= j < i ==> servers@[j].addr != addr,
        decreases servers@.len() - i,
    {
        if servers[i].addr == addr {
            return Some(i);
        }
        i = i + 1;
    }
    None
}

/// `name_lt` is a strict total order: irreflexive, transitive, and any
/// two different names are ordered one way or the other.
pub proof fn lemma_name_order(a: Seq<char>, b: Seq<char>, c: Seq<char>)
    ensures
        !name_lt(a, a),
        name_lt(a, b) ==> !name_lt(b, a),
        name_lt(a, b) && name_lt(b, c) ==> name_lt(a, c),
        a != b ==> name_lt(a, b) || name_lt(b, a),
    decreases a.len(),
{
    if a.len() > 0 && b.len() > 0 && c.len() > 0 {
        lemma_name_order(a.drop_first(), b.drop_first(), c.drop_first());
    } else if a.len() > 0 && b.len() > 0 {
        lemma_name_order(a.drop_first(), b.drop_first(), b.drop_first());
    } else if a.len() > 0 {
        lemma_name_order(a.drop_first(), a.drop_first(), a.drop_first());
    }
    if a.len() > 0 && b.len() > 0 && a[0] == b[0] && a.drop_first() == b.drop_first() {
        assert(a =~= seq![a[0]] + a.drop_first());
        assert(b =~= seq![b[0]] + b.drop_first());
    }
    if a.len() == 0 && b.len() == 0 {
        assert(a =~= b);
    }
    if a.len() > 0 && b.len() > 0 && a[0] != b[0] {
        vstd::utf8::char_u32_cast(a[0], a[0] as u32);
        vstd::utf8::char_u32_cast(b[0], b[0] as u32);
    }
}

/// No server is listed before one whose name sorts before its own.
pub open spec fn sorted_by_name(r: Seq<DiscoveredServer>) -> bool {
    forall|i: int, j: int|
        0 <= i < j < r.len() ==> !name_lt(name_of(#[trigger] r[j]), name_of(#[trigger] r[i]))
}

proof fn lemma_insert_sorted(r: Seq<DiscoveredServer>, e: DiscoveredServer)
    requires
        sorted_by_name(r),
    ensures
        sorted_by_name(insert_by_name(r, e)),
        insert_by_name(r, e).to_multiset() == r.to_multiset().insert(e),
    decreases r.len(),
{
    broadcast use vstd::seq_lib::group_to_multiset_ensures;
    let x = insert_by_name(r, e);
    if r.len() == 0 {
        assert(x =~= seq![e]);
        assert(r =~= Seq::<DiscoveredServer>::empty());
        assert(seq![e] =~= Seq::<DiscoveredServer>::empty().push(e));
    } else if name_lt(name_of(e), name_of(r[0])) {
        assert(x =~= seq![e] + r);
        assert forall|i: int, j: int| 0 <= i < j < x.len() implies !name_lt(
            name_of(#[trigger] x[j]),
            name_of(#[trigger] x[i]),
        ) by {
            if i == 0 {
                lemma_name_order(name_of(e), name_of(r[0]), name_of(r[j - 1]));
                lemma_name_order(name_of(r[j - 1]), name_of(e), name_of(r[0]));
                if j - 1 > 0 {
                    assert(!name_lt(name_of(r[j - 1]), name_of(r[0])));
                }
            } else {
                assert(x[i] == r[i - 1] && x[j] == r[j - 1]);
            }
        }
        vstd::seq_lib::lemma_multiset_commutative(seq![e], r);
        assert(seq![e].to_multiset() =~= Multiset::<DiscoveredServer>::empty().insert(e)) by {
            assert(seq![e] =~= Seq::<DiscoveredServer>::empty().push(e));
        }
    } else {
        let t = r.drop_first();
        assert forall|i: int, j: int| 0 <= i < j < t.len() implies !name_lt(
            name_of(#[trigger] t[j]),
            name_of(#[trigger] t[i]),
        ) by {
            assert(t[i] == r[i + 1] && t[j] == r[j + 1]);
        }
        lemma_insert_sorted(t, e);
        let y = insert_by_name(t, e);
        assert(x =~= seq![r[0]] + y);
        assert forall|i: int, j: int| 0 <= i < j < x.len() implies !name_lt(
            name_of(#[trigger] x[j]),
            name_of(#[trigger] x[i]),
        ) by {
            if i == 0 {
                // every element of y is e or an element of t, none before r[0]
                assert(y.to_multiset().contains(y[j - 1]));
                assert(r.to_multiset() == t.to_multiset().insert(r[0])) by {
                    assert(r =~= seq![r[0]] + t);
                    vstd::seq_lib::lemma_multiset_commutative(seq![r[0]], t);
                    assert(seq![r[0]] =~= Seq::<DiscoveredServer>::empty().push(r[0]));
                }
                if y[j - 1] != e {
                    assert(t.to_multiset().contains(y[j - 1]));
                    let k = choose|k: int| 0 <= k < t.len() && t[k] == y[j - 1];
                    assert(t[k] == r[k + 1]);
                    assert(!name_lt(name_of(r[k + 1]), name_of(r[0])));
                }
            } else {
                assert(x[i] == y[i - 1] && x[j] == y[j - 1]);
            }
        }
        assert(r =~= seq![r[0]] + t);
        vstd::seq_lib::lemma_multiset_commutative(seq![r[0]], t);
        vstd::seq_lib::lemma_multiset_commutative(seq![r[0]], y);
    }
}

proof fn lemma_sort_by_name(s: Seq<DiscoveredServer>)
    ensures
        sorted_by_name(sort_by_name(s)),
        sort_by_name(s).to_multiset() == s.to_multiset(),
    decreases s.len(),
{
    broadcast use vstd::seq_lib::group_to_multiset_ensures;
    if s.len() > 0 {
        lemma_sort_by_name(s.drop_last());
        lemma_insert_sorted(sort_by_name(s.drop_last()), s.last());
        assert(s =~= s.drop_last().push(s.last()));
    } else {
        assert(sort_by_name(s) =~= s);
    }
}

/// When a server at a new address answers, the list afterwards is sorted by
/// name and holds exactly the listed servers and the new one.
pub proof fn lemma_new_server_sorted(servers: Seq<DiscoveredServer>, server: DiscoveredServer)
    requires
        forall|j: int| 0 <= j < servers.len() ==> #[trigger] servers[j].addr != server.addr,
    ensures
        sorted_by_name(merge_spec(servers, server)),
        merge_spec(servers, server).to_multiset() == servers.to_multiset().insert(server),
{
    broadcast use vstd::seq_lib::group_to_multiset_ensures;
    lemma_sort_by_name(servers.push(server));
}

/// Whether some listed server has address `a`.
pub open spec fn has_addr(s: Seq<DiscoveredServer>, a: ServerAddr) -> bool {
    exists|i: int| 0 <= i < s.len() && (#[trigger] s[i]).addr == a
}

/// Whether `x` is one of the listed servers.
pub open spec fn listed(s: Seq<DiscoveredServer>, x: DiscoveredServer) -> bool {
    exists|i: int| 0 <= i < s.len() && #[trigger] s[i] == x
}

/// No two listed servers share an address.
pub open spec fn addrs_distinct(s: Seq<DiscoveredServer>) -> bool {
    forall|i: int, j: int| 0 <= i < j < s.len() ==> (#[trigger] s[i]).addr != (#[trigger] s[j]).addr
}

/// The browser's list after the answers in `answers` came in, in order.
pub open spec fn merge_all(servers: Seq<DiscoveredServer>, answers: Seq<DiscoveredServer>) -> Seq<
    DiscoveredServer,
>
    decreases answers.len(),
{
    if answers.len() == 0 {
        servers
    } else {
        merge_spec(merge_all(servers, answers.drop_last()), answers.last())
    }
}

proof fn lemma_insert_addrs(r: Seq<DiscoveredServer>, e: DiscoveredServer)
    requires
        addrs_distinct(r),
        !has_addr(r, e.addr),
    ensures
        addrs_distinct(insert_by_name(r, e)),
        forall|a: ServerAddr| #[trigger] has_addr(insert_by_name(r, e), a) == (has_addr(r, a) || a == e.addr),
    decreases r.len(),
{
    let x = insert_by_name(r, e);
    if r.len() == 0 {
        assert(x =~= seq![e]);
        assert forall|a: ServerAddr| #[trigger] has_addr(x, a) == (has_addr(r, a) || a == e.addr) by {
            if a == e.addr {
                assert(x[0].addr == a);
            }
        }
    } else if name_lt(name_of(e), name_of(r[0])) {
        assert(x =~= seq![e] + r);
        assert forall|i: int, j: int| 0 <= i < j < x.len() implies (#[trigger] x[i]).addr != (
        #[trigger] x[j]).addr by {
            if i == 0 {
                assert(x[j] == r[j - 1]);
            } else {
                assert(x[i] == r[i - 1] && x[j] == r[j - 1]);
            }
        }
        assert forall|a: ServerAddr| #[trigger] has_addr(x, a) == (has_addr(r, a) || a == e.addr) by {
            if has_addr(r, a) {
                let k = choose|k: int| 0 <= k < r.len() && (#[trigger] r[k]).addr == a;
                assert(x[k + 1] == r[k]);
            }
            if a == e.addr {
                assert(x[0].addr == a);
            }
            if has_addr(x, a) {
                let k = choose|k: int| 0 <= k < x.len() && (#[trigger] x[k]).addr == a;
                if k > 0 {
                    assert(x[k] == r[k - 1]);
                }
            }
        }
    } else {
        let t = r.drop_first();
        assert forall|i: int, j: int| 0 <= i < j < t.len() implies (#[trigger] t[i]).addr != (
        #[trigger] t[j]).addr by {
            assert(t[i] == r[i + 1] && t[j] == r[j + 1]);
        }
        assert(!has_addr(t, e.addr)) by {
            if has_addr(t, e.addr) {
                let k = choose|k: int| 0 <= k < t.len() && (#[trigger] t[k]).addr == e.addr;
                assert(r[k + 1] == t[k]);
            }
        }
        lemma_insert_addrs(t, e);
        let y = insert_by_name(t, e);
        assert(x =~= seq![r[0]] + y);
        assert forall|a: ServerAddr| #[trigger] has_addr(t, a) == (has_addr(r, a) && a != r[0].addr)
            by {
            if has_addr(t, a) {
                let k = choose|k: int| 0 <= k < t.len() && (#[trigger] t[k]).addr == a;
                assert(r[k + 1] == t[k]);
            }
            if has_addr(r, a) && a != r[0].addr {
                let k = choose|k: int| 0 <= k < r.len() && (#[trigger] r[k]).addr == a;
                assert(t[k - 1] == r[k]);
            }
        }
        assert forall|i: int, j: int| 0 <= i < j < x.len() implies (#[trigger] x[i]).addr != (
        #[trigger] x[j]).addr by {
            if i == 0 {
                assert(x[j] == y[j - 1]);
                assert(has_addr(y, y[j - 1].addr));
                assert(r[0].addr != e.addr);
            } else {
                assert(x[i] == y[i - 1] && x[j] == y[j - 1]);
            }
        }
        assert forall|a: ServerAddr| #[trigger] has_addr(x, a) == (has_addr(r, a) || a == e.addr) by {
            if a == r[0].addr {
                assert(x[0].addr == a);
                assert(r[0].addr == a);
            } else {
                if has_addr(y, a) {
                    let k = choose|k: int| 0 <= k < y.len() && (#[trigger] y[k]).addr == a;
                    assert(x[k + 1] == y[k]);
                }
                if has_addr(x, a) {
                    let k = choose|k: int| 0 <= k < x.len() && (#[trigger] x[k]).addr == a;
                    assert(k > 0);
                    assert(x[k] == y[k - 1]);
                }
            }
        }
    }
}

proof fn lemma_sort_addrs(s: Seq<DiscoveredServer>)
    requires
        addrs_distinct(s),
    ensures
        addrs_distinct(sort_by_name(s)),
        forall|a: ServerAddr| #[trigger] has_addr(sort_by_name(s), a) == has_addr(s, a),
    decreases s.len(),
{
    if s.len() == 0 {
        assert(sort_by_name(s) =~= s);
    } else {
        let d = s.drop_last();
        assert forall|i: int, j: int| 0 <= i < j < d.len() implies (#[trigger] d[i]).addr != (
        #[trigger] d[j]).addr by {
            assert(d[i] == s[i] && d[j] == s[j]);
        }
        lemma_sort_addrs(d);
        assert forall|a: ServerAddr| #[trigger] has_addr(s, a) == (has_addr(d, a) || a == s.last().addr)
            by {
            if has_addr(d, a) {
                let k = choose|k: int| 0 <= k < d.len() && (#[trigger] d[k]).addr == a;
                assert(s[k] == d[k]);
            }
            if has_addr(s, a) {
                let k = choose|k: int| 0 <= k < s.len() && (#[trigger] s[k]).addr == a;
                if k < s.len() - 1 {
                    assert(s[k] == d[k]);
                }
            }
            if a == s.last().addr {
                assert(s[s.len() - 1].addr == a);
            }
        }
        assert(!has_addr(d, s.last().addr)) by {
            if has_addr(d, s.last().addr) {
                let k = choose|k: int| 0 <= k < d.len() && (#[trigger] d[k]).addr == s.last().addr;
                assert(s[k] == d[k]);
                assert(s[k].addr != s[s.len() - 1].addr);
            }
        }
        lemma_insert_addrs(sort_by_name(d), s.last());
    }
}

proof fn lemma_merge_addrs(s: Seq<DiscoveredServer>, x: DiscoveredServer)
    requires
        addrs_distinct(s),
    ensures
        addrs_distinct(merge_spec(s, x)),
        forall|a: ServerAddr| #[trigger] has_addr(merge_spec(s, x), a) == (has_addr(s, a) || a == x.addr),
        listed(merge_spec(s, x), x),
        forall|y: DiscoveredServer| #[trigger] listed(s, y) && y.addr != x.addr ==> listed(merge_spec(s, x), y),
{
    broadcast use vstd::seq_lib::group_to_multiset_ensures;
    let m = merge_spec(s, x);
    if exists|i: int| 0 <= i < s.len() && s[i].addr == x.addr {
        let i = choose|i: int|
            0 <= i < s.len() && s[i].addr == x.addr && forall|j: int|
                0 <= j < i ==> s[j].addr != x.addr;
        assert(m == s.update(i, x));
        assert(m[i] == x);
        assert forall|p: int, q: int| 0 <= p < q < m.len() implies (#[trigger] m[p]).addr != (
        #[trigger] m[q]).addr by {
            if p != i && q != i {
                assert(m[p] == s[p] && m[q] == s[q]);
            } else if p == i {
                assert(m[q] == s[q]);
                assert(s[p].addr != s[q].addr);
            } else {
                assert(m[p] == s[p]);
                assert(s[p].addr != s[q].addr);
            }
        }
        assert forall|a: ServerAddr| #[trigger] has_addr(m, a) == (has_addr(s, a) || a == x.addr) by {
            if has_addr(s, a) {
                let k = choose|k: int| 0 <= k < s.len() && (#[trigger] s[k]).addr == a;
                if k == i {
                    assert(m[i].addr == a);
                } else {
                    assert(m[k] == s[k]);
                }
            }
            if a == x.addr {
                assert(m[i].addr == a);
            }
            if has_addr(m, a) {
                let k = choose|k: int| 0 <= k < m.len() && (#[trigger] m[k]).addr == a;
                if k != i {
                    assert(m[k] == s[k]);
                }
            }
        }
        assert forall|y: DiscoveredServer| #[trigger] listed(s, y) && y.addr != x.addr implies listed(
            m,
            y,
        ) by {
            let k = choose|k: int| 0 <= k < s.len() && #[trigger] s[k] == y;
            assert(k != i);
            assert(m[k] == y);
        }
    } else {
        let p = s.push(x);
        assert forall|i: int, j: int| 0 <= i < j < p.len() implies (#[trigger] p[i]).addr != (
        #[trigger] p[j]).addr by {
            if j < s.len() {
                assert(p[i] == s[i] && p[j] == s[j]);
            } else {
                assert(p[i] == s[i]);
            }
        }
        assert forall|a: ServerAddr| #[trigger] has_addr(p, a) == (has_addr(s, a) || a == x.addr) by {
            if has_addr(s, a) {
                let k = choose|k: int| 0 <= k < s.len() && (#[trigger] s[k]).addr == a;
                assert(p[k] == s[k]);
            }
            if a == x.addr {
                assert(p[s.len() as int].addr == a);
            }
            if has_addr(p, a) {
                let k = choose|k: int| 0 <= k < p.len() && (#[trigger] p[k]).addr == a;
                if k < s.len() {
                    assert(p[k] == s[k]);
                }
            }
        }
        lemma_sort_addrs(p);
        lemma_sort_by_name(p);
        assert(m.to_multiset() == p.to_multiset());
        assert(p[s.len() as int] == x);
        assert(p.to_multiset().contains(x));
        assert(m.to_multiset().contains(x));
        assert forall|y: DiscoveredServer| #[trigger] listed(s, y) && y.addr != x.addr implies listed(
            m,
            y,
        ) by {
            let k = choose|k: int| 0 <= k < s.len() && #[trigger] s[k] == y;
            assert(p[k] == y);
            assert(p.to_multiset().contains(y));
            assert(m.to_multiset().contains(y));
        }
    }
}

/// Over any run of answers, starting from a list without two servers at one
/// address: no two listed servers ever share an address; the addresses
/// listed are those listed before and those of the answers; and each answer
/// that no later answer from the same address follows is listed as it came.
pub proof fn lemma_merge_all(servers: Seq<DiscoveredServer>, answers: Seq<DiscoveredServer>)
    requires
        addrs_distinct(servers),
    ensures
        addrs_distinct(merge_all(servers, answers)),
        forall|a: ServerAddr| #[trigger] has_addr(merge_all(servers, answers), a) == (has_addr(servers, a)
            || has_addr(answers, a)),
        forall|k: int|
            0 <= k < answers.len() && (forall|l: int| k < l < answers.len() ==> (#[trigger] answers[l]).addr
                != answers[k].addr) ==> listed(merge_all(servers, answers), #[trigger] answers[k]),
    decreases answers.len(),
{
    if answers.len() > 0 {
        let d = answers.drop_last();
        let x = answers.last();
        lemma_merge_all(servers, d);
        let before = merge_all(servers, d);
        lemma_merge_addrs(before, x);
        assert forall|a: ServerAddr| #[trigger] has_addr(answers, a) == (has_addr(d, a) || a == x.addr)
            by {
            if has_addr(d, a) {
                let k = choose|k: int| 0 <= k < d.len() && (#[trigger] d[k]).addr == a;
                assert(answers[k] == d[k]);
            }
            if has_addr(answers, a) {
                let k = choose|k: int| 0 <= k < answers.len() && (#[trigger] answers[k]).addr == a;
                if k < d.len() {
                    assert(answers[k] == d[k]);
                }
            }
            if a == x.addr {
                assert(answers[answers.len() - 1].addr == a);
            }
        }
        assert forall|k: int|
            0 <= k < answers.len() && (forall|l: int| k < l < answers.len() ==> (#[trigger] answers[l]).addr
                != answers[k].addr) implies listed(merge_all(servers, answers), #[trigger] answers[k]) by {
            if k < d.len() {
                assert(answers[k] == d[k]);
                assert forall|l: int| k < l < d.len() implies (#[trigger] d[l]).addr != d[k].addr by {
                    assert(d[l] == answers[l]);
                }
                assert(listed(before, d[k]));
                assert(answers[answers.len() - 1].addr != answers[k].addr);
            }
        }
    }
}

} // verus!
