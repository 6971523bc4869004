//! Admission of connections: how many there may be, and whom each counts for.
use vstd::prelude::*;
use vstd::multiset::*;
use vstd::string::*;
use crate::ip;
use crate::ip::{IpAddr, Ipv6Addr};
use crate::limits::{DEFAULT_PENDING_SOURCE_LIMIT, MAX_PENDING_HANDSHAKES};
use crate::table::Table;
use crate::text;

verus! {

// ---------------------------------------------------------------------------
// Sources
// ---------------------------------------------------------------------------
/// The source that an address counts for: the address itself, but for IPv6 the
/// network of its first 64 bits.
pub open spec fn quota_of(ip: IpAddr) -> IpAddr {
    match ip::canonical_ip(ip) {
        IpAddr::V4(v4) => IpAddr::V4(v4),
        IpAddr::V6(v6) => IpAddr::V6(Ipv6Addr { s4: 0, s5: 0, s6: 0, s7: 0, ..v6 }),
    }
}

/// The source that an address counts for. Privacy addresses of one IPv6 network
/// do not multiply its quota.
pub fn quota_source(ip: IpAddr) -> (r: IpAddr)
    ensures
        r == quota_of(ip),
{
    match ip::canonical(ip) {
        IpAddr::V4(v4) => IpAddr::V4(v4),
        IpAddr::V6(v6) => IpAddr::V6(Ipv6Addr { s4: 0, s5: 0, s6: 0, s7: 0, ..v6 }),
    }
}

/// Two IPv6 addresses of one 64-bit network, neither of which maps an IPv4
/// address, count for the same source; and an IPv4 address counts for the same
/// source as its IPv6-mapped form.
pub proof fn addresses_of_one_network_share_a_source(a: Ipv6Addr, b: Ipv6Addr)
    ensures
        ip::mapped_v4(a) is None && ip::mapped_v4(b) is None && a.s0 == b.s0 && a.s1 == b.s1 && a.s2
            == b.s2 && a.s3 == b.s3 ==> quota_of(IpAddr::V6(a)) == quota_of(IpAddr::V6(b)),
        ip::mapped_v4(a) matches Some(v4) ==> quota_of(IpAddr::V6(a)) == quota_of(IpAddr::V4(v4)),
        ip::canonical_ip(ip::canonical_ip(IpAddr::V6(a))) == ip::canonical_ip(IpAddr::V6(a)),
{
}

// ---------------------------------------------------------------------------
// Pools
// ---------------------------------------------------------------------------
/// A bounded number of slots, with a bound for each source where there is one.
pub struct Pool {
    limit: usize,
    source_limit: Option<usize>,
    total: usize,
    counts: Table<IpAddr, usize>,
}

#[verifier::ext_equal]
pub struct PoolView {
    pub limit: usize,
    pub source_limit: Option<usize>,
    pub total: usize,
    pub counts: Map<IpAddr, usize>,
}

impl View for Pool {
    type V = PoolView;

    closed spec fn view(&self) -> PoolView {
        PoolView {
            limit: self.limit,
            source_limit: self.source_limit,
            total: self.total,
            counts: self.counts@,
        }
    }
}

/// The slots that a source holds.
pub open spec fn count_of(counts: Map<IpAddr, usize>, ip: IpAddr) -> int {
    if counts.contains_key(ip) {
        counts[ip] as int
    } else {
        0
    }
}

/// Sources are listed only while they hold slots.
pub open spec fn pool_wf(pool: PoolView) -> bool {
    &&& pool.total <= pool.limit
    &&& forall|ip: IpAddr| #[trigger]
        pool.counts.contains_key(ip) ==> pool.counts[ip] >= 1 && (pool.source_limit matches Some(
            limit,
        ) ==> pool.counts[ip] <= limit)
}

/// Why a slot is refused to a source; none where it is granted.
pub open spec fn refusal(pool: PoolView, source: Option<IpAddr>) -> Option<Seq<char>> {
    if pool.total >= pool.limit {
        Some("connection capacity reached"@)
    } else {
        match (source, pool.source_limit) {
            (Some(ip), Some(limit)) => if count_of(pool.counts, ip) >= limit {
                Some("source connection capacity reached"@)
            } else {
                None
            },
            _ => None,
        }
    }
}

/// The source that a slot is counted for: none where the pool does not bound
/// sources.
pub open spec fn counted_source(pool: PoolView, source: Option<IpAddr>) -> Option<IpAddr> {
    if pool.source_limit is Some {
        source
    } else {
        None
    }
}

/// The counts with one more slot for a source.
pub open spec fn count_up(counts: Map<IpAddr, usize>, source: Option<IpAddr>) -> Map<
    IpAddr,
    usize,
> {
    match source {
        Some(ip) => counts.insert(ip, (count_of(counts, ip) + 1) as usize),
        None => counts,
    }
}

/// The counts with one slot less for a source.
pub open spec fn count_down(counts: Map<IpAddr, usize>, source: Option<IpAddr>) -> Map<
    IpAddr,
    usize,
> {
    match source {
        Some(ip) => if count_of(counts, ip) <= 1 {
            counts.remove(ip)
        } else {
            counts.insert(ip, (counts[ip] - 1) as usize)
        },
        None => counts,
    }
}

/// The pool after a slot was taken for a counted source.
pub open spec fn taken(pool: PoolView, counted: Option<IpAddr>) -> PoolView {
    PoolView {
        total: (pool.total + 1) as usize,
        counts: count_up(pool.counts, counted),
        ..pool
    }
}

/// The pool after a slot of a counted source was given back.
pub open spec fn given_back(pool: PoolView, counted: Option<IpAddr>) -> PoolView {
    PoolView {
        total: if pool.total > 0 {
            (pool.total - 1) as usize
        } else {
            0
        },
        counts: count_down(pool.counts, counted),
        ..pool
    }
}

/// Why a slot cannot be counted for another source; none where it can.
pub open spec fn move_refusal(
    pool: PoolView,
    counted: Option<IpAddr>,
    source: IpAddr,
) -> Option<Seq<char>> {
    if counted == Some(source) {
        None
    } else {
        match pool.source_limit {
            Some(limit) => if count_of(pool.counts, source) >= limit {
                Some("source connection capacity reached"@)
            } else {
                None
            },
            None => Some("source connection capacity reached"@),
        }
    }
}

/// The pool after a slot was counted for another source.
pub open spec fn moved(pool: PoolView, counted: Option<IpAddr>, source: IpAddr) -> PoolView {
    if counted == Some(source) {
        pool
    } else {
        PoolView {
            counts: count_down(count_up(pool.counts, Some(source)), counted),
            ..pool
        }
    }
}

fn up(counts: &mut Table<IpAddr, usize>, ip: IpAddr)
    requires
        count_of(old(counts)@, ip) < usize::MAX,
    ensures
        final(counts)@ == count_up(old(counts)@, Some(ip)),
{
    let held: usize = match counts.get(&ip) {
        Some(n) => *n,
        None => 0,
    };
    counts.put(ip, held + 1);
}

fn down(counts: &mut Table<IpAddr, usize>, source: Option<IpAddr>)
    ensures
        final(counts)@ == count_down(old(counts)@, source),
{
    if let Some(ip) = source {
        match counts.take(&ip) {
            Some(n) => {
                if n > 1 {
                    counts.put(ip, n - 1);
                    assert(counts@ =~= count_down(old(counts)@, source));
                }
            },
            None => {},
        }
    }
}

impl Pool {
    pub fn new(limit: usize, source_limit: Option<usize>) -> (r: Self)
        ensures
            r@.limit == limit,
            r@.source_limit == source_limit,
            r@.total == 0,
            r@.counts == Map::<IpAddr, usize>::empty(),
            pool_wf(r@),
    {
        Pool { limit, source_limit, total: 0, counts: Table::new() }
    }

    /// Takes a slot. Gives the source that it is counted for.
    pub fn acquire(&mut self, source: Option<IpAddr>) -> (r: Result<Option<IpAddr>, &'static str>)
        ensures
            match r {
                Ok(counted) => refusal(old(self)@, source) is None && counted == counted_source(
                    old(self)@,
                    source,
                ) && final(self)@ == taken(old(self)@, counted),
                Err(reason) => refusal(old(self)@, source) == Some(reason@) && final(self)@ == old(self)@,
            },
            pool_wf(old(self)@) ==> pool_wf(final(self)@),
    {
        if self.total >= self.limit {
            return Err("connection capacity reached");
        }
        let counted = match (source, self.source_limit) {
            (Some(ip), Some(limit)) => {
                let held: usize = match self.counts.get(&ip) {
                    Some(n) => *n,
                    None => 0,
                };
                if held >= limit {
                    return Err("source connection capacity reached");
                }
                up(&mut self.counts, ip);
                Some(ip)
            },
            _ => None,
        };
        self.total = self.total + 1;
        Ok(counted)
    }

    /// Gives a slot back.
    pub fn release(&mut self, counted: Option<IpAddr>)
        ensures
            final(self)@ == given_back(old(self)@, counted),
            pool_wf(old(self)@) ==> pool_wf(final(self)@),
    {
        if self.total > 0 {
            self.total = self.total - 1;
        }
        down(&mut self.counts, counted);
    }

    /// Counts a slot for another source.
    pub fn reclassify(&mut self, counted: Option<IpAddr>, source: IpAddr) -> (r: Result<
        (),
        &'static str,
    >)
        ensures
            match r {
                Ok(_) => move_refusal(old(self)@, counted, source) is None && final(self)@ == moved(
                    old(self)@,
                    counted,
                    source,
                ),
                Err(reason) => move_refusal(old(self)@, counted, source) == Some(reason@) && final(self)@ == old(self)@,
            },
            pool_wf(old(self)@) ==> pool_wf(final(self)@),
    {
        if let Some(current) = counted {
            if current == source {
                return Ok(());
            }
        }
        let limit: usize = match self.source_limit {
            Some(limit) => limit,
            None => {
                return Err("source connection capacity reached");
            },
        };
        let held: usize = match self.counts.get(&source) {
            Some(n) => *n,
            None => 0,
        };
        if held >= limit {
            return Err("source connection capacity reached");
        }
        up(&mut self.counts, source);
        down(&mut self.counts, counted);
        Ok(())
    }
}

// ---------------------------------------------------------------------------
// Accounting
// ---------------------------------------------------------------------------
/// The pool counts exactly the slots that are held: one for each element of
/// `held`, which is the source that the slot is counted for.
pub open spec fn accounts_for(pool: PoolView, held: Multiset<Option<IpAddr>>) -> bool {
    &&& pool.total == held.len()
    &&& forall|ip: IpAddr| count_of(pool.counts, ip) == #[trigger] held.count(Some(ip))
    &&& forall|ip: IpAddr| #[trigger] pool.counts.contains_key(ip) ==> pool.counts[ip] >= 1
}

/// Taking a slot adds it to what the pool accounts for.
pub proof fn taking_adds_a_slot(
    pool: PoolView,
    held: Multiset<Option<IpAddr>>,
    source: Option<IpAddr>,
)
    requires
        accounts_for(pool, held),
        refusal(pool, source) is None,
    ensures
        accounts_for(
            taken(pool, counted_source(pool, source)),
            held.insert(counted_source(pool, source)),
        ),
{
    let counted = counted_source(pool, source);
    let after = taken(pool, counted);
    let all = held.insert(counted);
    assert forall|ip: IpAddr| count_of(after.counts, ip) == #[trigger] all.count(Some(ip)) by {
        assert(count_of(pool.counts, ip) == held.count(Some(ip)));
    }
}

/// Giving back a held slot takes it from what the pool accounts for.
pub proof fn giving_back_removes_a_slot(
    pool: PoolView,
    held: Multiset<Option<IpAddr>>,
    counted: Option<IpAddr>,
)
    requires
        accounts_for(pool, held),
        held.count(counted) > 0,
    ensures
        accounts_for(given_back(pool, counted), held.remove(counted)),
{
    let after = given_back(pool, counted);
    let rest = held.remove(counted);
    assert(held.len() > 0) by {
        assert(held.contains(counted));
        if held.len() == 0 {
            assert(held =~= Multiset::empty());
        }
    }
    assert forall|ip: IpAddr| count_of(after.counts, ip) == #[trigger] rest.count(Some(ip)) by {
        assert(count_of(pool.counts, ip) == held.count(Some(ip)));
    }
}

/// Giving a slot back restores the pool that it was taken from.
pub proof fn giving_back_undoes_taking(pool: PoolView, source: Option<IpAddr>)
    requires
        pool_wf(pool),
        refusal(pool, source) is None,
    ensures
        given_back(taken(pool, counted_source(pool, source)), counted_source(pool, source)) == pool,
{
    let counted = counted_source(pool, source);
    let back = given_back(taken(pool, counted), counted);
    assert(back.counts =~= pool.counts);
}

/// Counting a held slot for another source moves it in what the pool accounts
/// for, and changes nothing else.
pub proof fn moving_reclassifies_a_slot(
    pool: PoolView,
    held: Multiset<Option<IpAddr>>,
    counted: Option<IpAddr>,
    source: IpAddr,
)
    requires
        accounts_for(pool, held),
        held.count(counted) > 0,
        move_refusal(pool, counted, source) is None,
    ensures
        accounts_for(
            moved(pool, counted, source),
            held.remove(counted).insert(Some(source)),
        ),
{
    let after = moved(pool, counted, source);
    let all = held.remove(counted).insert(Some(source));
    assert(held.len() > 0) by {
        assert(held.contains(counted));
        if held.len() == 0 {
            assert(held =~= Multiset::empty());
        }
    }
    if counted == Some(source) {
        assert(all =~= held);
    } else {
        assert forall|ip: IpAddr| count_of(after.counts, ip) == #[trigger] all.count(Some(ip)) by {
            assert(count_of(pool.counts, ip) == held.count(Some(ip)));
        }
    }
}

// ---------------------------------------------------------------------------
// Admission
// ---------------------------------------------------------------------------
/// Which pool a lease is from.
#[derive(Clone, Copy, Debug, PartialEq, Eq, Structural)]
pub enum PoolKind {
    Pending,
    Active,
}

/// A slot that is held until it is given back.
#[derive(Debug)]
pub struct Lease {
    kind: PoolKind,
    source: Option<IpAddr>,
}

impl Lease {
    /// The pool that the slot is from.
    pub closed spec fn pool(&self) -> PoolKind {
        self.kind
    }

    /// The source that the slot is counted for.
    pub closed spec fn counted(&self) -> Option<IpAddr> {
        self.source
    }

    /// Counts the slot of a proxied handshake for the client behind the proxy,
    /// once that is known. The slot itself is kept.
    pub fn resolve_source(&mut self, admission: &mut Admission, source: IpAddr) -> (r: Result<
        (),
        &'static str,
    >)
        ensures
            final(self).pool() == old(self).pool(),
            final(admission).trusted() == old(admission).trusted(),
            match r {
                Ok(_) => {
                    &&& move_refusal(
                        old(admission).slots(old(self).pool()),
                        old(self).counted(),
                        quota_of(source),
                    ) is None
                    &&& final(self).counted() == Some(quota_of(source))
                    &&& final(admission).slots(old(self).pool()) == moved(
                        old(admission).slots(old(self).pool()),
                        old(self).counted(),
                        quota_of(source),
                    )
                },
                Err(reason) => {
                    &&& move_refusal(
                        old(admission).slots(old(self).pool()),
                        old(self).counted(),
                        quota_of(source),
                    ) == Some(reason@)
                    &&& final(self).counted() == old(self).counted()
                    &&& final(admission).slots(old(self).pool()) == old(admission).slots(
                        old(self).pool(),
                    )
                },
            },
            forall|kind: PoolKind|
                kind != old(self).pool() ==> #[trigger] final(admission).slots(kind) == old(admission).slots(kind),
            old(admission).wf() ==> final(admission).wf(),
    {
        let source = quota_source(source);
        let moved = match self.kind {
            PoolKind::Pending => admission.pending.reclassify(self.source, source),
            PoolKind::Active => admission.active.reclassify(self.source, source),
        };
        match moved {
            Ok(_) => {
                self.source = Some(source);
                Ok(())
            },
            Err(reason) => Err(reason),
        }
    }
}

/// Who may connect: the proxies that are trusted, the handshakes that are
/// pending and the connections that stand. Handshakes have slots of their own,
/// so that they cannot use up those of the connections.
pub struct Admission {
    pub trusted_proxies: Table<IpAddr, ()>,
    pending: Pool,
    active: Pool,
}

/// The entries of a list of proxies: the pieces between commas, without the
/// white space around them. Blank ones do not count.
pub open spec fn proxy_entry(s: Seq<char>, i: int) -> Seq<char> {
    text::trimmed(text::split_text(s, ',')[i])
}

/// Every entry of a list of proxies is an address.
pub open spec fn proxies_ok(s: Seq<char>) -> bool {
    forall|i: int|
        0 <= i < text::split_text(s, ',').len() ==> (#[trigger] proxy_entry(s, i)).len() == 0
            || ip::ip_of(proxy_entry(s, i)) is Some
}

/// The address that an entry of a list of proxies writes.
pub open spec fn proxy_address(s: Seq<char>, i: int) -> Option<IpAddr> {
    match ip::ip_of(proxy_entry(s, i)) {
        Some(ip) => if proxy_entry(s, i).len() > 0 {
            Some(ip::canonical_ip(ip))
        } else {
            None
        },
        None => None,
    }
}

/// An address is in a list of proxies.
pub open spec fn lists_proxy(s: Seq<char>, address: IpAddr) -> bool {
    exists|i: int|
        0 <= i < text::split_text(s, ',').len() && #[trigger] proxy_address(s, i) == Some(address)
}

pub open spec fn clamp_to(n: int, low: int, high: int) -> int {
    if n < low {
        low
    } else if n > high {
        high
    } else {
        n
    }
}

/// The slots for one source among the standing connections: at least one, and
/// fewer than there are where there are more than one.
pub open spec fn active_source_limit(max: int, per_source: Option<usize>) -> Option<int> {
    match per_source {
        Some(limit) => Some(clamp_to(limit as int, 1, if max > 2 { max - 1 } else { 1 })),
        None => None,
    }
}

fn clamp(n: usize, low: usize, high: usize) -> (r: usize)
    ensures
        r == clamp_to(n as int, low as int, high as int),
{
    if n < low {
        low
    } else if n > high {
        high
    } else {
        n
    }
}

/// The addresses that a request names for its client. A value that is not
/// visible ASCII is absent.
pub struct ForwardedHeaders {
    /// The values of `x-forwarded-for`.
    pub forwarded_for: Vec<Option<String>>,
    /// The values of `x-real-ip`.
    pub real_ip: Vec<Option<String>>,
}

/// The addresses of a forwarded chain; none where a piece is no address.
pub open spec fn chain_of(value: Seq<char>) -> Option<Seq<IpAddr>> {
    let pieces = text::split_text(value, ',');
    if forall|i: int|
        0 <= i < pieces.len() ==> ip::ip_of(text::trimmed(#[trigger] pieces[i])) is Some {
        Some(
            Seq::new(
                pieces.len(),
                |i: int| ip::canonical_ip(ip::ip_of(text::trimmed(pieces[i]))->0),
            ),
        )
    } else {
        None
    }
}

/// The last address of a chain that is not a trusted proxy. What stands before
/// it, the client may have made up.
pub open spec fn nearest_client(chain: Seq<IpAddr>, trusted: Set<IpAddr>) -> Option<IpAddr>
    decreases chain.len(),
{
    if chain.len() == 0 {
        None
    } else if !trusted.contains(chain.last()) {
        Some(chain.last())
    } else {
        nearest_client(chain.drop_last(), trusted)
    }
}

/// The address that the one `x-real-ip` value writes.
pub open spec fn real_address(value: Option<String>) -> Option<IpAddr> {
    match value {
        Some(s) => match ip::ip_of(s@) {
            Some(ip) => Some(ip::canonical_ip(ip)),
            None => None,
        },
        None => None,
    }
}

/// Whether `x-real-ip` agrees with the client of the forwarded chain.
pub open spec fn vouched(
    client: IpAddr,
    real_ip: Seq<Option<String>>,
    trusted: Set<IpAddr>,
) -> Result<IpAddr, Seq<char>> {
    if real_ip.len() == 0 {
        Ok(client)
    } else if real_ip.len() == 1 {
        match real_address(real_ip[0]) {
            Some(stated) => if !trusted.contains(stated) && stated != client {
                Err("conflicting forwarded address"@)
            } else {
                Ok(client)
            },
            None => Err("invalid real address"@),
        }
    } else {
        Err("ambiguous forwarded address"@)
    }
}

/// The client of a request: the peer, unless the peer is a trusted proxy, which
/// has to name the client.
pub open spec fn client_source(
    trusted: Set<IpAddr>,
    peer: IpAddr,
    forwarded_for: Seq<Option<String>>,
    real_ip: Seq<Option<String>>,
) -> Result<IpAddr, Seq<char>> {
    let peer = ip::canonical_ip(peer);
    if !trusted.contains(peer) {
        Ok(peer)
    } else if forwarded_for.len() > 1 {
        Err("ambiguous forwarded address"@)
    } else if forwarded_for.len() == 1 {
        match forwarded_for[0] {
            None => Err("invalid forwarded address"@),
            Some(value) => if text::utf8_len(value@) > 1024 {
                Err("forwarded chain too long"@)
            } else {
                match chain_of(value@) {
                    None => Err("invalid forwarded address"@),
                    Some(chain) => if chain.len() > 16 {
                        Err("forwarded chain too long"@)
                    } else {
                        match nearest_client(chain, trusted) {
                            None => Err("forwarded chain has no client address"@),
                            Some(client) => vouched(client, real_ip, trusted),
                        }
                    },
                }
            },
        }
    } else if real_ip.len() != 1 {
        Err("trusted proxy must send client address"@)
    } else {
        match real_address(real_ip[0]) {
            Some(stated) => if trusted.contains(stated) {
                Err("invalid real address"@)
            } else {
                Ok(stated)
            },
            None => Err("invalid real address"@),
        }
    }
}

fn parse_chain(value: &str) -> (r: Option<Vec<IpAddr>>)
    ensures
        match r {
            Some(chain) => chain_of(value@) == Some(chain@),
            None => chain_of(value@) is None,
        },
{
    let pieces = text::split_chars(text::chars_of(value).as_slice(), ',');
    let ghost view = text::split_text(value@, ',');
    assert(view.len() == pieces@.len());
    assert(forall|i: int| 0 <= i < view.len() ==> view[i] == pieces@[i]@);
    let mut chain: Vec<IpAddr> = Vec::new();
    let mut i: usize = 0;
    while i < pieces.len()
        invariant
            i <= pieces@.len() == view.len(),
            view == text::split_text(value@, ','),
            forall|j: int| 0 <= j < view.len() ==> view[j] == pieces@[j]@,
            chain@.len() == i,
            forall|j: int|
                0 <= j < i ==> ip::ip_of(text::trimmed(#[trigger] view[j])) is Some && chain@[j]
                    == ip::canonical_ip(ip::ip_of(text::trimmed(view[j]))->0),
        decreases pieces@.len() - i,
    {
        assert(view[i as int] == pieces@[i as int]@);
        match ip::parse_ip(text::trim_chars(pieces[i].as_slice()).as_slice()) {
            Some(address) => {
                chain.push(ip::canonical(address));
            },
            None => {
                return None;
            },
        }
        i = i + 1;
    }
    assert(chain_of(value@) is Some);
    assert(chain@ =~= chain_of(value@)->0);
    Some(chain)
}

fn read_address(value: &Option<String>) -> (r: Option<IpAddr>)
    ensures
        r == real_address(*value),
{
    match value {
        Some(s) => match ip::parse_ip(text::chars_of(s.as_str()).as_slice()) {
            Some(address) => Some(ip::canonical(address)),
            None => None,
        },
        None => None,
    }
}

fn parse_proxies(proxies: &str) -> (r: Option<Table<IpAddr, ()>>)
    ensures
        match r {
            Some(set) => proxies_ok(proxies@) && forall|a: IpAddr| #[trigger]
                set@.contains_key(a) <==> lists_proxy(proxies@, a),
            None => !proxies_ok(proxies@),
        },
{
    let pieces = text::split_chars(text::chars_of(proxies).as_slice(), ',');
    let ghost view = text::split_text(proxies@, ',');
    assert(view.len() == pieces@.len());
    assert(forall|i: int| 0 <= i < view.len() ==> view[i] == pieces@[i]@);
    let mut set: Table<IpAddr, ()> = Table::new();
    let mut i: usize = 0;
    while i < pieces.len()
        invariant
            i <= pieces@.len() == view.len(),
            view == text::split_text(proxies@, ','),
            forall|j: int| 0 <= j < view.len() ==> view[j] == pieces@[j]@,
            forall|j: int|
                0 <= j < i ==> (#[trigger] proxy_entry(proxies@, j)).len() == 0 || ip::ip_of(
                    proxy_entry(proxies@, j),
                ) is Some,
            forall|a: IpAddr| #[trigger]
                set@.contains_key(a) ==> exists|j: int|
                    0 <= j < i && #[trigger] proxy_address(proxies@, j) == Some(a),
            forall|j: int|
                0 <= j < i && (#[trigger] proxy_address(proxies@, j)) is Some
                    ==> set@.contains_key(proxy_address(proxies@, j)->0),
        decreases pieces@.len() - i,
    {
        let entry = text::trim_chars(pieces[i].as_slice());
        assert(entry@ == proxy_entry(proxies@, i as int));
        if entry.len() > 0 {
            match ip::parse_ip(entry.as_slice()) {
                Some(address) => {
                    let ghost before = set@;
                    set.put(ip::canonical(address), ());
                    assert forall|a: IpAddr| #[trigger] set@.contains_key(a) implies exists|j: int|
                        0 <= j < i + 1 && #[trigger] proxy_address(proxies@, j) == Some(a) by {
                        if a == ip::canonical_ip(address) {
                            assert(proxy_address(proxies@, i as int) == Some(a));
                        } else {
                            assert(before.contains_key(a));
                        }
                    }
                },
                None => {
                    return None;
                },
            }
        }
        i = i + 1;
    }
    assert forall|a: IpAddr| lists_proxy(proxies@, a) implies #[trigger] set@.contains_key(a) by {
        let j = choose|j: int|
            0 <= j < view.len() && #[trigger] proxy_address(proxies@, j) == Some(a);
        assert(proxy_address(proxies@, j) is Some);
    }
    Some(set)
}

impl Admission {
    /// The trusted proxies.
    pub closed spec fn trusted(&self) -> Set<IpAddr> {
        self.trusted_proxies@.dom()
    }

    /// The slots of one kind.
    pub closed spec fn slots(&self, kind: PoolKind) -> PoolView {
        match kind {
            PoolKind::Pending => self.pending@,
            PoolKind::Active => self.active@,
        }
    }

    /// Neither pool holds more than its bounds allow.
    pub open spec fn wf(&self) -> bool {
        pool_wf(self.slots(PoolKind::Pending)) && pool_wf(self.slots(PoolKind::Active))
    }

    /// Sets admission up for `max` connections, `per_source` of one source, and
    /// the proxies of a comma-separated list.
    pub fn new(max: usize, per_source: Option<usize>, proxies: &str) -> (r: Result<Self, String>)
        ensures
            match r {
                Ok(admission) => {
                    let pending = admission.slots(PoolKind::Pending);
                    let active = admission.slots(PoolKind::Active);
                    &&& proxies_ok(proxies@)
                    &&& forall|a: IpAddr| #[trigger]
                        admission.trusted().contains(a) <==> lists_proxy(proxies@, a)
                    &&& admission.wf()
                    &&& pending.limit == clamp_to(max as int, 1, MAX_PENDING_HANDSHAKES as int)
                    &&& pending.source_limit matches Some(limit) && limit == clamp_to(
                        match per_source {
                            Some(n) => n as int,
                            None => DEFAULT_PENDING_SOURCE_LIMIT as int,
                        },
                        1,
                        DEFAULT_PENDING_SOURCE_LIMIT as int,
                    )
                    &&& active.limit == (if max > 1 {
                        max
                    } else {
                        1
                    })
                    &&& match active.source_limit {
                        Some(limit) => active_source_limit(max as int, per_source) == Some(
                            limit as int,
                        ),
                        None => per_source is None,
                    }
                    &&& pending.total == 0 && pending.counts == Map::<IpAddr, usize>::empty()
                    &&& active.total == 0 && active.counts == Map::<IpAddr, usize>::empty()
                },
                Err(message) => !proxies_ok(proxies@) && message@
                    == "TRUSTED_PROXIES must contain comma-separated IP addresses"@,
            },
    {
        let trusted_proxies = match parse_proxies(proxies) {
            Some(set) => set,
            None => {
                return Err("TRUSTED_PROXIES must contain comma-separated IP addresses".to_owned());
            },
        };
        let pending_source: usize = match per_source {
            Some(limit) => limit,
            None => DEFAULT_PENDING_SOURCE_LIMIT,
        };
        let highest: usize = if max > 2 {
            max - 1
        } else {
            1
        };
        let active_source = match per_source {
            Some(limit) => Some(clamp(limit, 1, highest)),
            None => None,
        };
        let admission = Admission {
            trusted_proxies,
            pending: Pool::new(
                clamp(max, 1, MAX_PENDING_HANDSHAKES),
                Some(clamp(pending_source, 1, DEFAULT_PENDING_SOURCE_LIMIT)),
            ),
            active: Pool::new(
                if max > 1 {
                    max
                } else {
                    1
                },
                active_source,
            ),
        };
        assert forall|a: IpAddr| #[trigger] admission.trusted().contains(a) <==> lists_proxy(
            proxies@,
            a,
        ) by {
            assert(admission.trusted_proxies@.contains_key(a) <==> lists_proxy(proxies@, a));
        }
        Ok(admission)
    }

    /// The bound on the connections of one source.
    pub fn source_limit(&self) -> (r: Option<usize>)
        ensures
            r == self.slots(PoolKind::Active).source_limit,
    {
        self.active.source_limit
    }

    /// Takes a slot for a handshake. That of a trusted proxy is counted for no
    /// source until the client behind it is known.
    pub fn pending(&mut self, peer: IpAddr) -> (r: Result<Lease, &'static str>)
        ensures
            final(self).trusted() == old(self).trusted(),
            final(self).slots(PoolKind::Active) == old(self).slots(PoolKind::Active),
            old(self).wf() ==> final(self).wf(),
            ({
                let before = old(self).slots(PoolKind::Pending);
                let source = if old(self).trusted().contains(ip::canonical_ip(peer)) {
                    None
                } else {
                    Some(quota_of(ip::canonical_ip(peer)))
                };
                match r {
                    Ok(lease) => refusal(before, source) is None && lease.pool()
                        == PoolKind::Pending && lease.counted() == counted_source(before, source)
                        && final(self).slots(PoolKind::Pending) == taken(before, lease.counted()),
                    Err(reason) => refusal(before, source) == Some(reason@) && final(self).slots(
                        PoolKind::Pending,
                    ) == before,
                }
            }),
    {
        let peer = ip::canonical(peer);
        let source = if self.trusted_proxies.contains(&peer) {
            None
        } else {
            Some(quota_source(peer))
        };
        match self.pending.acquire(source) {
            Ok(counted) => Ok(Lease { kind: PoolKind::Pending, source: counted }),
            Err(reason) => Err(reason),
        }
    }

    /// Takes a slot for a connection.
    pub fn active(&mut self, source: IpAddr) -> (r: Result<Lease, &'static str>)
        ensures
            final(self).trusted() == old(self).trusted(),
            final(self).slots(PoolKind::Pending) == old(self).slots(PoolKind::Pending),
            old(self).wf() ==> final(self).wf(),
            ({
                let before = old(self).slots(PoolKind::Active);
                match r {
                    Ok(lease) => refusal(before, Some(quota_of(source))) is None && lease.pool()
                        == PoolKind::Active && lease.counted() == counted_source(
                        before,
                        Some(quota_of(source)),
                    ) && final(self).slots(PoolKind::Active) == taken(before, lease.counted()),
                    Err(reason) => refusal(before, Some(quota_of(source))) == Some(reason@)
                        && final(self).slots(PoolKind::Active) == before,
                }
            }),
    {
        match self.active.acquire(Some(quota_source(source))) {
            Ok(counted) => Ok(Lease { kind: PoolKind::Active, source: counted }),
            Err(reason) => Err(reason),
        }
    }

    /// Gives a slot back.
    pub fn release(&mut self, lease: Lease)
        ensures
            final(self).trusted() == old(self).trusted(),
            final(self).slots(lease.pool()) == given_back(
                old(self).slots(lease.pool()),
                lease.counted(),
            ),
            forall|kind: PoolKind|
                kind != lease.pool() ==> #[trigger] final(self).slots(kind) == old(self).slots(
                    kind,
                ),
            old(self).wf() ==> final(self).wf(),
    {
        match lease.kind {
            PoolKind::Pending => self.pending.release(lease.source),
            PoolKind::Active => self.active.release(lease.source),
        }
    }

    /// The client of a request. Headers count only where a trusted proxy sent
    /// them.
    pub fn source(&self, peer: IpAddr, headers: &ForwardedHeaders) -> (r: Result<
        IpAddr,
        &'static str,
    >)
        ensures
            match r {
                Ok(client) => client_source(
                    self.trusted(),
                    peer,
                    headers.forwarded_for@,
                    headers.real_ip@,
                ) == Ok::<IpAddr, Seq<char>>(client),
                Err(reason) => client_source(
                    self.trusted(),
                    peer,
                    headers.forwarded_for@,
                    headers.real_ip@,
                ) == Err::<IpAddr, Seq<char>>(reason@),
            },
    {
        let peer = ip::canonical(peer);
        if !self.trusted_proxies.contains(&peer) {
            return Ok(peer);
        }
        if headers.forwarded_for.len() > 0 {
            if headers.forwarded_for.len() != 1 {
                return Err("ambiguous forwarded address");
            }
            let value = match &headers.forwarded_for[0] {
                Some(value) => value,
                None => {
                    return Err("invalid forwarded address");
                },
            };
            if text::byte_len(value.as_str()) > 1024 {
                return Err("forwarded chain too long");
            }
            let chain = match parse_chain(value.as_str()) {
                Some(chain) => chain,
                None => {
                    return Err("invalid forwarded address");
                },
            };
            if chain.len() > 16 {
                return Err("forwarded chain too long");
            }
            let client = match self.client_in(&chain) {
                Some(client) => client,
                None => {
                    return Err("forwarded chain has no client address");
                },
            };
            if headers.real_ip.len() == 0 {
                return Ok(client);
            }
            if headers.real_ip.len() > 1 {
                return Err("ambiguous forwarded address");
            }
            return match read_address(&headers.real_ip[0]) {
                Some(stated) => if !self.trusted_proxies.contains(&stated) && stated != client {
                    Err("conflicting forwarded address")
                } else {
                    Ok(client)
                },
                None => Err("invalid real address"),
            };
        }
        if headers.real_ip.len() != 1 {
            return Err("trusted proxy must send client address");
        }
        match read_address(&headers.real_ip[0]) {
            Some(stated) => if self.trusted_proxies.contains(&stated) {
                Err("invalid real address")
            } else {
                Ok(stated)
            },
            None => Err("invalid real address"),
        }
    }

    /// Admits a handshake: finds its client, counts the pending slot for the
    /// client, and takes a slot for the connection. A refusal keeps the pending
    /// slot, which is given back when the handshake ends.
    pub fn admit_handshake(
        &mut self,
        peer: IpAddr,
        headers: &ForwardedHeaders,
        pending: &mut Option<Lease>,
    ) -> (r: Result<(IpAddr, Lease), &'static str>)
        requires
            *old(pending) matches Some(lease) ==> lease.pool() == PoolKind::Pending,
        ensures
            final(self).trusted() == old(self).trusted(),
            old(self).wf() ==> final(self).wf(),
            *old(pending) is Some == *final(pending) is Some,
            ({
                let client = client_source(
                    old(self).trusted(),
                    peer,
                    headers.forwarded_for@,
                    headers.real_ip@,
                );
                let waiting = old(self).slots(PoolKind::Pending);
                let standing = old(self).slots(PoolKind::Active);
                let counted = match *old(pending) {
                    Some(lease) => lease.counted(),
                    None => None,
                };
                match client {
                    Err(reason) => {
                        &&& r matches Err(said) && said@ == reason
                        &&& *final(pending) == *old(pending)
                        &&& final(self).slots(PoolKind::Pending) == waiting
                        &&& final(self).slots(PoolKind::Active) == standing
                    },
                    Ok(ip) => if *old(pending) is Some && move_refusal(
                        waiting,
                        counted,
                        quota_of(ip),
                    ) is Some {
                        &&& r matches Err(said) && Some(said@) == move_refusal(
                            waiting,
                            counted,
                            quota_of(ip),
                        )
                        &&& *final(pending) matches Some(lease) && lease.counted() == counted
                            && lease.pool() == PoolKind::Pending
                        &&& final(self).slots(PoolKind::Pending) == waiting
                        &&& final(self).slots(PoolKind::Active) == standing
                    } else {
                        &&& final(self).slots(PoolKind::Pending) == (if *old(pending) is Some {
                            moved(waiting, counted, quota_of(ip))
                        } else {
                            waiting
                        })
                        &&& *final(pending) matches Some(lease) ==> lease.counted() == Some(
                            quota_of(ip),
                        ) && lease.pool() == PoolKind::Pending
                        &&& match r {
                            Ok((source, lease)) => source == ip && refusal(
                                standing,
                                Some(quota_of(ip)),
                            ) is None && lease.pool() == PoolKind::Active && lease.counted()
                                == counted_source(standing, Some(quota_of(ip))) && final(self).slots(PoolKind::Active) == taken(standing, lease.counted()),
                            Err(said) => refusal(standing, Some(quota_of(ip))) == Some(said@)
                                && final(self).slots(PoolKind::Active) == standing,
                        }
                    },
                }
            }),
    {
        let ip = match self.source(peer, headers) {
            Ok(ip) => ip,
            Err(reason) => {
                return Err(reason);
            },
        };
        if let Some(lease) = pending {
            match lease.resolve_source(self, ip) {
                Ok(_) => {},
                Err(reason) => {
                    return Err(reason);
                },
            }
        }
        match self.active(ip) {
            Ok(lease) => Ok((ip, lease)),
            Err(reason) => Err(reason),
        }
    }

    fn client_in(&self, chain: &Vec<IpAddr>) -> (r: Option<IpAddr>)
        ensures
            r == nearest_client(chain@, self.trusted()),
    {
        let mut end: usize = chain.len();
        assert(chain@.take(end as int) =~= chain@);
        while end > 0
            invariant
                end <= chain@.len(),
                nearest_client(chain@, self.trusted()) == nearest_client(
                    chain@.take(end as int),
                    self.trusted(),
                ),
            decreases end,
        {
            let last = chain[end - 1];
            assert(chain@.take(end as int).last() == last);
            if !self.trusted_proxies.contains(&last) {
                return Some(last);
            }
            assert(chain@.take(end as int).drop_last() =~= chain@.take(end - 1));
            end = end - 1;
        }
        None
    }
}

} // verus!
