//! Who may connect, and for whom a connection counts.
use vstd::prelude::*;
use crate::connection_guard;
use crate::connection_guard::PoolView;
use crate::ip;
use crate::ip::{IpAddr, Ipv4Addr, Ipv6Addr};
use crate::limits;
use crate::text;

verus! {

// ---------------------------------------------------------------------------
// Sources
// ---------------------------------------------------------------------------
/// An IPv4 address counts for itself, and an IPv6 address for the first half of its
/// bits: two that hold no IPv4 address share a source exactly when those agree.
pub proof fn sources_are_networks(
    a: Ipv6Addr,
    b: Ipv6Addr,
    x: Ipv4Addr,
)
    requires
        ip::canonical_ip(IpAddr::V6(a)) == IpAddr::V6(a),
        ip::canonical_ip(IpAddr::V6(b)) == IpAddr::V6(b),
    ensures
        connection_guard::quota_of(IpAddr::V4(x)) == IpAddr::V4(x),
        connection_guard::quota_of(IpAddr::V6(a)) == connection_guard::quota_of(IpAddr::V6(b))
            <==> a.s0 == b.s0 && a.s1 == b.s1 && a.s2 == b.s2 && a.s3 == b.s3,
        connection_guard::quota_of(IpAddr::V6(a)) matches IpAddr::V6(n) && n.s0 == a.s0 && n.s1
            == a.s1 && n.s2 == a.s2 && n.s3 == a.s3 && n.s4 == 0 && n.s5 == 0 && n.s6 == 0 && n.s7
            == 0,
{
}

// ---------------------------------------------------------------------------
// Slots
// ---------------------------------------------------------------------------
/// The slots that a source holds.
pub open spec fn held_by(pool: PoolView, ip: IpAddr) -> int {
    if pool.counts.contains_key(ip) {
        pool.counts[ip] as int
    } else {
        0
    }
}

/// A slot is refused exactly when all are taken, or when the source has as many as
/// one source may have.
pub proof fn slots_are_refused_when_they_run_out(pool: PoolView, source: Option<IpAddr>)
    ensures
        ({
            let all_taken = pool.total >= pool.limit;
            let source_full = source matches Some(ip) && pool.source_limit matches Some(limit)
                && held_by(pool, ip) >= limit;
            let refusal = connection_guard::refusal(pool, source);
            &&& all_taken ==> refusal == Some("connection capacity reached"@)
            &&& !all_taken && source_full ==> refusal == Some("source connection capacity reached"@)
            &&& !all_taken && !source_full ==> refusal is None
        }),
{
}

/// Taking a slot takes one, for its source where sources are limited; no other
/// source has more or fewer, and the limits stay.
pub proof fn taking_takes_one_slot(pool: PoolView, source: Option<IpAddr>, other: IpAddr)
    requires
        connection_guard::refusal(pool, source) is None,
    ensures
        ({
            let counted = connection_guard::counted_source(pool, source);
            let after = connection_guard::taken(pool, counted);
            &&& after.total == pool.total + 1
            &&& after.limit == pool.limit
            &&& after.source_limit == pool.source_limit
            &&& pool.source_limit is None ==> counted is None
            &&& pool.source_limit is Some ==> counted == source
            &&& Some(other) != counted ==> held_by(after, other) == held_by(pool, other)
            &&& Some(other) == counted ==> held_by(after, other) == held_by(pool, other) + 1
        }),
{
}

/// Giving a slot back frees one, of the source that it was counted for; a source
/// without slots is forgotten.
pub proof fn giving_back_frees_one_slot(pool: PoolView, counted: Option<IpAddr>, other: IpAddr)
    ensures
        ({
            let after = connection_guard::given_back(pool, counted);
            &&& pool.total > 0 ==> after.total == pool.total - 1
            &&& pool.total == 0 ==> after.total == 0
            &&& after.limit == pool.limit
            &&& after.source_limit == pool.source_limit
            &&& Some(other) != counted ==> held_by(after, other) == held_by(pool, other)
            &&& Some(other) == counted && held_by(pool, other) >= 1 ==> held_by(after, other)
                == held_by(pool, other) - 1
            &&& Some(other) == counted && held_by(pool, other) <= 1 ==> !after.counts.contains_key(
                other,
            )
        }),
{
}

/// A slot is counted for another source exactly when sources are limited and that
/// source has room, or when it is the source's already. No slot is taken or freed by
/// that: the one source has one fewer, and the other one more.
pub proof fn moving_keeps_the_slot(
    pool: PoolView,
    counted: Option<IpAddr>,
    source: IpAddr,
    other: IpAddr,
)
    requires
        pool.source_limit matches Some(limit) && connection_guard::pool_wf(pool),
        counted matches Some(ip) ==> held_by(pool, ip) >= 1,
    ensures
        ({
            let refusal = connection_guard::move_refusal(pool, counted, source);
            let after = connection_guard::moved(pool, counted, source);
            let stays = counted == Some(source);
            &&& refusal is None <==> stays || held_by(pool, source) < pool.source_limit->0
            &&& refusal is Some ==> refusal == Some("source connection capacity reached"@)
            &&& stays ==> after == pool
            &&& !stays && refusal is None ==> {
                &&& after.total == pool.total
                &&& after.limit == pool.limit
                &&& after.source_limit == pool.source_limit
                &&& held_by(after, source) == held_by(pool, source) + 1
                &&& counted == Some(other) ==> held_by(after, other) == held_by(pool, other) - 1
                &&& counted != Some(other) && other != source ==> held_by(after, other) == held_by(
                    pool,
                    other,
                )
            }
        }),
{
}

/// Where sources are not limited, a slot cannot be counted for one.
pub proof fn slots_without_source_stay_so(pool: PoolView, counted: Option<IpAddr>, source: IpAddr)
    requires
        pool.source_limit is None,
        counted != Some(source),
    ensures
        connection_guard::move_refusal(pool, counted, source) == Some(
            "source connection capacity reached"@,
        ),
{
}

/// One source may have as many connections as it is given, but one at least, and
/// never all of them where there are more than one.
pub proof fn no_source_takes_all_connections(max: int, limit: usize)
    requires
        max >= 1,
    ensures
        connection_guard::active_source_limit(max, None) is None,
        connection_guard::active_source_limit(max, Some(limit)) matches Some(n) && {
            &&& n >= 1
            &&& max >= 2 ==> n < max
            &&& 1 <= limit < max ==> n == limit
            &&& limit >= max >= 2 ==> n == max - 1
            &&& limit == 0 || max == 1 ==> n == 1
        },
{
}

/// A number is kept between two bounds.
pub proof fn bounds_are_kept(n: int, low: int, high: int)
    requires
        low <= high,
    ensures
        low <= connection_guard::clamp_to(n, low, high) <= high,
        low <= n <= high ==> connection_guard::clamp_to(n, low, high) == n,
        n < low ==> connection_guard::clamp_to(n, low, high) == low,
        n > high ==> connection_guard::clamp_to(n, low, high) == high,
{
}

// ---------------------------------------------------------------------------
// Proxies
// ---------------------------------------------------------------------------
/// The text is the address, with or without white space around it; an address that
/// maps an IPv4 address is that one.
pub open spec fn is_written(s: Seq<char>, address: IpAddr) -> bool {
    &&& text::trimmed(s).len() > 0
    &&& ip::ip_of(text::trimmed(s)) matches Some(ip) && ip::canonical_ip(ip) == address
}

/// A list of proxies is in order exactly when each entry between its commas is blank
/// or an address, and it lists the addresses that stand there.
pub proof fn proxies_are_the_addresses_between_commas(s: Seq<char>, address: IpAddr)
    ensures
        connection_guard::proxies_ok(s) <==> forall|i: int|
            0 <= i < text::split_text(s, ',').len() ==> text::trimmed(
                #[trigger] text::split_text(s, ',')[i],
            ).len() == 0 || ip::ip_of(text::trimmed(text::split_text(s, ',')[i])) is Some,
        connection_guard::lists_proxy(s, address) <==> exists|i: int|
            0 <= i < text::split_text(s, ',').len() && is_written(
                #[trigger] text::split_text(s, ',')[i],
                address,
            ),
{
    let pieces = text::split_text(s, ',');
    if connection_guard::proxies_ok(s) {
        assert forall|i: int| 0 <= i < pieces.len() implies text::trimmed(
            #[trigger] pieces[i],
        ).len() == 0 || ip::ip_of(text::trimmed(pieces[i])) is Some by {
            assert(connection_guard::proxy_entry(s, i) == text::trimmed(pieces[i]));
        }
    }
    if connection_guard::lists_proxy(s, address) {
        let i = choose|i: int|
            0 <= i < pieces.len() && #[trigger] connection_guard::proxy_address(s, i) == Some(
                address,
            );
        assert(text::trimmed(pieces[i]).len() > 0);
    }
    if exists|i: int|
        0 <= i < pieces.len() && is_written(#[trigger] pieces[i], address) {
        let i = choose|i: int| 0 <= i < pieces.len() && is_written(#[trigger] pieces[i], address);
        assert(connection_guard::proxy_address(s, i) == Some(address));
    }
}

/// A forwarded chain is the addresses between its commas, all of which must be
/// addresses.
pub proof fn chains_are_addresses_between_commas(value: Seq<char>, i: int)
    requires
        0 <= i < text::split_text(value, ',').len(),
    ensures
        connection_guard::chain_of(value) matches Some(chain) ==> {
            &&& chain.len() == text::split_text(value, ',').len()
            &&& ip::ip_of(text::trimmed(text::split_text(value, ',')[i])) matches Some(ip)
                && chain[i] == ip::canonical_ip(ip)
        },
        ip::ip_of(text::trimmed(text::split_text(value, ',')[i])) is None
            ==> connection_guard::chain_of(value) is None,
        (forall|k: int|
            0 <= k < text::split_text(value, ',').len() ==> (ip::ip_of(
                text::trimmed(#[trigger] text::split_text(value, ',')[k]),
            ) is Some)) ==> connection_guard::chain_of(value) is Some,
{
}

proof fn lemma_nearest(chain: Seq<IpAddr>, trusted: Set<IpAddr>, k: int)
    requires
        0 <= k < chain.len(),
        !trusted.contains(chain[k]),
        forall|i: int| k < i < chain.len() ==> trusted.contains(#[trigger] chain[i]),
    ensures
        connection_guard::nearest_client(chain, trusted) == Some(chain[k]),
    decreases chain.len(),
{
    if k < chain.len() - 1 {
        assert(trusted.contains(chain[chain.len() - 1]));
        lemma_nearest(chain.drop_last(), trusted, k);
    }
}

proof fn lemma_no_client(chain: Seq<IpAddr>, trusted: Set<IpAddr>)
    requires
        forall|i: int| 0 <= i < chain.len() ==> trusted.contains(#[trigger] chain[i]),
    ensures
        connection_guard::nearest_client(chain, trusted) is None,
    decreases chain.len(),
{
    if chain.len() > 0 {
        assert(trusted.contains(chain[chain.len() - 1]));
        lemma_no_client(chain.drop_last(), trusted);
    }
}

/// The client behind a trusted proxy that forwards one chain is the last address of
/// the chain that is no trusted proxy. A real address beside the chain must be that
/// client or a trusted proxy, and there must not be two.
pub proof fn clients_are_the_last_untrusted_address(
    trusted: Set<IpAddr>,
    peer: IpAddr,
    value: String,
    chain: Seq<IpAddr>,
    k: int,
    real_ip: Seq<Option<String>>,
)
    requires
        trusted.contains(ip::canonical_ip(peer)),
        text::utf8_len(value@) <= 1024,
        connection_guard::chain_of(value@) == Some(chain),
        chain.len() <= 16,
        0 <= k < chain.len(),
        !trusted.contains(chain[k]),
        forall|i: int| k < i < chain.len() ==> trusted.contains(#[trigger] chain[i]),
    ensures
        ({
            let r = connection_guard::client_source(trusted, peer, seq![Some(value)], real_ip);
            &&& real_ip.len() == 0 ==> r == Ok::<IpAddr, Seq<char>>(chain[k])
            &&& real_ip.len() >= 2 ==> r == Err::<IpAddr, Seq<char>>("ambiguous forwarded address"@)
            &&& real_ip.len() == 1 ==> match real_ip[0] {
                None => r == Err::<IpAddr, Seq<char>>("invalid real address"@),
                Some(s) => match ip::ip_of(s@) {
                    None => r == Err::<IpAddr, Seq<char>>("invalid real address"@),
                    Some(stated) => if ip::canonical_ip(stated) == chain[k] || trusted.contains(
                        ip::canonical_ip(stated),
                    ) {
                        r == Ok::<IpAddr, Seq<char>>(chain[k])
                    } else {
                        r == Err::<IpAddr, Seq<char>>("conflicting forwarded address"@)
                    },
                },
            }
        }),
{
    lemma_nearest(chain, trusted, k);
}

/// A forwarded chain names no client where it is no list of addresses, is longer
/// than 1024 bytes or 16 addresses, or holds nothing but trusted proxies; nor do two
/// chains.
pub proof fn chains_that_name_no_client(
    trusted: Set<IpAddr>,
    peer: IpAddr,
    forwarded: Seq<Option<String>>,
    real_ip: Seq<Option<String>>,
)
    requires
        trusted.contains(ip::canonical_ip(peer)),
        forwarded.len() >= 1,
    ensures
        ({
            let r = connection_guard::client_source(trusted, peer, forwarded, real_ip);
            if forwarded.len() >= 2 {
                r == Err::<IpAddr, Seq<char>>("ambiguous forwarded address"@)
            } else {
                match forwarded[0] {
                    None => r == Err::<IpAddr, Seq<char>>("invalid forwarded address"@),
                    Some(value) => if text::utf8_len(value@) > 1024 {
                        r == Err::<IpAddr, Seq<char>>("forwarded chain too long"@)
                    } else {
                        match connection_guard::chain_of(value@) {
                            None => r == Err::<IpAddr, Seq<char>>("invalid forwarded address"@),
                            Some(chain) => if chain.len() > 16 {
                                r == Err::<IpAddr, Seq<char>>("forwarded chain too long"@)
                            } else if forall|i: int|
                                0 <= i < chain.len() ==> trusted.contains(#[trigger] chain[i]) {
                                r == Err::<IpAddr, Seq<char>>(
                                    "forwarded chain has no client address"@,
                                )
                            } else {
                                true
                            },
                        }
                    },
                }
            }
        }),
{
    if forwarded.len() == 1 {
        if let Some(value) = forwarded[0] {
            if let Some(chain) = connection_guard::chain_of(value@) {
                if forall|i: int| 0 <= i < chain.len() ==> trusted.contains(#[trigger] chain[i]) {
                    lemma_no_client(chain, trusted);
                }
            }
        }
    }
}

/// A trusted proxy that forwards no chain must name one real address that is no
/// trusted proxy; that is the client. Anyone else is its own client, whatever it
/// says.
pub proof fn real_addresses_count_without_a_chain(
    trusted: Set<IpAddr>,
    peer: IpAddr,
    forwarded: Seq<Option<String>>,
    real_ip: Seq<Option<String>>,
)
    ensures
        ({
            let r = connection_guard::client_source(trusted, peer, forwarded, real_ip);
            let is_proxy = trusted.contains(ip::canonical_ip(peer));
            &&& !is_proxy ==> r == Ok::<IpAddr, Seq<char>>(ip::canonical_ip(peer))
            &&& is_proxy && forwarded.len() == 0 && real_ip.len() != 1 ==> r == Err::<
                IpAddr,
                Seq<char>,
            >("trusted proxy must send client address"@)
            &&& is_proxy && forwarded.len() == 0 && real_ip.len() == 1 ==> match real_ip[0] {
                None => r == Err::<IpAddr, Seq<char>>("invalid real address"@),
                Some(s) => match ip::ip_of(s@) {
                    None => r == Err::<IpAddr, Seq<char>>("invalid real address"@),
                    Some(stated) => if trusted.contains(ip::canonical_ip(stated)) {
                        r == Err::<IpAddr, Seq<char>>("invalid real address"@)
                    } else {
                        r == Ok::<IpAddr, Seq<char>>(ip::canonical_ip(stated))
                    },
                },
            }
        }),
{
}

/// The bounds that admission is set up with, and those that the server imposes on
/// what it is sent and how long it waits.
pub proof fn bounds_of_the_server()
    ensures
        limits::MAX_PENDING_HANDSHAKES == 128,
        limits::DEFAULT_PENDING_SOURCE_LIMIT == 16,
        limits::DEFAULT_MAX_CONNECTIONS == 1024,
        limits::DEFAULT_COMMUNITY_NODE_CAPACITY == 200,
        limits::MAX_MESSAGE_SIZE == 524_288,
        limits::MAX_FRAME_SIZE == 262_144,
        limits::WEBSOCKET_HANDSHAKE_TIMEOUT_SECS == 10,
        limits::REGISTRATION_TIMEOUT_SECS == 15,
        limits::SEND_TIMEOUT_SECS == 5,
        limits::REGISTERED_IDLE_TIMEOUT_SECS == 60,
        limits::COMMUNITY_NODE_PROBE_INTERVAL_SECS == 300,
        limits::COMMUNITY_NODE_PROBE_TIMEOUT_SECS == 3,
        limits::COMMUNITY_NODE_PROBE_QUEUE_TIMEOUT_SECS == 1,
        limits::COMMUNITY_NODE_PROBE_CONCURRENCY == 16,
        limits::CHALLENGE_BYTES == 32,
        limits::SIGNALING_PROTOCOL_VERSION == 3,
{
}

} // verus!
