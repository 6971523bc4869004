//! The nodes that users share: loading, probing, expiry and listing.
use vstd::prelude::*;
use vstd::string::*;
use crate::ip;
use crate::ip::IpAddr;
use crate::limits::{COMMUNITY_NODE_MAX_OFFLINE_SECS, COMMUNITY_NODE_PROBE_MAX_TARGETS};
use crate::node_address;
use crate::node_spelling;
use crate::protocol::CommunityNodeInfo;
use crate::state;
use crate::table::Table;
use crate::text;

verus! {

// ---------------------------------------------------------------------------
// Nodes
// ---------------------------------------------------------------------------
#[verifier::ext_equal]
pub struct NodeView {
    pub name: Seq<char>,
    pub address: Seq<char>,
    pub submitter: Option<Seq<char>>,
    pub submitted_at: u64,
    pub last_ok_at: u64,
    pub online: bool,
    pub latency_ms: Option<u64>,
}

impl View for CommunityNodeInfo {
    type V = NodeView;

    open spec fn view(&self) -> NodeView {
        NodeView {
            name: self.name@,
            address: self.address@,
            submitter: state::opt_view(self.submitter),
            submitted_at: self.submitted_at,
            last_ok_at: self.last_ok_at,
            online: self.online,
            latency_ms: self.latency_ms,
        }
    }
}

/// The nodes by the form of their address.
pub type NodeMap = Map<Seq<char>, NodeView>;

pub(crate) fn copy_node(node: &CommunityNodeInfo) -> (r: CommunityNodeInfo)
    ensures
        r@ == node@,
{
    CommunityNodeInfo {
        name: node.name.clone(),
        address: node.address.clone(),
        submitter: state::clone_opt(&node.submitter),
        submitted_at: node.submitted_at,
        last_ok_at: node.last_ok_at,
        online: node.online,
        latency_ms: node.latency_ms,
    }
}

/// The node was not reached for more than a day.
pub open spec fn expired(node: NodeView, now: u64) -> bool {
    now - node.last_ok_at > COMMUNITY_NODE_MAX_OFFLINE_SECS
}

/// Decides whether a node was not reached for more than a day. What the last
/// probe found does not matter: one failure removes nothing.
pub fn is_community_node_expired(node: &CommunityNodeInfo, now: u64) -> (r: bool)
    ensures
        r == expired(node@, now),
{
    now.saturating_sub(node.last_ok_at) > COMMUNITY_NODE_MAX_OFFLINE_SECS
}

// ---------------------------------------------------------------------------
// Loading
// ---------------------------------------------------------------------------
/// The nodes of a saved list, filed by the form of their address. Nodes with an
/// malformed address, with one that no submission yields, and expired ones are
/// dropped; of two with the same form the later one stays.
pub open spec fn restored(nodes: Seq<CommunityNodeInfo>, now: u64) -> NodeMap
    decreases nodes.len(),
{
    if nodes.len() == 0 {
        Map::empty()
    } else {
        let node = nodes.last()@;
        let earlier = restored(nodes.drop_last(), now);
        match node_spelling::loaded_form(node.address) {
            Ok(form) => if expired(node, now) {
                earlier
            } else {
                earlier.insert(form, node)
            },
            Err(_) => earlier,
        }
    }
}

/// Files the nodes of a saved list.
pub fn restore_community_nodes(nodes: &Vec<CommunityNodeInfo>, now: u64) -> (r: Table<
    String,
    CommunityNodeInfo,
>)
    ensures
        r@ == restored(nodes@, now),
{
    let mut filed: Table<String, CommunityNodeInfo> = Table::new();
    let mut i: usize = 0;
    assert(nodes@.take(0) =~= Seq::<CommunityNodeInfo>::empty());
    while i < nodes.len()
        invariant
            i <= nodes@.len(),
            filed@ == restored(nodes@.take(i as int), now),
        decreases nodes@.len() - i,
    {
        let node = &nodes[i];
        assert(nodes@.take(i + 1).drop_last() =~= nodes@.take(i as int));
        assert(nodes@.take(i + 1).last() == *node);
        if let Ok(form) = node_spelling::load_node_address(node.address.as_str()) {
            if !is_community_node_expired(node, now) {
                filed.put(form, copy_node(node));
            }
        }
        i = i + 1;
    }
    assert(nodes@.take(i as int) =~= nodes@);
    filed
}

// ---------------------------------------------------------------------------
// Probing
// ---------------------------------------------------------------------------
/// What a probe found.
#[derive(Clone, Copy, Debug, PartialEq, Eq, Structural)]
pub enum ProbeOutcome {
    /// Reached, in so many milliseconds.
    Alive(u64),
    Dead,
    /// The address may not be probed.
    Blocked,
    /// There was no slot for the probe.
    Busy,
}

/// What to do next for a probe.
pub enum ProbeStep {
    /// Look the host up.
    Resolve { host: String, port: u16 },
    /// Open a connection to the targets, one after the other.
    Connect,
    /// Send a datagram to the first target and wait for a reply.
    Datagram,
    Done(ProbeOutcome),
}

/// Begins a probe: an address without host and port may not be probed.
pub fn begin_probe(address: &str) -> (r: ProbeStep)
    ensures
        match node_address::host_port_of(address@) {
            Some((host, port)) => r matches ProbeStep::Resolve { host: h, port: p } && h@ == host
                && p == port,
            None => r == ProbeStep::Done(ProbeOutcome::Blocked),
        },
{
    match node_address::parse_node_host_port(address) {
        Some((host, port)) => ProbeStep::Resolve { host, port },
        None => ProbeStep::Done(ProbeOutcome::Blocked),
    }
}

/// The address may be probed.
pub open spec fn may_probe(address: IpAddr, allow_private: bool) -> bool {
    allow_private || ip::public_ip(address)
}

/// The positions of the addresses that may be probed, in order.
pub open spec fn allowed_positions(addresses: Seq<IpAddr>, allow_private: bool) -> Seq<usize>
    decreases addresses.len(),
{
    if addresses.len() == 0 {
        Seq::empty()
    } else {
        let earlier = allowed_positions(addresses.drop_last(), allow_private);
        if may_probe(addresses.last(), allow_private) && earlier.len()
            < COMMUNITY_NODE_PROBE_MAX_TARGETS {
            earlier.push((addresses.len() - 1) as usize)
        } else {
            earlier
        }
    }
}

/// The positions of the addresses to probe: the first few that may be probed.
pub fn resolve_probe_targets(addresses: &Vec<IpAddr>, allow_private: bool) -> (r: Vec<usize>)
    ensures
        r@ == allowed_positions(addresses@, allow_private),
        r@.len() <= COMMUNITY_NODE_PROBE_MAX_TARGETS,
        forall|i: int|
            0 <= i < r@.len() ==> (#[trigger] r@[i]) < addresses@.len() && may_probe(
                addresses@[r@[i] as int],
                allow_private,
            ),
{
    let mut targets: Vec<usize> = Vec::new();
    let mut i: usize = 0;
    assert(addresses@.take(0) =~= Seq::<IpAddr>::empty());
    while i < addresses.len()
        invariant
            i <= addresses@.len(),
            targets@ == allowed_positions(addresses@.take(i as int), allow_private),
            targets@.len() <= COMMUNITY_NODE_PROBE_MAX_TARGETS,
            forall|k: int|
                0 <= k < targets@.len() ==> (#[trigger] targets@[k]) < i && may_probe(
                    addresses@[targets@[k] as int],
                    allow_private,
                ),
        decreases addresses@.len() - i,
    {
        assert(addresses@.take(i + 1).drop_last() =~= addresses@.take(i as int));
        assert(addresses@.take(i + 1).last() == addresses@[i as int]);
        if (allow_private || ip::is_public_probe_target(&addresses[i])) && targets.len()
            < COMMUNITY_NODE_PROBE_MAX_TARGETS {
            targets.push(i);
        }
        i = i + 1;
    }
    assert(addresses@.take(i as int) =~= addresses@);
    targets
}

/// Goes on once the targets are known.
pub fn after_resolving(targets: usize) -> (r: ProbeStep)
    ensures
        r == if targets == 0 {
            ProbeStep::Done(ProbeOutcome::Blocked)
        } else {
            ProbeStep::Connect
        },
{
    if targets == 0 {
        ProbeStep::Done(ProbeOutcome::Blocked)
    } else {
        ProbeStep::Connect
    }
}

/// Goes on once connections have been tried. Only a connection that was
/// established counts, and only a `udp://` node gets a second chance.
pub fn after_connecting(scheme: &str, connected: Option<u64>) -> (r: ProbeStep)
    ensures
        r == match connected {
            Some(ms) => ProbeStep::Done(ProbeOutcome::Alive(ms)),
            None => if scheme@ == "udp"@ {
                ProbeStep::Datagram
            } else {
                ProbeStep::Done(ProbeOutcome::Dead)
            },
        },
{
    match connected {
        Some(ms) => ProbeStep::Done(ProbeOutcome::Alive(ms)),
        None => if text::same_text(scheme, "udp") {
            ProbeStep::Datagram
        } else {
            ProbeStep::Done(ProbeOutcome::Dead)
        },
    }
}

/// Ends a probe by datagram. Silence is no sign of life.
pub fn after_datagram(replied: Option<u64>) -> (r: ProbeOutcome)
    ensures
        r == match replied {
            Some(ms) => ProbeOutcome::Alive(ms),
            None => ProbeOutcome::Dead,
        },
{
    match replied {
        Some(ms) => ProbeOutcome::Alive(ms),
        None => ProbeOutcome::Dead,
    }
}

// ---------------------------------------------------------------------------
// Sweeping
// ---------------------------------------------------------------------------
/// A node after a probe. A probe that had no slot says nothing.
pub open spec fn probed(node: NodeView, outcome: ProbeOutcome, now: u64) -> NodeView {
    match outcome {
        ProbeOutcome::Alive(ms) => NodeView {
            online: true,
            latency_ms: Some(ms),
            last_ok_at: now,
            ..node
        },
        ProbeOutcome::Dead => NodeView { online: false, latency_ms: None, ..node },
        ProbeOutcome::Blocked => NodeView { online: false, latency_ms: None, ..node },
        ProbeOutcome::Busy => node,
    }
}

/// The nodes after a round of probes. Results for nodes that are gone are
/// passed over.
pub open spec fn updated(
    nodes: NodeMap,
    results: Seq<(String, ProbeOutcome)>,
    now: u64,
) -> NodeMap
    decreases results.len(),
{
    if results.len() == 0 {
        nodes
    } else {
        let earlier = updated(nodes, results.drop_last(), now);
        let key = results.last().0@;
        if earlier.contains_key(key) {
            earlier.insert(key, probed(earlier[key], results.last().1, now))
        } else {
            earlier
        }
    }
}

/// The number of results that found one of the nodes alive.
pub open spec fn alive_count(nodes: NodeMap, results: Seq<(String, ProbeOutcome)>) -> nat
    decreases results.len(),
{
    if results.len() == 0 {
        0
    } else {
        alive_count(nodes, results.drop_last()) + if nodes.contains_key(results.last().0@)
            && results.last().1 is Alive {
            1nat
        } else {
            0
        }
    }
}

/// The nodes that have not expired.
pub open spec fn unexpired(nodes: NodeMap, now: u64) -> NodeMap {
    Map::new(
        |k: Seq<char>| nodes.contains_key(k) && !expired(nodes[k], now),
        |k: Seq<char>| nodes[k],
    )
}

/// A round of probes neither adds nor removes a node.
pub proof fn lemma_updated_keeps_keys(
    nodes: NodeMap,
    results: Seq<(String, ProbeOutcome)>,
    now: u64,
)
    ensures
        updated(nodes, results, now).dom() == nodes.dom(),
    decreases results.len(),
{
    if results.len() > 0 {
        lemma_updated_keeps_keys(nodes, results.drop_last(), now);
        assert(updated(nodes, results, now).dom() =~= nodes.dom());
    }
}

/// Records a probe of a node.
fn record_probe(node: &mut CommunityNodeInfo, outcome: ProbeOutcome, now: u64)
    ensures
        final(node)@ == probed(old(node)@, outcome, now),
{
    match outcome {
        ProbeOutcome::Alive(ms) => {
            node.online = true;
            node.latency_ms = Some(ms);
            node.last_ok_at = now;
        },
        ProbeOutcome::Dead => {
            node.online = false;
            node.latency_ms = None;
        },
        ProbeOutcome::Blocked => {
            node.online = false;
            node.latency_ms = None;
        },
        ProbeOutcome::Busy => {},
    }
}

/// The node; none where it has expired.
pub open spec fn live_node(node: NodeView, now: u64) -> Option<NodeView> {
    if expired(node, now) {
        None
    } else {
        Some(node)
    }
}

/// Removes the nodes that have expired.
fn drop_expired(nodes: &mut Table<String, CommunityNodeInfo>, now: u64)
    ensures
        final(nodes)@ == unexpired(old(nodes)@, now),
{
    let ghost before = nodes@;
    nodes.refine(
        |node: CommunityNodeInfo| -> (r: Option<CommunityNodeInfo>)
            ensures
                r == (if expired(node@, now) {
                    None
                } else {
                    Some(node)
                })
        {
            if is_community_node_expired(&node, now) {
                None
            } else {
                Some(node)
            }
        },
        Ghost(|node: NodeView| live_node(node, now)),
    );
    assert(nodes@ =~= unexpired(before, now));
}

/// Records a round of probes and removes the nodes that have expired. Gives the
/// number of probes that found a node alive, and of the nodes removed.
pub fn apply_sweep(
    nodes: &mut Table<String, CommunityNodeInfo>,
    results: &Vec<(String, ProbeOutcome)>,
    now: u64,
) -> (r: (usize, usize))
    ensures
        final(nodes)@ == unexpired(updated(old(nodes)@, results@, now), now),
        r.0 == alive_count(old(nodes)@, results@),
        r.1 == old(nodes)@.dom().len() - final(nodes)@.dom().len(),
{
    let ghost before = nodes@;
    let mut online: usize = 0;
    let mut i: usize = 0;
    assert(results@.take(0) =~= Seq::<(String, ProbeOutcome)>::empty());
    while i < results.len()
        invariant
            i <= results@.len(),
            online <= i,
            online == alive_count(before, results@.take(i as int)),
            nodes@ == updated(before, results@.take(i as int), now),
        decreases results@.len() - i,
    {
        let ghost longer = results@.take(i + 1);
        assert(longer.drop_last() =~= results@.take(i as int));
        assert(longer.last() == results@[i as int]);
        proof {
            lemma_updated_keeps_keys(before, results@.take(i as int), now);
        }
        let key = &results[i].0;
        assert(nodes@.contains_key(key@) == before.contains_key(key@)) by {
            assert(nodes@.dom() == before.dom());
        }
        match nodes.take(key) {
            Some(mut node) => {
                record_probe(&mut node, results[i].1, now);
                nodes.put(key.clone(), node);
                assert(nodes@ =~= updated(before, longer, now));
                if let ProbeOutcome::Alive(_) = results[i].1 {
                    online = online + 1;
                }
            },
            None => {
                assert(nodes@ =~= updated(before, longer, now));
            },
        }
        i = i + 1;
    }
    assert(results@.take(i as int) =~= results@);
    proof {
        lemma_updated_keeps_keys(before, results@, now);
    }
    let total: usize = nodes.len();
    let ghost all = nodes@;
    drop_expired(nodes, now);
    let kept: usize = nodes.len();
    proof {
        assert(nodes@.dom().subset_of(all.dom()));
        vstd::set_lib::lemma_len_subset(nodes@.dom(), all.dom());
    }
    (online, total - kept)
}

/// A node stays as long as it was reached within the last day, whatever the
/// probes of this round found; and one that was found alive stays.
pub proof fn sweep_keeps_recent_nodes(
    nodes: NodeMap,
    results: Seq<(String, ProbeOutcome)>,
    key: Seq<char>,
    now: u64,
)
    requires
        nodes.contains_key(key),
        now - nodes[key].last_ok_at <= COMMUNITY_NODE_MAX_OFFLINE_SECS,
    ensures
        unexpired(updated(nodes, results, now), now).contains_key(key),
{
    lemma_updated_last_ok(nodes, results, key, now);
}

/// A node that was not reached for more than a day goes, unless this round
/// found it alive.
pub proof fn sweep_removes_dead_nodes(
    nodes: NodeMap,
    results: Seq<(String, ProbeOutcome)>,
    key: Seq<char>,
    now: u64,
)
    requires
        nodes.contains_key(key),
        now - nodes[key].last_ok_at > COMMUNITY_NODE_MAX_OFFLINE_SECS,
        forall|i: int|
            0 <= i < results.len() && (#[trigger] results[i]).0@ == key ==> results[i].1 !is Alive,
    ensures
        !unexpired(updated(nodes, results, now), now).contains_key(key),
{
    lemma_updated_without_life(nodes, results, key, now);
}

proof fn lemma_updated_last_ok(
    nodes: NodeMap,
    results: Seq<(String, ProbeOutcome)>,
    key: Seq<char>,
    now: u64,
)
    requires
        nodes.contains_key(key),
    ensures
        updated(nodes, results, now).contains_key(key),
        updated(nodes, results, now)[key].last_ok_at == nodes[key].last_ok_at || updated(
            nodes,
            results,
            now,
        )[key].last_ok_at == now,
    decreases results.len(),
{
    if results.len() > 0 {
        lemma_updated_last_ok(nodes, results.drop_last(), key, now);
    }
}

proof fn lemma_updated_without_life(
    nodes: NodeMap,
    results: Seq<(String, ProbeOutcome)>,
    key: Seq<char>,
    now: u64,
)
    requires
        nodes.contains_key(key),
        forall|i: int|
            0 <= i < results.len() && (#[trigger] results[i]).0@ == key ==> results[i].1 !is Alive,
    ensures
        updated(nodes, results, now).contains_key(key),
        updated(nodes, results, now)[key].last_ok_at == nodes[key].last_ok_at,
    decreases results.len(),
{
    if results.len() > 0 {
        let earlier = results.drop_last();
        assert forall|i: int|
            0 <= i < earlier.len() && (#[trigger] earlier[i]).0@ == key implies earlier[i].1
            !is Alive by {
            assert(results[i] == earlier[i]);
        }
        lemma_updated_without_life(nodes, earlier, key, now);
        assert(results.last() == results[results.len() - 1]);
    }
}

// ---------------------------------------------------------------------------
// Listing
// ---------------------------------------------------------------------------
/// How a list of nodes is ordered.
#[derive(Clone, Copy, Debug, PartialEq, Eq, Structural)]
pub enum NodeOrder {
    /// By address.
    Address,
    /// Online first, then the fastest, then by name.
    Quality,
}

/// The latency that a node is ordered by.
pub open spec fn latency_rank(node: NodeView) -> u64 {
    match node.latency_ms {
        Some(ms) => ms,
        None => u64::MAX,
    }
}

/// `a` may stand before `b`.
pub open spec fn node_le(a: NodeView, b: NodeView, order: NodeOrder) -> bool {
    match order {
        NodeOrder::Address => text::text_le(a.address, b.address),
        NodeOrder::Quality => if a.online != b.online {
            a.online
        } else if latency_rank(a) != latency_rank(b) {
            latency_rank(a) < latency_rank(b)
        } else {
            text::text_le(a.name, b.name)
        },
    }
}

proof fn lemma_node_le_total(a: NodeView, b: NodeView, order: NodeOrder)
    ensures
        node_le(a, b, order) || node_le(b, a, order),
{
    text::lemma_text_le_total(a.address, b.address);
    text::lemma_text_le_total(a.name, b.name);
}

proof fn lemma_node_le_transitive(a: NodeView, b: NodeView, c: NodeView, order: NodeOrder)
    requires
        node_le(a, b, order),
        node_le(b, c, order),
    ensures
        node_le(a, c, order),
{
    match order {
        NodeOrder::Address => {
            text::lemma_text_le_transitive(a.address, b.address, c.address);
        },
        NodeOrder::Quality => {
            if a.online == b.online && b.online == c.online && latency_rank(a) == latency_rank(b)
                && latency_rank(b) == latency_rank(c) {
                text::lemma_text_le_transitive(a.name, b.name, c.name);
            }
        },
    }
}

fn stands_before(a: &CommunityNodeInfo, b: &CommunityNodeInfo, order: NodeOrder) -> (r: bool)
    ensures
        r == node_le(a@, b@, order),
{
    match order {
        NodeOrder::Address => text::text_before(a.address.as_str(), b.address.as_str()),
        NodeOrder::Quality => {
            let x: u64 = match a.latency_ms {
                Some(ms) => ms,
                None => u64::MAX,
            };
            let y: u64 = match b.latency_ms {
                Some(ms) => ms,
                None => u64::MAX,
            };
            if a.online != b.online {
                a.online
            } else if x != y {
                x < y
            } else {
                text::text_before(a.name.as_str(), b.name.as_str())
            }
        },
    }
}

/// The list is in order.
pub open spec fn is_ordered(list: Seq<CommunityNodeInfo>, order: NodeOrder) -> bool {
    forall|i: int, j: int|
        0 <= i < j < list.len() ==> node_le((#[trigger] list[i])@, (#[trigger] list[j])@, order)
}

/// The list holds the nodes filed under `keys`, in the same order.
pub open spec fn holds_nodes(
    list: Seq<CommunityNodeInfo>,
    keys: Seq<Seq<char>>,
    nodes: NodeMap,
) -> bool {
    &&& keys.len() == list.len()
    &&& keys.no_duplicates()
    &&& forall|i: int|
        0 <= i < keys.len() ==> nodes.contains_key(#[trigger] keys[i]) && list[i]@ == nodes[keys[i]]
}

/// The list holds every node once, in order.
pub open spec fn is_node_list(
    list: Seq<CommunityNodeInfo>,
    nodes: NodeMap,
    order: NodeOrder,
) -> bool {
    is_ordered(list, order) && exists|keys: Seq<Seq<char>>| #[trigger]
        holds_nodes(list, keys, nodes) && forall|k: Seq<char>| #[trigger]
            nodes.contains_key(k) ==> keys.contains(k)
}

/// The position at which a node goes into an ordered list.
fn insertion_point(
    list: &Vec<CommunityNodeInfo>,
    node: &CommunityNodeInfo,
    order: NodeOrder,
) -> (r: usize)
    requires
        is_ordered(list@, order),
    ensures
        r <= list@.len(),
        forall|i: int| 0 <= i < r ==> node_le((#[trigger] list@[i])@, node@, order),
        forall|i: int| r <= i < list@.len() ==> node_le(node@, (#[trigger] list@[i])@, order),
{
    let mut at: usize = 0;
    while at < list.len() && stands_before(&list[at], node, order)
        invariant
            at <= list@.len(),
            forall|i: int| 0 <= i < at ==> node_le((#[trigger] list@[i])@, node@, order),
        decreases list@.len() - at,
    {
        at = at + 1;
    }
    proof {
        if at < list@.len() {
            lemma_node_le_total(list@[at as int]@, node@, order);
            assert forall|i: int| at <= i < list@.len() implies node_le(
                node@,
                (#[trigger] list@[i])@,
                order,
            ) by {
                if i > at {
                    assert(node_le(list@[at as int]@, list@[i]@, order));
                    lemma_node_le_transitive(node@, list@[at as int]@, list@[i]@, order);
                }
            }
        }
    }
    at
}

/// All nodes, in order.
fn ordered_nodes(nodes: &Table<String, CommunityNodeInfo>, order: NodeOrder) -> (r: Vec<
    CommunityNodeInfo,
>)
    ensures
        is_node_list(r@, nodes@, order),
{
    let mut list: Vec<CommunityNodeInfo> = Vec::new();
    let n: usize = nodes.len();
    let ghost items = nodes.items();
    let ghost mut keys: Seq<Seq<char>> = Seq::empty();
    let mut i: usize = 0;
    while i < n
        invariant
            i <= n == items.len(),
            items == nodes.items(),
            crate::table::keys_of(items).no_duplicates(),
            forall|j: int|
                0 <= j < items.len() ==> nodes@.contains_key((#[trigger] items[j]).0)
                    && nodes@[items[j].0] == items[j].1,
            is_ordered(list@, order),
            holds_nodes(list@, keys, nodes@),
            forall|k: int|
                0 <= k < keys.len() ==> exists|j: int|
                    0 <= j < i && (#[trigger] items[j]).0 == #[trigger] keys[k],
            forall|j: int| 0 <= j < i ==> keys.contains((#[trigger] items[j]).0),
        decreases n - i,
    {
        let (key, node) = nodes.entry(i);
        let at: usize = insertion_point(&list, node, order);
        let ghost before = list@;
        let ghost old_keys = keys;
        list.insert(at, copy_node(node));
        proof {
            keys = keys.insert(at as int, key@);
            assert forall|a: int, b: int| 0 <= a < b < list@.len() implies node_le(
                (#[trigger] list@[a])@,
                (#[trigger] list@[b])@,
                order,
            ) by {
                let a0 = if a < at { a } else { a - 1 };
                let b0 = if b < at { b } else { b - 1 };
                if a != at {
                    assert(list@[a] == before[a0]);
                }
                if b != at {
                    assert(list@[b] == before[b0]);
                }
            }
            assert forall|k: int| 0 <= k < old_keys.len() implies old_keys[k] != key@ by {
                let j = choose|j: int| 0 <= j < i && (#[trigger] items[j]).0 == old_keys[k];
                assert(crate::table::keys_of(items)[j] == old_keys[k]);
                assert(crate::table::keys_of(items)[i as int] == key@);
            }
            assert forall|a: int, b: int| 0 <= a < b < keys.len() implies keys[a] != keys[b] by {
                let a0 = if a < at { a } else { a - 1 };
                let b0 = if b < at { b } else { b - 1 };
                if a != at {
                    assert(keys[a] == old_keys[a0]);
                }
                if b != at {
                    assert(keys[b] == old_keys[b0]);
                }
            }
            assert forall|k: int| 0 <= k < keys.len() implies nodes@.contains_key(
                #[trigger] keys[k],
            ) && list@[k]@ == nodes@[keys[k]] by {
                if k < at {
                    assert(keys[k] == old_keys[k] && list@[k] == before[k]);
                } else if k > at {
                    assert(keys[k] == old_keys[k - 1] && list@[k] == before[k - 1]);
                }
            }
            assert forall|k: int| 0 <= k < keys.len() implies exists|j: int|
                0 <= j < i + 1 && (#[trigger] items[j]).0 == #[trigger] keys[k] by {
                if k == at {
                    assert(items[i as int].0 == keys[k]);
                } else {
                    let k0 = if k < at { k } else { k - 1 };
                    assert(keys[k] == old_keys[k0]);
                    let j = choose|j: int| 0 <= j < i && (#[trigger] items[j]).0 == old_keys[k0];
                    assert(items[j].0 == keys[k]);
                }
            }
            assert forall|j: int| 0 <= j < i + 1 implies keys.contains(
                (#[trigger] items[j]).0,
            ) by {
                if j == i {
                    assert(keys[at as int] == items[j].0);
                } else {
                    let k = choose|k: int| 0 <= k < old_keys.len() && old_keys[k] == items[j].0;
                    let k1 = if k < at { k } else { k + 1 };
                    assert(keys[k1] == items[j].0);
                }
            }
        }
        i = i + 1;
    }
    proof {
        assert forall|k: Seq<char>| #[trigger] nodes@.contains_key(k) implies keys.contains(k) by {
            let j = choose|j: int| 0 <= j < items.len() && (#[trigger] items[j]) == (k, nodes@[k]);
            assert(items[j].0 == k);
        }
    }
    list
}

/// The nodes as clients see them: online ones first, the fastest first.
pub fn community_node_list(nodes: &Table<String, CommunityNodeInfo>) -> (r: Vec<
    CommunityNodeInfo,
>)
    ensures
        is_node_list(r@, nodes@, NodeOrder::Quality),
{
    ordered_nodes(nodes, NodeOrder::Quality)
}

/// The nodes as they are saved: by address.
pub fn community_node_snapshot(nodes: &Table<String, CommunityNodeInfo>) -> (r: Vec<
    CommunityNodeInfo,
>)
    ensures
        is_node_list(r@, nodes@, NodeOrder::Address),
{
    ordered_nodes(nodes, NodeOrder::Address)
}

} // verus!
