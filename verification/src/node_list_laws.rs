//! What gets a node on the list, what keeps it there, and how the list reads.
use vstd::prelude::*;
use crate::community_nodes;
use crate::community_nodes::{NodeOrder, ProbeOutcome};
use crate::ip;
use crate::ip::IpAddr;
use crate::limiter::SubmitQuota;
use crate::node_address;
use crate::node_spelling;
use crate::node_submission;
use crate::node_submission::Submission;
use crate::number;
use crate::protocol::CommunityNodeInfo;
use crate::text;

verus! {

// ---------------------------------------------------------------------------
// Sweeps
// ---------------------------------------------------------------------------
/// Two states of a node agree in what its submitter gave and in when that was.
pub open spec fn same_entry(a: community_nodes::NodeView, b: community_nodes::NodeView) -> bool {
    &&& a.name == b.name
    &&& a.address == b.address
    &&& a.submitter == b.submitter
    &&& a.submitted_at == b.submitted_at
}

proof fn lemma_unprobed(
    nodes: community_nodes::NodeMap,
    results: Seq<(String, ProbeOutcome)>,
    now: u64,
    key: Seq<char>,
)
    requires
        forall|j: int| 0 <= j < results.len() ==> (#[trigger] results[j]).0@ != key,
    ensures
        community_nodes::updated(nodes, results, now).contains_key(key) == nodes.contains_key(key),
        community_nodes::updated(nodes, results, now)[key] == nodes[key],
    decreases results.len(),
{
    if results.len() > 0 {
        let shorter = results.drop_last();
        assert forall|j: int| 0 <= j < shorter.len() implies (#[trigger] shorter[j]).0@ != key by {
            assert(shorter[j] == results[j]);
        }
        lemma_unprobed(nodes, shorter, now, key);
        assert(results[results.len() - 1].0@ != key);
    }
}

proof fn lemma_probed_once(
    nodes: community_nodes::NodeMap,
    results: Seq<(String, ProbeOutcome)>,
    now: u64,
    i: int,
)
    requires
        0 <= i < results.len(),
        nodes.contains_key(results[i].0@),
        forall|j: int| 0 <= j < results.len() && j != i ==> (#[trigger] results[j]).0@
            != results[i].0@,
    ensures
        ({
            let key = results[i].0@;
            let after = community_nodes::updated(nodes, results, now);
            &&& after.contains_key(key)
            &&& after[key] == community_nodes::probed(nodes[key], results[i].1, now)
        }),
    decreases results.len(),
{
    let shorter = results.drop_last();
    let key = results[i].0@;
    if i < results.len() - 1 {
        assert(shorter[i] == results[i]);
        assert forall|j: int| 0 <= j < shorter.len() && j != i implies (#[trigger] shorter[j]).0@
            != shorter[i].0@ by {
            assert(shorter[j] == results[j]);
        }
        lemma_probed_once(nodes, shorter, now, i);
        assert(results[results.len() - 1].0@ != key);
    } else {
        assert forall|j: int| 0 <= j < shorter.len() implies (#[trigger] shorter[j]).0@ != key by {
            assert(shorter[j] == results[j]);
        }
        lemma_unprobed(nodes, shorter, now, key);
    }
}

/// A node that a sweep reached is online, with the time it took, and was last seen
/// now. One that it did not reach, or must not probe, is offline; one that it had no
/// time for is as it was. Both of these are gone where they were last seen more than
/// a day ago.
pub proof fn sweeps_record_what_they_find(
    nodes: community_nodes::NodeMap,
    results: Seq<(String, ProbeOutcome)>,
    now: u64,
    i: int,
)
    requires
        0 <= i < results.len(),
        nodes.contains_key(results[i].0@),
        forall|j: int| 0 <= j < results.len() && j != i ==> (#[trigger] results[j]).0@
            != results[i].0@,
    ensures
        ({
            let key = results[i].0@;
            let old_node = nodes[key];
            let after = community_nodes::unexpired(
                community_nodes::updated(nodes, results, now),
                now,
            );
            let node = after[key];
            let lasts = now - old_node.last_ok_at <= 86_400;
            match results[i].1 {
                ProbeOutcome::Alive(ms) => {
                    &&& after.contains_key(key)
                    &&& same_entry(node, old_node)
                    &&& node.online
                    &&& node.latency_ms == Some(ms)
                    &&& node.last_ok_at == now
                },
                ProbeOutcome::Dead => is_gone_or_offline(after, key, old_node, lasts),
                ProbeOutcome::Blocked => is_gone_or_offline(after, key, old_node, lasts),
                ProbeOutcome::Busy => {
                    &&& after.contains_key(key) <==> lasts
                    &&& lasts ==> node == old_node
                },
            }
        }),
{
    lemma_probed_once(nodes, results, now, i);
}

/// What a probe without success leaves of a node.
pub open spec fn is_gone_or_offline(
    after: community_nodes::NodeMap,
    key: Seq<char>,
    old_node: community_nodes::NodeView,
    lasts: bool,
) -> bool {
    &&& after.contains_key(key) <==> lasts
    &&& lasts ==> {
        &&& same_entry(after[key], old_node)
        &&& !after[key].online
        &&& after[key].latency_ms is None
        &&& after[key].last_ok_at == old_node.last_ok_at
    }
}

/// A sweep leaves a node that it did not probe as it was, unless it was last seen
/// more than a day ago, and puts no node on the list.
pub proof fn sweeps_touch_what_they_probe(
    nodes: community_nodes::NodeMap,
    results: Seq<(String, ProbeOutcome)>,
    now: u64,
    key: Seq<char>,
)
    requires
        forall|j: int| 0 <= j < results.len() ==> (#[trigger] results[j]).0@ != key,
    ensures
        ({
            let after = community_nodes::unexpired(
                community_nodes::updated(nodes, results, now),
                now,
            );
            &&& after.contains_key(key) <==> nodes.contains_key(key) && now - nodes[key].last_ok_at
                <= 86_400
            &&& after.contains_key(key) ==> after[key] == nodes[key]
        }),
{
    lemma_unprobed(nodes, results, now, key);
}

/// The number of nodes that a sweep reached is that of its results that say so of a
/// node on the list.
pub proof fn sweeps_count_what_they_reach(
    nodes: community_nodes::NodeMap,
    results: Seq<(String, ProbeOutcome)>,
)
    ensures
        community_nodes::alive_count(nodes, results) == results.filter(
            |r: (String, ProbeOutcome)| nodes.contains_key(r.0@) && r.1 is Alive,
        ).len(),
    decreases results.len(),
{
    reveal(Seq::filter);
    if results.len() > 0 {
        sweeps_count_what_they_reach(nodes, results.drop_last());
    }
}

// ---------------------------------------------------------------------------
// Targets of a probe
// ---------------------------------------------------------------------------
/// A probe goes to the addresses that are public, or to all where private ones are
/// allowed, in their order, and to four at most: what it leaves out though it may
/// probe it comes after four others.
pub proof fn probes_go_to_the_first_four(
    addresses: Seq<IpAddr>,
    allow_private: bool,
    k: int,
    i: int,
)
    requires
        addresses.len() <= usize::MAX,
    ensures
        ({
            let r = community_nodes::allowed_positions(addresses, allow_private);
            &&& r.len() <= 4
            &&& 0 <= k < r.len() ==> r[k] < addresses.len() && (allow_private || ip::public_ip(
                addresses[r[k] as int],
            ))
            &&& 0 <= k < r.len() - 1 ==> r[k] < r[k + 1]
            &&& 0 <= i < addresses.len() && (allow_private || ip::public_ip(addresses[i])) && r.len()
                < 4 ==> r.contains(i as usize)
            &&& 0 <= i < addresses.len() && (allow_private || ip::public_ip(addresses[i]))
                && !r.contains(i as usize) ==> r.len() == 4 && r.last() < i
        }),
    decreases addresses.len(),
{
    if addresses.len() > 0 {
        let shorter = addresses.drop_last();
        let earlier = community_nodes::allowed_positions(shorter, allow_private);
        let r = community_nodes::allowed_positions(addresses, allow_private);
        probes_go_to_the_first_four(shorter, allow_private, k, i);
        probes_go_to_the_first_four(shorter, allow_private, earlier.len() - 1, i);
        if i < addresses.len() - 1 {
            if earlier.contains(i as usize) {
                let j = choose|j: int| 0 <= j < earlier.len() && earlier[j] == i as usize;
                assert(r[j] == i as usize);
            } else if r.len() != earlier.len() && 0 <= i && (allow_private || ip::public_ip(
                addresses[i],
            )) {
                assert(shorter[i] == addresses[i]);
                assert(earlier.len() == 4);
            }
        } else if r.len() != earlier.len() {
            assert(r.last() == (addresses.len() - 1) as usize);
            assert(r[r.len() - 1] == r.last());
        }
    }
}

// ---------------------------------------------------------------------------
// The list
// ---------------------------------------------------------------------------
/// Nodes are shown with those online first, the faster before the slower, those
/// whose speed is unknown last, and else by name; they are saved by address.
pub proof fn nodes_are_shown_by_quality(a: community_nodes::NodeView, b: community_nodes::NodeView)
    ensures
        community_nodes::node_le(a, b, NodeOrder::Address) == text::text_le(a.address, b.address),
        a.online && !b.online ==> community_nodes::node_le(a, b, NodeOrder::Quality)
            && !community_nodes::node_le(b, a, NodeOrder::Quality),
        a.online == b.online && a.latency_ms is Some && b.latency_ms is Some && a.latency_ms->0
            < b.latency_ms->0 ==> community_nodes::node_le(a, b, NodeOrder::Quality)
            && !community_nodes::node_le(b, a, NodeOrder::Quality),
        a.online == b.online && a.latency_ms is Some && a.latency_ms->0 < u64::MAX
            && b.latency_ms is None ==> community_nodes::node_le(a, b, NodeOrder::Quality)
            && !community_nodes::node_le(b, a, NodeOrder::Quality),
        a.online == b.online && a.latency_ms == b.latency_ms ==> community_nodes::node_le(
            a,
            b,
            NodeOrder::Quality,
        ) == text::text_le(a.name, b.name),
{
}

/// The list holds every node once and nothing else, in its order.
pub proof fn lists_hold_every_node_once(
    list: Seq<CommunityNodeInfo>,
    nodes: community_nodes::NodeMap,
    order: NodeOrder,
    key: Seq<char>,
    i: int,
    j: int,
)
    requires
        community_nodes::is_node_list(list, nodes, order),
    ensures
        list.len() == nodes.dom().len(),
        nodes.contains_key(key) ==> exists|k: int|
            0 <= k < list.len() && (#[trigger] list[k])@ == nodes[key],
        0 <= i < list.len() ==> exists|k: Seq<char>| #[trigger]
            nodes.contains_key(k) && nodes[k] == list[i]@,
        0 <= i < j < list.len() ==> community_nodes::node_le(list[i]@, list[j]@, order),
{
    let keys = choose|keys: Seq<Seq<char>>| #[trigger]
        community_nodes::holds_nodes(list, keys, nodes) && forall|k: Seq<char>| #[trigger]
            nodes.contains_key(k) ==> keys.contains(k);
    if nodes.contains_key(key) {
        assert(keys.contains(key));
        let k = choose|k: int| 0 <= k < keys.len() && keys[k] == key;
        assert(nodes.contains_key(keys[k]));
        assert(list[k]@ == nodes[key]);
    }
    if 0 <= i < list.len() {
        assert(nodes.contains_key(keys[i]));
    }
    assert(keys.to_set() =~= nodes.dom()) by {
        assert forall|k: Seq<char>| keys.to_set().contains(k) == nodes.dom().contains(k) by {
            if keys.contains(k) {
                let n = choose|n: int| 0 <= n < keys.len() && keys[n] == k;
                assert(nodes.contains_key(keys[n]));
            }
        }
    }
    keys.unique_seq_to_set();
}

/// Of the nodes that were saved, those come back that are last seen within a day and
/// whose address can be filed, each under what its address is filed as; of two with
/// one address the later does.
pub proof fn saved_nodes_are_filed_again(
    nodes: Seq<CommunityNodeInfo>,
    node: CommunityNodeInfo,
    now: u64,
    other: Seq<char>,
)
    ensures
        ({
            let before = community_nodes::restored(nodes, now);
            let after = community_nodes::restored(nodes.push(node), now);
            &&& !community_nodes::restored(Seq::empty(), now).contains_key(other)
            &&& match node_spelling::loaded_form(node.address@) {
                Ok(form) => if now - node.last_ok_at <= 86_400 {
                    &&& after.contains_key(form)
                    &&& after[form] == node@
                    &&& other != form ==> after.contains_key(other) == before.contains_key(other)
                        && after[other] == before[other]
                } else {
                    after == before
                },
                Err(_) => after == before,
            }
        }),
{
    assert(nodes.push(node).drop_last() =~= nodes);
}

// ---------------------------------------------------------------------------
// Submissions
// ---------------------------------------------------------------------------
/// A submission is refused at once for an address that cannot be filed, or else for
/// a name of which nothing is left to show in 32 characters.
pub proof fn submissions_need_address_and_name(name: Seq<char>, address: Seq<char>)
    ensures
        match node_address::normalized(address) {
            Err(reason) => node_submission::text_refusal(name, address) == Some(reason),
            Ok(_) => if node_address::sanitized(name, 32).len() == 0 {
                node_submission::text_refusal(name, address) == Some("节点名称不能为空"@)
            } else {
                node_submission::text_refusal(name, address) is None
            },
        },
{
}

/// A source is refused while it is new and 8192 others are kept track of, and when
/// it has submitted eight nodes in its ten minutes; else the submission counts, and
/// those of other sources do not change.
pub proof fn sources_submit_within_their_quota(
    m: Map<IpAddr, SubmitQuota>,
    source: IpAddr,
    now: u64,
    other: IpAddr,
)
    requires
        other != source,
        m.contains_key(source) ==> m[source].submissions <= 8,
    ensures
        ({
            let r = node_submission::quota_refusal(m, source, now);
            let after = node_submission::quotas_after(m, source, now);
            let is_new = !m.contains_key(source);
            let over = !is_new && now - m[source].window_started >= 600_000_000_000;
            let made: int = if is_new || over {
                0
            } else {
                m[source].submissions as int
            };
            &&& after.contains_key(other) == m.contains_key(other)
            &&& after[other] == m[other]
            &&& if is_new && m.dom().len() >= 8192 {
                r == Some("投稿来源过多，请稍后再试"@) && after == m
            } else if made >= 8 {
                r == Some("该来源的投稿配额已用尽，请稍后再试"@) && after.contains_key(source)
                    && after[source].submissions == 8
            } else {
                &&& r is None
                &&& after.contains_key(source)
                &&& after[source].submissions == made + 1
                &&& after[source].window_started == if is_new || over {
                    now
                } else {
                    m[source].window_started
                }
            }
        }),
{
}

/// The count of a source is forgotten twenty minutes after its window began, and its
/// pause thirty seconds after it.
pub proof fn submitters_are_forgotten_in_time(
    quotas: Map<IpAddr, SubmitQuota>,
    pauses: Map<IpAddr, u64>,
    source: IpAddr,
    now: u64,
)
    ensures
        ({
            let kept = node_submission::quotas_kept(quotas, now);
            &&& kept.contains_key(source) <==> quotas.contains_key(source) && now
                - quotas[source].window_started < 1_200_000_000_000
            &&& kept.contains_key(source) ==> kept[source] == quotas[source]
        }),
        ({
            let kept = node_submission::cooldowns_kept(pauses, now);
            &&& kept.contains_key(source) <==> pauses.contains_key(source) && now - pauses[source]
                <= 30
            &&& kept.contains_key(source) ==> kept[source] == pauses[source]
        }),
{
}

/// A source that submitted within the last thirty seconds is told how many of them
/// are left, one at least; the pause of another begins now.
pub proof fn sources_pause_between_submissions(
    m: Map<IpAddr, u64>,
    source: IpAddr,
    now: u64,
    other: IpAddr,
    left: nat,
)
    requires
        other != source,
        m.contains_key(source) ==> m[source] <= now && now - m[source] <= 30 && left == (if now
            - m[source] == 30 {
            1
        } else {
            30 - (now - m[source])
        }),
    ensures
        ({
            let r = node_submission::cooldown_refusal(m, source, now);
            let after = node_submission::cooldowns_after(m, source, now);
            &&& m.contains_key(source) ==> r == Some(
                "投稿过于频繁，请 "@ + number::decimal(left) + " 秒后再试"@,
            ) && after == m
            &&& !m.contains_key(source) ==> r is None && after.contains_key(source) && after[source]
                == now && after.contains_key(other) == m.contains_key(other) && after[other]
                == m[other]
        }),
{
}

/// The list is full for a node that is not on it when it has as many as it may.
pub proof fn full_lists_take_no_new_nodes(
    nodes: community_nodes::NodeMap,
    address: Seq<char>,
    capacity: usize,
)
    ensures
        nodes.contains_key(address) ==> !node_submission::list_full(nodes, address, capacity),
        !nodes.contains_key(address) ==> (node_submission::list_full(nodes, address, capacity)
            <==> nodes.dom().len() >= capacity),
{
}

/// What a submission puts down: the address as it is filed, the name and the
/// submitter as they are shown, in 32 and 24 characters, and the moment.
pub proof fn submissions_are_put_down_as_shown(
    submission: Submission,
    nodes: community_nodes::NodeMap,
    name: Seq<char>,
    address: Seq<char>,
    submitter: Option<Seq<char>>,
    now: u64,
)
    requires
        node_submission::submission_ok(submission, nodes, name, address, submitter, now),
    ensures
        node_address::normalized(address) == Ok::<Seq<char>, Seq<char>>(submission.address@),
        submission.name@ == node_address::sanitized(name, 32),
        match submitter {
            None => submission.submitter is None,
            Some(raw) => if node_address::sanitized(raw, 24).len() == 0 {
                submission.submitter is None
            } else {
                submission.submitter matches Some(shown) && shown@ == node_address::sanitized(
                    raw,
                    24,
                )
            },
        },
        submission.submitted_at == now,
        submission.already_exists <==> nodes.contains_key(submission.address@),
{
}

/// Only a node that was reached gets on the list, and a new one only where there is
/// room.
pub proof fn only_nodes_that_were_reached_are_listed(
    nodes: community_nodes::NodeMap,
    submission: Submission,
    outcome: ProbeOutcome,
    capacity: usize,
)
    ensures
        ({
            let r = node_submission::probe_refusal(nodes, submission, outcome, capacity);
            match outcome {
                ProbeOutcome::Dead => r == Some("该节点当前不可达，请确认地址与端口后重新提交"@),
                ProbeOutcome::Blocked => r == Some(
                    "只接受公网可访问的节点地址，回环/内网/保留地址无法作为共享节点"@,
                ),
                ProbeOutcome::Busy => r == Some("当前探测队列繁忙，请稍后再试"@),
                ProbeOutcome::Alive(_) => if nodes.contains_key(submission.address@)
                    || nodes.dom().len() < capacity {
                    r is None
                } else {
                    r == Some("共享节点列表已满，请稍后再试"@)
                },
            }
        }),
{
}

/// A node that is listed is online, with the time that the probe took, and was last
/// seen when it was submitted. One that was on the list keeps the moment of its first
/// submission, and its submitter where the new submission names none.
pub proof fn submissions_refresh_listed_nodes(
    nodes: community_nodes::NodeMap,
    submission: Submission,
    latency_ms: u64,
)
    ensures
        ({
            let node = node_submission::listed_node(nodes, submission, latency_ms);
            let known = nodes.contains_key(submission.address@);
            let old_node = nodes[submission.address@];
            &&& node.name == submission.name@
            &&& node.online
            &&& node.latency_ms == Some(latency_ms)
            &&& node.last_ok_at == submission.submitted_at
            &&& known ==> node.submitted_at == old_node.submitted_at && node.address
                == old_node.address
            &&& !known ==> node.submitted_at == submission.submitted_at && node.address
                == submission.address@
            &&& submission.submitter matches Some(name) ==> node.submitter == Some(name@)
            &&& submission.submitter is None ==> node.submitter == if known {
                old_node.submitter
            } else {
                None
            }
        }),
{
}

} // verus!
