//! Submitting a node: checks before the probe, and what the probe decides.
use vstd::prelude::*;
use vstd::string::*;
use crate::community_nodes;
use crate::community_nodes::ProbeOutcome;
use crate::connection_guard;
use crate::ip::IpAddr;
use crate::limiter;
use crate::limiter::SubmitQuota;
use crate::limits::{
    COMMUNITY_NODE_NAME_MAX_LEN, COMMUNITY_NODE_SUBMITTER_MAX_LEN,
    COMMUNITY_NODE_SUBMIT_COOLDOWN_SECS, COMMUNITY_NODE_SUBMIT_WINDOW_SECS,
    MAX_TRACKED_IP_SUBMITTERS,
};
use crate::node_address;
use crate::number;
use crate::protocol::{CommunityNodeInfo, SignalingMessage};
use crate::state;
use crate::table::Table;

verus! {

/// What is remembered of those who submitted: the Unix second of the last
/// submission, and the quota.
pub struct Submitters {
    pub cooldowns: Table<IpAddr, u64>,
    pub quotas: Table<IpAddr, SubmitQuota>,
}

impl Submitters {
    pub fn new() -> (r: Self)
        ensures
            r.cooldowns@ == Map::<IpAddr, u64>::empty(),
            r.quotas@ == Map::<IpAddr, SubmitQuota>::empty(),
    {
        Submitters { cooldowns: Table::new(), quotas: Table::new() }
    }
}

/// A submission that passed the checks and waits for its probe.
pub struct Submission {
    pub address: String,
    pub name: String,
    pub submitter: Option<String>,
    pub submitted_at: u64,
    /// The node was on the list when the submission was checked.
    pub already_exists: bool,
}

// ---------------------------------------------------------------------------
// The checks
// ---------------------------------------------------------------------------
/// Why the submitted texts are refused.
pub open spec fn text_refusal(name: Seq<char>, address: Seq<char>) -> Option<Seq<char>> {
    match node_address::normalized(address) {
        Err(reason) => Some(reason),
        Ok(_) => if node_address::sanitized(name, COMMUNITY_NODE_NAME_MAX_LEN as nat).len() == 0 {
            Some("节点名称不能为空"@)
        } else {
            None
        },
    }
}

/// The quotas that are still remembered: twice as long as a window lasts.
pub open spec fn quotas_kept(m: Map<IpAddr, SubmitQuota>, now: u64) -> Map<IpAddr, SubmitQuota> {
    Map::new(
        |k: IpAddr|
            m.contains_key(k) && !limiter::window_over(
                m[k].window_started,
                now,
                (2 * COMMUNITY_NODE_SUBMIT_WINDOW_SECS) as u64,
            ),
        |k: IpAddr| m[k],
    )
}

/// The quota of a source.
pub open spec fn quota_in(m: Map<IpAddr, SubmitQuota>, source: IpAddr, now: u64) -> SubmitQuota {
    if m.contains_key(source) {
        m[source]
    } else {
        SubmitQuota { window_started: now, submissions: 0 }
    }
}

/// There is no room to remember another source.
pub open spec fn untracked(m: Map<IpAddr, SubmitQuota>, source: IpAddr) -> bool {
    !m.contains_key(source) && m.dom().len() >= MAX_TRACKED_IP_SUBMITTERS
}

/// Why a source may not submit more in its window.
pub open spec fn quota_refusal(
    m: Map<IpAddr, SubmitQuota>,
    source: IpAddr,
    now: u64,
) -> Option<Seq<char>> {
    if untracked(m, source) {
        Some("投稿来源过多，请稍后再试"@)
    } else if !quota_in(m, source, now).allows(now) {
        Some("该来源的投稿配额已用尽，请稍后再试"@)
    } else {
        None
    }
}

/// The quotas after a source asked.
pub open spec fn quotas_after(
    m: Map<IpAddr, SubmitQuota>,
    source: IpAddr,
    now: u64,
) -> Map<IpAddr, SubmitQuota> {
    if untracked(m, source) {
        m
    } else {
        m.insert(source, quota_in(m, source, now).asked(now))
    }
}

/// The cooldowns that still run.
pub open spec fn cooldowns_kept(m: Map<IpAddr, u64>, now: u64) -> Map<IpAddr, u64> {
    Map::new(
        |k: IpAddr| m.contains_key(k) && now - m[k] <= COMMUNITY_NODE_SUBMIT_COOLDOWN_SECS,
        |k: IpAddr| m[k],
    )
}

/// The seconds that are left of a cooldown, at least one.
pub open spec fn cooldown_left(last: u64, now: u64) -> nat {
    let left = COMMUNITY_NODE_SUBMIT_COOLDOWN_SECS - (if now >= last {
        now - last
    } else {
        0
    });
    if left >= 1 {
        left as nat
    } else {
        1
    }
}

/// Why a source has to wait.
pub open spec fn cooldown_refusal(
    m: Map<IpAddr, u64>,
    source: IpAddr,
    now: u64,
) -> Option<Seq<char>> {
    if m.contains_key(source) {
        Some("投稿过于频繁，请 "@ + number::decimal(cooldown_left(m[source], now)) + " 秒后再试"@)
    } else {
        None
    }
}

/// The cooldowns after a source asked.
pub open spec fn cooldowns_after(
    m: Map<IpAddr, u64>,
    source: IpAddr,
    now: u64,
) -> Map<IpAddr, u64> {
    if m.contains_key(source) {
        m
    } else {
        m.insert(source, now)
    }
}

/// The list has no room for another node.
pub open spec fn list_full(
    nodes: community_nodes::NodeMap,
    address: Seq<char>,
    capacity: usize,
) -> bool {
    !nodes.contains_key(address) && nodes.dom().len() >= capacity
}

/// A submitter's name for display; none where nothing is left of it.
pub open spec fn submitter_of(raw: Option<Seq<char>>) -> Option<Seq<char>> {
    match raw {
        Some(name) => {
            let clean = node_address::sanitized(name, COMMUNITY_NODE_SUBMITTER_MAX_LEN as nat);
            if clean.len() > 0 {
                Some(clean)
            } else {
                None
            }
        },
        None => None,
    }
}

/// The quota; none where it is no longer remembered.
pub open spec fn live_quota(quota: SubmitQuota, now: u64) -> Option<SubmitQuota> {
    if limiter::window_over(
        quota.window_started,
        now,
        (2 * COMMUNITY_NODE_SUBMIT_WINDOW_SECS) as u64,
    ) {
        None
    } else {
        Some(quota)
    }
}

/// The beginning of a cooldown; none where it is over.
pub open spec fn live_cooldown(at: u64, now: u64) -> Option<u64> {
    if now - at <= COMMUNITY_NODE_SUBMIT_COOLDOWN_SECS {
        Some(at)
    } else {
        None
    }
}

fn keep_quotas(quotas: &mut Table<IpAddr, SubmitQuota>, now: u64)
    ensures
        final(quotas)@ == quotas_kept(old(quotas)@, now),
{
    let ghost before = quotas@;
    quotas.refine(
        |quota: SubmitQuota| -> (r: Option<SubmitQuota>)
            ensures
                r == live_quota(quota, now)
        {
            let window: u64 = 2 * COMMUNITY_NODE_SUBMIT_WINDOW_SECS;
            if limiter::is_window_over(quota.window_started, now, window) {
                None
            } else {
                Some(quota)
            }
        },
        Ghost(|quota: SubmitQuota| live_quota(quota, now)),
    );
    assert(quotas@ =~= quotas_kept(before, now));
}

fn keep_cooldowns(cooldowns: &mut Table<IpAddr, u64>, now: u64)
    ensures
        final(cooldowns)@ == cooldowns_kept(old(cooldowns)@, now),
{
    let ghost before = cooldowns@;
    cooldowns.refine(
        |at: u64| -> (r: Option<u64>)
            ensures
                r == live_cooldown(at, now)
        {
            if now.saturating_sub(at) <= COMMUNITY_NODE_SUBMIT_COOLDOWN_SECS {
                Some(at)
            } else {
                None
            }
        },
        Ghost(|at: u64| live_cooldown(at, now)),
    );
    assert(cooldowns@ =~= cooldowns_kept(before, now));
}

/// Counts a request against the quota of its source.
fn check_quota(quotas: &mut Table<IpAddr, SubmitQuota>, source: IpAddr, now: u64) -> (r: Result<
    (),
    String,
>)
    ensures
        final(quotas)@ == quotas_after(quotas_kept(old(quotas)@, now), source, now),
        match r {
            Ok(_) => quota_refusal(quotas_kept(old(quotas)@, now), source, now) is None,
            Err(reason) => quota_refusal(quotas_kept(old(quotas)@, now), source, now) == Some(
                reason@,
            ),
        },
{
    keep_quotas(quotas, now);
    let tracked_sources: usize = quotas.len();
    if !quotas.contains(&source) && tracked_sources >= MAX_TRACKED_IP_SUBMITTERS {
        return Err("投稿来源过多，请稍后再试".to_owned());
    }
    let mut quota = match quotas.get(&source) {
        Some(quota) => *quota,
        None => SubmitQuota { window_started: now, submissions: 0 },
    };
    let allowed = limiter::allow_submit_quota(&mut quota, now);
    quotas.put(source, quota);
    if allowed {
        Ok(())
    } else {
        Err("该来源的投稿配额已用尽，请稍后再试".to_owned())
    }
}

/// Starts the cooldown of a source, unless one runs.
fn check_cooldown(cooldowns: &mut Table<IpAddr, u64>, source: IpAddr, now: u64) -> (r: Result<
    (),
    String,
>)
    ensures
        final(cooldowns)@ == cooldowns_after(cooldowns_kept(old(cooldowns)@, now), source, now),
        match r {
            Ok(_) => cooldown_refusal(cooldowns_kept(old(cooldowns)@, now), source, now) is None,
            Err(reason) => cooldown_refusal(cooldowns_kept(old(cooldowns)@, now), source, now)
                == Some(reason@),
        },
{
    keep_cooldowns(cooldowns, now);
    if let Some(last) = cooldowns.get(&source) {
        let left: u64 = COMMUNITY_NODE_SUBMIT_COOLDOWN_SECS.saturating_sub(
            now.saturating_sub(*last),
        );
        let wait: u64 = if left >= 1 {
            left
        } else {
            1
        };
        assert(wait == cooldown_left(*last, now));
        let mut message = "投稿过于频繁，请 ".to_owned();
        number::push_decimal(&mut message, wait);
        message.append(" 秒后再试");
        return Err(message);
    }
    cooldowns.put(source, now);
    Ok(())
}

/// The submission passed the checks as it should have.
pub open spec fn submission_ok(
    submission: Submission,
    nodes: community_nodes::NodeMap,
    name: Seq<char>,
    address: Seq<char>,
    submitter: Option<Seq<char>>,
    now: u64,
) -> bool {
    &&& node_address::normalized(address) == Ok::<Seq<char>, Seq<char>>(submission.address@)
    &&& submission.name@ == node_address::sanitized(name, COMMUNITY_NODE_NAME_MAX_LEN as nat)
    &&& state::opt_view(submission.submitter) == submitter_of(submitter)
    &&& submission.submitted_at == now
    &&& submission.already_exists == nodes.contains_key(submission.address@)
}

fn clean_submitter(raw: &Option<String>) -> (r: Option<String>)
    ensures
        state::opt_view(r) == submitter_of(state::opt_view(*raw)),
{
    match raw {
        Some(name) => {
            let clean = node_address::sanitize_community_text(
                name.as_str(),
                COMMUNITY_NODE_SUBMITTER_MAX_LEN,
            );
            if clean.as_str().unicode_len() > 0 {
                Some(clean)
            } else {
                None
            }
        },
        None => None,
    }
}

/// Checks a submission before its node is probed: the texts, the quota of the
/// source, its cooldown, and the room on the list, in this order. `now` is the
/// Unix second, `clock` the monotonic clock.
pub fn begin_submission(
    submitters: &mut Submitters,
    nodes: &Table<String, CommunityNodeInfo>,
    capacity: usize,
    peer: IpAddr,
    name: &str,
    address: &str,
    submitter: &Option<String>,
    now: u64,
    clock: u64,
) -> (r: Result<Submission, String>)
    ensures
        ({
            let source = connection_guard::quota_of(peer);
            let quotas = quotas_kept(old(submitters).quotas@, clock);
            let cooldowns = cooldowns_kept(old(submitters).cooldowns@, now);
            let cleared = text_refusal(name@, address@) is None;
            let counted = cleared && quota_refusal(quotas, source, clock) is None;
            let started = counted && cooldown_refusal(cooldowns, source, now) is None;
            &&& final(submitters).quotas@ == if cleared {
                quotas_after(quotas, source, clock)
            } else {
                old(submitters).quotas@
            }
            &&& final(submitters).cooldowns@ == if counted {
                cooldowns_after(cooldowns, source, now)
            } else {
                old(submitters).cooldowns@
            }
            &&& match r {
                Ok(submission) => started && !list_full(nodes@, submission.address@, capacity)
                    && submission_ok(
                    submission,
                    nodes@,
                    name@,
                    address@,
                    state::opt_view(*submitter),
                    now,
                ),
                Err(reason) => if !cleared {
                    text_refusal(name@, address@) == Some(reason@)
                } else if !counted {
                    quota_refusal(quotas, source, clock) == Some(reason@)
                } else if !started {
                    cooldown_refusal(cooldowns, source, now) == Some(reason@)
                } else {
                    list_full(nodes@, node_address::normalized(address@)->Ok_0, capacity) && reason@
                        == "共享节点列表已满，请稍后再试"@
                },
            }
        }),
{
    let form = match node_address::normalize_community_node_address(address) {
        Ok(form) => form,
        Err(reason) => {
            return Err(reason.to_owned());
        },
    };
    let clean_name = node_address::sanitize_community_text(name, COMMUNITY_NODE_NAME_MAX_LEN);
    if clean_name.as_str().unicode_len() == 0 {
        return Err("节点名称不能为空".to_owned());
    }
    let source = connection_guard::quota_source(peer);
    if let Err(reason) = check_quota(&mut submitters.quotas, source, clock) {
        return Err(reason);
    }
    if let Err(reason) = check_cooldown(&mut submitters.cooldowns, source, now) {
        return Err(reason);
    }
    let already_exists = nodes.contains(&form);
    let count: usize = nodes.len();
    if !already_exists && count >= capacity {
        return Err("共享节点列表已满，请稍后再试".to_owned());
    }
    Ok(
        Submission {
            address: form,
            name: clean_name,
            submitter: clean_submitter(submitter),
            submitted_at: now,
            already_exists,
        },
    )
}

// ---------------------------------------------------------------------------
// The decision
// ---------------------------------------------------------------------------
/// The node that a submission leaves on the list. A node that is there already
/// is refreshed and keeps the time of its first submission.
pub open spec fn listed_node(
    nodes: community_nodes::NodeMap,
    submission: Submission,
    latency_ms: u64,
) -> community_nodes::NodeView {
    let address = submission.address@;
    if nodes.contains_key(address) {
        community_nodes::NodeView {
            name: submission.name@,
            submitter: match submission.submitter {
                Some(name) => Some(name@),
                None => nodes[address].submitter,
            },
            online: true,
            latency_ms: Some(latency_ms),
            last_ok_at: submission.submitted_at,
            ..nodes[address]
        }
    } else {
        community_nodes::NodeView {
            name: submission.name@,
            address,
            submitter: state::opt_view(submission.submitter),
            submitted_at: submission.submitted_at,
            last_ok_at: submission.submitted_at,
            online: true,
            latency_ms: Some(latency_ms),
        }
    }
}

/// Why a submission is refused after its probe.
pub open spec fn probe_refusal(
    nodes: community_nodes::NodeMap,
    submission: Submission,
    outcome: ProbeOutcome,
    capacity: usize,
) -> Option<Seq<char>> {
    match outcome {
        ProbeOutcome::Dead => Some("该节点当前不可达，请确认地址与端口后重新提交"@),
        ProbeOutcome::Blocked => Some(
            "只接受公网可访问的节点地址，回环/内网/保留地址无法作为共享节点"@,
        ),
        ProbeOutcome::Busy => Some("当前探测队列繁忙，请稍后再试"@),
        ProbeOutcome::Alive(_) => if list_full(nodes, submission.address@, capacity) {
            Some("共享节点列表已满，请稍后再试"@)
        } else {
            None
        },
    }
}

/// A refusal in answer to a submission.
pub fn reject_submission(reason: String) -> (r: SignalingMessage)
    ensures
        r == (SignalingMessage::CommunityNodeSubmitResult {
            ok: false,
            message: reason,
            node: None,
        }),
{
    SignalingMessage::CommunityNodeSubmitResult { ok: false, message: reason, node: None }
}

/// Puts a node on the list that was found alive.
fn list_node(
    nodes: &mut Table<String, CommunityNodeInfo>,
    submission: &Submission,
    latency_ms: u64,
) -> (r: CommunityNodeInfo)
    ensures
        r@ == listed_node(old(nodes)@, *submission, latency_ms),
        final(nodes)@ == old(nodes)@.insert(submission.address@, r@),
{
    let ghost before = nodes@;
    let node = match nodes.take(&submission.address) {
        Some(existing) => CommunityNodeInfo {
            name: submission.name.clone(),
            address: existing.address,
            submitter: match &submission.submitter {
                Some(name) => Some(name.clone()),
                None => existing.submitter,
            },
            submitted_at: existing.submitted_at,
            last_ok_at: submission.submitted_at,
            online: true,
            latency_ms: Some(latency_ms),
        },
        None => CommunityNodeInfo {
            name: submission.name.clone(),
            address: submission.address.clone(),
            submitter: state::clone_opt(&submission.submitter),
            submitted_at: submission.submitted_at,
            last_ok_at: submission.submitted_at,
            online: true,
            latency_ms: Some(latency_ms),
        },
    };
    let copy = community_nodes::copy_node(&node);
    nodes.put(submission.address.clone(), node);
    assert(nodes@ =~= before.insert(submission.address@, copy@));
    copy
}

/// Decides about a submission once its node was probed, and gives the answer.
/// Only a node that was found alive gets on the list.
pub fn finish_submission(
    nodes: &mut Table<String, CommunityNodeInfo>,
    submission: Submission,
    outcome: ProbeOutcome,
    capacity: usize,
) -> (r: SignalingMessage)
    ensures
        match probe_refusal(old(nodes)@, submission, outcome, capacity) {
            Some(reason) => {
                &&& final(nodes)@ == old(nodes)@
                &&& r matches SignalingMessage::CommunityNodeSubmitResult { ok, message, node }
                &&& !ok && message@ == reason && node is None
            },
            None => {
                let listed = listed_node(old(nodes)@, submission, outcome->Alive_0);
                &&& final(nodes)@ == old(nodes)@.insert(submission.address@, listed)
                &&& r matches SignalingMessage::CommunityNodeSubmitResult { ok, message, node }
                &&& ok && node is Some && node->0@ == listed && message@ == (
                if submission.already_exists {
                    "该节点已在共享列表中，已刷新存活状态"@
                } else {
                    "投稿成功，感谢分享"@
                })
            },
        },
{
    match outcome {
        ProbeOutcome::Dead => reject_submission(
            "该节点当前不可达，请确认地址与端口后重新提交".to_owned(),
        ),
        ProbeOutcome::Blocked => reject_submission(
            "只接受公网可访问的节点地址，回环/内网/保留地址无法作为共享节点".to_owned(),
        ),
        ProbeOutcome::Busy => reject_submission("当前探测队列繁忙，请稍后再试".to_owned()),
        ProbeOutcome::Alive(latency_ms) => {
            let count: usize = nodes.len();
            if !nodes.contains(&submission.address) && count >= capacity {
                return reject_submission("共享节点列表已满，请稍后再试".to_owned());
            }
            let node = list_node(nodes, &submission, latency_ms);
            let message = if submission.already_exists {
                "该节点已在共享列表中，已刷新存活状态".to_owned()
            } else {
                "投稿成功，感谢分享".to_owned()
            };
            SignalingMessage::CommunityNodeSubmitResult { ok: true, message, node: Some(node) }
        },
    }
}

} // verus!
