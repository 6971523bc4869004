use mctier_signaling_server::community_nodes::{
    after_connecting, after_datagram, after_resolving, apply_sweep, begin_probe,
    community_node_list, community_node_snapshot, is_community_node_expired,
    resolve_probe_targets, restore_community_nodes, ProbeOutcome, ProbeStep,
};
use mctier_signaling_server::ip::{is_public_probe_target, parse_ip, IpAddr};
use mctier_signaling_server::limits::{
    COMMUNITY_NODE_MAX_OFFLINE_SECS, COMMUNITY_NODE_PROBE_MAX_TARGETS,
    COMMUNITY_NODE_SUBMIT_MAX_PER_WINDOW, MAX_TRACKED_IP_SUBMITTERS, NANOS_PER_SEC,
};
use mctier_signaling_server::node_address::{
    compose_address, form_node_address, normalize_community_node_address, parse_host_port,
    parse_node_host_port, sanitize_community_text, scheme_of,
};
use mctier_signaling_server::node_spelling::load_node_address;
use mctier_signaling_server::node_submission::{
    begin_submission, finish_submission, reject_submission, Submission, Submitters,
};
use mctier_signaling_server::protocol::{CommunityNodeInfo, SignalingMessage};
use mctier_signaling_server::table::Table;

type Nodes = Table<String, CommunityNodeInfo>;

fn ip(s: &str) -> IpAddr {
    parse_ip(&s.chars().collect::<Vec<_>>()).unwrap()
}

fn node_at(address: &str, last_ok_at: u64) -> CommunityNodeInfo {
    CommunityNodeInfo {
        name: "node".to_string(),
        address: address.to_string(),
        submitter: None,
        submitted_at: last_ok_at,
        last_ok_at,
        online: false,
        latency_ms: None,
    }
}

fn filed(list: Vec<CommunityNodeInfo>) -> Nodes {
    let mut nodes = Table::new();
    for node in list {
        nodes.put(node.address.clone(), node);
    }
    nodes
}

fn answer(message: SignalingMessage) -> (bool, String, Option<CommunityNodeInfo>) {
    match message {
        SignalingMessage::CommunityNodeSubmitResult { ok, message, node } => (ok, message, node),
        other => panic!("unexpected answer {other:?}"),
    }
}

// ---------------------------------------------------------------------------
// Addresses
// ---------------------------------------------------------------------------
#[test]
fn community_address_normalization_dedupes_equivalent_spellings() {
    let a = normalize_community_node_address("TCP://Example.COM:11010").unwrap();
    let b = normalize_community_node_address("  tcp://example.com:11010 ").unwrap();
    assert_eq!(a, b);
    assert_eq!(a, "tcp://example.com:11010");

    assert_eq!(
        normalize_community_node_address("tcp://example.com").unwrap(),
        "tcp://example.com:11010"
    );
    assert_eq!(
        normalize_community_node_address("wss://example.com").unwrap(),
        "wss://example.com:443"
    );
    assert_eq!(
        normalize_community_node_address("wss://example.com/signaling").unwrap(),
        "wss://example.com:443/signaling"
    );
    assert_eq!(
        normalize_community_node_address("udp://[2001:db8::1]:11010").unwrap(),
        "udp://[2001:db8::1]:11010"
    );
}

#[test]
fn community_address_rejects_unsupported_and_malformed_input() {
    for bad in [
        "",
        "   ",
        "example.com:11010",
        "http://example.com",
        "file:///etc/passwd",
        "tcp://",
        "tcp://例子.com:0",
        "tcp://exa mple.com:11010",
    ] {
        assert!(normalize_community_node_address(bad).is_err(), "{bad:?}");
    }
    assert!(
        normalize_community_node_address(&format!("tcp://{}.com:11010", "a".repeat(200))).is_err()
    );
}

#[test]
fn each_bad_address_is_refused_for_its_own_reason() {
    let reason = |address: &str| normalize_community_node_address(address).unwrap_err();
    assert_eq!(reason(" "), "节点地址不能为空");
    assert_eq!(reason(&format!("tcp://{}", "a".repeat(123))), "节点地址过长");
    assert_eq!(reason("tcp://a\u{7f}b"), "节点地址不能包含空白或控制字符");
    assert_eq!(reason("example.com"), "节点地址必须以 tcp:// udp:// ws:// wss:// 开头");
    assert_eq!(reason("http://a"), "节点地址协议不支持，仅支持 tcp:// udp:// ws:// wss://");
    assert_eq!(reason("tcp:///path"), "节点地址无法解析出主机与端口");
    assert_eq!(reason("tcp://[::1"), "节点地址无法解析出主机与端口");
    assert_eq!(reason("tcp://a:0"), "节点端口无效");
}

#[test]
fn hosts_and_ports_are_read_like_the_desktop_client_does() {
    let read = |address: &str| parse_node_host_port(address);
    let some = |host: &str, port: u16| Some((host.to_string(), port));
    assert_eq!(read("tcp://Host:99/x"), some("Host", 99));
    assert_eq!(read("host"), some("host", 11010));
    assert_eq!(read("HTTPS://host"), some("host", 443));
    assert_eq!(read("ws://host/"), some("host", 80));
    assert_eq!(read("tcp://[::1]"), some("::1", 11010));
    assert_eq!(read("tcp://[::1]x"), some("::1", 11010));
    assert_eq!(read("tcp://[::1]:70000"), None);
    assert_eq!(read("tcp://[]:1"), None);
    assert_eq!(read("tcp://:1"), None);
    assert_eq!(read("tcp://host:abc"), some("host:abc", 11010));
    assert_eq!(read("tcp://a:b:7"), some("a:b", 7));
    assert_eq!(read("tcp://"), None);
    let rest: Vec<char> = "h:1".chars().collect();
    assert_eq!(parse_host_port("wss", &rest), some("h", 1));
    assert_eq!(scheme_of("UDP://x"), "udp");
    assert_eq!(scheme_of("x"), "");
    assert_eq!(compose_address("ws", "::1", 80, &['/', 'p']), "ws://[::1]:80/p");
    assert_eq!(normalize_community_node_address("ws://h/").unwrap(), "ws://h:80");
    assert_eq!(normalize_community_node_address("WS://ÄB//x").unwrap(), "ws://äb:80//x");
}

#[test]
fn community_text_sanitizer_strips_controls_and_truncates() {
    assert_eq!(sanitize_community_text("  节点\u{0007}名  ", 32), "节点名");
    assert_eq!(sanitize_community_text("abcdef", 3), "abc");
    assert_eq!(sanitize_community_text("\n\t ", 32), "");
}

#[test]
fn sanitized_texts_end_without_white_space() {
    assert_eq!(sanitize_community_text("ab  cd", 4), "ab");
    assert_eq!(sanitize_community_text("\u{1} a", 5), "a");
    assert_eq!(sanitize_community_text("abc", 0), "");
}

// ---------------------------------------------------------------------------
// Probing
// ---------------------------------------------------------------------------
#[test]
fn probe_target_filter_blocks_loopback_private_and_metadata_addresses() {
    let blocked = [
        "127.0.0.1",
        "0.0.0.0",
        "10.0.0.5",
        "172.16.5.9",
        "192.168.1.1",
        "169.254.169.254",
        "100.64.0.1",
        "192.0.0.1",
        "198.18.0.1",
        "192.0.2.10",
        "198.51.100.10",
        "203.0.113.9",
        "240.0.0.1",
        "255.255.255.255",
        "224.0.0.1",
        "::1",
        "::",
        "fd00::1",
        "fe80::1",
        "::ffff:127.0.0.1",
        "::ffff:169.254.169.254",
    ];
    for raw in blocked {
        assert!(!is_public_probe_target(&ip(raw)), "{raw}");
    }

    let allowed = ["1.1.1.1", "8.8.8.8", "119.29.29.29", "2400:3200::1"];
    for raw in allowed {
        assert!(is_public_probe_target(&ip(raw)), "{raw}");
    }
}

#[test]
fn probe_filter_knows_the_edges_of_the_networks() {
    for raw in [
        "172.31.255.255",
        "100.127.255.255",
        "198.19.255.255",
        "223.255.255.255.x",
        "::1.2.3.4",
        "ff02::1",
        "febf::1",
        "2001:db8:ffff::1",
    ] {
        if let Some(address) = parse_ip(&raw.chars().collect::<Vec<_>>()) {
            assert!(!is_public_probe_target(&address), "{raw}");
        }
    }
    for raw in ["172.32.0.1", "100.128.0.1", "198.20.0.1", "223.255.255.255", "192.0.1.1", "fec0::1", "::ffff:8.8.8.8", "0.0.0.1"] {
        assert!(is_public_probe_target(&ip(raw)), "{raw}");
    }
}

#[test]
fn probe_refuses_private_targets_when_private_probing_is_disabled() {
    let loopback = vec![ip("127.0.0.1")];
    assert!(resolve_probe_targets(&loopback, false).is_empty());
    assert_eq!(resolve_probe_targets(&loopback, true).len(), 1);
    let many: Vec<IpAddr> = (1..=9).map(|n| ip(&format!("8.8.8.{n}"))).collect();
    assert_eq!(resolve_probe_targets(&many, false), vec![0, 1, 2, 3]);
    assert!(resolve_probe_targets(&many, true).len() <= COMMUNITY_NODE_PROBE_MAX_TARGETS);
    let mixed = vec![ip("10.0.0.1"), ip("1.1.1.1"), ip("::1"), ip("9.9.9.9")];
    assert_eq!(resolve_probe_targets(&mixed, false), vec![1, 3]);
}

#[test]
fn probes_go_from_lookup_to_connection_to_datagram() {
    assert!(matches!(begin_probe("tcp://"), ProbeStep::Done(ProbeOutcome::Blocked)));
    match begin_probe("udp://node:7") {
        ProbeStep::Resolve { host, port } => assert_eq!((host.as_str(), port), ("node", 7)),
        _ => panic!("a probe begins with a lookup"),
    }
    assert!(matches!(after_resolving(0), ProbeStep::Done(ProbeOutcome::Blocked)));
    assert!(matches!(after_resolving(2), ProbeStep::Connect));
    assert!(matches!(after_connecting("tcp", Some(9)), ProbeStep::Done(ProbeOutcome::Alive(9))));
    assert!(matches!(after_connecting("tcp", None), ProbeStep::Done(ProbeOutcome::Dead)));
    assert!(matches!(after_connecting("udp", None), ProbeStep::Datagram));
    assert_eq!(after_datagram(Some(4)), ProbeOutcome::Alive(4));
    assert_eq!(after_datagram(None), ProbeOutcome::Dead);
}

// ---------------------------------------------------------------------------
// Expiry
// ---------------------------------------------------------------------------
#[test]
fn community_node_expires_only_after_one_full_day_offline() {
    let now = 10 * COMMUNITY_NODE_MAX_OFFLINE_SECS;
    let boundary = node_at(
        "tcp://a.example:11010",
        now - COMMUNITY_NODE_MAX_OFFLINE_SECS,
    );
    assert!(!is_community_node_expired(&boundary, now));
    let expired = node_at(
        "tcp://b.example:11010",
        now - COMMUNITY_NODE_MAX_OFFLINE_SECS - 1,
    );
    assert!(is_community_node_expired(&expired, now));
    assert!(!is_community_node_expired(
        &node_at("tcp://c.example:11010", now),
        now
    ));
}

#[test]
fn sweep_removes_long_dead_nodes_and_refreshes_live_ones() {
    let live_key = normalize_community_node_address("tcp://127.0.0.1:4000").unwrap();
    let dead_key = normalize_community_node_address("tcp://127.0.0.1:9").unwrap();
    let now = 100 * COMMUNITY_NODE_MAX_OFFLINE_SECS;
    let mut nodes = filed(vec![
        node_at(&live_key, now - 10 * COMMUNITY_NODE_MAX_OFFLINE_SECS),
        node_at(&dead_key, now - COMMUNITY_NODE_MAX_OFFLINE_SECS - 60),
    ]);

    let results = vec![
        (live_key.clone(), ProbeOutcome::Alive(3)),
        (dead_key.clone(), ProbeOutcome::Dead),
        ("tcp://gone:1".to_string(), ProbeOutcome::Alive(1)),
    ];
    let (online, removed) = apply_sweep(&mut nodes, &results, now);
    assert_eq!(online, 1);
    assert_eq!(removed, 1);

    assert!(!nodes.contains(&dead_key));
    let refreshed = nodes.get(&live_key).expect("a live node stays");
    assert!(refreshed.online);
    assert!(refreshed.latency_ms.is_some());
    assert!(refreshed.last_ok_at >= now);
}

#[test]
fn sweep_keeps_recently_alive_node_that_is_currently_unreachable() {
    let dead_key = normalize_community_node_address("tcp://127.0.0.1:9").unwrap();
    let now = 100 * COMMUNITY_NODE_MAX_OFFLINE_SECS;
    let mut node = node_at(&dead_key, now - 60);
    node.online = true;
    node.latency_ms = Some(12);
    let mut nodes = filed(vec![node]);

    let (online, removed) =
        apply_sweep(&mut nodes, &vec![(dead_key.clone(), ProbeOutcome::Dead)], now);
    assert_eq!(online, 0);
    assert_eq!(removed, 0);
    let kept = nodes.get(&dead_key).expect("the node stays");
    assert!(!kept.online);
    assert!(kept.latency_ms.is_none());
}

#[test]
fn a_node_that_may_not_be_probed_counts_as_unreachable() {
    let now = 100 * COMMUNITY_NODE_MAX_OFFLINE_SECS;
    let mut node = node_at("tcp://a:1", now - 60);
    node.online = true;
    node.latency_ms = Some(12);
    let mut nodes = filed(vec![node]);
    let results = vec![("tcp://a:1".to_string(), ProbeOutcome::Blocked)];
    assert_eq!(apply_sweep(&mut nodes, &results, now), (0, 0));
    let kept = nodes.get(&"tcp://a:1".to_string()).unwrap();
    assert!(!kept.online);
    assert!(kept.latency_ms.is_none());
}

#[test]
fn a_probe_without_a_slot_says_nothing() {
    let now = 100 * COMMUNITY_NODE_MAX_OFFLINE_SECS;
    let mut node = node_at("tcp://a:1", now - 60);
    node.online = true;
    node.latency_ms = Some(12);
    let mut nodes = filed(vec![node]);
    let results = vec![("tcp://a:1".to_string(), ProbeOutcome::Busy)];
    assert_eq!(apply_sweep(&mut nodes, &results, now), (0, 0));
    let kept = nodes.get(&"tcp://a:1".to_string()).unwrap();
    assert!(kept.online);
    assert_eq!(kept.latency_ms, Some(12));
    assert_eq!(kept.last_ok_at, now - 60);
}

#[test]
fn loading_from_disk_drops_expired_and_invalid_entries() {
    let now = 10 * COMMUNITY_NODE_MAX_OFFLINE_SECS;
    let saved = vec![
        node_at("tcp://keep.example:11010", now - 60),
        node_at("tcp://drop.example:11010", now - COMMUNITY_NODE_MAX_OFFLINE_SECS - 1),
        node_at("not-a-node", now),
    ];
    let loaded = restore_community_nodes(&saved, now);
    assert_eq!(loaded.len(), 1);
    assert!(loaded.contains(&"tcp://keep.example:11010".to_string()));
    assert_eq!(restore_community_nodes(&Vec::new(), now).len(), 0);
}

#[test]
fn of_two_saved_spellings_the_later_one_stays() {
    let mut second = node_at("tcp://a", 100);
    second.name = "second".to_string();
    let loaded = restore_community_nodes(&vec![node_at("TCP://A:11010", 100), second], 100);
    assert_eq!(loaded.len(), 1);
    let node = loaded.get(&"tcp://a:11010".to_string()).unwrap();
    assert_eq!(node.name, "second");
    assert_eq!(node.address, "tcp://a");
}

// ---------------------------------------------------------------------------
// Listing
// ---------------------------------------------------------------------------
#[test]
fn community_node_list_sorts_online_first_then_by_latency() {
    let now = 1000;
    let mut offline = node_at("tcp://offline.example:11010", now);
    offline.name = "离线".to_string();
    let mut slow = node_at("tcp://slow.example:11010", now);
    slow.name = "慢".to_string();
    slow.online = true;
    slow.latency_ms = Some(300);
    let mut fast = node_at("tcp://fast.example:11010", now);
    fast.name = "快".to_string();
    fast.online = true;
    fast.latency_ms = Some(20);
    let nodes = filed(vec![offline, slow, fast]);

    let list = community_node_list(&nodes);
    let names: Vec<&str> = list.iter().map(|n| n.name.as_str()).collect();
    assert_eq!(names, vec!["快", "慢", "离线"]);
}

#[test]
fn lists_hold_every_node_once_and_in_order() {
    let mut list = Vec::new();
    for (index, name) in ["d", "b", "a", "c", "b"].iter().enumerate() {
        let mut node = node_at(&format!("tcp://{}{name}:1", 9 - index), 5);
        node.name = name.to_string();
        list.push(node);
    }
    let nodes = filed(list);
    let by_name: Vec<String> = community_node_list(&nodes).into_iter().map(|n| n.name).collect();
    assert_eq!(by_name, vec!["a", "b", "b", "c", "d"]);
    let saved: Vec<String> = community_node_snapshot(&nodes).into_iter().map(|n| n.address).collect();
    let mut sorted = saved.clone();
    sorted.sort();
    assert_eq!(saved, sorted);
    assert_eq!(saved.len(), 5);
}

// ---------------------------------------------------------------------------
// Submission
// ---------------------------------------------------------------------------
fn submit(
    submitters: &mut Submitters,
    nodes: &Nodes,
    peer: &str,
    name: &str,
    address: &str,
    now: u64,
) -> Result<Submission, String> {
    begin_submission(submitters, nodes, 3, ip(peer), name, address, &None, now, now * NANOS_PER_SEC)
}

#[test]
fn submit_rejects_unreachable_node_and_accepts_live_one() {
    let mut submitters = Submitters::new();
    let mut nodes: Nodes = Table::new();
    let pending = submit(&mut submitters, &nodes, "10.0.0.1", "死节点", "tcp://127.0.0.1:9", 100);
    let reply = finish_submission(&mut nodes, pending.ok().unwrap(), ProbeOutcome::Dead, 3);
    let (ok, message, node) = answer(reply);
    assert!(!ok);
    assert!(node.is_none());
    assert_eq!(message, "该节点当前不可达，请确认地址与端口后重新提交");
    assert_eq!(nodes.len(), 0);

    let live = "tcp://127.0.0.1:4000";
    let pending = begin_submission(
        &mut submitters,
        &nodes,
        3,
        ip("10.0.0.2"),
        "  活节点\u{0007}  ",
        &live.to_uppercase(),
        &Some("玩家A".to_string()),
        100,
        100 * NANOS_PER_SEC,
    );
    let (ok, message, node) =
        answer(finish_submission(&mut nodes, pending.ok().unwrap(), ProbeOutcome::Alive(7), 3));
    assert!(ok);
    assert_eq!(message, "投稿成功，感谢分享");
    let node = node.expect("a node that was listed is given back");
    assert_eq!(node.name, "活节点");
    assert_eq!(node.submitter.as_deref(), Some("玩家A"));
    assert_eq!(node.address, live);
    assert!(node.online);
    assert!(node.last_ok_at > 0);
    assert_eq!(node.latency_ms, Some(7));
    assert_eq!(nodes.len(), 1);
    let listed = nodes.get(&live.to_string()).unwrap();
    assert_eq!((listed.name.as_str(), listed.submitter.as_deref()), ("活节点", Some("玩家A")));
}

#[test]
fn a_known_node_is_refreshed() {
    let mut submitters = Submitters::new();
    let mut nodes: Nodes = Table::new();
    let pending = submit(&mut submitters, &nodes, "10.0.0.2", "活节点", "tcp://127.0.0.1:4000", 100);
    finish_submission(&mut nodes, pending.ok().unwrap(), ProbeOutcome::Alive(7), 3);
    let mut pending = submit(&mut submitters, &nodes, "10.0.0.3", "改名", "tcp://127.0.0.1:4000", 200)
        .ok()
        .unwrap();
    assert!(pending.already_exists);
    pending.submitter = Some("me".to_string());
    let (ok, message, node) =
        answer(finish_submission(&mut nodes, pending, ProbeOutcome::Alive(5), 3));
    assert!(ok);
    assert_eq!(message, "该节点已在共享列表中，已刷新存活状态");
    let node = node.unwrap();
    assert_eq!((node.name.as_str(), node.submitted_at, node.last_ok_at), ("改名", 100, 200));
    assert_eq!(node.submitter.as_deref(), Some("me"));
    assert_eq!(nodes.len(), 1);
}

#[test]
fn submit_is_rate_limited_per_source_ip() {
    let mut submitters = Submitters::new();
    let mut nodes: Nodes = Table::new();
    let live = "tcp://127.0.0.1:4000";
    let first = submit(&mut submitters, &nodes, "10.0.0.3", "节点1", live, 1000).ok().unwrap();
    assert!(answer(finish_submission(&mut nodes, first, ProbeOutcome::Alive(7), 3)).0);
    let second = submit(&mut submitters, &nodes, "10.0.0.3", "节点2", live, 1000).err().unwrap();
    assert!(!answer(reject_submission(second)).0);
    let third = submit(&mut submitters, &nodes, "10.0.0.4", "节点1改名", live, 1000).ok().unwrap();
    assert!(answer(finish_submission(&mut nodes, third, ProbeOutcome::Alive(7), 3)).0);
    assert_eq!(nodes.len(), 1);
    assert_eq!(nodes.entry(0).1.name, "节点1改名");
}

#[test]
fn cooldowns_run_for_each_source() {
    let mut submitters = Submitters::new();
    let nodes: Nodes = Table::new();
    assert!(submit(&mut submitters, &nodes, "203.0.113.7", "a", "tcp://a:1", 1000).is_ok());
    assert_eq!(
        submit(&mut submitters, &nodes, "203.0.113.7", "a", "tcp://a:1", 1010).err().unwrap(),
        "投稿过于频繁，请 20 秒后再试"
    );
    assert_eq!(
        submit(&mut submitters, &nodes, "203.0.113.7", "a", "tcp://a:1", 1030).err().unwrap(),
        "投稿过于频繁，请 1 秒后再试"
    );
    assert!(submit(&mut submitters, &nodes, "203.0.113.8", "a", "tcp://a:1", 1010).is_ok());
    assert!(submit(&mut submitters, &nodes, "203.0.113.7", "a", "tcp://a:1", 1031).is_ok());
    assert!(submit(&mut submitters, &nodes, "2001:db8::1", "a", "tcp://a:1", 1031).is_ok());
    assert!(submit(&mut submitters, &nodes, "2001:db8::2", "a", "tcp://a:1", 1031).is_err());
}

#[test]
fn submissions_are_bounded_for_each_source_and_window() {
    let mut submitters = Submitters::new();
    let nodes: Nodes = Table::new();
    for index in 0..COMMUNITY_NODE_SUBMIT_MAX_PER_WINDOW as u64 {
        let now = 1000 + 31 * index;
        assert!(submit(&mut submitters, &nodes, "1.1.1.1", "a", "tcp://a:1", now).is_ok());
    }
    assert_eq!(
        submit(&mut submitters, &nodes, "1.1.1.1", "a", "tcp://a:1", 1300).err().unwrap(),
        "该来源的投稿配额已用尽，请稍后再试"
    );
    assert!(submit(&mut submitters, &nodes, "1.1.1.1", "a", "tcp://a:1", 1600).is_ok());
}

#[test]
fn only_so_many_sources_are_remembered() {
    let mut submitters = Submitters::new();
    let nodes: Nodes = Table::new();
    for index in 0..MAX_TRACKED_IP_SUBMITTERS {
        let source = ip(&format!("1.2.{}.{}", index / 256, index % 256));
        submitters.quotas.put(
            source,
            mctier_signaling_server::limiter::SubmitQuota {
                window_started: 0,
                submissions: 1,
            },
        );
    }
    assert_eq!(
        submit(&mut submitters, &nodes, "9.9.9.9", "a", "tcp://a:1", 10).err().unwrap(),
        "投稿来源过多，请稍后再试"
    );
    assert!(submit(&mut submitters, &nodes, "1.2.0.0", "a", "tcp://a:1", 10).is_ok());
    assert!(submit(&mut submitters, &nodes, "9.9.9.9", "a", "tcp://a:1", 1200).is_ok());
    assert!(submitters.quotas.len() <= 2);
}

#[test]
fn bad_submissions_are_refused_before_they_count() {
    let mut submitters = Submitters::new();
    let mut nodes: Nodes = Table::new();
    assert_eq!(
        submit(&mut submitters, &nodes, "1.1.1.1", " \u{1}", "tcp://a:1", 10).err().unwrap(),
        "节点名称不能为空"
    );
    assert_eq!(
        submit(&mut submitters, &nodes, "1.1.1.1", "n", "http://a:1", 10).err().unwrap(),
        "节点地址协议不支持，仅支持 tcp:// udp:// ws:// wss://"
    );
    assert_eq!(submitters.quotas.len(), 0);
    for index in 0..3 {
        nodes.put(format!("tcp://full{index}:1"), node_at(&format!("tcp://full{index}:1"), 10));
    }
    assert_eq!(
        submit(&mut submitters, &nodes, "1.1.1.1", "n", "tcp://new:1", 10).err().unwrap(),
        "共享节点列表已满，请稍后再试"
    );
    let listed = submit(&mut submitters, &nodes, "1.1.1.2", "n", "tcp://full1:1", 10);
    assert!(listed.is_ok());
    let reasons = [
        (ProbeOutcome::Blocked, "只接受公网可访问的节点地址，回环/内网/保留地址无法作为共享节点"),
        (ProbeOutcome::Busy, "当前探测队列繁忙，请稍后再试"),
        (ProbeOutcome::Alive(1), "共享节点列表已满，请稍后再试"),
    ];
    for (outcome, reason) in reasons {
        let late = Submission {
            address: "tcp://new:1".to_string(),
            name: "n".to_string(),
            submitter: None,
            submitted_at: 10,
            already_exists: false,
        };
        let (ok, message, node) = answer(finish_submission(&mut nodes, late, outcome, 3));
        assert!(!ok && node.is_none());
        assert_eq!(message, reason);
    }
    assert_eq!(nodes.len(), 3);
    let (ok, message, _) = answer(reject_submission("no".to_string()));
    assert!(!ok);
    assert_eq!(message, "no");
}

#[test]
fn submitters_are_named_for_display() {
    let mut submitters = Submitters::new();
    let nodes: Nodes = Table::new();
    let begun = |submitters: &mut Submitters, peer: &str, by: &str| {
        begin_submission(submitters, &nodes, 3, ip(peer), "n", "tcp://a:1", &Some(by.to_string()), 1, 1)
            .ok()
            .unwrap()
            .submitter
    };
    assert_eq!(begun(&mut submitters, "1.1.1.1", " me\u{7} ").as_deref(), Some("me"));
    assert_eq!(begun(&mut submitters, "1.1.1.2", "  "), None);
    assert_eq!(begun(&mut submitters, "1.1.1.3", &"x".repeat(30)).unwrap().len(), 24);
}

// ---------------------------------------------------------------------------
// Forms and restarts
// ---------------------------------------------------------------------------
#[test]
fn a_form_longer_than_a_submission_may_be_survives_a_restart() {
    let submitted = format!("tcp://{}", "h".repeat(122));
    assert_eq!(submitted.len(), 128);
    let form = normalize_community_node_address(&submitted).unwrap();
    assert_eq!(form.len(), 134);
    assert_eq!(normalize_community_node_address(&form), Err("节点地址过长"));
    assert_eq!(form_node_address(&form), Ok(form.clone()));

    let mut submitters = Submitters::new();
    let mut nodes = Table::new();
    let submission = begin_submission(
        &mut submitters,
        &nodes,
        200,
        ip("192.0.2.9"),
        "long",
        &submitted,
        &None,
        1_000,
        0,
    )
    .unwrap();
    finish_submission(&mut nodes, submission, ProbeOutcome::Alive(7), 200);
    let saved = community_node_snapshot(&nodes);
    let loaded = restore_community_nodes(&saved, 1_000 + COMMUNITY_NODE_MAX_OFFLINE_SECS);
    assert_eq!(loaded.get(&form).unwrap().name, "long");
    assert_eq!(loaded.len(), 1);
    let later = restore_community_nodes(&saved, 1_001 + COMMUNITY_NODE_MAX_OFFLINE_SECS);
    assert_eq!(later.len(), 0);
}

#[test]
fn forms_name_the_same_node_and_stay_as_they_are() {
    for (address, host, port) in [
        ("TCP://Example.COM", "example.com", 11010),
        ("wss://Node.Example/Path?q=1", "node.example", 443),
        ("udp://[2001:DB8::1]:9", "2001:db8::1", 9),
        ("ws://a:b:81/", "a:b", 81),
    ] {
        let form = normalize_community_node_address(address).unwrap();
        assert_eq!(parse_node_host_port(&form), Some((host.to_string(), port)));
        assert_eq!(normalize_community_node_address(&form), Ok(form.clone()));
    }
    // A host that a bracket hides is filed, but its form names none.
    let form = normalize_community_node_address("tcp://[[x]").unwrap();
    assert_eq!(form, "tcp://[x:11010");
    assert_eq!(parse_node_host_port(&form), None);
}

#[test]
fn schemes_are_put_in_lower_case_beyond_ascii_too() {
    assert_eq!(scheme_of("TCP://x"), "tcp");
    assert_eq!(scheme_of("ÄTCP://x"), "ätcp");
    assert_eq!(
        normalize_community_node_address("tcp://BÜCHER.example").unwrap(),
        "tcp://bücher.example:11010"
    );
}

#[test]
fn saved_addresses_that_no_submission_yields_are_dropped() {
    let now = 1_000;
    let load = |address: &str| {
        let loaded = restore_community_nodes(&vec![node_at(address, now)], now);
        (0..loaded.len()).map(|i| loaded.entry(i).0.clone()).next()
    };
    // Two hundred bytes, and one byte more than a form can have.
    assert_eq!(load(&format!("tcp://{}:11010", "h".repeat(188))), None);
    assert_eq!(load(&format!("tcp://{}:11010", "h".repeat(123))), None);
    // A port that a submission has to write, or a spelling that is not in form.
    assert_eq!(load(&format!("tcp://{}:4000", "h".repeat(122))), None);
    assert_eq!(load(&format!("TCP://{}:11010", "h".repeat(122))), None);
    // The longest forms that submissions have.
    for submitted in [
        format!("tcp://{}", "H".repeat(122)),
        format!("wss://{}/p", "h".repeat(120)),
        format!("tcp://[a:{}]", "b".repeat(118)),
        format!("tcp://a:{}", "b".repeat(120)),
        format!("tcp://a:{}:7", "b".repeat(118)),
        format!("tcp://{}", "\u{23a}".repeat(61)),
        format!("tcp://{}", "\u{130}".repeat(61)),
    ] {
        assert_eq!(submitted.len(), 128);
        let form = normalize_community_node_address(&submitted).unwrap();
        assert!(form.len() > 128);
        assert_eq!(load(&form), Some(form));
    }
    // A short address is loaded as it is submitted.
    assert_eq!(load("TCP://A"), Some("tcp://a:11010".to_string()));
    assert_eq!(load_node_address(" "), Err("节点地址不能为空"));
    assert_eq!(load_node_address(&"x".repeat(129)), Err("节点地址过长"));
}
