use mctier_signaling_server::config::source_limit_from_env;
use mctier_signaling_server::connection_guard::{
    quota_source, Admission, ForwardedHeaders, Lease, Pool,
};
use mctier_signaling_server::ip::{parse_ip, IpAddr};

fn ip(s: &str) -> IpAddr {
    parse_ip(&s.chars().collect::<Vec<_>>()).unwrap()
}

fn headers(forwarded_for: &[&str], real_ip: &[&str]) -> ForwardedHeaders {
    let values = |list: &[&str]| list.iter().map(|s| Some(s.to_string())).collect();
    ForwardedHeaders {
        forwarded_for: values(forwarded_for),
        real_ip: values(real_ip),
    }
}

fn release(guard: &mut Admission, leases: Vec<Lease>) {
    for lease in leases {
        guard.release(lease);
    }
}

fn admission(max: usize, per_source: Option<usize>, proxies: &str) -> Admission {
    match Admission::new(max, per_source, proxies) {
        Ok(guard) => guard,
        Err(message) => panic!("{message}"),
    }
}

#[test]
fn untrusted_headers_cannot_spoof_source_and_trusted_chains_use_nearest_client() {
    let guard = admission(16, Some(4), "127.0.0.1,::1");
    let one = headers(&["1.1.1.1, 203.0.113.9, 127.0.0.1"], &[]);
    assert_eq!(guard.source(ip("192.0.2.7"), &one), Ok(ip("192.0.2.7")));
    assert_eq!(guard.source(ip("127.0.0.1"), &one), Ok(ip("203.0.113.9")));
    let two = headers(&["1.1.1.1, 203.0.113.9, 127.0.0.1", "1.2.3.4"], &[]);
    assert!(guard.source(ip("127.0.0.1"), &two).is_err());
    assert!(guard.source(ip("127.0.0.1"), &headers(&[], &[])).is_err());
}

#[test]
fn forwarded_chain_must_agree_with_a_client_x_real_ip_vouch() {
    let guard = admission(16, Some(4), "127.0.0.1,::1");
    let conflicting = headers(&["198.51.100.23"], &["192.0.2.7"]);
    assert_eq!(
        guard.source(ip("127.0.0.1"), &conflicting).unwrap_err(),
        "conflicting forwarded address"
    );
    let agreeing = headers(&["192.0.2.7"], &["192.0.2.7"]);
    assert_eq!(guard.source(ip("127.0.0.1"), &agreeing), Ok(ip("192.0.2.7")));
}

#[test]
fn every_way_to_name_no_client_is_refused() {
    let guard = admission(16, None, "127.0.0.1, 10.0.0.1");
    let source = |h: &ForwardedHeaders| guard.source(ip("::ffff:127.0.0.1"), h);
    assert_eq!(source(&headers(&[], &[])), Err("trusted proxy must send client address"));
    assert_eq!(source(&headers(&[], &["1.1.1.1", "1.1.1.1"])), Err("trusted proxy must send client address"));
    assert_eq!(source(&headers(&[], &["1.1.1.1"])), Ok(ip("1.1.1.1")));
    assert_eq!(source(&headers(&[], &[" 1.1.1.1"])), Err("invalid real address"));
    assert_eq!(source(&headers(&[], &["10.0.0.1"])), Err("invalid real address"));
    assert_eq!(source(&headers(&["a", "b"], &[])), Err("ambiguous forwarded address"));
    assert_eq!(source(&headers(&["1.1.1.1, x"], &[])), Err("invalid forwarded address"));
    assert_eq!(source(&headers(&[""], &[])), Err("invalid forwarded address"));
    assert_eq!(source(&headers(&["10.0.0.1, 127.0.0.1"], &[])), Err("forwarded chain has no client address"));
    let long = vec!["1.1.1.1"; 17].join(",");
    assert_eq!(source(&headers(&[long.as_str()], &[])), Err("forwarded chain too long"));
    let wide = format!("1.1.1.1{}", " ".repeat(1020));
    assert_eq!(source(&headers(&[wide.as_str()], &[])), Err("forwarded chain too long"));
    assert_eq!(source(&headers(&["1.1.1.1"], &["bad"])), Err("invalid real address"));
    assert_eq!(source(&headers(&["1.1.1.1"], &["10.0.0.1"])), Ok(ip("1.1.1.1")));
    assert_eq!(source(&headers(&["1.1.1.1"], &["1.1.1.1", "1.1.1.1"])), Err("ambiguous forwarded address"));
    let unreadable = ForwardedHeaders {
        forwarded_for: vec![None],
        real_ip: vec![],
    };
    assert_eq!(source(&unreadable), Err("invalid forwarded address"));
    let unreadable = ForwardedHeaders {
        forwarded_for: vec![],
        real_ip: vec![None],
    };
    assert_eq!(source(&unreadable), Err("invalid real address"));
}

#[test]
fn disabled_source_limit_allows_one_source_up_to_global_limit() {
    let mut guard = admission(4, None, "");
    let address = ip("192.0.2.1");
    let held: Vec<_> = (0..4).map(|_| guard.active(address).unwrap()).collect();

    assert!(matches!(
        guard.active(address),
        Err("connection capacity reached")
    ));
    release(&mut guard, held);
    let again = guard.active(address);
    assert!(again.is_ok());
    release(&mut guard, vec![again.unwrap()]);

    let pending: Vec<_> = (0..4).map(|_| guard.pending(address).unwrap()).collect();
    assert!(matches!(
        guard.pending(address),
        Err("connection capacity reached")
    ));
    release(&mut guard, pending);
    assert!(guard.pending(address).is_ok());
}

#[test]
fn proxy_handshakes_are_limited_by_forwarded_source() {
    let mut guard = admission(16, Some(1), "127.0.0.1");
    let proxy = ip("127.0.0.1");
    let mut first = guard.pending(proxy).unwrap();
    let mut second = guard.pending(proxy).unwrap();

    first.resolve_source(&mut guard, ip("192.0.2.1")).unwrap();
    second.resolve_source(&mut guard, ip("192.0.2.2")).unwrap();
    let mut third = guard.pending(proxy).unwrap();
    assert!(third.resolve_source(&mut guard, ip("192.0.2.1")).is_err());
    guard.release(first);
    let mut fourth = guard.pending(proxy).unwrap();
    assert!(fourth.resolve_source(&mut guard, ip("192.0.2.1")).is_ok());
}

#[test]
fn explicit_source_limit_rejects_third_connection_and_recovers() {
    let mut guard = admission(16, Some(2), "");
    let address = ip("192.0.2.1");
    let held: Vec<_> = (0..2).map(|_| guard.active(address).unwrap()).collect();
    assert!(matches!(
        guard.active(address),
        Err("source connection capacity reached")
    ));
    let other = guard.active(ip("192.0.2.2"));
    assert!(other.is_ok());
    release(&mut guard, vec![other.unwrap()]);
    assert!(guard.active(ip("::ffff:192.0.2.1")).is_err());
    release(&mut guard, held);
    let again = guard.active(address);
    assert!(again.is_ok());
    release(&mut guard, vec![again.unwrap()]);
    let pending: Vec<_> = (0..2).map(|_| guard.pending(address).unwrap()).collect();
    assert!(guard.pending(address).is_err());
    let active = guard.active(address);
    assert!(active.is_ok());
    release(&mut guard, vec![active.unwrap()]);
    release(&mut guard, pending);
    assert!(guard.pending(address).is_ok());
    let ipv6 = ip("2001:db8:1:2::1");
    let _v6: Vec<_> = (0..2).map(|_| guard.active(ipv6).unwrap()).collect();
    assert!(guard.active(ip("2001:db8:1:2::ffff")).is_err());
    assert!(guard.active(ip("2001:db8:1:3::1")).is_ok());
}

#[test]
fn different_sources_share_global_limit_and_disconnect_restores_capacity() {
    let mut guard = admission(3, None, "");
    let first = guard.active(ip("192.0.2.1")).unwrap();
    let _second = guard.active(ip("192.0.2.2")).unwrap();
    let _third = guard.active(ip("192.0.2.3")).unwrap();

    assert!(matches!(
        guard.active(ip("192.0.2.4")),
        Err("connection capacity reached")
    ));
    guard.release(first);
    assert!(guard.active(ip("192.0.2.4")).is_ok());
}

#[test]
fn source_limit_is_disabled_for_missing_empty_zero_and_invalid_values() {
    assert_eq!(source_limit_from_env(None), None);
    assert_eq!(source_limit_from_env(Some("")), None);
    assert_eq!(source_limit_from_env(Some("   ")), None);
    assert_eq!(source_limit_from_env(Some("0")), None);
    assert_eq!(source_limit_from_env(Some("not-a-number")), None);
    assert_eq!(source_limit_from_env(Some(" 128 ")), Some(128));
}

#[test]
fn limits_are_clamped_to_what_makes_sense() {
    assert_eq!(admission(0, Some(0), "").source_limit(), Some(1));
    assert_eq!(admission(1, Some(9), "").source_limit(), Some(1));
    assert_eq!(admission(3, Some(9), "").source_limit(), Some(2));
    assert_eq!(admission(100, Some(9), "").source_limit(), Some(9));
    assert_eq!(admission(100, None, "").source_limit(), None);
    let mut tiny = admission(0, None, "");
    assert!(tiny.active(ip("1.1.1.1")).is_ok());
    assert!(tiny.active(ip("1.1.1.1")).is_err());
    let mut wide = admission(1000, Some(500), "");
    for _ in 0..16 {
        assert!(wide.pending(ip("1.1.1.1")).is_ok());
    }
    assert!(wide.pending(ip("1.1.1.1")).is_err());
    for index in 0..112 {
        assert!(wide.pending(ip(&format!("1.1.2.{index}"))).is_ok());
    }
    assert_eq!(wide.pending(ip("1.1.3.1")).unwrap_err(), "connection capacity reached");
}

#[test]
fn proxies_are_read_from_a_list() {
    let guard = admission(4, None, " 127.0.0.1 ,, ::ffff:10.0.0.1, 2001:db8::5");
    assert!(guard.trusted_proxies.contains(&ip("127.0.0.1")));
    assert!(guard.trusted_proxies.contains(&ip("10.0.0.1")));
    assert!(guard.trusted_proxies.contains(&ip("2001:db8::5")));
    assert_eq!(guard.trusted_proxies.len(), 3);
    match Admission::new(4, None, "127.0.0.1, nonsense") {
        Ok(_) => panic!("a list with nonsense in it was accepted"),
        Err(message) => assert_eq!(message, "TRUSTED_PROXIES must contain comma-separated IP addresses"),
    }
}

#[test]
fn one_network_is_one_source() {
    assert_eq!(quota_source(ip("2001:db8:1:2:3:4:5:6")), ip("2001:db8:1:2::"));
    assert_eq!(quota_source(ip("::ffff:192.0.2.1")), ip("192.0.2.1"));
    assert_eq!(quota_source(ip("192.0.2.1")), ip("192.0.2.1"));
}

#[test]
fn handshakes_are_admitted_and_refused_as_a_whole() {
    let mut guard = admission(8, Some(1), "127.0.0.1");
    let proxy = ip("127.0.0.1");
    let mut pending = Some(guard.pending(proxy).unwrap());
    let (source, lease) = guard
        .admit_handshake(proxy, &headers(&["192.0.2.1"], &[]), &mut pending)
        .unwrap();
    assert_eq!(source, ip("192.0.2.1"));

    let mut second = Some(guard.pending(proxy).unwrap());
    assert_eq!(
        guard
            .admit_handshake(proxy, &headers(&["192.0.2.1"], &[]), &mut second)
            .unwrap_err(),
        "source connection capacity reached"
    );
    guard.release(pending.unwrap());
    assert_eq!(
        guard
            .admit_handshake(proxy, &headers(&["192.0.2.1"], &[]), &mut second)
            .unwrap_err(),
        "source connection capacity reached"
    );
    guard.release(lease);
    assert!(guard
        .admit_handshake(proxy, &headers(&["192.0.2.1"], &[]), &mut second)
        .is_ok());
    assert_eq!(
        guard.admit_handshake(proxy, &headers(&[], &[]), &mut None).unwrap_err(),
        "trusted proxy must send client address"
    );
    assert!(guard
        .admit_handshake(ip("198.51.100.1"), &headers(&["9.9.9.9"], &[]), &mut None)
        .is_ok());
}

#[test]
fn a_pool_counts_sources_only_where_they_are_bounded() {
    let (a, b) = (Some(ip("192.0.2.1")), Some(ip("192.0.2.2")));
    let mut pool = Pool::new(3, Some(1));
    assert_eq!(pool.acquire(a), Ok(a));
    assert_eq!(pool.acquire(a), Err("source connection capacity reached"));
    assert_eq!(pool.acquire(b), Ok(b));
    assert_eq!(pool.acquire(None), Ok(None));
    assert_eq!(pool.acquire(None), Err("connection capacity reached"));
    pool.release(a);
    assert_eq!(pool.acquire(a), Ok(a));

    let mut unbounded = Pool::new(2, None);
    assert_eq!(unbounded.acquire(a), Ok(None));
    assert_eq!(unbounded.acquire(a), Ok(None));
    assert_eq!(unbounded.acquire(a), Err("connection capacity reached"));
    assert_eq!(unbounded.reclassify(None, ip("192.0.2.1")), Err("source connection capacity reached"));
}
