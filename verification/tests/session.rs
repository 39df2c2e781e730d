use terracotta::easytier::argument::{Argument, PortForward, Proto};
use terracotta::easytier::config::Settings;
use terracotta::easytier::document::{render, ConfigError};
use terracotta::easytier::session::{
    create, Action, Easytier, EasyTierTunRequest, Event, Phase, Route, StartError, BACKOFF_MS, GRACE_MS,
    MAX_PROBES, POLL_MS,
};
use terracotta::net::{IpAddr, Ipv4Addr, SocketAddr};

fn fresh() -> Easytier {
    create().create(vec![Argument::NetworkName("n".to_string()), Argument::DHCP])
}

fn running() -> Easytier {
    let mut session = fresh();
    assert_eq!(session.advance(Event::Launched { ok: true }), Action::Wait(GRACE_MS));
    assert_eq!(session.advance(Event::Waited), Action::Probe);
    assert_eq!(session.advance(Event::Probed { ready: true }), Action::Watch);
    assert!(session.is_alive());
    session
}

fn rule(port: u16, proto: Proto) -> PortForward {
    PortForward {
        local: SocketAddr::new(IpAddr::V4(Ipv4Addr::localhost()), port),
        remote: SocketAddr::new(IpAddr::V4(Ipv4Addr::new(10, 144, 144, 1)), port),
        proto,
    }
}

fn route(name: &str, bits: Option<u32>, cidrs: &[&str]) -> Route {
    Route {
        hostname: name.to_string(),
        ipv4_addr: bits,
        proxy_cidrs: cidrs.iter().map(|c| c.to_string()).collect(),
    }
}

#[test]
fn timing_of_a_start() {
    assert_eq!(GRACE_MS, 1500);
    assert_eq!(BACKOFF_MS, 500);
    assert_eq!(MAX_PROBES, 20);
    assert_eq!(POLL_MS, 100);
}

#[test]
fn a_new_session_holds_the_document_of_its_intents() {
    let args = vec![
        Argument::NetworkName("terracotta-AB12".to_string()),
        Argument::TcpWhitelist(22102),
        Argument::LatencyFirst,
    ];
    let session = create().create(args.clone());
    assert_eq!(session.phase(), Phase::Launching);
    assert_eq!(session.error(), None);
    assert!(!session.is_alive());
    assert_eq!(session.config(), &render(&Settings::build(&args)).unwrap());
    let doc: toml::Table = toml::from_str(session.config()).unwrap();
    assert_eq!(doc["network_identity"]["network_name"].as_str(), Some("terracotta-AB12"));
    assert_eq!(doc["tcp_whitelist"][0].as_str(), Some("22102"));
    assert_eq!(doc["flags"]["latency_first"].as_bool(), Some(true));
}

#[test]
fn a_session_without_a_document_has_failed() {
    let session = Easytier::with_config(Err(ConfigError::NotSerializable));
    assert_eq!(session.phase(), Phase::Failed(StartError::NotSerializable));
    assert_eq!(session.error(), Some(StartError::NotSerializable));
    assert_eq!(session.config(), "");
    assert!(!session.is_alive());
    let session = Easytier::with_config(Ok("a = 1\n".to_string()));
    assert_eq!(session.phase(), Phase::Launching);
    assert_eq!(session.config(), "a = 1\n");
}

#[test]
fn a_start_that_succeeds_at_once() {
    let mut session = fresh();
    assert_eq!(session.advance(Event::Launched { ok: true }), Action::Wait(1500));
    assert_eq!(session.phase(), Phase::Settling);
    assert!(!session.is_alive());
    assert_eq!(session.advance(Event::Waited), Action::Probe);
    assert_eq!(session.phase(), Phase::Probing { failed: 0 });
    assert!(!session.is_alive());
    assert_eq!(session.advance(Event::Probed { ready: true }), Action::Watch);
    assert_eq!(session.phase(), Phase::Running);
    assert!(session.is_alive());
    assert_eq!(session.error(), None);
}

#[test]
fn a_start_that_succeeds_at_the_last_probe() {
    let mut session = fresh();
    session.advance(Event::Launched { ok: true });
    assert_eq!(session.advance(Event::Waited), Action::Probe);
    for failed in 1..=19u8 {
        assert_eq!(session.advance(Event::Probed { ready: false }), Action::Wait(500));
        assert_eq!(session.phase(), Phase::Backoff { failed });
        assert_eq!(session.advance(Event::Waited), Action::Probe);
        assert_eq!(session.phase(), Phase::Probing { failed });
    }
    assert_eq!(session.advance(Event::Probed { ready: true }), Action::Watch);
    assert!(session.is_alive());
}

#[test]
fn a_start_that_never_gets_an_answer_is_given_up_and_the_engine_told() {
    let mut session = fresh();
    assert_eq!(session.advance(Event::Launched { ok: true }), Action::Wait(1500));
    let mut probes = 0;
    let mut waited_ms = 1500;
    let mut action = session.advance(Event::Waited);
    loop {
        match action {
            Action::Probe => {
                probes += 1;
                action = session.advance(Event::Probed { ready: false });
            }
            Action::Wait(ms) => {
                waited_ms += ms;
                action = session.advance(Event::Waited);
            }
            other => {
                assert_eq!(other, Action::Abort);
                break;
            }
        }
        assert!(probes <= 20);
    }
    assert_eq!(probes, 20);
    assert_eq!(waited_ms, 1500 + 20 * 500);
    assert_eq!(session.phase(), Phase::Failed(StartError::ApiTimeout));
    assert_eq!(session.error(), Some(StartError::ApiTimeout));
    assert!(!session.is_alive());
    assert_eq!(session.stop(), Action::Idle);
}

#[test]
fn an_engine_that_refuses_to_start() {
    let mut session = fresh();
    assert_eq!(session.advance(Event::Launched { ok: false }), Action::Idle);
    assert_eq!(session.phase(), Phase::Failed(StartError::EngineStartFailed));
    assert_eq!(session.error(), Some(StartError::EngineStartFailed));
    assert!(!session.is_alive());
}

#[test]
fn an_event_out_of_place_changes_nothing() {
    let mut session = fresh();
    for event in [Event::Waited, Event::Probed { ready: true }, Event::Probed { ready: false }, Event::Exited] {
        assert_eq!(session.advance(event), Action::Idle);
        assert_eq!(session.phase(), Phase::Launching);
    }
    session.advance(Event::Launched { ok: true });
    for event in [Event::Launched { ok: true }, Event::Probed { ready: true }] {
        assert_eq!(session.advance(event), Action::Idle);
        assert_eq!(session.phase(), Phase::Settling);
    }
    let mut session = running();
    for event in [Event::Launched { ok: false }, Event::Waited, Event::Probed { ready: false }] {
        assert_eq!(session.advance(event), Action::Idle);
        assert!(session.is_alive());
    }
}

#[test]
fn a_dead_session_stays_dead() {
    let every = [
        Event::Launched { ok: true }, Event::Launched { ok: false }, Event::Waited,
        Event::Probed { ready: true }, Event::Probed { ready: false }, Event::Exited,
    ];
    let mut gone = running();
    assert_eq!(gone.advance(Event::Exited), Action::Idle);
    assert_eq!(gone.phase(), Phase::Stopped);
    let mut refused = fresh();
    refused.advance(Event::Launched { ok: false });
    let mut halted = running();
    assert_eq!(halted.stop(), Action::Abort);
    for mut session in [gone, refused, halted] {
        let phase = session.phase();
        for event in every {
            assert_eq!(session.advance(event), Action::Idle);
            assert_eq!(session.phase(), phase);
            assert!(!session.is_alive());
        }
        assert_eq!(session.stop(), Action::Idle);
        assert_eq!(session.phase(), phase);
    }
}

#[test]
fn stopping_tells_an_engine_that_is_up() {
    let mut session = fresh();
    assert_eq!(session.stop(), Action::Idle);
    assert_eq!(session.phase(), Phase::Stopped);
    let mut session = fresh();
    session.advance(Event::Launched { ok: true });
    assert_eq!(session.stop(), Action::Abort);
    assert_eq!(session.phase(), Phase::Stopped);
    let mut session = fresh();
    session.advance(Event::Launched { ok: true });
    session.advance(Event::Waited);
    assert_eq!(session.stop(), Action::Abort);
    let mut session = fresh();
    session.advance(Event::Launched { ok: true });
    session.advance(Event::Waited);
    session.advance(Event::Probed { ready: false });
    assert_eq!(session.phase(), Phase::Backoff { failed: 1 });
    assert_eq!(session.stop(), Action::Abort);
    let mut session = running();
    assert_eq!(session.stop(), Action::Abort);
    assert!(!session.is_alive());
    assert_eq!(session.stop(), Action::Idle);
}

#[test]
fn an_engine_that_exits_during_the_start() {
    let mut session = fresh();
    session.advance(Event::Launched { ok: true });
    assert_eq!(session.advance(Event::Exited), Action::Idle);
    assert_eq!(session.phase(), Phase::Stopped);
    assert_eq!(session.error(), None);
}

#[test]
fn peers_are_the_routes_with_an_address() {
    let session = running();
    let routes = vec![
        route("alice", Some(0x0a909001), &[]),
        route("relay", None, &["192.168.0.0/24"]),
        route("bob", Some(0x0a909002), &[]),
        route("", Some(0), &[]),
    ];
    assert_eq!(
        session.get_players(Some(routes)),
        vec![
            ("alice".to_string(), Ipv4Addr::new(10, 144, 144, 1)),
            ("bob".to_string(), Ipv4Addr::new(10, 144, 144, 2)),
            ("".to_string(), Ipv4Addr::new(0, 0, 0, 0)),
        ]
    );
    assert!(session.get_players(Some(Vec::new())).is_empty());
}

#[test]
fn no_answer_and_no_session_give_no_peers() {
    let routes = vec![route("alice", Some(0x0a909001), &[])];
    assert!(running().get_players(None).is_empty());
    assert!(fresh().get_players(Some(routes.clone())).is_empty());
    let mut gone = running();
    gone.advance(Event::Exited);
    assert!(gone.get_players(Some(routes)).is_empty());
}

#[test]
fn a_refused_rule_takes_nothing_back_from_an_accepted_one() {
    let mut session = running();
    let rules = vec![rule(25565, Proto::TCP), rule(25565, Proto::UDP)];
    assert_eq!(session.pending_port_forwards(&rules), rules);
    assert!(!session.add_port_forward(&rules, &vec![true, false]));
    // The first rule is applied: only the second is still to be submitted.
    assert_eq!(session.pending_port_forwards(&rules), vec![rule(25565, Proto::UDP)]);
    assert!(session.add_port_forward(&rules, &vec![true]));
    assert!(session.pending_port_forwards(&rules).is_empty());
    assert!(session.add_port_forward(&rules, &Vec::new()));
}

#[test]
fn a_rule_is_submitted_once() {
    let mut session = running();
    let twice = vec![rule(1, Proto::TCP), rule(2, Proto::TCP), rule(1, Proto::TCP), rule(1, Proto::UDP)];
    assert_eq!(
        session.pending_port_forwards(&twice),
        vec![rule(1, Proto::TCP), rule(2, Proto::TCP), rule(1, Proto::UDP)]
    );
    assert!(session.add_port_forward(&twice, &vec![true, true, true]));
    assert!(session.pending_port_forwards(&twice).is_empty());
    let more = vec![rule(2, Proto::TCP), rule(3, Proto::TCP)];
    assert_eq!(session.pending_port_forwards(&more), vec![rule(3, Proto::TCP)]);
}

#[test]
fn a_rule_without_an_answer_counts_as_refused() {
    let mut session = running();
    let rules = vec![rule(1, Proto::TCP), rule(2, Proto::TCP), rule(3, Proto::TCP)];
    assert!(!session.add_port_forward(&rules, &vec![false, true]));
    assert_eq!(session.pending_port_forwards(&rules), vec![rule(1, Proto::TCP), rule(3, Proto::TCP)]);
    assert!(!session.add_port_forward(&rules, &Vec::new()));
    assert_eq!(session.pending_port_forwards(&rules), vec![rule(1, Proto::TCP), rule(3, Proto::TCP)]);
    // Answers beyond the rules submitted are not looked at.
    assert!(session.add_port_forward(&rules, &vec![true, true, false, false]));
}

#[test]
fn a_session_that_is_not_alive_takes_no_rules() {
    let rules = vec![rule(1, Proto::TCP)];
    let mut session = fresh();
    assert!(session.pending_port_forwards(&rules).is_empty());
    assert!(!session.add_port_forward(&rules, &vec![true]));
    assert!(!session.add_port_forward(&Vec::new(), &Vec::new()));
    let mut session = running();
    assert!(session.add_port_forward(&Vec::new(), &Vec::new()));
    session.advance(Event::Exited);
    assert!(!session.add_port_forward(&rules, &vec![true]));
}

#[test]
fn the_platform_is_told_when_the_address_or_the_networks_change() {
    let mut session = running();
    let none: Vec<Route> = Vec::new();
    let first = session.reconcile("10.144.144.2/24", &none);
    assert_eq!(
        first,
        Some(EasyTierTunRequest { address: Ipv4Addr::new(10, 144, 144, 2), network_length: 24, cidrs: vec![] })
    );
    assert_eq!(session.reconcile("10.144.144.2/24", &none), None);
    let routes = vec![
        route("a", Some(1), &["192.168.0.0/24", "172.16.0.0/12"]),
        route("b", None, &[]),
        route("c", None, &["10.0.0.0/8"]),
    ];
    let second = session.reconcile("10.144.144.2/24", &routes).unwrap();
    assert_eq!(second.cidrs, vec!["192.168.0.0/24", "172.16.0.0/12", "10.0.0.0/8"]);
    assert_eq!(session.reconcile("10.144.144.2/24", &routes), None);
    let third = session.reconcile("10.144.144.3/24", &routes).unwrap();
    assert_eq!((third.address, third.network_length), (Ipv4Addr::new(10, 144, 144, 3), 24));
    let fourth = session.reconcile("10.144.144.3/16", &routes).unwrap();
    assert_eq!(fourth.network_length, 16);
    let swapped = vec![routes[2].clone(), routes[0].clone()];
    let fifth = session.reconcile("10.144.144.3/16", &swapped).unwrap();
    assert_eq!(fifth.cidrs, vec!["10.0.0.0/8", "192.168.0.0/24", "172.16.0.0/12"]);
}

#[test]
fn an_address_without_a_length_is_a_host() {
    let mut session = running();
    let request = session.reconcile("10.144.144.7", &Vec::new()).unwrap();
    assert_eq!((request.address, request.network_length), (Ipv4Addr::new(10, 144, 144, 7), 32));
    let request = session.reconcile("0.0.0.0/0", &Vec::new()).unwrap();
    assert_eq!((request.address, request.network_length), (Ipv4Addr::new(0, 0, 0, 0), 0));
}

#[test]
fn without_an_address_the_platform_is_not_told() {
    let mut session = running();
    let routes = vec![route("a", Some(1), &["192.168.0.0/24"])];
    for text in ["", "not an address", "10.144.144.2/33", "10.144.144/24", "::1/64", "10.144.144.2/"] {
        assert_eq!(session.reconcile(text, &routes), None, "{:?}", text);
    }
    // The look is remembered all the same: the address is new afterwards.
    assert!(session.reconcile("10.144.144.2/24", &routes).is_some());
    assert_eq!(session.reconcile("", &routes), None);
    assert!(session.reconcile("10.144.144.2/24", &routes).is_some());
}

#[test]
fn a_session_that_is_not_alive_looks_at_nothing() {
    let mut session = fresh();
    assert_eq!(session.reconcile("10.144.144.2/24", &Vec::new()), None);
    let mut session = running();
    assert!(session.reconcile("10.144.144.2/24", &Vec::new()).is_some());
    session.advance(Event::Exited);
    assert_eq!(session.reconcile("10.144.144.9/24", &Vec::new()), None);
}
