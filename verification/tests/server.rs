use terracotta::code::Room;
use terracotta::easytier::argument::Argument;
use terracotta::easytier::session::{create, Action, Easytier, Event, Phase, StartError};
use terracotta::fakeserver::Round;
use terracotta::payload::write_advert;
use terracotta::plan::{guest_arguments, host_arguments};
use terracotta::server::{
    AppState, Commit, Label, Report, Server, Tick, Ticket, DEBUG_TIMEOUT_MS, TICK_MS, TIMEOUT_MS,
};

fn started(args: Vec<Argument>) -> Easytier {
    let mut session = create().create(args);
    session.advance(Event::Launched { ok: true });
    session.advance(Event::Waited);
    session.advance(Event::Probed { ready: true });
    assert!(session.is_alive());
    session
}

fn failed(args: Vec<Argument>) -> Easytier {
    let mut session = create().create(args);
    session.advance(Event::Launched { ok: false });
    session
}

fn advert(code: &str) -> Vec<u8> {
    write_advert(&Room::from(code).unwrap(), 25565)
}

/// A server that scans and has heard `AB12`, with the ticket to host it.
fn about_to_host() -> (Server, Ticket) {
    let mut server = Server::new(0, TIMEOUT_MS);
    assert!(server.set_state_scanning(0));
    assert!(server.receive(&advert("AB12")));
    match server.tick(200) {
        Tick::Found { ticket } => (server, ticket),
        _ => panic!("no room to host"),
    }
}

fn hosting() -> Server {
    let (mut server, ticket) = about_to_host();
    let session = started(host_arguments(&ticket.room));
    assert!(matches!(server.set_state_hosting(ticket, session, 400), Commit::Entered { .. }));
    assert_eq!(server.label(), Label::Hosting);
    server
}

fn guesting() -> Server {
    let mut server = Server::new(0, TIMEOUT_MS);
    let ticket = server.plan_guesting("AB12").unwrap();
    let session = started(guest_arguments(&ticket.room));
    assert!(matches!(server.set_state_guesting(ticket, session, 400), Commit::Entered { .. }));
    assert_eq!(server.label(), Label::Guesting);
    server
}

fn plain(index: u64, state: Label) -> Report {
    Report { index, state, room: None, url: None }
}

#[test]
fn timing_of_the_application() {
    assert_eq!(TIMEOUT_MS, 10000);
    assert_eq!(DEBUG_TIMEOUT_MS, 3000);
    assert_eq!(TICK_MS, 200);
}

#[test]
fn names_of_the_states() {
    assert_eq!(Label::Waiting.name(), "waiting");
    assert_eq!(Label::Scanning.name(), "scanning");
    assert_eq!(Label::Hosting.name(), "hosting");
    assert_eq!(Label::Guesting.name(), "guesting");
}

#[test]
fn the_application_begins_waiting_at_index_zero() {
    let mut server = Server::new(1000, TIMEOUT_MS);
    assert_eq!(server.index(), 0);
    assert_eq!(server.label(), Label::Waiting);
    assert_eq!(server.get_state(1000), plain(0, Label::Waiting));
}

#[test]
fn from_waiting_to_scanning_on_request() {
    let mut server = Server::new(0, TIMEOUT_MS);
    assert!(server.set_state_scanning(10));
    assert_eq!(server.get_state(20), plain(1, Label::Scanning));
    // A second request finds the application scanning already.
    assert!(!server.set_state_scanning(30));
    assert_eq!(server.get_state(40), plain(1, Label::Scanning));
}

#[test]
fn scanning_is_not_started_from_a_session() {
    let mut server = hosting();
    let index = server.index();
    assert!(!server.set_state_scanning(500));
    assert_eq!((server.index(), server.label()), (index, Label::Hosting));
    let mut server = guesting();
    let index = server.index();
    assert!(!server.set_state_scanning(500));
    assert_eq!((server.index(), server.label()), (index, Label::Guesting));
}

#[test]
fn a_room_that_is_heard_is_hosted() {
    let mut server = Server::new(0, TIMEOUT_MS);
    server.set_state_scanning(0);
    assert!(matches!(server.tick(200), Tick::Nothing));
    assert!(!server.receive(&b"[MOTD]A Minecraft Server[/MOTD][AD]25565[/AD]".to_vec()));
    assert!(matches!(server.tick(400), Tick::Nothing));
    assert!(server.receive(&advert("AB12")));
    assert!(server.receive(&advert("AB13")));
    assert!(!server.receive(&advert("AB12")));
    let ticket = match server.tick(600) {
        Tick::Found { ticket } => ticket,
        _ => panic!("no room to host"),
    };
    assert_eq!(ticket.index, 1);
    assert_eq!(ticket.room.code().as_str(), "AB12");
    // Nothing has happened yet: the session is started first.
    assert_eq!(server.get_state(600), plain(1, Label::Scanning));
    let session = started(host_arguments(&ticket.room));
    match server.set_state_hosting(ticket, session, 2500) {
        Commit::Entered { release } => {
            assert_eq!(release.engine, Action::Idle);
            match release.left {
                AppState::Scanning { scanner, .. } => assert_eq!(scanner.get_ports(), vec![22102, 22103]),
                _ => panic!("the listener was not handed over"),
            }
        }
        _ => panic!("not entered"),
    }
    assert_eq!(
        server.get_state(2600),
        Report { index: 2, state: Label::Hosting, room: Some("AB12".to_string()), url: None }
    );
}

#[test]
fn datagrams_are_heard_while_scanning_only() {
    let mut server = Server::new(0, TIMEOUT_MS);
    assert!(!server.receive(&advert("AB12")));
    server.set_state_scanning(0);
    assert!(server.receive(&advert("AB12")));
    let mut server = hosting();
    assert!(!server.receive(&advert("AB13")));
    let mut server = guesting();
    assert!(!server.receive(&advert("AB13")));
}

#[test]
fn hosting_needs_a_live_session() {
    let (mut server, ticket) = about_to_host();
    let session = failed(host_arguments(&ticket.room));
    match server.set_state_hosting(ticket, session, 2500) {
        Commit::Failed { release, session, engine } => {
            assert!(matches!(release.left, AppState::Scanning { .. }));
            assert_eq!(session.error(), Some(StartError::EngineStartFailed));
            assert_eq!(engine, Action::Idle);
        }
        _ => panic!("a dead session was taken"),
    }
    assert_eq!(server.get_state(2600), plain(2, Label::Waiting));
}

#[test]
fn a_session_that_is_still_starting_is_halted_and_the_engine_told() {
    let (mut server, ticket) = about_to_host();
    let mut session = create().create(host_arguments(&ticket.room));
    session.advance(Event::Launched { ok: true });
    match server.set_state_hosting(ticket, session, 2500) {
        Commit::Failed { session, engine, .. } => {
            assert_eq!(session.phase(), Phase::Stopped);
            assert_eq!(engine, Action::Abort);
        }
        _ => panic!("a session that is not alive was taken"),
    }
    assert_eq!(server.label(), Label::Waiting);
}

#[test]
fn a_stale_ticket_is_refused() {
    let (mut server, ticket) = about_to_host();
    // The user resets and scans again while the session is being started.
    server.set_state_ide(300);
    server.set_state_scanning(400);
    server.receive(&advert("AB12"));
    let index = server.index();
    let session = started(host_arguments(&ticket.room));
    match server.set_state_hosting(ticket, session, 2500) {
        Commit::Refused { session, engine } => {
            assert_eq!(session.phase(), Phase::Stopped);
            assert_eq!(engine, Action::Abort);
        }
        _ => panic!("a stale ticket was taken"),
    }
    assert_eq!((server.index(), server.label()), (index, Label::Scanning));
    // A ticket that is drawn now is good.
    let ticket = match server.tick(2600) {
        Tick::Found { ticket } => ticket,
        _ => panic!("no room to host"),
    };
    let session = started(host_arguments(&ticket.room));
    assert!(matches!(server.set_state_hosting(ticket, session, 2700), Commit::Entered { .. }));
    assert_eq!(server.index(), index + 1);
}

#[test]
fn only_the_room_heard_first_is_hosted() {
    let mut server = Server::new(0, TIMEOUT_MS);
    server.set_state_scanning(0);
    server.receive(&advert("AB12"));
    server.receive(&advert("AB13"));
    let second = Ticket { index: server.index(), room: Room::from("AB13").unwrap() };
    let session = started(host_arguments(&second.room));
    assert!(matches!(server.set_state_hosting(second, session, 100), Commit::Refused { .. }));
    let unheard = Ticket { index: server.index(), room: Room::from("A000").unwrap() };
    let session = started(host_arguments(&unheard.room));
    assert!(matches!(server.set_state_hosting(unheard, session, 100), Commit::Refused { .. }));
    assert_eq!(server.get_state(100), plain(1, Label::Scanning));
}

#[test]
fn hosting_is_committed_from_scanning_only() {
    let mut server = Server::new(0, TIMEOUT_MS);
    let ticket = Ticket { index: 0, room: Room::from("AB12").unwrap() };
    let session = started(host_arguments(&ticket.room));
    assert!(matches!(server.set_state_hosting(ticket, session, 100), Commit::Refused { .. }));
    assert_eq!(server.get_state(100), plain(0, Label::Waiting));
    let mut server = Server::new(0, TIMEOUT_MS);
    server.set_state_scanning(0);
    let ticket = Ticket { index: 1, room: Room::from("AB12").unwrap() };
    let session = started(host_arguments(&ticket.room));
    assert!(matches!(server.set_state_hosting(ticket, session, 100), Commit::Refused { .. }));
}

#[test]
fn a_guest_joins_by_code_and_advertises_the_room() {
    let mut server = Server::new(0, TIMEOUT_MS);
    let ticket = server.plan_guesting("AB12").unwrap();
    assert_eq!((ticket.index, ticket.room.port()), (0, 22102));
    assert_eq!(server.get_state(10), plain(0, Label::Waiting));
    let session = started(guest_arguments(&ticket.room));
    assert!(matches!(server.set_state_guesting(ticket, session, 2500), Commit::Entered { .. }));
    assert_eq!(
        server.get_state(2600),
        Report { index: 1, state: Label::Guesting, room: None, url: Some("127.0.0.1:25565".to_string()) }
    );
    match server.set_state_ide(3000).left {
        AppState::Guesting { entry, room, .. } => {
            assert_eq!(entry.port, 25565);
            assert_eq!(entry.message(), b"[MOTD]Terracotta:AB12[/MOTD][AD]25565[/AD]".to_vec());
            assert_eq!(room.code().as_str(), "AB12");
        }
        _ => panic!("the guest state was not handed over"),
    }
}

#[test]
fn a_guest_may_join_while_scanning() {
    let mut server = Server::new(0, TIMEOUT_MS);
    server.set_state_scanning(0);
    server.receive(&advert("AB13"));
    let ticket = server.plan_guesting("AB12").unwrap();
    let session = started(guest_arguments(&ticket.room));
    match server.set_state_guesting(ticket, session, 2500) {
        Commit::Entered { release } => assert!(matches!(release.left, AppState::Scanning { .. })),
        _ => panic!("not entered"),
    }
    assert_eq!(server.get_state(2600).state, Label::Guesting);
    assert_eq!(server.index(), 2);
}

#[test]
fn a_ticket_for_a_room_that_cannot_be_joined_is_refused() {
    let mut server = Server::new(0, TIMEOUT_MS);
    let forged = Ticket { index: 0, room: Room::create(0) };
    let session = started(guest_arguments(&forged.room));
    match server.set_state_guesting(forged, session, 100) {
        Commit::Refused { session, engine } => {
            assert_eq!(session.phase(), Phase::Stopped);
            assert_eq!(engine, Action::Abort);
        }
        _ => panic!("a room that cannot be joined was entered"),
    }
    assert_eq!(server.get_state(100), plain(0, Label::Waiting));
    let good = Ticket { index: 0, room: Room::create(1) };
    let session = started(guest_arguments(&good.room));
    assert!(matches!(server.set_state_guesting(good, session, 100), Commit::Entered { .. }));
}

#[test]
fn a_bad_code_draws_no_ticket() {
    let server = Server::new(0, TIMEOUT_MS);
    for code in ["", "AB1", "ab12", "AB12 ", "9TZ4", "ZZZZ", "AB12AB12"] {
        assert!(server.plan_guesting(code).is_none(), "{:?}", code);
    }
    assert_eq!(server.index(), 0);
}

#[test]
fn no_ticket_is_drawn_from_a_session() {
    assert!(hosting().plan_guesting("AB13").is_none());
    assert!(guesting().plan_guesting("AB13").is_none());
}

#[test]
fn a_guest_needs_a_live_session() {
    let mut server = Server::new(0, TIMEOUT_MS);
    let ticket = server.plan_guesting("AB12").unwrap();
    let session = failed(guest_arguments(&ticket.room));
    assert!(matches!(server.set_state_guesting(ticket, session, 100), Commit::Failed { .. }));
    // The failure shows as a transition: waiting again, at a new index.
    assert_eq!(server.get_state(100), plain(1, Label::Waiting));
    let mut server = Server::new(0, TIMEOUT_MS);
    server.set_state_scanning(0);
    let ticket = server.plan_guesting("AB12").unwrap();
    let session = failed(guest_arguments(&ticket.room));
    assert!(matches!(server.set_state_guesting(ticket, session, 100), Commit::Failed { .. }));
    assert_eq!(server.get_state(100), plain(2, Label::Waiting));
}

#[test]
fn a_guest_with_a_stale_ticket_is_refused() {
    let mut server = Server::new(0, TIMEOUT_MS);
    let ticket = server.plan_guesting("AB12").unwrap();
    server.set_state_scanning(50);
    let session = started(guest_arguments(&ticket.room));
    assert!(matches!(server.set_state_guesting(ticket, session, 100), Commit::Refused { .. }));
    assert_eq!(server.get_state(100), plain(1, Label::Scanning));
    let mut server = hosting();
    let index = server.index();
    let ticket = Ticket { index, room: Room::from("AB13").unwrap() };
    let session = started(guest_arguments(&ticket.room));
    assert!(matches!(server.set_state_guesting(ticket, session, 100), Commit::Refused { .. }));
    assert_eq!((server.index(), server.label()), (index, Label::Hosting));
}

#[test]
fn a_host_whose_session_dies_waits_after_the_next_tick() {
    let mut server = hosting();
    let index = server.index();
    assert!(matches!(server.tick(600), Tick::Nothing));
    assert_eq!(server.tell(Event::Probed { ready: false }), Action::Idle);
    assert!(matches!(server.tick(800), Tick::Nothing));
    assert_eq!((server.index(), server.label()), (index, Label::Hosting));
    assert_eq!(server.tell(Event::Exited), Action::Idle);
    // Until the tick the state reads as before.
    assert_eq!((server.index(), server.label()), (index, Label::Hosting));
    match server.tick(1000) {
        Tick::Lost { release } => {
            // The engine is gone already: there is nobody to tell.
            assert_eq!(release.engine, Action::Idle);
            match release.left {
                AppState::Hosting { easytier, room } => {
                    assert_eq!(easytier.phase(), Phase::Stopped);
                    assert_eq!(room.code().as_str(), "AB12");
                }
                _ => panic!("the host state was not handed over"),
            }
        }
        _ => panic!("the death of the session went unnoticed"),
    }
    assert_eq!(server.get_state(1000), plain(index + 1, Label::Waiting));
    assert!(matches!(server.tick(1200), Tick::Nothing));
}

#[test]
fn a_guest_whose_session_dies_waits_after_the_next_tick() {
    let mut server = guesting();
    let index = server.index();
    assert!(matches!(server.tick(600), Tick::Nothing));
    server.tell(Event::Exited);
    match server.tick(800) {
        Tick::Lost { release } => match release.left {
            AppState::Guesting { easytier, entry, .. } => {
                assert!(!easytier.is_alive());
                assert_eq!(entry.round(), Round::Quit);
            }
            _ => panic!("the guest state was not handed over"),
        },
        _ => panic!("the death of the session went unnoticed"),
    }
    assert_eq!(server.get_state(800), plain(index + 1, Label::Waiting));
}

#[test]
fn telling_without_a_session_does_nothing() {
    let mut server = Server::new(0, TIMEOUT_MS);
    assert_eq!(server.tell(Event::Exited), Action::Idle);
    assert_eq!(server.get_state(0), plain(0, Label::Waiting));
    server.set_state_scanning(0);
    assert_eq!(server.tell(Event::Exited), Action::Idle);
    assert_eq!(server.get_state(0), plain(1, Label::Scanning));
}

#[test]
fn a_reset_hands_over_what_was_owned() {
    let mut server = hosting();
    let index = server.index();
    let release = server.set_state_ide(1000);
    assert_eq!(release.engine, Action::Abort);
    match release.left {
        AppState::Hosting { easytier, .. } => assert_eq!(easytier.phase(), Phase::Stopped),
        _ => panic!("the host state was not handed over"),
    }
    assert_eq!(server.get_state(1000), plain(index + 1, Label::Waiting));
    let mut server = guesting();
    let release = server.set_state_ide(1000);
    assert_eq!(release.engine, Action::Abort);
    match release.left {
        AppState::Guesting { easytier, entry, .. } => {
            assert_eq!(easytier.phase(), Phase::Stopped);
            assert_eq!(entry.round(), Round::Quit);
        }
        _ => panic!("the guest state was not handed over"),
    }
    assert_eq!(server.label(), Label::Waiting);
}

#[test]
fn a_reset_counts_even_where_the_application_waits() {
    let mut server = Server::new(0, TIMEOUT_MS);
    let release = server.set_state_ide(10);
    assert!(matches!(release.left, AppState::Waiting { begin: 0 }));
    assert_eq!(release.engine, Action::Idle);
    assert_eq!(server.get_state(10), plain(1, Label::Waiting));
    server.set_state_scanning(20);
    let release = server.set_state_ide(30);
    assert!(matches!(release.left, AppState::Scanning { begin: 20, .. }));
    assert_eq!(server.get_state(30), plain(3, Label::Waiting));
}

#[test]
fn waiting_idle_for_the_timeout_restarts_the_timer_and_keeps_the_index() {
    let mut server = Server::new(1000, TIMEOUT_MS);
    assert!(matches!(server.tick(1000), Tick::Nothing));
    assert!(matches!(server.tick(10999), Tick::Nothing));
    assert!(matches!(server.tick(11000), Tick::IdleExpired));
    assert_eq!(server.index(), 0);
    assert_eq!(server.label(), Label::Waiting);
    // The timer runs anew from the tick that found it over.
    assert!(matches!(server.tick(20999), Tick::Nothing));
    assert!(matches!(server.tick(21000), Tick::IdleExpired));
    assert_eq!(server.index(), 0);
}

#[test]
fn scanning_idle_for_the_timeout_goes_back_to_waiting() {
    let mut server = Server::new(0, DEBUG_TIMEOUT_MS);
    server.set_state_scanning(1000);
    assert!(matches!(server.tick(3999), Tick::Nothing));
    match server.tick(4000) {
        Tick::TimedOut { release } => {
            assert!(matches!(release.left, AppState::Scanning { begin: 1000, .. }));
            assert_eq!(release.engine, Action::Idle);
        }
        _ => panic!("the timeout went unnoticed"),
    }
    assert_eq!(server.index(), 2);
    assert_eq!(server.label(), Label::Waiting);
    assert!(matches!(server.tick(6999), Tick::Nothing));
    assert!(matches!(server.tick(7000), Tick::IdleExpired));
    assert_eq!(server.index(), 2);
}

#[test]
fn the_timeout_comes_before_a_room_that_was_heard() {
    let mut server = Server::new(0, DEBUG_TIMEOUT_MS);
    server.set_state_scanning(0);
    server.receive(&advert("AB12"));
    assert!(matches!(server.tick(3000), Tick::TimedOut { .. }));
    assert_eq!(server.label(), Label::Waiting);
}

#[test]
fn reading_the_state_counts_as_activity() {
    let mut server = Server::new(0, TIMEOUT_MS);
    server.get_state(9000);
    assert!(matches!(server.tick(10000), Tick::Nothing));
    assert!(matches!(server.tick(18999), Tick::Nothing));
    server.access_state(18999);
    assert!(matches!(server.tick(28998), Tick::Nothing));
    assert!(matches!(server.tick(28999), Tick::IdleExpired));
    server.set_state_scanning(30000);
    server.get_state(39999);
    assert!(matches!(server.tick(40001), Tick::Nothing));
    assert!(matches!(server.tick(49999), Tick::TimedOut { .. }));
}

#[test]
fn a_session_does_not_time_out() {
    let mut server = hosting();
    assert!(matches!(server.tick(u64::MAX), Tick::Nothing));
    assert_eq!(server.label(), Label::Hosting);
    let mut server = guesting();
    assert!(matches!(server.tick(u64::MAX), Tick::Nothing));
    assert_eq!(server.label(), Label::Guesting);
}

#[test]
fn a_clock_that_reads_earlier_is_no_idle_time() {
    let mut server = Server::new(5000, TIMEOUT_MS);
    assert!(matches!(server.tick(0), Tick::Nothing));
    assert!(matches!(server.tick(4999), Tick::Nothing));
    let mut server = Server::new(5000, 0);
    assert!(matches!(server.tick(0), Tick::IdleExpired));
}

#[test]
fn the_index_rises_with_every_transition_and_with_nothing_else() {
    let mut server = Server::new(0, TIMEOUT_MS);
    let mut seen = vec![(server.index(), server.label())];
    let mut note = |server: &Server, moved: bool| {
        let (index, label) = *seen.last().unwrap();
        if moved {
            assert_eq!(server.index(), index + 1);
        } else {
            assert_eq!((server.index(), server.label()), (index, label));
        }
        seen.push((server.index(), server.label()));
    };
    server.get_state(1);
    note(&server, false);
    server.tick(2);
    note(&server, false);
    server.set_state_scanning(3);
    note(&server, true);
    server.receive(&advert("AB12"));
    note(&server, false);
    let ticket = match server.tick(4) {
        Tick::Found { ticket } => ticket,
        _ => panic!("no room to host"),
    };
    note(&server, false);
    server.set_state_hosting(ticket, started(Vec::new()), 5);
    note(&server, true);
    server.tell(Event::Exited);
    note(&server, false);
    server.tick(6);
    note(&server, true);
    server.set_state_ide(7);
    note(&server, true);
    let ticket = server.plan_guesting("AB12").unwrap();
    note(&server, false);
    server.set_state_guesting(ticket, started(Vec::new()), 8);
    note(&server, true);
    server.set_state_scanning(9);
    note(&server, false);
    server.set_state_ide(10);
    note(&server, true);
    server.tick(10 + TIMEOUT_MS);
    note(&server, false);
    assert_eq!(server.index(), 6);
}
