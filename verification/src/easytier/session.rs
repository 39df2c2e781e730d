//! One network session: its start, its life, and what is asked of it.
//!
//! The engine itself is driven from outside. A session here is the part that
//! decides: it is told what happened (the engine was launched, a wait is over,
//! a probe of the control interface came back) and answers with what to do
//! next. A session is alive from the moment a probe succeeds until the engine
//! is reported gone or the session is stopped, and once dead it stays dead.

use vstd::prelude::*;
use crate::easytier::argument::{all_supported, Argument, PortForward};
use crate::easytier::config::{configuration, texts, Settings};
use crate::easytier::document::{document, render, toml_text, written, ConfigError};
use crate::net::{ipv4_of_bits, Ipv4Addr};

verus! {

/// How long the engine is left alone after its launch, in milliseconds.
pub const GRACE_MS: u64 = 1500;

/// How long to wait after a probe that failed, in milliseconds.
pub const BACKOFF_MS: u64 = 500;

/// How many probes may fail before the start is given up.
pub const MAX_PROBES: u8 = 20;

/// How long to wait between two looks at the running engine, in milliseconds.
pub const POLL_MS: u64 = 100;

/// Why a session did not start.
#[derive(Clone, Copy, Debug, PartialEq, Eq, Structural)]
pub enum StartError {
    /// The configuration could not be written.
    NotSerializable,
    /// The engine refused to start.
    EngineStartFailed,
    /// The engine started, but its control interface never answered.
    ApiTimeout,
}

/// Where a session stands.
#[derive(Clone, Copy, Debug, PartialEq, Eq, Structural)]
pub enum Phase {
    /// The configuration is written; the engine is to be launched with it.
    Launching,
    /// The engine was launched and is left alone for the grace period.
    Settling,
    /// A probe is out; `failed` probes failed before it.
    Probing { failed: u8 },
    /// The wait after the probe that failed as number `failed`.
    Backoff { failed: u8 },
    /// The control interface answered: the session is alive.
    Running,
    /// The session never came to life.
    Failed(StartError),
    /// The session was alive, or on its way, and is over.
    Stopped,
}

/// What a session is told.
#[derive(Clone, Copy, Debug, PartialEq, Eq, Structural)]
pub enum Event {
    /// The engine was asked to start, and accepted or refused.
    Launched { ok: bool },
    /// The wait that was asked for is over.
    Waited,
    /// The control interface was probed, and answered or not.
    Probed { ready: bool },
    /// The engine reports that it no longer runs.
    Exited,
}

/// What a session asks for.
#[derive(Clone, Copy, Debug, PartialEq, Eq, Structural)]
pub enum Action {
    /// Nothing.
    Idle,
    /// Wait this many milliseconds, then report `Waited`.
    Wait(u64),
    /// Probe the control interface, then report `Probed`.
    Probe,
    /// The session is alive: start watching the engine.
    Watch,
    /// Tell the engine to stop.
    Abort,
}

/// Whether a session in this phase is over for good.
pub open spec fn is_dead(phase: Phase) -> bool {
    phase is Failed || phase is Stopped
}

/// Whether the engine has been launched and not yet told to stop.
pub open spec fn engine_up(phase: Phase) -> bool {
    phase is Settling || phase is Probing || phase is Backoff || phase is Running
}

/// Whether the counters of a phase are within the probe budget.
pub open spec fn phase_in_budget(phase: Phase) -> bool {
    match phase {
        Phase::Probing { failed } => failed < MAX_PROBES,
        Phase::Backoff { failed } => 1 <= failed <= MAX_PROBES,
        _ => true,
    }
}

/// The phase after an event, and what the session asks for then.
///
/// An event that does not fit the phase changes nothing and asks for nothing.
pub open spec fn step(phase: Phase, event: Event) -> (Phase, Action) {
    match (phase, event) {
        (Phase::Launching, Event::Launched { ok }) => if ok {
            (Phase::Settling, Action::Wait(GRACE_MS))
        } else {
            (Phase::Failed(StartError::EngineStartFailed), Action::Idle)
        },
        (Phase::Settling, Event::Waited) => (Phase::Probing { failed: 0 }, Action::Probe),
        (Phase::Probing { failed }, Event::Probed { ready }) => if ready {
            (Phase::Running, Action::Watch)
        } else {
            (Phase::Backoff { failed: (failed + 1) as u8 }, Action::Wait(BACKOFF_MS))
        },
        (Phase::Backoff { failed }, Event::Waited) => if failed < MAX_PROBES {
            (Phase::Probing { failed }, Action::Probe)
        } else {
            (Phase::Failed(StartError::ApiTimeout), Action::Abort)
        },
        (Phase::Settling, Event::Exited) => (Phase::Stopped, Action::Idle),
        (Phase::Probing { .. }, Event::Exited) => (Phase::Stopped, Action::Idle),
        (Phase::Backoff { .. }, Event::Exited) => (Phase::Stopped, Action::Idle),
        (Phase::Running, Event::Exited) => (Phase::Stopped, Action::Idle),
        _ => (phase, Action::Idle),
    }
}

/// The phase after a request to stop, and what the session asks for then:
/// an engine that is up is told to stop.
pub open spec fn halt(phase: Phase) -> (Phase, Action) {
    if engine_up(phase) {
        (Phase::Stopped, Action::Abort)
    } else if is_dead(phase) {
        (phase, Action::Idle)
    } else {
        (Phase::Stopped, Action::Idle)
    }
}

/// A dead session stays dead, whatever it is told.
pub proof fn lemma_dead_is_final(phase: Phase, event: Event)
    requires
        is_dead(phase),
    ensures
        step(phase, event) == (phase, Action::Idle),
        halt(phase) == (phase, Action::Idle),
{
}

/// A session comes alive by one event only: the answer of a probe.
pub proof fn lemma_alive_by_probe(phase: Phase, event: Event)
    requires
        !(phase is Running),
        step(phase, event).0 is Running,
    ensures
        phase is Probing,
        event == (Event::Probed { ready: true }),
        step(phase, event).1 == Action::Watch,
{
}

/// A start is given up for want of an answer exactly when the wait after the
/// last probe of the budget is over, and the engine is then told to stop.
pub proof fn lemma_timeout(phase: Phase, event: Event)
    requires
        phase_in_budget(phase),
        !is_dead(phase),
    ensures
        step(phase, event).0 == Phase::Failed(StartError::ApiTimeout) <==> phase == (Phase::Backoff {
            failed: MAX_PROBES,
        }) && event == Event::Waited,
        step(phase, event).0 == Phase::Failed(StartError::ApiTimeout) ==> step(phase, event).1
            == Action::Abort,
        phase_in_budget(step(phase, event).0),
{
}

/// One route that the engine knows: a peer, its virtual address if it has
/// one, and the networks it stands for.
#[derive(Clone, Debug, PartialEq, Eq)]
pub struct Route {
    pub hostname: String,
    pub ipv4_addr: Option<u32>,
    pub proxy_cidrs: Vec<String>,
}

/// The peers among the routes: each route with an address, in order, as name
/// and address.
pub open spec fn players(routes: Seq<Route>) -> Seq<(Seq<char>, Ipv4Addr)>
    decreases routes.len(),
{
    if routes.len() == 0 {
        Seq::empty()
    } else {
        let rest = players(routes.drop_last());
        match routes.last().ipv4_addr {
            Some(bits) => rest.push((routes.last().hostname@, ipv4_of_bits(bits))),
            None => rest,
        }
    }
}

/// The networks of all routes, route by route.
pub open spec fn all_cidrs(routes: Seq<Route>) -> Seq<Seq<char>>
    decreases routes.len(),
{
    if routes.len() == 0 {
        Seq::empty()
    } else {
        all_cidrs(routes.drop_last()) + texts(routes.last().proxy_cidrs@)
    }
}

/// The names and addresses of a list of peers.
pub open spec fn player_views(items: Seq<(String, Ipv4Addr)>) -> Seq<(Seq<char>, Ipv4Addr)> {
    items.map_values(|p: (String, Ipv4Addr)| (p.0@, p.1))
}

/// Whether a rule is among `rules`.
pub open spec fn has_rule(rules: Seq<PortForward>, rule: PortForward) -> bool {
    exists|i: int| 0 <= i < rules.len() && #[trigger] rules[i] == rule
}

/// Whether no rule occurs twice in `rules`.
pub open spec fn distinct_rules(rules: Seq<PortForward>) -> bool {
    forall|i: int, j: int|
        0 <= i < j < rules.len() ==> #[trigger] rules[i] != #[trigger] rules[j]
}

/// The rules of `requested` that are still to be submitted: each rule that is
/// not applied yet, once, in the order of its first occurrence.
pub open spec fn pending(applied: Seq<PortForward>, requested: Seq<PortForward>) -> Seq<PortForward>
    decreases requested.len(),
{
    if requested.len() == 0 {
        Seq::empty()
    } else {
        let rest = pending(applied, requested.drop_last());
        if has_rule(applied, requested.last()) || has_rule(rest, requested.last()) {
            rest
        } else {
            rest.push(requested.last())
        }
    }
}

/// Whether the engine accepted the rule submitted as number `i`. A rule
/// without an answer counts as refused.
pub open spec fn accepted_at(accepted: Seq<bool>, i: int) -> bool {
    0 <= i < accepted.len() && accepted[i]
}

/// The first `n` of the submitted rules that the engine accepted.
pub open spec fn accepted_rules(submitted: Seq<PortForward>, accepted: Seq<bool>, n: int) -> Seq<
    PortForward,
>
    decreases n,
{
    if n <= 0 {
        Seq::empty()
    } else {
        let rest = accepted_rules(submitted, accepted, n - 1);
        if accepted_at(accepted, n - 1) {
            rest.push(submitted[n - 1])
        } else {
            rest
        }
    }
}

/// The first `n` of the submitted rules that the engine refused.
pub open spec fn refused_rules(submitted: Seq<PortForward>, accepted: Seq<bool>, n: int) -> Seq<
    PortForward,
>
    decreases n,
{
    if n <= 0 {
        Seq::empty()
    } else {
        let rest = refused_rules(submitted, accepted, n - 1);
        if accepted_at(accepted, n - 1) {
            rest
        } else {
            rest.push(submitted[n - 1])
        }
    }
}

/// Whether the engine accepted every one of the first `n` rules submitted.
pub open spec fn all_accepted(accepted: Seq<bool>, n: int) -> bool {
    forall|i: int| 0 <= i < n ==> accepted_at(accepted, i)
}

/// What the platform is asked to set up: the virtual address, the length of
/// its network, and the networks to route into the tunnel.
#[derive(Debug, PartialEq, Eq)]
pub struct EasyTierTunRequest {
    pub address: Ipv4Addr,
    pub network_length: u8,
    pub cidrs: Vec<String>,
}

/// A session, as mathematics.
pub struct Session {
    pub phase: Phase,
    pub config: Seq<char>,
    pub applied: Seq<PortForward>,
    pub address: Option<(Ipv4Addr, u8)>,
    pub cidrs: Seq<Seq<char>>,
}

/// A session that was just made: ready to be launched with the text of its
/// configuration, or failed for want of one.
pub open spec fn fresh(config: Option<Seq<char>>) -> Session {
    Session {
        phase: match config {
            Some(_) => Phase::Launching,
            None => Phase::Failed(StartError::NotSerializable),
        },
        config: match config {
            Some(text) => text,
            None => Seq::empty(),
        },
        applied: Seq::empty(),
        address: None,
        cidrs: Seq::empty(),
    }
}

/// The address and network length that `cidr` reads from a text such as
/// `10.144.144.2/24`, the address as its 32 bits.
pub uninterp spec fn inet_of(text: Seq<char>) -> Option<(u32, u8)>;

/// `str::parse::<cidr::Ipv4Inet>`, with the address taken out by `address`
/// and the length by `network_length`. `None` where `cidr` rejects the text.
/// `cidr` admits no IPv4 network length above 32.
#[verifier::external_body]
fn parse_inet(text: &str) -> (out: Option<(u32, u8)>)
    ensures
        out == inet_of(text@),
        out matches Some(pair) ==> pair.1 <= 32,
{
    match text.parse::<cidr::Ipv4Inet>() {
        Ok(inet) => Some((u32::from(inet.address()), inet.network_length())),
        Err(_) => None,
    }
}

/// The address that a running session takes from the text the engine gives
/// for this node.
pub open spec fn node_address(text: Seq<char>) -> Option<(Ipv4Addr, u8)> {
    match inet_of(text) {
        Some(pair) => Some((ipv4_of_bits(pair.0), pair.1)),
        None => None,
    }
}

/// The maker of sessions.
pub struct EasytierFactory();

/// One network session.
pub struct Easytier {
    phase: Phase,
    config: String,
    applied: Vec<PortForward>,
    address: Option<(Ipv4Addr, u8)>,
    cidrs: Vec<String>,
}

impl View for Easytier {
    type V = Session;

    closed spec fn view(&self) -> Session {
        Session {
            phase: self.phase,
            config: self.config@,
            applied: self.applied@,
            address: self.address,
            cidrs: texts(self.cidrs@),
        }
    }
}

/// The maker of sessions.
pub fn create() -> (factory: EasytierFactory) {
    EasytierFactory()
}

impl EasytierFactory {
    /// A session for the given intents.
    ///
    /// It is ready to be launched exactly where `toml` writes the document of
    /// these intents, and its configuration is that text. Where `toml`
    /// refuses, the session has failed before it began. Either way nothing is
    /// applied and nothing was seen yet.
    pub fn create(&self, args: Vec<Argument>) -> (session: Easytier)
        requires
            all_supported(args@),
        ensures
            session@ == fresh(toml_text(document(configuration(args@)))),
    {
        let settings = Settings::build(&args);
        Easytier::with_config(render(&settings))
    }
}

impl Easytier {
    #[verifier::type_invariant]
    spec fn well_formed(self) -> bool {
        phase_in_budget(self.phase) && distinct_rules(self.applied@)
    }

    /// A session with the given configuration; one that has failed where
    /// there is none.
    pub fn with_config(rendered: Result<String, ConfigError>) -> (session: Easytier)
        ensures
            session@ == fresh(written(rendered)),
    {
        let session = match rendered {
            Ok(text) => Easytier {
                phase: Phase::Launching,
                config: text,
                applied: Vec::new(),
                address: None,
                cidrs: Vec::new(),
            },
            Err(_) => Easytier {
                phase: Phase::Failed(StartError::NotSerializable),
                config: String::new(),
                applied: Vec::new(),
                address: None,
                cidrs: Vec::new(),
            },
        };
        assert(session@.cidrs =~= Seq::<Seq<char>>::empty());
        assert(session@.applied =~= Seq::<PortForward>::empty());
        session
    }

    /// Where the session stands.
    pub fn phase(&self) -> (phase: Phase)
        ensures
            phase == self@.phase,
            phase_in_budget(phase),
    {
        proof {
            use_type_invariant(self);
        }
        self.phase
    }

    /// The configuration to launch the engine with.
    pub fn config(&self) -> (config: &String)
        ensures
            config@ == self@.config,
    {
        &self.config
    }

    /// Why the session did not start, if it did not.
    pub fn error(&self) -> (error: Option<StartError>)
        ensures
            error == match self@.phase {
                Phase::Failed(e) => Some(e),
                _ => None,
            },
    {
        match self.phase {
            Phase::Failed(e) => Some(e),
            _ => None,
        }
    }

    /// Whether the session is alive.
    pub fn is_alive(&self) -> (alive: bool)
        ensures
            alive == (self@.phase is Running),
    {
        match self.phase {
            Phase::Running => true,
            _ => false,
        }
    }

    /// Takes an event, and says what to do next.
    pub fn advance(&mut self, event: Event) -> (action: Action)
        ensures
            (final(self)@.phase, action) == step(old(self)@.phase, event),
            final(self)@ == (Session { phase: final(self)@.phase, ..old(self)@ }),
    {
        proof {
            use_type_invariant(&*self);
        }
        let (next, action) = match (self.phase, event) {
            (Phase::Launching, Event::Launched { ok }) => {
                if ok {
                    (Phase::Settling, Action::Wait(GRACE_MS))
                } else {
                    (Phase::Failed(StartError::EngineStartFailed), Action::Idle)
                }
            },
            (Phase::Settling, Event::Waited) => (Phase::Probing { failed: 0 }, Action::Probe),
            (Phase::Probing { failed }, Event::Probed { ready }) => {
                if ready {
                    (Phase::Running, Action::Watch)
                } else {
                    (Phase::Backoff { failed: failed + 1 }, Action::Wait(BACKOFF_MS))
                }
            },
            (Phase::Backoff { failed }, Event::Waited) => {
                if failed < MAX_PROBES {
                    (Phase::Probing { failed }, Action::Probe)
                } else {
                    (Phase::Failed(StartError::ApiTimeout), Action::Abort)
                }
            },
            (Phase::Settling, Event::Exited) => (Phase::Stopped, Action::Idle),
            (Phase::Probing { .. }, Event::Exited) => (Phase::Stopped, Action::Idle),
            (Phase::Backoff { .. }, Event::Exited) => (Phase::Stopped, Action::Idle),
            (Phase::Running, Event::Exited) => (Phase::Stopped, Action::Idle),
            (phase, _) => (phase, Action::Idle),
        };
        self.phase = next;
        action
    }

    /// Ends the session, and says whether the engine is to be told.
    pub fn stop(&mut self) -> (action: Action)
        ensures
            (final(self)@.phase, action) == halt(old(self)@.phase),
            final(self)@ == (Session { phase: final(self)@.phase, ..old(self)@ }),
            is_dead(final(self)@.phase),
    {
        proof {
            use_type_invariant(&*self);
        }
        match self.phase {
            Phase::Settling | Phase::Probing { .. } | Phase::Backoff { .. } | Phase::Running => {
                self.phase = Phase::Stopped;
                Action::Abort
            },
            Phase::Failed(_) | Phase::Stopped => Action::Idle,
            Phase::Launching => {
                self.phase = Phase::Stopped;
                Action::Idle
            },
        }
    }

    /// The peers of a live session, from the routes the engine gave. Empty
    /// where the session is not alive or the engine gave no answer.
    pub fn get_players(&self, reply: Option<Vec<Route>>) -> (out: Vec<(String, Ipv4Addr)>)
        ensures
            player_views(out@) == match reply {
                Some(routes) => if self@.phase is Running {
                    players(routes@)
                } else {
                    Seq::empty()
                },
                None => Seq::empty(),
            },
    {
        let mut out: Vec<(String, Ipv4Addr)> = Vec::new();
        assert(player_views(out@) =~= Seq::empty());
        if !self.is_alive() {
            return out;
        }
        let routes = match reply {
            Some(routes) => routes,
            None => {
                return out;
            },
        };
        let mut i: usize = 0;
        assert(routes@.take(0) =~= Seq::<Route>::empty());
        while i < routes.len()
            invariant
                i <= routes.len(),
                player_views(out@) == players(routes@.take(i as int)),
            decreases routes.len() - i,
        {
            let ghost before = out@;
            assert(routes@.take(i + 1).drop_last() =~= routes@.take(i as int));
            assert(routes@.take(i + 1).last() == routes@[i as int]);
            match routes[i].ipv4_addr {
                Some(bits) => {
                    out.push((routes[i].hostname.clone(), Ipv4Addr::from_bits(bits)));
                    assert(player_views(out@) =~= player_views(before).push(
                        (routes@[i as int].hostname@, ipv4_of_bits(bits)),
                    ));
                },
                None => {},
            }
            i += 1;
        }
        assert(routes@.take(i as int) =~= routes@);
        out
    }

    /// Whether `rule` is among the rules already applied.
    fn is_applied(&self, rule: &PortForward) -> (out: bool)
        ensures
            out == has_rule(self@.applied, *rule),
    {
        contains_rule(&self.applied, rule)
    }

    /// The rules of `forwards` that are to be submitted to the engine: none
    /// for a session that is not alive, else each rule that is not applied
    /// yet, once.
    pub fn pending_port_forwards(&self, forwards: &Vec<PortForward>) -> (out: Vec<PortForward>)
        ensures
            out@ == if self@.phase is Running {
                pending(self@.applied, forwards@)
            } else {
                Seq::empty()
            },
    {
        let mut out: Vec<PortForward> = Vec::new();
        if !self.is_alive() {
            return out;
        }
        let mut i: usize = 0;
        assert(forwards@.take(0) =~= Seq::<PortForward>::empty());
        while i < forwards.len()
            invariant
                i <= forwards.len(),
                out@ == pending(self@.applied, forwards@.take(i as int)),
            decreases forwards.len() - i,
        {
            assert(forwards@.take(i + 1).drop_last() =~= forwards@.take(i as int));
            assert(forwards@.take(i + 1).last() == forwards@[i as int]);
            let known = self.is_applied(&forwards[i]) || contains_rule(&out, &forwards[i]);
            if !known {
                out.push(forwards[i]);
            }
            i += 1;
        }
        assert(forwards@.take(i as int) =~= forwards@);
        out
    }

    /// Records what the engine answered to the rules that were submitted for
    /// `forwards`, one answer per rule of `pending_port_forwards`.
    ///
    /// Each accepted rule counts as applied from now on; a refused one does
    /// not, and takes nothing back from the others. True if the session is
    /// alive and no rule was refused.
    pub fn add_port_forward(&mut self, forwards: &Vec<PortForward>, accepted: &Vec<bool>) -> (ok:
        bool)
        ensures
            final(self)@ == (Session { applied: final(self)@.applied, ..old(self)@ }),
            old(self)@.phase is Running ==> final(self)@.applied == old(self)@.applied
                + accepted_rules(
                pending(old(self)@.applied, forwards@),
                accepted@,
                pending(old(self)@.applied, forwards@).len() as int,
            ),
            !(old(self)@.phase is Running) ==> final(self)@.applied == old(self)@.applied,
            ok == (old(self)@.phase is Running && all_accepted(
                accepted@,
                pending(old(self)@.applied, forwards@).len() as int,
            )),
    {
        proof {
            use_type_invariant(&*self);
        }
        if !self.is_alive() {
            return false;
        }
        let submitted = self.pending_port_forwards(forwards);
        proof {
            lemma_pending_fresh(self@.applied, forwards@);
        }
        let mut applied: Vec<PortForward> = Vec::new();
        std::mem::swap(&mut self.applied, &mut applied);
        let mut ok = true;
        let mut i: usize = 0;
        while i < submitted.len()
            invariant
                i <= submitted.len(),
                submitted@ == pending(old(self)@.applied, forwards@),
                distinct_rules(old(self).applied@ + submitted@),
                applied@ == old(self).applied@ + accepted_rules(submitted@, accepted@, i as int),
                ok == all_accepted(accepted@, i as int),
                distinct_rules(applied@),
            decreases submitted.len() - i,
        {
            let ghost before = applied@;
            if i < accepted.len() && accepted[i] {
                proof {
                    lemma_accepted_within(submitted@, accepted@, i as int);
                    let whole = old(self).applied@ + submitted@;
                    let base = old(self).applied@.len() as int;
                    assert(whole[base + i] == submitted@[i as int]);
                    assert forall|k: int| 0 <= k < before.len() implies #[trigger] before[k] != submitted@[i as int] by {
                        if k < base {
                            assert(whole[k] == before[k]);
                        } else {
                            let idx = choose|idx: int|
                                0 <= idx < i && accepted_rules(submitted@, accepted@, i as int)[k
                                    - base] == submitted@[idx];
                            assert(whole[base + idx] == submitted@[idx]);
                        }
                    }
                }
                applied.push(submitted[i]);
                assert(applied@ =~= old(self).applied@ + accepted_rules(
                    submitted@,
                    accepted@,
                    i + 1,
                ));
            } else {
                ok = false;
                assert(!accepted_at(accepted@, i as int));
            }
            i += 1;
        }
        self.applied = applied;
        ok
    }

    /// Takes a look at the running engine: the text of this node's address
    /// and the routes it knows.
    ///
    /// Where the address or the networks differ from the look before and
    /// there is an address, the platform is to be told, and the request says
    /// what. The look is remembered either way. A session that is not alive
    /// remembers nothing and asks for nothing.
    pub fn reconcile(&mut self, address: &str, routes: &Vec<Route>) -> (out: Option<
        EasyTierTunRequest,
    >)
        ensures
            !(old(self)@.phase is Running) ==> out is None && final(self)@ == old(self)@,
            old(self)@.phase is Running ==> final(self)@ == (Session {
                address: node_address(address@),
                cidrs: all_cidrs(routes@),
                ..old(self)@
            }),
            old(self)@.phase is Running ==> (out is Some <==> node_address(address@) is Some && (
            old(self)@.address != node_address(address@) || old(self)@.cidrs != all_cidrs(
                routes@,
            ))),
            out matches Some(request) ==> node_address(address@) == Some(
                (request.address, request.network_length),
            ) && texts(request.cidrs@) == all_cidrs(routes@),
    {
        proof {
            use_type_invariant(&*self);
        }
        if !self.is_alive() {
            return None;
        }
        let seen = match parse_inet(address) {
            Some(pair) => Some((Ipv4Addr::from_bits(pair.0), pair.1)),
            None => None,
        };
        let cidrs = collect_cidrs(routes);
        let same_address = match (&self.address, &seen) {
            (Some(x), Some(y)) => x.0 == y.0 && x.1 == y.1,
            (None, None) => true,
            _ => false,
        };
        let same_cidrs = same_texts(&self.cidrs, &cidrs);
        let out = match seen {
            Some(pair) => {
                if !same_address || !same_cidrs {
                    let copy = copy_texts(&cidrs);
                    Some(EasyTierTunRequest { address: pair.0, network_length: pair.1, cidrs: copy })
                } else {
                    None
                }
            },
            None => None,
        };
        self.address = seen;
        self.cidrs = cidrs;
        out
    }
}

/// Whether `rule` is among `rules`.
fn contains_rule(rules: &Vec<PortForward>, rule: &PortForward) -> (out: bool)
    ensures
        out == has_rule(rules@, *rule),
{
    let mut i: usize = 0;
    while i < rules.len()
        invariant
            i <= rules.len(),
            forall|j: int| 0 <= j < i ==> #[trigger] rules@[j] != *rule,
        decreases rules.len() - i,
    {
        if rules[i].same(rule) {
            return true;
        }
        i += 1;
    }
    false
}

/// The networks of all routes, route by route.
fn collect_cidrs(routes: &Vec<Route>) -> (out: Vec<String>)
    ensures
        texts(out@) == all_cidrs(routes@),
{
    let mut out: Vec<String> = Vec::new();
    let mut i: usize = 0;
    assert(routes@.take(0) =~= Seq::<Route>::empty());
    assert(texts(out@) =~= Seq::<Seq<char>>::empty());
    while i < routes.len()
        invariant
            i <= routes.len(),
            texts(out@) == all_cidrs(routes@.take(i as int)),
        decreases routes.len() - i,
    {
        let ghost before = out@;
        let items = &routes[i].proxy_cidrs;
        let mut j: usize = 0;
        while j < items.len()
            invariant
                j <= items.len(),
                texts(out@) == texts(before) + texts(items@.take(j as int)),
            decreases items.len() - j,
        {
            let ghost prior = out@;
            out.push(items[j].clone());
            assert(items@.take(j + 1) =~= items@.take(j as int).push(items@[j as int]));
            assert(texts(out@) =~= texts(prior).push(items@[j as int]@));
            assert(texts(items@.take(j + 1)) =~= texts(items@.take(j as int)).push(
                items@[j as int]@,
            ));
            j += 1;
        }
        assert(items@.take(j as int) =~= items@);
        assert(routes@.take(i + 1).drop_last() =~= routes@.take(i as int));
        assert(routes@.take(i + 1).last() == routes@[i as int]);
        i += 1;
    }
    assert(routes@.take(i as int) =~= routes@);
    out
}

/// Whether two lists hold the same texts in the same order.
fn same_texts(x: &Vec<String>, y: &Vec<String>) -> (out: bool)
    ensures
        out == (texts(x@) == texts(y@)),
{
    if x.len() != y.len() {
        assert(texts(x@).len() != texts(y@).len());
        return false;
    }
    let mut i: usize = 0;
    while i < x.len()
        invariant
            i <= x.len(),
            x.len() == y.len(),
            forall|j: int| 0 <= j < i ==> #[trigger] x@[j]@ == y@[j]@,
        decreases x.len() - i,
    {
        if x[i] != y[i] {
            assert(texts(x@)[i as int] == x@[i as int]@);
            assert(texts(y@)[i as int] == y@[i as int]@);
            return false;
        }
        i += 1;
    }
    assert(texts(x@) =~= texts(y@));
    true
}

/// A list with the same texts.
fn copy_texts(items: &Vec<String>) -> (out: Vec<String>)
    ensures
        texts(out@) == texts(items@),
{
    let mut out: Vec<String> = Vec::new();
    let mut i: usize = 0;
    while i < items.len()
        invariant
            i <= items.len(),
            out@.len() == i,
            forall|j: int| 0 <= j < i ==> #[trigger] out@[j]@ == items@[j]@,
        decreases items.len() - i,
    {
        out.push(items[i].clone());
        i += 1;
    }
    assert(texts(out@) =~= texts(items@));
    out
}

/// The rules still to be submitted are new to the applied ones and to each
/// other.
pub proof fn lemma_pending_fresh(applied: Seq<PortForward>, requested: Seq<PortForward>)
    requires
        distinct_rules(applied),
    ensures
        distinct_rules(applied + pending(applied, requested)),
        forall|i: int|
            0 <= i < pending(applied, requested).len() ==> has_rule(
                requested,
                #[trigger] pending(applied, requested)[i],
            ),
    decreases requested.len(),
{
    if requested.len() > 0 {
        let rest = pending(applied, requested.drop_last());
        let last = requested.last();
        lemma_pending_fresh(applied, requested.drop_last());
        let whole = applied + pending(applied, requested);
        assert forall|i: int, j: int| 0 <= i < j < whole.len() implies #[trigger] whole[i] != #[trigger] whole[j] by {
            let prior = applied + rest;
            if j < prior.len() {
                assert(whole[i] == prior[i] && whole[j] == prior[j]);
            } else {
                assert(whole[j] == last);
                assert(whole[i] == prior[i]);
                if i < applied.len() {
                    assert(applied[i] == whole[i]);
                } else {
                    assert(rest[i - applied.len()] == whole[i]);
                }
            }
        }
        assert forall|i: int| 0 <= i < pending(applied, requested).len() implies has_rule(
            requested,
            #[trigger] pending(applied, requested)[i],
        ) by {
            let rule = pending(applied, requested)[i];
            if i < rest.len() {
                assert(rest[i] == rule);
                let k = choose|k: int|
                    0 <= k < requested.drop_last().len() && #[trigger] requested.drop_last()[k] == rule;
                assert(requested[k] == requested.drop_last()[k]);
            } else {
                assert(requested[requested.len() - 1] == rule);
            }
        }
    }
}

/// What is still to be submitted for a shorter request is the beginning of
/// what is still to be submitted for the whole.
proof fn lemma_pending_prefix(applied: Seq<PortForward>, requested: Seq<PortForward>, k: int)
    requires
        0 <= k <= requested.len(),
    ensures
        pending(applied, requested.take(k)).is_prefix_of(pending(applied, requested)),
    decreases requested.len() - k,
{
    if k < requested.len() {
        lemma_pending_prefix(applied, requested, k + 1);
        assert(requested.take(k + 1).drop_last() =~= requested.take(k));
    } else {
        assert(requested.take(k) =~= requested);
    }
}

/// A rule is among the accepted ones exactly if it was submitted at a place
/// where the engine accepted, and among the refused ones exactly if it was
/// submitted at a place where it did not.
proof fn lemma_answered(submitted: Seq<PortForward>, accepted: Seq<bool>, n: int, rule: PortForward)
    requires
        0 <= n <= submitted.len(),
    ensures
        has_rule(accepted_rules(submitted, accepted, n), rule) <==> exists|i: int|
            0 <= i < n && #[trigger] submitted[i] == rule && accepted_at(accepted, i),
        has_rule(refused_rules(submitted, accepted, n), rule) <==> exists|i: int|
            0 <= i < n && #[trigger] submitted[i] == rule && !accepted_at(accepted, i),
    decreases n,
{
    if n > 0 {
        lemma_answered(submitted, accepted, n - 1, rule);
        let took = accepted_rules(submitted, accepted, n);
        let took_before = accepted_rules(submitted, accepted, n - 1);
        let left = refused_rules(submitted, accepted, n);
        let left_before = refused_rules(submitted, accepted, n - 1);
        if has_rule(took, rule) {
            let t = choose|t: int| 0 <= t < took.len() && #[trigger] took[t] == rule;
            if t < took_before.len() {
                assert(took_before[t] == rule);
            } else {
                assert(submitted[n - 1] == rule);
            }
        }
        if has_rule(left, rule) {
            let t = choose|t: int| 0 <= t < left.len() && #[trigger] left[t] == rule;
            if t < left_before.len() {
                assert(left_before[t] == rule);
            } else {
                assert(submitted[n - 1] == rule);
            }
        }
        if exists|i: int| 0 <= i < n && #[trigger] submitted[i] == rule && accepted_at(accepted, i) {
            let i = choose|i: int|
                0 <= i < n && #[trigger] submitted[i] == rule && accepted_at(accepted, i);
            if i < n - 1 {
                let t = choose|t: int| 0 <= t < took_before.len() && #[trigger] took_before[t] == rule;
                assert(took[t] == rule);
            } else {
                assert(took[took.len() - 1] == rule);
            }
        }
        if exists|i: int| 0 <= i < n && #[trigger] submitted[i] == rule && !accepted_at(accepted, i) {
            let i = choose|i: int|
                0 <= i < n && #[trigger] submitted[i] == rule && !accepted_at(accepted, i);
            if i < n - 1 {
                let t = choose|t: int| 0 <= t < left_before.len() && #[trigger] left_before[t] == rule;
                assert(left[t] == rule);
            } else {
                assert(left[left.len() - 1] == rule);
            }
        }
    }
}

/// The statement of `lemma_retry`, for the first `k` rules of the request.
proof fn lemma_retry_upto(
    applied: Seq<PortForward>,
    requested: Seq<PortForward>,
    accepted: Seq<bool>,
    k: int,
)
    requires
        distinct_rules(applied),
        0 <= k <= requested.len(),
    ensures
        pending(
            applied + accepted_rules(
                pending(applied, requested),
                accepted,
                pending(applied, requested).len() as int,
            ),
            requested.take(k),
        ) == refused_rules(
            pending(applied, requested),
            accepted,
            pending(applied, requested.take(k)).len() as int,
        ),
    decreases k,
{
    let whole = pending(applied, requested);
    let took = accepted_rules(whole, accepted, whole.len() as int);
    let after = applied + took;
    if k > 0 {
        let rule = requested[k - 1];
        let shorter = requested.take(k - 1);
        let first = pending(applied, shorter);
        let now = pending(applied, requested.take(k));
        lemma_retry_upto(applied, requested, accepted, k - 1);
        lemma_pending_prefix(applied, requested, k - 1);
        lemma_pending_prefix(applied, requested, k);
        lemma_pending_fresh(applied, requested);
        assert(requested.take(k).drop_last() =~= shorter);
        assert(requested.take(k).last() == rule);
        let rest = refused_rules(whole, accepted, first.len() as int);
        assert(pending(after, shorter) == rest);
        lemma_answered(whole, accepted, whole.len() as int, rule);
        lemma_answered(whole, accepted, first.len() as int, rule);
        if has_rule(applied, rule) {
            let i = choose|i: int| 0 <= i < applied.len() && #[trigger] applied[i] == rule;
            assert(after[i] == rule);
            assert(has_rule(after, rule));
        } else if has_rule(first, rule) {
            let i = choose|i: int| 0 <= i < first.len() && #[trigger] first[i] == rule;
            assert(whole[i] == first[i]);
            if accepted_at(accepted, i) {
                let t = choose|t: int| 0 <= t < took.len() && #[trigger] took[t] == rule;
                assert(after[applied.len() + t] == rule);
                assert(has_rule(after, rule));
            } else {
                assert(has_rule(rest, rule));
            }
        } else {
            let place = first.len() as int;
            assert(now == first.push(rule));
            assert(whole[place] == now[place]);
            if has_rule(rest, rule) {
                let i = choose|i: int|
                    0 <= i < place && #[trigger] whole[i] == rule && !accepted_at(accepted, i);
                assert(first[i] == whole[i]);
                assert(false);
            }
            if has_rule(after, rule) {
                let t = choose|t: int| 0 <= t < after.len() && #[trigger] after[t] == rule;
                if t < applied.len() {
                    assert(applied[t] == rule);
                    assert(false);
                }
                assert(took[t - applied.len()] == rule);
                assert(has_rule(took, rule));
                let i = choose|i: int|
                    0 <= i < whole.len() && #[trigger] whole[i] == rule && accepted_at(accepted, i);
                let both = applied + whole;
                assert(both[applied.len() + i] == whole[i]);
                assert(both[applied.len() + place] == whole[place]);
                assert(i == place);
            }
            if accepted_at(accepted, place) {
                let t = choose|t: int| 0 <= t < took.len() && #[trigger] took[t] == rule;
                assert(after[applied.len() + t] == rule);
                assert(has_rule(after, rule));
            }
        }
    } else {
        assert(requested.take(0) =~= Seq::<PortForward>::empty());
    }
}

/// After the answers of the engine are recorded, what is still to be
/// submitted for the same request is exactly what the engine refused, in the
/// same order: a caller who asks again retries the rules that failed and no
/// other.
pub proof fn lemma_retry(applied: Seq<PortForward>, requested: Seq<PortForward>, accepted: Seq<bool>)
    requires
        distinct_rules(applied),
    ensures
        pending(
            applied + accepted_rules(
                pending(applied, requested),
                accepted,
                pending(applied, requested).len() as int,
            ),
            requested,
        ) == refused_rules(
            pending(applied, requested),
            accepted,
            pending(applied, requested).len() as int,
        ),
        all_accepted(accepted, pending(applied, requested).len() as int) ==> refused_rules(
            pending(applied, requested),
            accepted,
            pending(applied, requested).len() as int,
        ) == Seq::<PortForward>::empty(),
{
    lemma_retry_upto(applied, requested, accepted, requested.len() as int);
    assert(requested.take(requested.len() as int) =~= requested);
    if all_accepted(accepted, pending(applied, requested).len() as int) {
        lemma_none_refused(
            pending(applied, requested),
            accepted,
            pending(applied, requested).len() as int,
        );
    }
}

/// Where every rule was accepted, none was refused.
proof fn lemma_none_refused(submitted: Seq<PortForward>, accepted: Seq<bool>, n: int)
    requires
        all_accepted(accepted, n),
    ensures
        refused_rules(submitted, accepted, n) == Seq::<PortForward>::empty(),
    decreases n,
{
    if n > 0 {
        assert(accepted_at(accepted, n - 1));
        lemma_none_refused(submitted, accepted, n - 1);
    }
}

/// Each accepted rule was submitted, and before the place up to which the
/// answers were read.
proof fn lemma_accepted_within(submitted: Seq<PortForward>, accepted: Seq<bool>, n: int)
    requires
        0 <= n <= submitted.len(),
    ensures
        accepted_rules(submitted, accepted, n).len() <= n,
        forall|k: int|
            0 <= k < accepted_rules(submitted, accepted, n).len() ==> exists|idx: int|
                0 <= idx < n && #[trigger] accepted_rules(submitted, accepted, n)[k]
                    == submitted[idx],
    decreases n,
{
    if n > 0 {
        lemma_accepted_within(submitted, accepted, n - 1);
        let rest = accepted_rules(submitted, accepted, n - 1);
        let now = accepted_rules(submitted, accepted, n);
        assert forall|k: int| 0 <= k < now.len() implies exists|idx: int|
            0 <= idx < n && #[trigger] now[k] == submitted[idx] by {
            if k < rest.len() {
                assert(now[k] == rest[k]);
                let idx = choose|idx: int| 0 <= idx < n - 1 && rest[k] == submitted[idx];
                assert(0 <= idx < n && now[k] == submitted[idx]);
            } else {
                assert(now[k] == submitted[n - 1]);
            }
        }
    }
}

} // verus!
