//! The client <-> fallback-AP state machine.

use vstd::prelude::*;
use vstd::string::*;

use crate::config::{Paths, SuperviseTuning};
use crate::log;
use crate::text;
use crate::wifi::net;

verus! {

#[derive(Debug, Clone, Copy, PartialEq, Eq, Structural)]
pub enum State {
    /// Attempting to associate with a configured network.
    TryClient,
    /// Associated, with an address. Being watched.
    ClientUp,
    /// Serving the recovery AP, periodically re-trying the client network.
    FallbackAp,
}

#[derive(Debug, Clone, Copy, PartialEq, Eq, Structural)]
pub enum Event {
    /// A client attempt succeeded and we have an address.
    ClientConnected,
    /// Every client attempt in this cycle failed.
    ClientFailed,
    /// There is no `client.conf` at all, so there is nothing to retry with.
    ClientConfigMissing,
    /// An established client connection lost its address.
    LinkLost,
    /// The fallback AP has been up long enough to be worth interrupting for a client retry.
    ApRetryDue,
    /// hostapd or dnsmasq exited on its own.
    ApDied,
    /// The retry interval elapsed but there is nothing to retry with, so the AP keeps serving.
    ApHeld,
}

/// The state that an event leads to, whatever the state it came in.
pub open spec fn state_after(event: Event) -> State {
    match event {
        Event::ClientConnected => State::ClientUp,
        // Both a failed attempt and missing credentials raise the AP. The difference between
        // them is how long we wait before trying again, which the driver decides, not the table.
        Event::ClientFailed | Event::ClientConfigMissing => State::FallbackAp,
        // A dropped connection retries the client immediately rather than falling straight back
        // to the AP: the usual cause is a brief outage, and the client path is the one that
        // makes the robot reachable on the real network.
        Event::LinkLost => State::TryClient,
        Event::ApRetryDue => State::TryClient,
        // Restart the AP by re-entering the state; the driver notices it has no live session.
        // `ApHeld` re-enters the same way but leaves the running session alone.
        Event::ApDied | Event::ApHeld => State::FallbackAp,
    }
}

pub fn next_state(current: State, event: Event) -> (r: State)
    ensures
        r == state_after(event),
{
    match (current, event) {
        (_, Event::ClientConnected) => State::ClientUp,
        (_, Event::ClientFailed) | (_, Event::ClientConfigMissing) => State::FallbackAp,
        (_, Event::LinkLost) => State::TryClient,
        (_, Event::ApRetryDue) => State::TryClient,
        (_, Event::ApDied) | (_, Event::ApHeld) => State::FallbackAp,
    }
}

impl State {
    pub open spec fn text(self) -> Seq<char> {
        match self {
            State::TryClient => "TryClient"@,
            State::ClientUp => "ClientUp"@,
            State::FallbackAp => "FallbackAp"@,
        }
    }

    pub fn name(self) -> (r: &'static str)
        ensures
            r@ == self.text(),
    {
        match self {
            State::TryClient => "TryClient",
            State::ClientUp => "ClientUp",
            State::FallbackAp => "FallbackAp",
        }
    }

    pub open spec fn hook_text(self) -> Seq<char> {
        match self {
            State::TryClient => "try-client"@,
            State::ClientUp => "client-up"@,
            State::FallbackAp => "fallback-ap"@,
        }
    }

    /// The name that is passed to a hook for this state.
    pub fn hook_name(self) -> (r: &'static str)
        ensures
            r@ == self.hook_text(),
    {
        match self {
            State::TryClient => "try-client",
            State::ClientUp => "client-up",
            State::FallbackAp => "fallback-ap",
        }
    }
}

impl Event {
    pub open spec fn text(self) -> Seq<char> {
        match self {
            Event::ClientConnected => "ClientConnected"@,
            Event::ClientFailed => "ClientFailed"@,
            Event::ClientConfigMissing => "ClientConfigMissing"@,
            Event::LinkLost => "LinkLost"@,
            Event::ApRetryDue => "ApRetryDue"@,
            Event::ApDied => "ApDied"@,
            Event::ApHeld => "ApHeld"@,
        }
    }

    pub fn name(self) -> (r: &'static str)
        ensures
            r@ == self.text(),
    {
        match self {
            Event::ClientConnected => "ClientConnected",
            Event::ClientFailed => "ClientFailed",
            Event::ClientConfigMissing => "ClientConfigMissing",
            Event::LinkLost => "LinkLost",
            Event::ApRetryDue => "ApRetryDue",
            Event::ApDied => "ApDied",
            Event::ApHeld => "ApHeld",
        }
    }
}

/// What the supervisor waits to be told.
#[derive(Debug, Clone, Copy, PartialEq, Eq, Structural)]
pub enum Question {
    /// Does the interface exist?
    Interface,
    /// Bring the interface up as a station: does it connect?
    Connect,
    /// Does the interface still have an address?
    Address,
    /// Start the fallback AP, with the identity the robot has by now: does it start?
    StartAp,
    /// Is the fallback AP still healthy, how long has it been served, and are there credentials
    /// to retry with?
    PollAp,
    /// Nothing: the supervisor has failed.
    Nothing,
}

/// What the supervisor is told.
#[derive(Debug, Clone, PartialEq, Eq)]
pub enum Answer {
    Interface { exists: bool },
    Connected { address: String },
    NoClientConfig { path: String },
    NotConnected { err: String },
    Address { held: bool },
    ApStarted,
    ApNotStarted { err: String },
    Ap { healthy: bool, served_secs: u64, has_client_config: bool },
}

/// Whether `answer` answers `question`.
pub open spec fn answers(question: Question, answer: Answer) -> bool {
    match answer {
        Answer::Interface { .. } => question == Question::Interface,
        Answer::Connected { .. } | Answer::NoClientConfig { .. } | Answer::NotConnected { .. } => {
            question == Question::Connect
        },
        Answer::Address { .. } => question == Question::Address,
        Answer::ApStarted | Answer::ApNotStarted { .. } => question == Question::StartAp,
        Answer::Ap { .. } => question == Question::PollAp,
    }
}

/// What an `Effect` holds.
#[verifier::ext_equal]
pub enum EffectView {
    Log { line: Seq<char> },
    Moved { from: State, to: State },
    Ready { state: State },
    StopClient,
    StopAp,
    StartTimer,
    Sleep { secs: u32 },
    Ask { question: Question },
    Fail { err: Seq<char> },
}

/// What the supervisor has done.
#[derive(Debug, Clone, PartialEq, Eq)]
pub enum Effect {
    Log { line: String },
    /// Tell the state hook that the state has changed.
    Moved { from: State, to: State },
    /// Tell systemd that the unit is ready.
    Ready { state: State },
    /// End the client connection: stop wpa_supplicant and take the address off.
    StopClient,
    /// End the fallback AP: stop its daemons and take the address off.
    StopAp,
    /// Start to measure how long the AP has been served.
    StartTimer,
    Sleep { secs: u32 },
    Ask { question: Question },
    /// Give up.
    Fail { err: String },
}

impl View for Effect {
    type V = EffectView;

    open spec fn view(&self) -> EffectView {
        match self {
            Effect::Log { line } => EffectView::Log { line: line@ },
            Effect::Moved { from, to } => EffectView::Moved { from: *from, to: *to },
            Effect::Ready { state } => EffectView::Ready { state: *state },
            Effect::StopClient => EffectView::StopClient,
            Effect::StopAp => EffectView::StopAp,
            Effect::StartTimer => EffectView::StartTimer,
            Effect::Sleep { secs } => EffectView::Sleep { secs: *secs },
            Effect::Ask { question } => EffectView::Ask { question: *question },
            Effect::Fail { err } => EffectView::Fail { err: err@ },
        }
    }
}

/// The contents of each effect of a list.
pub open spec fn effect_views(list: Seq<Effect>) -> Seq<EffectView> {
    list.map_values(|effect: Effect| effect@)
}

/// Where the supervisor stands.
#[verifier::ext_equal]
pub struct SupervisorView {
    pub interface: Seq<char>,
    pub tuning: SuperviseTuning,
    pub state: State,
    pub question: Question,
    /// The number of the client attempt that is being made.
    pub attempt: u32,
    /// Whether a client connection is held.
    pub client: bool,
    /// Whether the fallback AP is held.
    pub ap: bool,
    /// Whether systemd was told that the unit is ready.
    pub announced: bool,
}

/// Where the supervisor stands after a step, and what it has done in it.
#[verifier::ext_equal]
pub struct StepView {
    pub now: SupervisorView,
    pub effects: Seq<EffectView>,
}

impl StepView {
    pub open spec fn does(self, effect: EffectView) -> StepView {
        StepView { effects: self.effects.push(effect), ..self }
    }

    pub open spec fn logs(self, line: Seq<char>) -> StepView {
        self.does(EffectView::Log { line })
    }

    pub open spec fn asks(self, question: Question) -> StepView {
        StepView {
            now: SupervisorView { question, ..self.now },
            effects: self.effects.push(EffectView::Ask { question }),
        }
    }

    pub open spec fn fails(self, err: Seq<char>) -> StepView {
        StepView {
            now: SupervisorView { question: Question::Nothing, ..self.now },
            effects: self.effects.push(EffectView::Fail { err }),
        }
    }

    /// The client connection is ended, if one is held.
    pub open spec fn stops_client(self) -> StepView {
        if self.now.client {
            StepView {
                now: SupervisorView { client: false, ..self.now },
                effects: self.effects.push(EffectView::StopClient),
            }
        } else {
            self
        }
    }

    /// The fallback AP is ended, if it is held.
    pub open spec fn stops_ap(self) -> StepView {
        if self.now.ap {
            StepView {
                now: SupervisorView { ap: false, ..self.now },
                effects: self.effects.push(EffectView::StopAp),
            }
        } else {
            self
        }
    }

    /// The fallback AP is started if it is not held, and else served on.
    pub open spec fn serves_ap(self) -> StepView {
        let freed = self.stops_client();
        if freed.now.ap {
            freed.does(EffectView::StartTimer).polls_ap()
        } else {
            freed.asks(Question::StartAp)
        }
    }

    /// The fallback AP is looked at after a while.
    pub open spec fn polls_ap(self) -> StepView {
        self.does(EffectView::Sleep { secs: self.now.tuning.link_poll_sec }).asks(Question::PollAp)
    }

    /// The client connection is looked at after a while.
    pub open spec fn watches_client(self) -> StepView {
        self.does(EffectView::Sleep { secs: self.now.tuning.link_poll_sec }).asks(Question::Address)
    }

    /// The state changes, which is logged and told to the hook, and systemd learns of the first state in which the
    /// robot can be reached.
    pub open spec fn moves(self, event: Event) -> StepView {
        let next = state_after(event);
        let moved = StepView { now: SupervisorView { state: next, ..self.now }, ..self };
        let told = if next != self.now.state {
            moved.logs(
                log::info_line(
                    self.now.state.text() + " -> "@ + next.text() + " ("@ + event.text() + ")"@,
                ),
            ).does(EffectView::Moved { from: self.now.state, to: next })
        } else {
            moved
        };
        if !told.now.announced && next != State::TryClient {
            StepView {
                now: SupervisorView { announced: true, ..told.now },
                effects: told.effects.push(EffectView::Ready { state: next }),
            }
        } else {
            told
        }
    }

    /// What `event` leads to.
    #[verifier::opaque]
    pub open spec fn meets(self, event: Event) -> StepView {
        let moved = self.moves(event);
        match state_after(event) {
            State::TryClient => moved.tries_client(),
            State::ClientUp => moved.watches_client(),
            State::FallbackAp => moved.serves_ap(),
        }
    }

    /// The first client attempt is made. The radio cannot be an AP and a station at once, so the
    /// AP must be fully down before wpa_supplicant touches the interface.
    pub open spec fn tries_client(self) -> StepView {
        let freed = self.stops_ap();
        if freed.now.tuning.client_attempts == 0 {
            freed.moves(Event::ClientFailed).serves_ap()
        } else {
            StepView { now: SupervisorView { attempt: 1, ..freed.now }, ..freed }.asks(
                Question::Connect,
            )
        }
    }
}

impl SupervisorView {
    /// What the supervisor does on `answer`: nothing if that is not what it waits for.
    pub open spec fn on(self, answer: Answer) -> StepView {
        let start = StepView { now: self, effects: Seq::empty() };
        if !answers(self.question, answer) {
            start
        } else {
            match answer {
                Answer::Interface { exists } => if exists {
                    start.tries_client()
                } else {
                    start.fails(net::missing_interface(self.interface))
                },
                Answer::Connected { address } => {
                    let held = StepView { now: SupervisorView { client: true, ..self }, ..start };
                    held.logs(
                        log::info_line(
                            "connected on "@ + self.interface + " with address "@ + address@,
                        ),
                    ).meets(Event::ClientConnected)
                },
                Answer::NoClientConfig { path } => start.logs(
                    log::info_line(
                        path@
                            + " does not exist; no client network to join. Raising the fallback AP so the robot stays reachable."@,
                    ),
                ).meets(Event::ClientConfigMissing),
                Answer::NotConnected { err } => {
                    let failed = start.logs(
                        log::warn_line(
                            "client attempt "@ + text::decimal(self.attempt as nat) + "/"@
                                + text::decimal(self.tuning.client_attempts as nat) + " failed: "@
                                + err@,
                        ),
                    ).stops_client();
                    if self.attempt < self.tuning.client_attempts {
                        let again = failed.does(EffectView::Sleep { secs: self.tuning.retry_sec });
                        StepView {
                            now: SupervisorView { attempt: (self.attempt + 1) as u32, ..again.now },
                            ..again
                        }.asks(Question::Connect)
                    } else {
                        failed.meets(Event::ClientFailed)
                    }
                },
                Answer::Address { held } => if held {
                    start.watches_client()
                } else {
                    start.logs(
                        log::warn_line(self.interface + " lost its IPv4 address"@),
                    ).stops_client().meets(Event::LinkLost)
                },
                Answer::ApStarted => StepView {
                    now: SupervisorView { ap: true, ..self },
                    ..start
                }.does(EffectView::StartTimer).polls_ap(),
                Answer::ApNotStarted { err } => start.fails(err@),
                Answer::Ap { healthy, served_secs, has_client_config } => if self.ap && !healthy {
                    start.logs(
                        log::warn_line(
                            "fallback AP daemons are no longer running; restarting them"@,
                        ),
                    ).stops_ap().meets(Event::ApDied)
                } else if served_secs < self.tuning.ap_retry_sec {
                    start.polls_ap()
                } else if !has_client_config {
                    // Without a client.conf, tearing the AP down every interval would repeatedly
                    // disconnect whoever is using it to fix the robot, and could not possibly
                    // succeed.
                    start.meets(Event::ApHeld)
                } else {
                    start.logs(
                        log::info_line(
                            "taking the fallback AP down to re-try the client network"@,
                        ),
                    ).meets(Event::ApRetryDue)
                },
            }
        }
    }
}

/// The supervisor before it has done anything but ask for its interface.
pub open spec fn supervisor_of(interface: Seq<char>, tuning: SuperviseTuning) -> StepView {
    StepView {
        now: SupervisorView {
            interface,
            tuning,
            state: State::TryClient,
            question: Question::Interface,
            attempt: 0,
            client: false,
            ap: false,
            announced: false,
        },
        effects: seq![
            EffectView::Log {
                line: log::info_line(
                    "WiFi supervisor starting on "@ + interface + " (connect timeout "@
                        + text::decimal(tuning.connect_timeout_sec as nat) + "s, "@
                        + text::decimal(tuning.client_attempts as nat) + " attempts, AP retry every "@
                        + text::decimal(tuning.ap_retry_sec as nat) + "s)"@,
                ),
            },
            EffectView::Ask { question: Question::Interface },
        ],
    }
}

/// The client <-> fallback-AP supervisor.
#[derive(Debug)]
pub struct Supervisor {
    interface: String,
    tuning: SuperviseTuning,
    state: State,
    question: Question,
    attempt: u32,
    client: bool,
    ap: bool,
    announced: bool,
}

impl View for Supervisor {
    type V = SupervisorView;

    closed spec fn view(&self) -> SupervisorView {
        SupervisorView {
            interface: self.interface@,
            tuning: self.tuning,
            state: self.state,
            question: self.question,
            attempt: self.attempt,
            client: self.client,
            ap: self.ap,
            announced: self.announced,
        }
    }
}

/// Where the supervisor and the list of its effects stand.
pub open spec fn step_view(supervisor: SupervisorView, effects: Seq<Effect>) -> StepView {
    StepView { now: supervisor, effects: effect_views(effects) }
}

/// Runs the supervisor. It does not come to an end under normal operation.
///
/// Teardown on shutdown is left to systemd: the daemons are children in this unit's cgroup, so
/// `systemctl stop` reaps them with us. The interface may keep its address until the next start,
/// which is harmless because every entry path flushes it first.
///
/// The result is the supervisor, and what it has done by the time it asks its first question.
pub fn run(paths: &Paths, tuning: &SuperviseTuning) -> (r: (Supervisor, Vec<Effect>))
    ensures
        step_view(r.0@, r.1@) == supervisor_of(paths@.wifi_interface, *tuning),
{
    let interface: &str = paths.wifi_interface();
    let head: String = text::cat4(
        "WiFi supervisor starting on ",
        interface,
        " (connect timeout ",
        text::to_decimal(tuning.connect_timeout_sec as u64).as_str(),
    );
    let msg: String = text::cat6(
        head.as_str(),
        "s, ",
        text::to_decimal(tuning.client_attempts as u64).as_str(),
        " attempts, AP retry every ",
        text::to_decimal(tuning.ap_retry_sec as u64).as_str(),
        "s)",
    );
    let supervisor = Supervisor {
        interface: interface.to_owned(),
        tuning: *tuning,
        state: State::TryClient,
        question: Question::Interface,
        attempt: 0,
        client: false,
        ap: false,
        announced: false,
    };
    let mut effects: Vec<Effect> = Vec::new();
    effects.push(Effect::Log { line: log::info(msg.as_str()) });
    effects.push(Effect::Ask { question: Question::Interface });
    assert(effect_views(effects@) =~= supervisor_of(paths@.wifi_interface, *tuning).effects);
    (supervisor, effects)
}

proof fn lemma_effects_push(effects: Seq<Effect>, effect: Effect)
    ensures
        effect_views(effects.push(effect)) == effect_views(effects).push(effect@),
{
    assert(effect_views(effects.push(effect)) =~= effect_views(effects).push(effect@));
}

/// Adds `effect` to `effects`.
fn put(effects: &mut Vec<Effect>, effect: Effect)
    ensures
        effect_views(final(effects)@) == effect_views(old(effects)@).push(effect@),
{
    proof {
        lemma_effects_push(effects@, effect);
    }
    effects.push(effect);
}

impl Supervisor {
    fn ask(&mut self, effects: &mut Vec<Effect>, question: Question)
        ensures
            step_view(final(self)@, final(effects)@) == step_view(old(self)@, old(effects)@).asks(
                question,
            ),
    {
        self.question = question;
        put(effects, Effect::Ask { question });
    }

    fn fail(&mut self, effects: &mut Vec<Effect>, err: String)
        ensures
            step_view(final(self)@, final(effects)@) == step_view(old(self)@, old(effects)@).fails(
                err@,
            ),
    {
        self.question = Question::Nothing;
        put(effects, Effect::Fail { err });
    }

    fn stop_client(&mut self, effects: &mut Vec<Effect>)
        ensures
            step_view(final(self)@, final(effects)@) == step_view(
                old(self)@,
                old(effects)@,
            ).stops_client(),
    {
        if self.client {
            self.client = false;
            put(effects, Effect::StopClient);
        }
    }

    fn stop_ap(&mut self, effects: &mut Vec<Effect>)
        ensures
            step_view(final(self)@, final(effects)@) == step_view(
                old(self)@,
                old(effects)@,
            ).stops_ap(),
    {
        if self.ap {
            self.ap = false;
            put(effects, Effect::StopAp);
        }
    }

    fn poll_ap(&mut self, effects: &mut Vec<Effect>)
        ensures
            step_view(final(self)@, final(effects)@) == step_view(
                old(self)@,
                old(effects)@,
            ).polls_ap(),
    {
        put(effects, Effect::Sleep { secs: self.tuning.link_poll_sec });
        self.ask(effects, Question::PollAp);
    }

    /// Watches an established connection.
    fn watch_client(&mut self, effects: &mut Vec<Effect>)
        ensures
            step_view(final(self)@, final(effects)@) == step_view(
                old(self)@,
                old(effects)@,
            ).watches_client(),
    {
        put(effects, Effect::Sleep { secs: self.tuning.link_poll_sec });
        self.ask(effects, Question::Address);
    }

    /// Serves the fallback AP.
    fn serve_ap(&mut self, effects: &mut Vec<Effect>)
        ensures
            step_view(final(self)@, final(effects)@) == step_view(
                old(self)@,
                old(effects)@,
            ).serves_ap(),
    {
        self.stop_client(effects);
        if self.ap {
            put(effects, Effect::StartTimer);
            self.poll_ap(effects);
        } else {
            self.ask(effects, Question::StartAp);
        }
    }

    fn move_on(&mut self, effects: &mut Vec<Effect>, event: Event)
        ensures
            step_view(final(self)@, final(effects)@) == step_view(old(self)@, old(effects)@).moves(
                event,
            ),
    {
        let next: State = next_state(self.state, event);
        if next != self.state {
            let msg: String = text::cat6(
                self.state.name(),
                " -> ",
                next.name(),
                " (",
                event.name(),
                ")",
            );
            put(effects, Effect::Log { line: log::info(msg.as_str()) });
            put(effects, Effect::Moved { from: self.state, to: next });
        }
        if !self.announced && next != State::TryClient {
            self.announced = true;
            put(effects, Effect::Ready { state: next });
        }
        self.state = next;
    }

    /// Attempts to connect.
    fn try_client(&mut self, effects: &mut Vec<Effect>)
        ensures
            step_view(final(self)@, final(effects)@) == step_view(
                old(self)@,
                old(effects)@,
            ).tries_client(),
    {
        self.stop_ap(effects);
        if self.tuning.client_attempts == 0 {
            self.move_on(effects, Event::ClientFailed);
            self.serve_ap(effects);
        } else {
            self.attempt = 1;
            self.ask(effects, Question::Connect);
        }
    }

    fn meet(&mut self, effects: &mut Vec<Effect>, event: Event)
        ensures
            step_view(final(self)@, final(effects)@) == step_view(old(self)@, old(effects)@).meets(
                event,
            ),
    {
        reveal(StepView::meets);
        self.move_on(effects, event);
        match self.state {
            State::TryClient => self.try_client(effects),
            State::ClientUp => self.watch_client(effects),
            State::FallbackAp => self.serve_ap(effects),
        }
    }

    /// What the supervisor waits to be told.
    pub fn question(&self) -> (r: Question)
        ensures
            r == self@.question,
    {
        self.question
    }

    /// Takes the next step. The result is what it does, in order: unless it fails, it ends with
    /// the next question. An answer to another question than the one at hand is passed over.
    pub fn step(&mut self, answer: &Answer) -> (r: Vec<Effect>)
        ensures
            step_view(final(self)@, r@) == old(self)@.on(*answer),
    {
        let ghost before = self@;
        let mut effects: Vec<Effect> = Vec::new();
        assert(effect_views(effects@) =~= Seq::<EffectView>::empty());
        match answer {
            Answer::Interface { exists } => {
                if self.question != Question::Interface {
                    return effects;
                }
                if *exists {
                    self.try_client(&mut effects);
                } else {
                    let err: String = text::cat3(
                        "WiFi interface '",
                        self.interface.as_str(),
                        "' does not exist. Set ROBOTCTL_WIFI_INTERFACE to the correct NIC.",
                    );
                    self.fail(&mut effects, err);
                }
            },
            Answer::Connected { address } => {
                if self.question != Question::Connect {
                    return effects;
                }
                let msg: String = text::cat4(
                    "connected on ",
                    self.interface.as_str(),
                    " with address ",
                    address.as_str(),
                );
                self.client = true;
                put(&mut effects, Effect::Log { line: log::info(msg.as_str()) });
                self.meet(&mut effects, Event::ClientConnected);
            },
            Answer::NoClientConfig { path } => {
                if self.question != Question::Connect {
                    return effects;
                }
                let msg: String = text::cat2(
                    path.as_str(),
                    " does not exist; no client network to join. Raising the fallback AP so the robot stays reachable.",
                );
                put(&mut effects, Effect::Log { line: log::info(msg.as_str()) });
                self.meet(&mut effects, Event::ClientConfigMissing);
            },
            Answer::NotConnected { err } => {
                if self.question != Question::Connect {
                    return effects;
                }
                let msg: String = text::cat6(
                    "client attempt ",
                    text::to_decimal(self.attempt as u64).as_str(),
                    "/",
                    text::to_decimal(self.tuning.client_attempts as u64).as_str(),
                    " failed: ",
                    err.as_str(),
                );
                put(&mut effects, Effect::Log { line: log::warn(msg.as_str()) });
                // Drop the half-finished attempt before the next one, so a stuck
                // wpa_supplicant does not compete with its own replacement.
                self.stop_client(&mut effects);
                if self.attempt < self.tuning.client_attempts {
                    put(&mut effects, Effect::Sleep { secs: self.tuning.retry_sec });
                    self.attempt = self.attempt + 1;
                    self.ask(&mut effects, Question::Connect);
                } else {
                    self.meet(&mut effects, Event::ClientFailed);
                }
            },
            Answer::Address { held } => {
                if self.question != Question::Address {
                    return effects;
                }
                if *held {
                    self.watch_client(&mut effects);
                } else {
                    let msg: String = text::cat2(
                        self.interface.as_str(),
                        " lost its IPv4 address",
                    );
                    put(&mut effects, Effect::Log { line: log::warn(msg.as_str()) });
                    self.stop_client(&mut effects);
                    self.meet(&mut effects, Event::LinkLost);
                }
            },
            Answer::ApStarted => {
                if self.question != Question::StartAp {
                    return effects;
                }
                self.ap = true;
                put(&mut effects, Effect::StartTimer);
                self.poll_ap(&mut effects);
            },
            Answer::ApNotStarted { err } => {
                if self.question != Question::StartAp {
                    return effects;
                }
                self.fail(&mut effects, err.clone());
            },
            Answer::Ap { healthy, served_secs, has_client_config } => {
                if self.question != Question::PollAp {
                    return effects;
                }
                if self.ap && !*healthy {
                    let line: String = log::warn(
                        "fallback AP daemons are no longer running; restarting them",
                    );
                    put(&mut effects, Effect::Log { line });
                    self.stop_ap(&mut effects);
                    self.meet(&mut effects, Event::ApDied);
                } else if *served_secs < self.tuning.ap_retry_sec as u64 {
                    self.poll_ap(&mut effects);
                } else if !*has_client_config {
                    self.meet(&mut effects, Event::ApHeld);
                } else {
                    let line: String = log::info(
                        "taking the fallback AP down to re-try the client network",
                    );
                    put(&mut effects, Effect::Log { line });
                    self.meet(&mut effects, Event::ApRetryDue);
                }
            },
        }
        effects
    }
}

/// What systemd is told of a unit that is ready.
pub open spec fn ready_message(state: State) -> Seq<char> {
    "READY=1\nSTATUS=WiFi settled: "@ + state.text() + "\n"@
}

/// Tells systemd this unit is ready, for `Type=notify`.
///
/// `robot-experiments.service` carries `After=robot-wifi-supervisor.service` specifically so its
/// image pull runs once WiFi is up. This supervisor is long-running, so under `Type=simple` that
/// `After=` would mean "after the process was spawned", and every pull would race a down
/// interface, silently fall back to the local image, and never refresh anything. `Type=notify`
/// plus this message makes it mean "after WiFi has been decided".
pub fn notify_ready(state: State) -> (r: String)
    ensures
        r@ == ready_message(state),
{
    text::cat3("READY=1\nSTATUS=WiFi settled: ", state.name(), "\n")
}

/// What to log of the message to systemd, which is best-effort: not running under systemd is the
/// normal case when testing by hand.
pub fn notify_notice(state: State, socket: &str, failure: Option<&str>) -> (r: String)
    ensures
        r@ == match failure {
            None => log::info_line("notified systemd ready ("@ + state.text() + ")"@),
            Some(err) => log::warn_line(
                "could not notify systemd readiness on "@ + socket@ + ": "@ + err@,
            ),
        },
{
    match failure {
        None => log::info(text::cat3("notified systemd ready (", state.name(), ")").as_str()),
        Some(err) => log::warn(
            text::cat4("could not notify systemd readiness on ", socket, ": ", err).as_str(),
        ),
    }
}

impl SupervisorView {
    /// What holds of the supervisor whenever it waits to be told something: what it holds fits
    /// what it asks.
    pub open spec fn valid(self) -> bool {
        &&& !(self.client && self.ap)
        &&& self.state != State::TryClient ==> self.announced
        &&& match self.question {
            Question::Interface => {
                &&& self.state == State::TryClient
                &&& !self.client
                &&& !self.ap
            },
            Question::Connect => {
                &&& self.state == State::TryClient
                &&& !self.client
                &&& !self.ap
                &&& 1 <= self.attempt <= self.tuning.client_attempts
            },
            Question::Address => self.state == State::ClientUp && self.client,
            Question::StartAp => {
                &&& self.state == State::FallbackAp
                &&& !self.client
                &&& !self.ap
            },
            Question::PollAp => self.state == State::FallbackAp && self.ap,
            Question::Nothing => true,
        }
    }
}

/// The supervisor starts out valid.
pub proof fn the_supervisor_starts_valid(interface: Seq<char>, tuning: SuperviseTuning)
    ensures
        supervisor_of(interface, tuning).now.valid(),
{
}

/// Whatever the supervisor is told, it stays valid: in particular it never holds a client
/// connection and the fallback AP at once, and only connects while it holds neither.
pub proof fn the_supervisor_stays_valid(supervisor: SupervisorView, answer: Answer)
    requires
        supervisor.valid(),
    ensures
        supervisor.on(answer).now.valid(),
        supervisor.on(answer).now.tuning == supervisor.tuning,
        supervisor.on(answer).now.interface == supervisor.interface,
{
    reveal(StepView::meets);
}

/// An attempt that fails is followed by the next, until all are used up: then the fallback AP is
/// raised.
pub proof fn client_attempts_are_bounded(supervisor: SupervisorView, err: String)
    requires
        supervisor.valid(),
        supervisor.question == Question::Connect,
    ensures
        ({
            let now = supervisor.on(Answer::NotConnected { err }).now;
            if supervisor.attempt < supervisor.tuning.client_attempts {
                now.question == Question::Connect && now.attempt == supervisor.attempt + 1
            } else {
                now.question == Question::StartAp && now.state == State::FallbackAp
            }
        }),
{
    reveal(StepView::meets);
}

/// The supervisor gives up only where its interface is missing or the fallback AP cannot be
/// started.
pub proof fn the_supervisor_gives_up_only_without_a_way_on(
    supervisor: SupervisorView,
    answer: Answer,
)
    requires
        supervisor.question != Question::Nothing,
    ensures
        supervisor.on(answer).now.question == Question::Nothing <==> answers(
            supervisor.question,
            answer,
        ) && (answer is ApNotStarted || (answer matches Answer::Interface { exists } && !exists)),
{
    if answers(supervisor.question, answer) {
        lemma_on(supervisor, answer);
    }
}

/// A connection that is lost is retried, and the fallback AP is not raised for it.
pub proof fn a_lost_link_is_retried(supervisor: SupervisorView)
    requires
        supervisor.valid(),
        supervisor.question == Question::Address,
        supervisor.tuning.client_attempts > 0,
    ensures
        ({
            let now = supervisor.on(Answer::Address { held: false }).now;
            &&& now.question == Question::Connect
            &&& now.attempt == 1
            &&& !now.client
        }),
{
    reveal(StepView::meets);
}

broadcast proof fn lemma_contains_pushed(
    effects: Seq<EffectView>,
    last: EffectView,
    effect: EffectView,
)
    ensures
        #[trigger] effects.push(last).contains(effect) <==> effects.contains(effect) || last
            == effect,
{
    vstd::seq_lib::lemma_seq_contains_after_push(effects, last, effect);
}

/// A healthy fallback AP is left alone for as long as there is nothing to retry with.
pub proof fn the_ap_is_held_without_credentials(supervisor: SupervisorView, served_secs: u64)
    requires
        supervisor.valid(),
        supervisor.question == Question::PollAp,
    ensures
        ({
            let step = supervisor.on(
                Answer::Ap { healthy: true, served_secs, has_client_config: false },
            );
            &&& step.now.ap
            &&& step.now.question == Question::PollAp
            &&& !step.effects.contains(EffectView::StopAp)
        }),
{
    broadcast use lemma_contains_pushed;

    reveal(StepView::meets);
}

/// The fallback AP is taken down for a retry once it has been served for the configured time.
pub proof fn the_ap_gives_way_to_a_retry(supervisor: SupervisorView, served_secs: u64)
    requires
        supervisor.valid(),
        supervisor.question == Question::PollAp,
        supervisor.tuning.client_attempts > 0,
    ensures
        supervisor.on(
            Answer::Ap { healthy: true, served_secs, has_client_config: true },
        ).now.question == (if served_secs < supervisor.tuning.ap_retry_sec {
            Question::PollAp
        } else {
            Question::Connect
        }),
{
    reveal(StepView::meets);
}

/// How many of `effects` tell systemd that the unit is ready.
pub open spec fn announcements(effects: Seq<EffectView>) -> nat
    decreases effects.len(),
{
    if effects.len() == 0 {
        0
    } else {
        announcements(effects.drop_last()) + if effects.last() is Ready {
            1nat
        } else {
            0nat
        }
    }
}

broadcast proof fn lemma_announcements_push(effects: Seq<EffectView>, last: EffectView)
    ensures
        #[trigger] announcements(effects.push(last)) == announcements(effects) + if last is Ready {
            1nat
        } else {
            0nat
        },
{
    assert(effects.push(last).drop_last() =~= effects);
}

/// How many of `effects` ask something.
pub open spec fn questions(effects: Seq<EffectView>) -> nat
    decreases effects.len(),
{
    if effects.len() == 0 {
        0
    } else {
        questions(effects.drop_last()) + if effects.last() is Ask {
            1nat
        } else {
            0nat
        }
    }
}

broadcast proof fn lemma_questions_push(effects: Seq<EffectView>, last: EffectView)
    ensures
        #[trigger] questions(effects.push(last)) == questions(effects) + if last is Ask {
            1nat
        } else {
            0nat
        },
{
    assert(effects.push(last).drop_last() =~= effects);
}

/// Whether `effects` tell of a change to the state `to`.
pub open spec fn tells_of(effects: Seq<EffectView>, to: State) -> bool {
    exists|from: State| from != to && #[trigger] effects.contains(EffectView::Moved { from, to })
}

/// What `later` adds to `earlier`: it keeps what was done, ends what it lets go of, tells of the
/// state it comes to, and announces what it comes to be ready for.
spec fn follows(earlier: StepView, later: StepView) -> bool {
    &&& forall|effect: EffectView| #[trigger]
        earlier.effects.contains(effect) ==> later.effects.contains(effect)
    &&& earlier.now.ap && !later.now.ap ==> later.effects.contains(EffectView::StopAp)
    &&& earlier.now.client && !later.now.client ==> later.effects.contains(EffectView::StopClient)
    &&& earlier.now.state != later.now.state ==> tells_of(later.effects, later.now.state)
    &&& announcements(later.effects) == announcements(earlier.effects) + if !earlier.now.announced
        && later.now.announced {
        1nat
    } else {
        0nat
    }
    &&& earlier.now.announced ==> later.now.announced
}

/// `later` asks what `earlier` did not, last of all.
spec fn asks_last(earlier: StepView, later: StepView) -> bool {
    &&& later.now.question != Question::Nothing
    &&& later.effects.last() == (EffectView::Ask { question: later.now.question })
    &&& questions(later.effects) == questions(earlier.effects) + 1
}

proof fn lemma_asks(step: StepView, question: Question)
    requires
        question != Question::Nothing,
    ensures
        follows(step, step.asks(question)),
        asks_last(step, step.asks(question)),
{
    broadcast use {lemma_contains_pushed, lemma_announcements_push, lemma_questions_push};

}

proof fn lemma_does(step: StepView, effect: EffectView)
    requires
        !(effect is Ready),
        !(effect is Ask),
    ensures
        follows(step, step.does(effect)),
        questions(step.does(effect).effects) == questions(step.effects),
{
    broadcast use {lemma_contains_pushed, lemma_announcements_push, lemma_questions_push};

}

proof fn lemma_stops(step: StepView)
    ensures
        follows(step, step.stops_client()),
        follows(step, step.stops_ap()),
        questions(step.stops_client().effects) == questions(step.effects),
        questions(step.stops_ap().effects) == questions(step.effects),
{
    broadcast use {lemma_contains_pushed, lemma_announcements_push, lemma_questions_push};

}

proof fn lemma_polls(step: StepView)
    ensures
        follows(step, step.polls_ap()),
        asks_last(step, step.polls_ap()),
        follows(step, step.watches_client()),
        asks_last(step, step.watches_client()),
{
    let slept = step.does(EffectView::Sleep { secs: step.now.tuning.link_poll_sec });
    lemma_does(step, EffectView::Sleep { secs: step.now.tuning.link_poll_sec });
    lemma_asks(slept, Question::PollAp);
    lemma_asks(slept, Question::Address);
}

proof fn lemma_serves_ap(step: StepView)
    ensures
        follows(step, step.serves_ap()),
        asks_last(step, step.serves_ap()),
{
    let freed = step.stops_client();
    lemma_stops(step);
    lemma_does(freed, EffectView::StartTimer);
    lemma_polls(freed.does(EffectView::StartTimer));
    lemma_asks(freed, Question::StartAp);
}

proof fn lemma_moves(step: StepView, event: Event)
    ensures
        follows(step, step.moves(event)),
        questions(step.moves(event).effects) == questions(step.effects),
        step.moves(event).now.ap == step.now.ap,
        step.moves(event).now.client == step.now.client,
{
    broadcast use {lemma_contains_pushed, lemma_announcements_push, lemma_questions_push};

    let next = state_after(event);
    if next != step.now.state {
        assert(step.moves(event).effects.contains(
            EffectView::Moved { from: step.now.state, to: next },
        ));
    }
}

proof fn lemma_tries_client(step: StepView)
    ensures
        follows(step, step.tries_client()),
        asks_last(step, step.tries_client()),
{
    let freed = step.stops_ap();
    lemma_stops(step);
    lemma_moves(freed, Event::ClientFailed);
    lemma_serves_ap(freed.moves(Event::ClientFailed));
    let first = StepView { now: SupervisorView { attempt: 1, ..freed.now }, ..freed };
    lemma_asks(first, Question::Connect);
}

proof fn lemma_meets(step: StepView, event: Event)
    ensures
        follows(step, step.meets(event)),
        asks_last(step, step.meets(event)),
{
    reveal(StepView::meets);
    let moved = step.moves(event);
    lemma_moves(step, event);
    lemma_tries_client(moved);
    lemma_polls(moved);
    lemma_serves_ap(moved);
}

/// On an answer the supervisor does what follows from where it stood, and asks or gives up.
proof fn lemma_on(supervisor: SupervisorView, answer: Answer)
    requires
        answers(supervisor.question, answer),
    ensures
        ({
            let start = StepView { now: supervisor, effects: Seq::empty() };
            let step = supervisor.on(answer);
            let failed = answer is ApNotStarted || (answer matches Answer::Interface { exists }
                && !exists);
            &&& follows(start, step)
            &&& if failed {
                &&& step.now.question == Question::Nothing
                &&& step.effects.last() is Fail
                &&& questions(step.effects) == 0
            } else {
                asks_last(start, step)
            }
        }),
{
    broadcast use {lemma_contains_pushed, lemma_announcements_push, lemma_questions_push};

    let start = StepView { now: supervisor, effects: Seq::empty() };
    let step = supervisor.on(answer);
    match answer {
        Answer::Interface { exists } => {
            lemma_tries_client(start);
        },
        Answer::Connected { address } => {
            let held = StepView { now: SupervisorView { client: true, ..supervisor }, ..start };
            let line = log::info_line(
                "connected on "@ + supervisor.interface + " with address "@ + address@,
            );
            lemma_does(held, EffectView::Log { line });
            lemma_meets(held.logs(line), Event::ClientConnected);
        },
        Answer::NoClientConfig { path } => {
            let line = log::info_line(
                path@
                    + " does not exist; no client network to join. Raising the fallback AP so the robot stays reachable."@,
            );
            lemma_does(start, EffectView::Log { line });
            lemma_meets(start.logs(line), Event::ClientConfigMissing);
        },
        Answer::NotConnected { err } => {
            let line = log::warn_line(
                "client attempt "@ + text::decimal(supervisor.attempt as nat) + "/"@
                    + text::decimal(supervisor.tuning.client_attempts as nat) + " failed: "@ + err@,
            );
            let logged = start.logs(line);
            let failed = logged.stops_client();
            lemma_does(start, EffectView::Log { line });
            lemma_stops(logged);
            lemma_meets(failed, Event::ClientFailed);
            let sleep = EffectView::Sleep { secs: supervisor.tuning.retry_sec };
            let again = failed.does(sleep);
            lemma_does(failed, sleep);
            let next = StepView {
                now: SupervisorView { attempt: (supervisor.attempt + 1) as u32, ..again.now },
                ..again
            };
            lemma_asks(next, Question::Connect);
        },
        Answer::Address { held } => {
            let line = log::warn_line(supervisor.interface + " lost its IPv4 address"@);
            let logged = start.logs(line);
            lemma_does(start, EffectView::Log { line });
            lemma_stops(logged);
            lemma_meets(logged.stops_client(), Event::LinkLost);
            lemma_polls(start);
        },
        Answer::ApStarted => {
            let served = StepView { now: SupervisorView { ap: true, ..supervisor }, ..start };
            lemma_does(served, EffectView::StartTimer);
            lemma_polls(served.does(EffectView::StartTimer));
        },
        Answer::ApNotStarted { err } => {},
        Answer::Ap { healthy, served_secs, has_client_config } => {
            let died = log::warn_line(
                "fallback AP daemons are no longer running; restarting them"@,
            );
            let retry = log::info_line(
                "taking the fallback AP down to re-try the client network"@,
            );
            lemma_does(start, EffectView::Log { line: died });
            lemma_stops(start.logs(died));
            lemma_meets(start.logs(died).stops_ap(), Event::ApDied);
            lemma_polls(start);
            lemma_meets(start, Event::ApHeld);
            lemma_does(start, EffectView::Log { line: retry });
            lemma_meets(start.logs(retry), Event::ApRetryDue);
        },
    }
}

/// What the supervisor holds, it lets go of only by ending it.
pub proof fn what_is_let_go_is_ended(supervisor: SupervisorView, answer: Answer)
    ensures
        supervisor.ap && !supervisor.on(answer).now.ap ==> supervisor.on(answer).effects.contains(
            EffectView::StopAp,
        ),
        supervisor.client && !supervisor.on(answer).now.client ==> supervisor.on(
            answer,
        ).effects.contains(EffectView::StopClient),
{
    if answers(supervisor.question, answer) {
        lemma_on(supervisor, answer);
    }
}

/// Every state change is told to the hook: a state that differs from the one before is one that a
/// change was made to.
pub proof fn every_state_change_is_told(supervisor: SupervisorView, answer: Answer)
    requires
        supervisor.on(answer).now.state != supervisor.state,
    ensures
        tells_of(supervisor.on(answer).effects, supervisor.on(answer).now.state),
{
    lemma_on(supervisor, answer);
}

/// systemd is told that the unit is ready once: as soon as a network is joined or the fallback AP
/// is decided on, and never again.
pub proof fn ready_is_announced_once(supervisor: SupervisorView, answer: Answer)
    ensures
        announcements(supervisor.on(answer).effects) == if !supervisor.announced && supervisor.on(
            answer,
        ).now.announced {
            1nat
        } else {
            0nat
        },
        supervisor.announced ==> supervisor.on(answer).now.announced,
{
    if answers(supervisor.question, answer) {
        lemma_on(supervisor, answer);
    }
}

/// The supervisor never stalls: on an answer it asks one question, last of all, unless it gives
/// up.
pub proof fn every_answer_leads_to_a_question(supervisor: SupervisorView, answer: Answer)
    requires
        answers(supervisor.question, answer),
    ensures
        ({
            let step = supervisor.on(answer);
            if step.now.question == Question::Nothing {
                step.effects.last() is Fail && questions(step.effects) == 0
            } else {
                step.effects.last() == (EffectView::Ask { question: step.now.question })
                    && questions(step.effects) == 1
            }
        }),
{
    lemma_on(supervisor, answer);
}

/// A dead fallback AP is torn down and started again, however long it was served and whether or
/// not there is something to retry with.
pub proof fn a_dead_ap_is_raised_again(
    supervisor: SupervisorView,
    served_secs: u64,
    has_client_config: bool,
)
    requires
        supervisor.valid(),
        supervisor.question == Question::PollAp,
    ensures
        ({
            let step = supervisor.on(Answer::Ap { healthy: false, served_secs, has_client_config });
            &&& step.effects.contains(EffectView::StopAp)
            &&& !step.now.ap
            &&& step.now.state == State::FallbackAp
            &&& step.now.question == Question::StartAp
            &&& !step.effects.contains(
                EffectView::Sleep { secs: supervisor.tuning.link_poll_sec },
            )
        }),
{
    broadcast use lemma_contains_pushed;

    reveal(StepView::meets);
}

/// A healthy fallback AP that is not due for a retry is left alone and looked at again after the
/// poll interval, its time running on.
pub proof fn a_healthy_ap_is_served_on(
    supervisor: SupervisorView,
    served_secs: u64,
    has_client_config: bool,
)
    requires
        supervisor.valid(),
        supervisor.question == Question::PollAp,
        served_secs < supervisor.tuning.ap_retry_sec,
    ensures
        ({
            let step = supervisor.on(Answer::Ap { healthy: true, served_secs, has_client_config });
            &&& step.now == supervisor
            &&& step.effects.contains(EffectView::Sleep { secs: supervisor.tuning.link_poll_sec })
            &&& !step.effects.contains(EffectView::StopAp)
            &&& !step.effects.contains(EffectView::StartTimer)
        }),
{
    broadcast use lemma_contains_pushed;

}

/// A fallback AP that is held past its time serves another whole interval; one that there are
/// credentials to retry with is taken down before the client is tried.
pub proof fn the_retry_interval_ends_in_a_retry_or_another_interval(
    supervisor: SupervisorView,
    served_secs: u64,
)
    requires
        supervisor.valid(),
        supervisor.question == Question::PollAp,
        served_secs >= supervisor.tuning.ap_retry_sec,
        supervisor.tuning.client_attempts > 0,
    ensures
        ({
            let held = supervisor.on(
                Answer::Ap { healthy: true, served_secs, has_client_config: false },
            );
            &&& held.effects.contains(EffectView::StartTimer)
            &&& held.effects.contains(EffectView::Sleep { secs: supervisor.tuning.link_poll_sec })
            &&& held.now == supervisor
        }),
        ({
            let retry = supervisor.on(
                Answer::Ap { healthy: true, served_secs, has_client_config: true },
            );
            &&& retry.effects.contains(EffectView::StopAp)
            &&& !retry.now.ap
            &&& retry.now.state == State::TryClient
            &&& retry.now.question == Question::Connect
            &&& retry.now.attempt == 1
        }),
{
    broadcast use lemma_contains_pushed;

    reveal(StepView::meets);
}

/// A fallback AP that has started is held, and its time starts to run.
pub proof fn a_started_ap_is_held(supervisor: SupervisorView)
    requires
        supervisor.valid(),
        supervisor.question == Question::StartAp,
    ensures
        ({
            let step = supervisor.on(Answer::ApStarted);
            &&& step.now.ap
            &&& !step.now.client
            &&& step.now.state == State::FallbackAp
            &&& step.now.question == Question::PollAp
            &&& step.effects.contains(EffectView::StartTimer)
            &&& step.effects.contains(EffectView::Sleep { secs: supervisor.tuning.link_poll_sec })
        }),
{
    broadcast use lemma_contains_pushed;

}

/// The supervisor fails with the very reason for which the fallback AP could not be started.
pub proof fn a_failed_ap_start_is_fatal(supervisor: SupervisorView, err: String)
    requires
        supervisor.question == Question::StartAp,
    ensures
        supervisor.on(Answer::ApNotStarted { err }).effects == seq![EffectView::Fail { err: err@ }],
        supervisor.on(Answer::ApNotStarted { err }).now.question == Question::Nothing,
{
    assert(supervisor.on(Answer::ApNotStarted { err }).effects =~= seq![
        EffectView::Fail { err: err@ },
    ]);
}

/// A client that has connected is held and watched, from any attempt, and its address is logged.
pub proof fn a_connected_client_is_watched(supervisor: SupervisorView, address: String)
    requires
        supervisor.valid(),
        supervisor.question == Question::Connect,
    ensures
        ({
            let step = supervisor.on(Answer::Connected { address });
            &&& step.now.client
            &&& !step.now.ap
            &&& step.now.state == State::ClientUp
            &&& step.now.question == Question::Address
            &&& step.effects.contains(
                EffectView::Log {
                    line: "[INFO] connected on "@ + supervisor.interface + " with address "@
                        + address@,
                },
            )
            &&& step.effects.contains(EffectView::Sleep { secs: supervisor.tuning.link_poll_sec })
        }),
{
    broadcast use lemma_contains_pushed;

    reveal(StepView::meets);
    lemma_info_line("connected on "@ + supervisor.interface + " with address "@ + address@);
    reveal_strlit("[INFO] ");
    reveal_strlit("[INFO] connected on ");
    reveal_strlit("connected on ");
    assert("[INFO] connected on "@ =~= "[INFO] "@ + "connected on "@);
    assert("[INFO] connected on "@ + supervisor.interface + " with address "@ + address@
        =~= "[INFO] "@ + ("connected on "@ + supervisor.interface + " with address "@ + address@));
}

/// What a logged line starts with.
proof fn lemma_info_line(msg: Seq<char>)
    ensures
        log::info_line(msg) == "[INFO] "@ + msg,
{
}

/// Without credentials the fallback AP is raised at once, whatever attempts are left.
pub proof fn missing_credentials_raise_the_ap(supervisor: SupervisorView, path: String)
    requires
        supervisor.valid(),
        supervisor.question == Question::Connect,
    ensures
        ({
            let step = supervisor.on(Answer::NoClientConfig { path });
            &&& step.now.state == State::FallbackAp
            &&& step.now.question == Question::StartAp
            &&& !step.effects.contains(EffectView::Sleep { secs: supervisor.tuning.retry_sec })
        }),
{
    broadcast use lemma_contains_pushed;

    reveal(StepView::meets);
}

/// Between two client attempts of one cycle there is a pause, and after the last there is none.
pub proof fn attempts_are_paused_between(supervisor: SupervisorView, err: String)
    requires
        supervisor.valid(),
        supervisor.question == Question::Connect,
    ensures
        supervisor.on(Answer::NotConnected { err }).effects.contains(
            EffectView::Sleep { secs: supervisor.tuning.retry_sec },
        ) <==> supervisor.attempt < supervisor.tuning.client_attempts,
{
    broadcast use lemma_contains_pushed;

    reveal(StepView::meets);
}

/// A client that keeps its address is left alone and looked at again after the poll interval; one
/// that has lost it is ended before it is tried anew.
pub proof fn a_client_is_watched_until_it_loses_its_address(supervisor: SupervisorView)
    requires
        supervisor.valid(),
        supervisor.question == Question::Address,
        supervisor.tuning.client_attempts > 0,
    ensures
        ({
            let step = supervisor.on(Answer::Address { held: true });
            &&& step.now == supervisor
            &&& step.effects.contains(EffectView::Sleep { secs: supervisor.tuning.link_poll_sec })
            &&& !step.effects.contains(EffectView::StopClient)
        }),
        ({
            let step = supervisor.on(Answer::Address { held: false });
            &&& step.effects.contains(EffectView::StopClient)
            &&& step.now.state == State::TryClient
            &&& step.now.question == Question::Connect
        }),
{
    broadcast use lemma_contains_pushed;

    reveal(StepView::meets);
}

/// The supervisor tries the client first, and straight away, if its interface exists.
pub proof fn the_client_is_tried_first(interface: Seq<char>, tuning: SuperviseTuning)
    ensures
        ({
            let step = supervisor_of(interface, tuning).now.on(Answer::Interface { exists: true });
            if tuning.client_attempts > 0 {
                &&& step.effects == seq![EffectView::Ask { question: Question::Connect }]
                &&& step.now.attempt == 1
                &&& step.now.state == State::TryClient
            } else {
                &&& step.now.question == Question::StartAp
                &&& step.now.state == State::FallbackAp
            }
        }),
        supervisor_of(interface, tuning).now.question == Question::Interface,
{
    let step = supervisor_of(interface, tuning).now.on(Answer::Interface { exists: true });
    if tuning.client_attempts > 0 {
        assert(step.effects =~= seq![EffectView::Ask { question: Question::Connect }]);
    }
}

/// An answer to another question than the one at hand changes nothing and does nothing.
pub proof fn other_answers_are_passed_over(supervisor: SupervisorView, answer: Answer)
    requires
        match answer {
            Answer::Interface { .. } => supervisor.question != Question::Interface,
            Answer::Connected { .. } => supervisor.question != Question::Connect,
            Answer::NoClientConfig { .. } => supervisor.question != Question::Connect,
            Answer::NotConnected { .. } => supervisor.question != Question::Connect,
            Answer::Address { .. } => supervisor.question != Question::Address,
            Answer::ApStarted => supervisor.question != Question::StartAp,
            Answer::ApNotStarted { .. } => supervisor.question != Question::StartAp,
            Answer::Ap { .. } => supervisor.question != Question::PollAp,
        },
    ensures
        supervisor.on(answer).now == supervisor,
        supervisor.on(answer).effects.len() == 0,
{
}

/// What systemd is told that the unit is ready for is the state it has come to, and it is a state
/// in which the robot can be reached.
pub proof fn ready_is_told_of_the_state_come_to(
    supervisor: SupervisorView,
    answer: Answer,
    state: State,
)
    requires
        supervisor.valid(),
        supervisor.on(answer).effects.contains(EffectView::Ready { state }),
    ensures
        state == supervisor.on(answer).now.state,
        state != State::TryClient,
        !supervisor.announced,
{
    broadcast use lemma_contains_pushed;

    reveal(StepView::meets);
}

/// A settled state is announced: whoever waits for it does not wait in vain.
pub proof fn a_settled_supervisor_has_announced_itself(supervisor: SupervisorView, answer: Answer)
    requires
        supervisor.valid(),
        supervisor.on(answer).now.state != State::TryClient,
        !supervisor.announced,
    ensures
        supervisor.on(answer).effects.contains(
            EffectView::Ready { state: supervisor.on(answer).now.state },
        ),
{
    broadcast use lemma_contains_pushed;

    reveal(StepView::meets);
}

/// What systemd is told holds the word that makes the unit ready, and names the state.
pub proof fn the_ready_message_says_ready(state: State)
    ensures
        text::lines_of(ready_message(state)) == seq![
            "READY=1"@,
            "STATUS=WiFi settled: "@ + (match state {
                State::TryClient => "TryClient"@,
                State::ClientUp => "ClientUp"@,
                State::FallbackAp => "FallbackAp"@,
            }),
        ],
{
    let name = match state {
        State::TryClient => "TryClient"@,
        State::ClientUp => "ClientUp"@,
        State::FallbackAp => "FallbackAp"@,
    };
    let lines = seq!["READY=1"@, "STATUS=WiFi settled: "@ + name];
    reveal_strlit("READY=1");
    reveal_strlit("STATUS=WiFi settled: ");
    reveal_strlit("READY=1\nSTATUS=WiFi settled: ");
    reveal_strlit("\n");
    reveal_strlit("TryClient");
    reveal_strlit("ClientUp");
    reveal_strlit("FallbackAp");
    reveal_with_fuel(text::unlines, 3);
    assert(lines.drop_last() =~= seq!["READY=1"@]);
    assert(lines.drop_last().drop_last() =~= Seq::<Seq<char>>::empty());
    assert(text::unlines(lines) =~= ready_message(state));
    assert(!lines[0].contains('\n'));
    assert(!lines[1].contains('\n'));
    text::lemma_lines_of_unlines(lines);
    assert(lines.map_values(|l: Seq<char>| text::without_cr(l)) =~= lines);
}

/// How many seconds `effects` sleep.
pub open spec fn paused(effects: Seq<EffectView>) -> nat
    decreases effects.len(),
{
    if effects.len() == 0 {
        0
    } else {
        paused(effects.drop_last()) + match effects.last() {
            EffectView::Sleep { secs } => secs as nat,
            _ => 0,
        }
    }
}

broadcast proof fn lemma_paused_push(effects: Seq<EffectView>, last: EffectView)
    ensures
        #[trigger] paused(effects.push(last)) == paused(effects) + match last {
            EffectView::Sleep { secs } => secs as nat,
            _ => 0,
        },
{
    assert(effects.push(last).drop_last() =~= effects);
}

/// A step sleeps for the poll interval before it looks at what it holds, for the pause between two
/// attempts before the next one, and not at all otherwise.
pub proof fn a_step_sleeps_only_before_looking_again(supervisor: SupervisorView, answer: Answer)
    requires
        supervisor.valid(),
        answers(supervisor.question, answer),
    ensures
        paused(supervisor.on(answer).effects) == match supervisor.on(answer).now.question {
            Question::Address => supervisor.tuning.link_poll_sec as nat,
            Question::PollAp => supervisor.tuning.link_poll_sec as nat,
            Question::Connect => if answer is NotConnected {
                supervisor.tuning.retry_sec as nat
            } else {
                0
            },
            _ => 0,
        },
{
    broadcast use lemma_paused_push;

    reveal(StepView::meets);
    assert(paused(Seq::empty()) == 0);
}

/// The time that the fallback AP has been served runs from when it is started, and anew from when
/// it is held for want of credentials; nothing else sets it back.
pub proof fn the_timer_starts_with_an_interval(supervisor: SupervisorView, answer: Answer)
    requires
        supervisor.valid(),
        answers(supervisor.question, answer),
    ensures
        supervisor.on(answer).effects.contains(EffectView::StartTimer) <==> answer is ApStarted || (
        answer matches Answer::Ap { healthy, served_secs, has_client_config } && healthy
            && served_secs >= supervisor.tuning.ap_retry_sec && !has_client_config),
{
    broadcast use lemma_contains_pushed;

    reveal(StepView::meets);
}

/// Whether a step has kept what it is set to, and what it has announced.
spec fn kept(before: SupervisorView, after: SupervisorView) -> bool {
    &&& after.interface == before.interface
    &&& after.tuning == before.tuning
    &&& before.announced ==> after.announced
}

proof fn lemma_moves_kept(step: StepView, event: Event)
    ensures
        kept(step.now, step.moves(event).now),
{
}

proof fn lemma_tries_kept(step: StepView)
    ensures
        kept(step.now, step.tries_client().now),
{
    let freed = step.stops_ap();
    lemma_moves_kept(freed, Event::ClientFailed);
}

proof fn lemma_meets_kept(step: StepView, event: Event)
    ensures
        kept(step.now, step.meets(event).now),
{
    reveal(StepView::meets);
    lemma_moves_kept(step, event);
    lemma_tries_kept(step.moves(event));
}

/// A step changes neither the interface nor the tuning, and takes back no announcement.
pub proof fn a_step_keeps_its_settings(supervisor: SupervisorView, answer: Answer)
    ensures
        supervisor.on(answer).now.interface == supervisor.interface,
        supervisor.on(answer).now.tuning == supervisor.tuning,
        supervisor.announced ==> supervisor.on(answer).now.announced,
{
    let start = StepView { now: supervisor, effects: Seq::empty() };
    if answers(supervisor.question, answer) {
        match answer {
            Answer::Interface { exists } => lemma_tries_kept(start),
            Answer::Connected { address } => {
                let held = StepView { now: SupervisorView { client: true, ..supervisor }, ..start };
                lemma_meets_kept(
                    held.logs(
                        log::info_line(
                            "connected on "@ + supervisor.interface + " with address "@ + address@,
                        ),
                    ),
                    Event::ClientConnected,
                );
            },
            Answer::NoClientConfig { path } => lemma_meets_kept(
                start.logs(
                    log::info_line(
                        path@
                            + " does not exist; no client network to join. Raising the fallback AP so the robot stays reachable."@,
                    ),
                ),
                Event::ClientConfigMissing,
            ),
            Answer::NotConnected { err } => lemma_meets_kept(
                start.logs(
                    log::warn_line(
                        "client attempt "@ + text::decimal(supervisor.attempt as nat) + "/"@
                            + text::decimal(supervisor.tuning.client_attempts as nat)
                            + " failed: "@ + err@,
                    ),
                ).stops_client(),
                Event::ClientFailed,
            ),
            Answer::Address { held } => lemma_meets_kept(
                start.logs(
                    log::warn_line(supervisor.interface + " lost its IPv4 address"@),
                ).stops_client(),
                Event::LinkLost,
            ),
            Answer::Ap { healthy, served_secs, has_client_config } => {
                lemma_meets_kept(
                    start.logs(
                        log::warn_line(
                            "fallback AP daemons are no longer running; restarting them"@,
                        ),
                    ).stops_ap(),
                    Event::ApDied,
                );
                lemma_meets_kept(start, Event::ApHeld);
                lemma_meets_kept(
                    start.logs(
                        log::info_line(
                            "taking the fallback AP down to re-try the client network"@,
                        ),
                    ),
                    Event::ApRetryDue,
                );
            },
            _ => {},
        }
    }
}

/// Without its interface the supervisor does nothing but say which one is missing.
pub proof fn a_missing_interface_is_named(supervisor: SupervisorView)
    requires
        supervisor.question == Question::Interface,
    ensures
        supervisor.on(Answer::Interface { exists: false }).effects == seq![
            EffectView::Fail {
                err: "WiFi interface '"@ + supervisor.interface
                    + "' does not exist. Set ROBOTCTL_WIFI_INTERFACE to the correct NIC."@,
            },
        ],
{
    assert(supervisor.on(Answer::Interface { exists: false }).effects =~= seq![
        EffectView::Fail {
            err: "WiFi interface '"@ + supervisor.interface
                + "' does not exist. Set ROBOTCTL_WIFI_INTERFACE to the correct NIC."@,
        },
    ]);
}

/// A failed attempt is logged with its number, out of how many there are, and why it failed.
pub proof fn a_failed_attempt_is_logged(supervisor: SupervisorView, err: String)
    requires
        supervisor.question == Question::Connect,
    ensures
        supervisor.on(Answer::NotConnected { err }).effects.contains(
            EffectView::Log {
                line: "[WARN] "@ + ("client attempt "@ + text::decimal(supervisor.attempt as nat)
                    + "/"@ + text::decimal(supervisor.tuning.client_attempts as nat) + " failed: "@
                    + err@),
            },
        ),
{
    broadcast use lemma_contains_pushed;

    reveal(StepView::meets);
}

/// What goes wrong is logged: an address that is lost, an access point that has died, credentials
/// that are not there. So is that the access point gives way to a retry.
pub proof fn what_happens_is_logged(
    supervisor: SupervisorView,
    path: String,
    served_secs: u64,
    has_client_config: bool,
)
    requires
        supervisor.valid(),
    ensures
        supervisor.question == Question::Address ==> supervisor.on(
            Answer::Address { held: false },
        ).effects.contains(
            EffectView::Log {
                line: "[WARN] "@ + (supervisor.interface + " lost its IPv4 address"@),
            },
        ),
        supervisor.question == Question::PollAp ==> supervisor.on(
            Answer::Ap { healthy: false, served_secs, has_client_config },
        ).effects.contains(
            EffectView::Log {
                line: "[WARN] "@ + "fallback AP daemons are no longer running; restarting them"@,
            },
        ),
        supervisor.question == Question::PollAp && served_secs >= supervisor.tuning.ap_retry_sec
            ==> supervisor.on(
            Answer::Ap { healthy: true, served_secs, has_client_config: true },
        ).effects.contains(
            EffectView::Log {
                line: "[INFO] "@ + "taking the fallback AP down to re-try the client network"@,
            },
        ),
        supervisor.question == Question::Connect ==> supervisor.on(
            Answer::NoClientConfig { path },
        ).effects.contains(
            EffectView::Log {
                line: "[INFO] "@ + (path@
                    + " does not exist; no client network to join. Raising the fallback AP so the robot stays reachable."@),
            },
        ),
{
    broadcast use lemma_contains_pushed;

    reveal(StepView::meets);
}

/// A change of state is told from where it started, and to where it leads: to the client's state
/// if the client has connected, to the attempt if the link is lost or a retry is due, and else to
/// the access point's.
pub proof fn a_change_is_told_from_where_it_started(
    supervisor: SupervisorView,
    answer: Answer,
    from: State,
    to: State,
)
    requires
        supervisor.valid(),
        supervisor.tuning.client_attempts > 0,
        supervisor.on(answer).effects.contains(EffectView::Moved { from, to }),
    ensures
        from == supervisor.state,
        to == supervisor.on(answer).now.state,
        from != to,
        to == State::ClientUp <==> answer is Connected,
        to == State::TryClient <==> answer is Address || answer is Ap,
        to == State::FallbackAp <==> answer is NoClientConfig || answer is NotConnected,
{
    broadcast use lemma_contains_pushed;

    reveal(StepView::meets);
}

/// The hook tells the states apart by their names.
pub proof fn the_hook_tells_states_apart(a: State, b: State)
    ensures
        a.hook_text() == b.hook_text() <==> a == b,
        a.text() == b.text() <==> a == b,
        a.hook_text() == match a {
            State::TryClient => "try-client"@,
            State::ClientUp => "client-up"@,
            State::FallbackAp => "fallback-ap"@,
        },
{
    reveal_strlit("try-client");
    reveal_strlit("client-up");
    reveal_strlit("fallback-ap");
    reveal_strlit("TryClient");
    reveal_strlit("ClientUp");
    reveal_strlit("FallbackAp");
    assert("try-client"@.len() == 10 && "client-up"@.len() == 9 && "fallback-ap"@.len() == 11);
    assert("TryClient"@.len() == 9 && "ClientUp"@.len() == 8 && "FallbackAp"@.len() == 10);
}

} // verus!
