//! Dispatch core: choice between the two links, fail-over, and topic routing.
//!
//! When the remote (primary) link has failed `fail_threshold` times in a row the
//! dispatcher switches to the mesh; when the mesh fails as often it switches back.
//! A message's topic is matched against the routing table (by prefix); the action
//! is the built-in report or an external script.
use vstd::prelude::*;
use crate::bridge::{escaped, shell_escape};
use crate::comm_config::{first_route, Config};
use crate::json::{list_pairs, number_pairs, pretty_object, pretty_object_text, text_pairs};
use crate::links::{bumped, HealthState, Link, PollReply};
use crate::text::{has_prefix, starts_with, text_eq};

verus! {

/// Threshold actually used: at least one failure.
pub open spec fn effective_threshold(fail_threshold: u32) -> u32 {
    if fail_threshold < 1 {
        1
    } else {
        fail_threshold
    }
}

/// The fail-over rule: from the current choice and the two failure counts, the new
/// choice (`true` = remote is primary) and whether it changed.
pub open spec fn failover_step(
    remote_is_primary: bool,
    remote_failures: u32,
    mesh_failures: u32,
    fail_threshold: u32,
) -> (bool, bool) {
    let t = effective_threshold(fail_threshold);
    if remote_is_primary && remote_failures >= t {
        (false, true)
    } else if !remote_is_primary && mesh_failures >= t {
        (true, true)
    } else {
        (remote_is_primary, false)
    }
}

/// Health counter after a success (`ok`) or a failure.
pub open spec fn health_after(h: HealthState, ok: bool) -> HealthState {
    if ok {
        HealthState { consecutive_failures: 0, ..h }
    } else {
        HealthState { consecutive_failures: bumped(h.consecutive_failures), ..h }
    }
}

/// What to do with a routed message.
#[derive(Debug, Clone)]
pub enum RouteAction {
    /// Built-in report; the text is the reply.
    Report(String),
    /// Run this command line with `sh -c`; its trimmed output is the reply.
    Script(String),
}

/// Routing decision over views: `Ok((true, text))` is a report with reply `text`,
/// `Ok((false, cmd))` a script command line, `Err(msg)` a refusal.
pub open spec fn route_plan(cfg: Config, topic: Seq<char>, payload: Seq<char>) -> Result<
    (bool, Seq<char>),
    Seq<char>,
> {
    let i = first_route(cfg.routes@, topic);
    if i < 0 {
        Err("无路由匹配: "@ + topic)
    } else {
        let action = cfg.routes@[i].action@;
        if action == "builtin:report"@ {
            Ok((true, "report:"@ + payload))
        } else if has_prefix(action, "script:"@) {
            let cmd = action.subrange(7, action.len() as int);
            Ok((false, cmd + " '"@ + escaped(payload) + "'"@))
        } else {
            Err("未知动作: "@ + action)
        }
    }
}

/// State of the dispatcher: both links, their health and which one is primary.
pub struct Dispatcher<L: Link> {
    pub primary: L,
    pub backup: L,
    pub primary_health: HealthState,
    pub backup_health: HealthState,
    pub config: Config,
    pub current_primary_is_remote: bool,
}

/// How long one poll of a link waits (milliseconds).
pub const POLL_WINDOW_MS: u64 = 50;

/// The clock of the receive loop.
#[verifier::external_type_specification]
#[verifier::external_body]
pub struct ExInstant(std::time::Instant);

/// `Instant::now`: the current instant. Nothing is stated of it: it is the
/// time.
#[verifier::external_body]
fn clock_now() -> std::time::Instant {
    std::time::Instant::now()
}

/// `Instant::elapsed`: the time since `started`. Nothing is stated of it: it
/// is the time.
#[verifier::external_body]
fn elapsed_since(started: &std::time::Instant) -> std::time::Duration {
    started.elapsed()
}

/// `Duration >= Duration`. Nothing is stated of the result: Verus sees no
/// field of a `Duration`.
#[verifier::external_body]
fn duration_reached(elapsed: &std::time::Duration, limit: &std::time::Duration) -> bool {
    *elapsed >= *limit
}

/// The receive loop's decision after a round: it goes on only when the round
/// gave no message, the time is not up, and fewer than `u64::MAX` rounds were
/// made (`rounds` counts the rounds made so far).
pub fn keeps_receiving(got_message: bool, rounds: u64, time_up: bool) -> (go_on: bool)
    ensures
        go_on == (!got_message && !time_up && rounds < u64::MAX),
{
    !got_message && !time_up && rounds < u64::MAX
}

/// The reply holds a message.
pub open spec fn has_message(reply: PollReply) -> bool {
    reply matches Ok(Some(_))
}

/// The message of a reply that holds one.
pub open spec fn message_of(reply: PollReply) -> Option<(String, String)> {
    match reply {
        Ok(Some(m)) => Some(m),
        _ => None,
    }
}

impl<L: Link> Dispatcher<L> {
    /// The dispatcher after recording an outcome of the primary link
    /// (`primary`) or of the backup link: each link has its own counter.
    pub open spec fn after_outcome(self, primary: bool, ok: bool) -> Self {
        if primary {
            Dispatcher { primary_health: health_after(self.primary_health, ok), ..self }
        } else {
            Dispatcher { backup_health: health_after(self.backup_health, ok), ..self }
        }
    }

    /// The dispatcher after the fail-over rule is applied.
    pub open spec fn after_failover(self) -> Self {
        let step = failover_step(
            self.current_primary_is_remote,
            self.primary_health.consecutive_failures,
            self.backup_health.consecutive_failures,
            self.config.fail_threshold,
        );
        Dispatcher { current_primary_is_remote: step.0, ..self }
    }

    /// The link in use.
    pub open spec fn active(self) -> L {
        if self.current_primary_is_remote {
            self.primary
        } else {
            self.backup
        }
    }

    /// The dispatcher after a poll of the primary link (`primary`) or of the
    /// backup gave `reply`: a message is a success, an error a failure, an
    /// empty window changes nothing.
    pub open spec fn after_poll(self, primary: bool, reply: PollReply) -> Self {
        match reply {
            Ok(Some(_)) => self.after_outcome(primary, true),
            Ok(None) => self,
            Err(_) => self.after_outcome(primary, false),
        }
    }

    /// One receive round from `self` to `next` with result `r`, given what the
    /// backup replied (`r2`) after the primary's reply `r1`: the primary's
    /// message ends the round; otherwise the backup's does; a round without a
    /// message ends with the fail-over rule.
    pub open spec fn round_with(self, next: Self, r: Option<(String, String)>, r1: PollReply, r2: PollReply) -> bool {
        if has_message(r2) {
            r == message_of(r2) && next == self.after_poll(true, r1).after_poll(false, r2)
        } else {
            r is None && next == self.after_poll(true, r1).after_poll(false, r2).after_failover()
        }
    }

    /// One receive round: the primary is polled for one window; its message
    /// ends the round; otherwise the backup is polled for one window.
    pub open spec fn polled_round(self, next: Self, r: Option<(String, String)>) -> bool {
        exists|r1: PollReply|
            #[trigger] self.primary.may_reply(POLL_WINDOW_MS, r1) && (if has_message(r1) {
                r == message_of(r1) && next == self.after_poll(true, r1)
            } else {
                exists|r2: PollReply|
                    #[trigger] self.backup.may_reply(POLL_WINDOW_MS, r2) && self.round_with(next, r, r1, r2)
            })
    }

    /// A run of receive rounds from `states[0]` to its last state: every
    /// round but the last found no message, and the last one gave `r`.
    pub open spec fn receive_run(states: Seq<Self>, r: Option<(String, String)>) -> bool {
        &&& states.len() >= 2
        &&& forall|i: int| 0 <= i < states.len() - 2 ==> #[trigger] Self::quiet_round(states, i)
        &&& states[states.len() - 2].polled_round(states.last(), r)
    }

    /// Round `i` of the run `states` found no message.
    pub open spec fn quiet_round(states: Seq<Self>, i: int) -> bool {
        states[i].polled_round(states[i + 1], None)
    }

    /// A run of rounds without a message, extended by one more round that
    /// gave `r`, is a receive run; when `r` is `None` every round of the
    /// longer run is quiet.
    proof fn lemma_extend_run(prev: Seq<Self>, next: Self, r: Option<(String, String)>)
        requires
            prev.len() >= 1,
            forall|i: int| 0 <= i < prev.len() - 1 ==> #[trigger] Self::quiet_round(prev, i),
            prev.last().polled_round(next, r),
        ensures
            prev.push(next)[0] == prev[0],
            prev.push(next).last() == next,
            Self::receive_run(prev.push(next), r),
            r is None ==> forall|i: int|
                0 <= i < prev.push(next).len() - 1 ==> #[trigger] Self::quiet_round(prev.push(next), i),
    {
        let s = prev.push(next);
        assert forall|i: int| 0 <= i < s.len() - 2 implies #[trigger] Self::quiet_round(s, i) by {
            assert(Self::quiet_round(prev, i));
            assert(s[i] == prev[i] && s[i + 1] == prev[i + 1]);
        }
        assert(s[s.len() - 2] == prev.last());
        if r is None {
            assert forall|i: int| 0 <= i < s.len() - 1 implies #[trigger] Self::quiet_round(s, i) by {
                if i < s.len() - 2 {
                    assert(Self::quiet_round(prev, i));
                    assert(s[i] == prev[i] && s[i + 1] == prev[i + 1]);
                }
            }
        }
    }

    /// Both links healthy with no failures, remote first.
    pub fn new(primary: L, backup: L, config: Config) -> (d: Self)
        ensures
            d.primary == primary,
            d.backup == backup,
            d.config == config,
            d.current_primary_is_remote,
            d.primary_health == (HealthState { consecutive_failures: 0, enabled: true }),
            d.backup_health == (HealthState { consecutive_failures: 0, enabled: true }),
    {
        Dispatcher {
            primary,
            backup,
            primary_health: HealthState::new(true),
            backup_health: HealthState::new(true),
            config,
            current_primary_is_remote: true,
        }
    }

    /// The link currently in use.
    pub fn active_link(&self) -> (l: &L)
        ensures
            self.current_primary_is_remote ==> *l == self.primary,
            !self.current_primary_is_remote ==> *l == self.backup,
    {
        if self.current_primary_is_remote {
            &self.primary
        } else {
            &self.backup
        }
    }

    /// Applies the fail-over rule; tells whether the primary changed.
    pub fn maybe_failover(&mut self) -> (switched: bool)
        ensures
            *final(self) == old(self).after_failover(),
            switched == failover_step(
                old(self).current_primary_is_remote,
                old(self).primary_health.consecutive_failures,
                old(self).backup_health.consecutive_failures,
                old(self).config.fail_threshold,
            ).1,
    {
        let threshold = if self.config.fail_threshold < 1 {
            1
        } else {
            self.config.fail_threshold
        };
        let remote_failures = self.primary_health.failures();
        let mesh_failures = self.backup_health.failures();
        let remote_is_primary = self.current_primary_is_remote;
        if remote_is_primary && remote_failures >= threshold {
            self.current_primary_is_remote = false;
            return true;
        }
        if !remote_is_primary && mesh_failures >= threshold {
            self.current_primary_is_remote = true;
            return true;
        }
        false
    }

    /// Records a success or failure of the primary link (`primary`) or of the
    /// backup link, on that link's own counter.
    pub fn record_outcome(&mut self, primary: bool, ok: bool)
        ensures
            *final(self) == old(self).after_outcome(primary, ok),
    {
        if primary {
            if ok {
                self.primary_health.record_success();
            } else {
                self.primary_health.record_failure();
            }
        } else {
            if ok {
                self.backup_health.record_success();
            } else {
                self.backup_health.record_failure();
            }
        }
    }

    /// Sends on the active link and records the outcome on that link's own
    /// counter: the primary's while the primary is in use, the backup's
    /// otherwise.
    pub fn send(&mut self, topic: &str, payload: &str) -> (r: Result<(), String>)
        ensures
            old(self).active().may_send(topic@, payload@, r),
            *final(self) == old(self).after_outcome(old(self).current_primary_is_remote, r is Ok),
    {
        let remote = self.current_primary_is_remote;
        let res = if remote {
            self.primary.send(topic, payload)
        } else {
            self.backup.send(topic, payload)
        };
        let ok = res.is_ok();
        self.record_outcome(remote, ok);
        res
    }

    /// One receive round: polls the primary, then the backup, for one window
    /// each, recording each outcome; the first message ends the round. A round
    /// without a message ends with the fail-over rule.
    pub fn poll_links(&mut self) -> (r: Option<(String, String)>)
        ensures
            old(self).polled_round(*final(self), r),
    {
        let ghost start = *self;
        let first = self.primary.recv(POLL_WINDOW_MS);
        let ghost r1 = first;
        match first {
            Ok(Some(msg)) => {
                self.record_outcome(true, true);
                proof {
                    assert(start.primary.may_reply(POLL_WINDOW_MS, r1));
                    assert(*self == start.after_poll(true, r1));
                }
                return Some(msg);
            },
            Ok(None) => {},
            Err(_) => {
                self.record_outcome(true, false);
            },
        }
        proof {
            assert(*self == start.after_poll(true, r1));
        }
        let ghost mid = *self;
        let second = self.backup.recv(POLL_WINDOW_MS);
        let ghost r2 = second;
        let r = match second {
            Ok(Some(msg)) => {
                self.record_outcome(false, true);
                Some(msg)
            },
            Ok(None) => {
                self.maybe_failover();
                None
            },
            Err(_) => {
                self.record_outcome(false, false);
                self.maybe_failover();
                None
            },
        };
        proof {
            assert(start.backup.may_reply(POLL_WINDOW_MS, r2));
            assert(start.primary.may_reply(POLL_WINDOW_MS, r1));
            assert(!has_message(r1));
            assert(start.round_with(*self, r, r1, r2));
        }
        r
    }

    /// Receives from either link: rounds of `poll_links` (the primary, then
    /// the backup, one window each) until a round gives a message, which is
    /// returned, or, after a round without one, `timeout` has passed since
    /// the call began, and then `None`. There is always at least one round.
    /// After each round `keeps_receiving` decides, from whether the round gave
    /// a message, the rounds made and the clock's answer. The time is the
    /// machine's, so the contract states the rounds and not when the time is
    /// up; a run of `u64::MAX` rounds ends it as well.
    pub fn recv(&mut self, timeout: std::time::Duration) -> (r: Option<(String, String)>)
        ensures
            exists|states: Seq<Self>|
                states[0] == *old(self) && states.last() == *final(self) && #[trigger] Self::receive_run(
                    states,
                    r,
                ),
    {
        let started = clock_now();
        let ghost start = *self;
        let ghost mut states: Seq<Self> = seq![*self];
        let mut rounds: u64 = 0;
        loop
            invariant
                rounds < u64::MAX,
                states.len() == rounds + 1,
                start == *old(self),
                states[0] == start,
                states.last() == *self,
                forall|i: int| 0 <= i < states.len() - 1 ==> #[trigger] Self::quiet_round(states, i),
            decreases u64::MAX - rounds,
        {
            let got = self.poll_links();
            proof {
                Self::lemma_extend_run(states, *self, got);
                states = states.push(*self);
            }
            rounds = rounds + 1;
            let time_up = if got.is_none() {
                let elapsed = elapsed_since(&started);
                duration_reached(&elapsed, &timeout)
            } else {
                false
            };
            if !keeps_receiving(got.is_some(), rounds, time_up) {
                proof {
                    assert(Self::receive_run(states, got));
                }
                return got;
            }
        }
    }

    /// Routing decision for a message: report text, script command line, or refusal.
    pub fn plan_route(&self, topic: &str, payload: &str) -> (r: Result<RouteAction, String>)
        ensures
            r matches Ok(RouteAction::Report(t)) ==> route_plan(self.config, topic@, payload@)
                == Ok::<(bool, Seq<char>), Seq<char>>((true, t@)),
            r matches Ok(RouteAction::Script(c)) ==> route_plan(self.config, topic@, payload@)
                == Ok::<(bool, Seq<char>), Seq<char>>((false, c@)),
            r matches Err(e) ==> route_plan(self.config, topic@, payload@) == Err::<
                (bool, Seq<char>),
                Seq<char>,
            >(e@),
    {
        let route = match self.config.find_route(topic) {
            Some(r) => r,
            None => {
                return Err(String::from_str("无路由匹配: ").concat(topic));
            },
        };
        let action = route.action.as_str();
        if text_eq(action, "builtin:report") {
            Ok(RouteAction::Report(String::from_str("report:").concat(payload)))
        } else if starts_with(action, "script:") {
            proof {
                reveal_strlit("script:");
            }
            let n = action.unicode_len();
            let cmd = action.substring_char(7, n);
            let line = String::from_str(cmd).concat(" '").concat(shell_escape(payload).as_str()).concat(
                "'",
            );
            Ok(RouteAction::Script(line))
        } else {
            Err(String::from_str("未知动作: ").concat(action))
        }
    }
}

/// The status file's content: the pretty JSON of the object with
/// `active_primary` (`remote` or `mesh`), both failure counts and the
/// threshold.
pub open spec fn status_text(active: Seq<char>, remote_failures: u32, mesh_failures: u32, threshold: u32) -> Seq<char> {
    pretty_object_text(
        seq![("active_primary"@, active)],
        seq![
            ("remote_failures"@, remote_failures as u64),
            ("mesh_failures"@, mesh_failures as u64),
            ("fail_threshold"@, threshold as u64),
        ],
        Seq::empty(),
    )
}

impl<L: Link> Dispatcher<L> {
    /// The status file's content (`status_text`).
    pub fn status_json(&self) -> (r: String)
        ensures
            r@ == status_text(
                if self.current_primary_is_remote { "remote"@ } else { "mesh"@ },
                self.primary_health.consecutive_failures,
                self.backup_health.consecutive_failures,
                self.config.fail_threshold,
            ),
    {
        let active = if self.current_primary_is_remote {
            "remote"
        } else {
            "mesh"
        };
        let mut texts: Vec<(String, String)> = Vec::new();
        texts.push((String::from_str("active_primary"), String::from_str(active)));
        let mut numbers: Vec<(String, u64)> = Vec::new();
        numbers.push((String::from_str("remote_failures"), self.primary_health.failures() as u64));
        numbers.push((String::from_str("mesh_failures"), self.backup_health.failures() as u64));
        numbers.push((String::from_str("fail_threshold"), self.config.fail_threshold as u64));
        let lists: Vec<(String, Vec<Vec<(String, String)>>)> = Vec::new();
        proof {
            assert(text_pairs(texts@) =~= seq![("active_primary"@, active@)]);
            assert(number_pairs(numbers@) =~= seq![
                ("remote_failures"@, self.primary_health.consecutive_failures as u64),
                ("mesh_failures"@, self.backup_health.consecutive_failures as u64),
                ("fail_threshold"@, self.config.fail_threshold as u64),
            ]);
            assert(list_pairs(lists@) =~= Seq::empty());
        }
        pretty_object(&texts, &numbers, &lists)
    }
}

} // verus!
