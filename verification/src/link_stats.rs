//! Link statistics of the communication centre's internal bus, its automatic
//! switch-over rule, and the routing of bus envelopes.
use vstd::prelude::*;
use crate::numparse::{parse_u16, parse_unsigned};
use crate::text::{last_pos, trim_start_matches, trim_start_pat};
use crate::json::{compact_object, compact_object_text, flag_pairs, map_pairs, number_pairs, text_pairs};

verus! {

/// State of one link.
#[derive(Debug, Clone, Copy, PartialEq, Eq, Structural)]
pub enum LinkState {
    Up,
    Down,
}

impl LinkState {
    pub fn as_str(&self) -> (r: &'static str)
        ensures
            *self == LinkState::Up ==> r@ == "up"@,
            *self == LinkState::Down ==> r@ == "down"@,
    {
        match self {
            LinkState::Up => "up",
            LinkState::Down => "down",
        }
    }
}

/// Health of one link.
#[derive(Debug, Clone, Copy, PartialEq, Eq, Structural)]
pub struct LinkHealth {
    pub state: LinkState,
    /// Consecutive failures.
    pub consecutive_failures: u32,
}

impl Default for LinkHealth {
    fn default() -> (h: LinkHealth)
        ensures
            h == (LinkHealth { state: LinkState::Up, consecutive_failures: 0 }),
    {
        LinkHealth { state: LinkState::Up, consecutive_failures: 0 }
    }
}

/// Counters of the bus and its links.
#[derive(Debug, Clone, Copy, PartialEq, Eq, Structural)]
pub struct LinkStats {
    pub primary: LinkHealth,
    pub secondary: LinkHealth,
    /// Backup link (WS / MQTT ...).
    pub backup: LinkHealth,
    pub rx_msgs: u64,
    pub tx_msgs: u64,
    pub failures: u64,
    pub auto_switches: u64,
}

/// Failures in a row after which a link counts as down.
pub open spec fn down_after() -> u32 {
    2
}

/// The primary link after one more failure, and whether it switched over.
pub open spec fn primary_failure_step(h: LinkHealth) -> (LinkHealth, bool) {
    let n = (h.consecutive_failures + 1) as u32;
    if n >= down_after() && h.state == LinkState::Up {
        (LinkHealth { state: LinkState::Down, consecutive_failures: n }, true)
    } else {
        (LinkHealth { state: h.state, consecutive_failures: n }, false)
    }
}

impl Default for LinkStats {
    fn default() -> (s: LinkStats)
        ensures
            s.primary == (LinkHealth { state: LinkState::Up, consecutive_failures: 0 }),
            s.secondary == (LinkHealth { state: LinkState::Up, consecutive_failures: 0 }),
            s.backup == (LinkHealth { state: LinkState::Up, consecutive_failures: 0 }),
            s.rx_msgs == 0,
            s.tx_msgs == 0,
            s.failures == 0,
            s.auto_switches == 0,
    {
        LinkStats {
            primary: LinkHealth::default(),
            secondary: LinkHealth::default(),
            backup: LinkHealth::default(),
            rx_msgs: 0,
            tx_msgs: 0,
            failures: 0,
            auto_switches: 0,
        }
    }
}

impl LinkStats {
    /// A primary failure: counts it, and after two in a row marks the primary
    /// down and counts one automatic switch (only on the transition).
    pub fn mark_primary_failure(&mut self)
        requires
            old(self).failures < u64::MAX,
            old(self).primary.consecutive_failures < u32::MAX,
            old(self).auto_switches < u64::MAX,
        ensures
            final(self).failures == old(self).failures + 1,
            final(self).primary == primary_failure_step(old(self).primary).0,
            final(self).auto_switches == old(self).auto_switches + if primary_failure_step(
                old(self).primary,
            ).1 {
                1int
            } else {
                0int
            },
            final(self).secondary == old(self).secondary,
            final(self).backup == old(self).backup,
            final(self).rx_msgs == old(self).rx_msgs,
            final(self).tx_msgs == old(self).tx_msgs,
    {
        self.failures = self.failures + 1;
        self.primary.consecutive_failures = self.primary.consecutive_failures + 1;
        if self.primary.consecutive_failures >= 2 {
            if self.primary.state == LinkState::Up {
                self.primary.state = LinkState::Down;
                self.auto_switches = self.auto_switches + 1;
            }
        }
    }

    /// A primary success: the primary is up with no failures.
    pub fn mark_primary_ok(&mut self)
        ensures
            *final(self) == (LinkStats {
                primary: LinkHealth { state: LinkState::Up, consecutive_failures: 0 },
                ..*old(self)
            }),
    {
        self.primary.consecutive_failures = 0;
        self.primary.state = LinkState::Up;
    }

    /// The secondary (broker) link connected: up with no failures.
    pub fn mark_secondary_ok(&mut self)
        ensures
            *final(self) == (LinkStats {
                secondary: LinkHealth { state: LinkState::Up, consecutive_failures: 0 },
                ..*old(self)
            }),
    {
        self.secondary.state = LinkState::Up;
        self.secondary.consecutive_failures = 0;
    }

    /// A secondary failure: counted; from the second in a row on, the link is down
    /// and each such failure is added to the total.
    pub fn mark_secondary_failure(&mut self)
        requires
            old(self).secondary.consecutive_failures < u32::MAX,
            old(self).failures < u64::MAX,
        ensures
            final(self).secondary.consecutive_failures == old(self).secondary.consecutive_failures + 1,
            final(self).secondary.consecutive_failures >= down_after() ==> final(self).secondary.state
                == LinkState::Down && final(self).failures == old(self).failures + 1,
            final(self).secondary.consecutive_failures < down_after() ==> final(self).secondary.state
                == old(self).secondary.state && final(self).failures == old(self).failures,
            final(self).primary == old(self).primary,
            final(self).backup == old(self).backup,
            final(self).rx_msgs == old(self).rx_msgs,
            final(self).tx_msgs == old(self).tx_msgs,
            final(self).auto_switches == old(self).auto_switches,
    {
        self.secondary.consecutive_failures = self.secondary.consecutive_failures + 1;
        if self.secondary.consecutive_failures >= 2 {
            self.secondary.state = LinkState::Down;
            self.failures = self.failures + 1;
        }
    }

    /// One message received on the bus.
    pub fn record_rx(&mut self)
        requires
            old(self).rx_msgs < u64::MAX,
        ensures
            *final(self) == (LinkStats { rx_msgs: (old(self).rx_msgs + 1) as u64, ..*old(self) }),
    {
        self.rx_msgs = self.rx_msgs + 1;
    }

    /// One message sent on the bus.
    pub fn record_tx(&mut self)
        requires
            old(self).tx_msgs < u64::MAX,
        ensures
            *final(self) == (LinkStats { tx_msgs: (old(self).tx_msgs + 1) as u64, ..*old(self) }),
    {
        self.tx_msgs = self.tx_msgs + 1;
    }
}

/// The state's name.
pub open spec fn state_name(s: LinkState) -> Seq<char> {
    match s {
        LinkState::Up => "up"@,
        LinkState::Down => "down"@,
    }
}

/// The statistics as compact JSON: the three link states and the four
/// counters.
pub open spec fn snapshot_text(s: LinkStats) -> Seq<char> {
    compact_object_text(
        seq![
            ("primary"@, state_name(s.primary.state)),
            ("secondary"@, state_name(s.secondary.state)),
            ("backup"@, state_name(s.backup.state)),
        ],
        seq![
            ("rx_msgs"@, s.rx_msgs),
            ("tx_msgs"@, s.tx_msgs),
            ("failures"@, s.failures),
            ("auto_switches"@, s.auto_switches),
        ],
        Seq::empty(),
        Seq::empty(),
    )
}

impl LinkStats {
    /// The statistics as compact JSON (`snapshot_text`).
    pub fn snapshot(&self) -> (r: String)
        ensures
            r@ == snapshot_text(*self),
    {
        let mut texts: Vec<(String, String)> = Vec::new();
        texts.push((String::from_str("primary"), String::from_str(self.primary.state.as_str())));
        texts.push((String::from_str("secondary"), String::from_str(self.secondary.state.as_str())));
        texts.push((String::from_str("backup"), String::from_str(self.backup.state.as_str())));
        let mut numbers: Vec<(String, u64)> = Vec::new();
        numbers.push((String::from_str("rx_msgs"), self.rx_msgs));
        numbers.push((String::from_str("tx_msgs"), self.tx_msgs));
        numbers.push((String::from_str("failures"), self.failures));
        numbers.push((String::from_str("auto_switches"), self.auto_switches));
        let flags: Vec<(String, bool)> = Vec::new();
        let maps: Vec<(String, Vec<(String, String)>)> = Vec::new();
        proof {
            assert(text_pairs(texts@) =~= seq![
                ("primary"@, state_name(self.primary.state)),
                ("secondary"@, state_name(self.secondary.state)),
                ("backup"@, state_name(self.backup.state)),
            ]);
            assert(number_pairs(numbers@) =~= seq![
                ("rx_msgs"@, self.rx_msgs),
                ("tx_msgs"@, self.tx_msgs),
                ("failures"@, self.failures),
                ("auto_switches"@, self.auto_switches),
            ]);
            assert(flag_pairs(flags@) =~= Seq::empty());
            assert(map_pairs(maps@) =~= Seq::empty());
        }
        compact_object(&texts, &numbers, &flags, &maps)
    }

    /// The reply of the SSE access port: event-stream header, an empty event,
    /// then a `state` event with the statistics.
    pub fn sse_reply(&self) -> (r: String)
        ensures
            r@ == "HTTP/1.1 200 OK\r\nContent-Type: text/event-stream\r\nCache-Control: no-cache\n\r\n"@
                + "data: {}\n\n"@ + "event: state\ndata: "@ + snapshot_text(*self) + "\n\n"@,
    {
        String::from_str("HTTP/1.1 200 OK\r\nContent-Type: text/event-stream\r\nCache-Control: no-cache\n\r\n")
            .concat("data: {}\n\n").concat("event: state\ndata: ").concat(self.snapshot().as_str()).concat(
            "\n\n",
        )
    }

    /// The frame the WebSocket access port answers with: the statistics.
    pub fn ws_frame(&self) -> (r: String)
        ensures
            r@ == "data: "@ + snapshot_text(*self) + "\n\n"@,
    {
        String::from_str("data: ").concat(self.snapshot().as_str()).concat("\n\n")
    }
}

/// Kinds of bus envelope.
#[derive(Debug, Clone, Copy, PartialEq, Eq, Structural)]
pub enum EnvelopeKind {
    /// High-level intent (pi-agent to rt-loop).
    Intent,
    /// State report.
    StateReport,
    /// HAL call (pi-agent to hal-gateway).
    HalCall,
    /// HAL result.
    HalResult,
    /// Audit event.
    Audit,
}

/// Service that an envelope is forwarded to.
#[derive(Debug, Clone, Copy, PartialEq, Eq, Structural)]
pub enum BusTarget {
    RtLoop,
    HalGateway,
}

/// Intents go to the real-time loop, HAL calls to the HAL gateway; the rest is
/// only echoed back.
pub fn route_target(kind: EnvelopeKind) -> (t: Option<BusTarget>)
    ensures
        kind == EnvelopeKind::Intent ==> t == Some(BusTarget::RtLoop),
        kind == EnvelopeKind::HalCall ==> t == Some(BusTarget::HalGateway),
        kind != EnvelopeKind::Intent && kind != EnvelopeKind::HalCall ==> t is None,
{
    match kind {
        EnvelopeKind::Intent => Some(BusTarget::RtLoop),
        EnvelopeKind::HalCall => Some(BusTarget::HalGateway),
        _ => None,
    }
}

/// Broker host and port from `mqtt://host:port` or `tcp://host:port`: the scheme
/// is dropped, the port follows the last `:` and defaults to 1883 when it does
/// not parse; without `:` the whole rest is the host.
pub open spec fn broker_address(url: Seq<char>) -> (Seq<char>, u16) {
    let host = trim_start_pat(trim_start_pat(url, "mqtt://"@), "tcp://"@);
    let i = last_pos(host, ':');
    if i < 0 {
        (host, 1883)
    } else {
        let p = host.subrange(i + 1, host.len() as int);
        match parse_unsigned(p, u16::MAX as nat) {
            Some(v) => (host.subrange(0, i), v as u16),
            None => (host.subrange(0, i), 1883),
        }
    }
}

pub fn parse_broker_url(url: &str) -> (r: (String, u16))
    ensures
        (r.0@, r.1) == broker_address(url@),
{
    let a = trim_start_matches(url, "mqtt://");
    let host = trim_start_matches(a, "tcp://");
    match crate::text::rfind_char(host, ':') {
        None => (String::from_str(host), 1883),
        Some(i) => {
            proof {
                crate::text::lemma_last_pos(host@, ':');
            }
            let n = host.unicode_len();
            let h = host.substring_char(0, i);
            let p = host.substring_char(i + 1, n);
            match parse_u16(p) {
                Some(v) => (String::from_str(h), v),
                None => (String::from_str(h), 1883),
            }
        },
    }
}

} // verus!
