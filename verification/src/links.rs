//! The two links of the communication centre: a remote link (HTTP + SSE,
//! WebSocket or MQTT) and the local UDP mesh. This module holds the link
//! interface, the health counters and the framing and addressing of messages;
//! the sockets themselves live with the service program.
use vstd::prelude::*;
use crate::text::{
    first_pos, split_once_char, trim, trim_end_char, trim_end_matches_char, trim_ws,
};

verus! {

/// A reply to one poll of a link: a message, nothing within the window, or an
/// error.
pub type PollReply = Result<Option<(String, String)>, String>;

/// A link: health probe, send and receive of `(topic, payload)` messages.
/// Implementations say, through the two relations, which outcomes their
/// sockets can produce; the dispatcher's contracts speak of these relations.
pub trait Link {
    /// The link's stable name ("remote-sse", "mesh", ...). An implementation
    /// gives it here; the text of `name` is tied to it.
    closed spec fn link_name(&self) -> Seq<char> {
        Seq::empty()
    }

    /// `r` is a reply the link may give to a poll that waits `timeout_ms`
    /// milliseconds. Unless an implementation narrows it, any reply may come.
    closed spec fn may_reply(&self, timeout_ms: u64, r: PollReply) -> bool {
        true
    }

    /// `r` is an outcome the link may give when sending `payload` under
    /// `topic`. Unless an implementation narrows it, any outcome may come.
    closed spec fn may_send(&self, topic: Seq<char>, payload: Seq<char>, r: Result<(), String>) -> bool {
        true
    }

    /// The link's name.
    fn name(&self) -> (r: String)
        ensures
            r@ == self.link_name(),
    ;

    /// Whether the link may be used.
    fn healthy(&self) -> bool;

    /// Sends one message.
    fn send(&self, topic: &str, payload: &str) -> (r: Result<(), String>)
        ensures
            self.may_send(topic@, payload@, r),
    ;

    /// Waits up to `timeout_ms` milliseconds for one message; `Ok(None)` when
    /// none came.
    fn recv(&self, timeout_ms: u64) -> (r: PollReply)
        ensures
            self.may_reply(timeout_ms, r),
    ;
}

/// Consecutive-failure counter and enable flag of a link.
#[derive(Debug, Clone)]
pub struct HealthState {
    pub consecutive_failures: u32,
    pub enabled: bool,
}

/// The counter after one more failure: it counts modulo 2^32.
pub open spec fn bumped(n: u32) -> u32 {
    if n == u32::MAX {
        0
    } else {
        (n + 1) as u32
    }
}

impl HealthState {
    pub fn new(enabled: bool) -> (h: HealthState)
        ensures
            h.consecutive_failures == 0,
            h.enabled == enabled,
    {
        HealthState { consecutive_failures: 0, enabled }
    }

    /// A success clears the failure count.
    pub fn record_success(&mut self)
        ensures
            final(self).consecutive_failures == 0,
            final(self).enabled == old(self).enabled,
    {
        self.consecutive_failures = 0;
    }

    /// A failure adds one to the count (wrapping at 2^32).
    pub fn record_failure(&mut self)
        ensures
            final(self).consecutive_failures == bumped(old(self).consecutive_failures),
            final(self).enabled == old(self).enabled,
    {
        if self.consecutive_failures == u32::MAX {
            self.consecutive_failures = 0;
        } else {
            self.consecutive_failures = self.consecutive_failures + 1;
        }
    }

    pub fn failures(&self) -> (n: u32)
        ensures
            n == self.consecutive_failures,
    {
        self.consecutive_failures
    }

    pub fn is_enabled(&self) -> (b: bool)
        ensures
            b == self.enabled,
    {
        self.enabled
    }

    pub fn set_enabled(&mut self, v: bool)
        ensures
            final(self).enabled == v,
            final(self).consecutive_failures == old(self).consecutive_failures,
    {
        self.enabled = v;
    }
}

/// Wire form of a message: the topic, a newline, the payload.
pub open spec fn frame_of(topic: Seq<char>, payload: Seq<char>) -> Seq<char> {
    topic + seq!['\n'] + payload
}

/// A message read back from its wire form: up to the first newline is the topic;
/// text without a newline is a payload under `fallback_topic`.
pub open spec fn unframe(text: Seq<char>, fallback_topic: Seq<char>) -> (Seq<char>, Seq<char>) {
    let i = first_pos(text, '\n');
    if i < 0 {
        (fallback_topic, text)
    } else {
        (text.subrange(0, i), text.subrange(i + 1, text.len() as int))
    }
}

/// Builds the wire form of a message.
pub fn frame(topic: &str, payload: &str) -> (r: String)
    ensures
        r@ == frame_of(topic@, payload@),
{
    proof {
        reveal_strlit("\n");
    }
    let t = String::from_str(topic);
    let t = t.concat("\n");
    let r = t.concat(payload);
    proof {
        assert(r@ =~= frame_of(topic@, payload@));
    }
    r
}

/// Splits a wire message into topic and payload.
pub fn unframe_message(text: &str, fallback_topic: &str) -> (r: (String, String))
    ensures
        (r.0@, r.1@) == unframe(text@, fallback_topic@),
{
    match split_once_char(text, '\n') {
        Some((t, p)) => (String::from_str(t), String::from_str(p)),
        None => (String::from_str(fallback_topic), String::from_str(text)),
    }
}

/// A datagram received on the mesh: `topic\npayload`, or `raw` when it has no newline.
pub fn parse_mesh_datagram(text: &str) -> (r: (String, String))
    ensures
        (r.0@, r.1@) == unframe(text@, "raw"@),
{
    unframe_message(text, "raw")
}

/// The body of the remote event endpoint: nothing when it is blank, otherwise
/// `topic\npayload`, or an `event` with the whole body as payload.
pub open spec fn events_reply(text: Seq<char>) -> Option<(Seq<char>, Seq<char>)> {
    if trim_ws(text).len() == 0 {
        None
    } else {
        Some(unframe(text, "event"@))
    }
}

pub fn parse_events_body(text: &str) -> (r: Option<(String, String)>)
    ensures
        r is None <==> events_reply(text@) is None,
        r matches Some((t, p)) ==> events_reply(text@) == Some((t@, p@)),
{
    let t = trim(text);
    if t.unicode_len() == 0 {
        None
    } else {
        Some(unframe_message(text, "event"))
    }
}

/// Remote link: SSE subscription for receiving, HTTP POST for reporting.
pub struct SseHttpLink {
    pub name_: String,
    pub base: String,
    pub topic_prefix: String,
    pub health: HealthState,
}

impl SseHttpLink {
    pub fn new(base: String, topic_prefix: String) -> (l: SseHttpLink)
        ensures
            l.name_@ == "remote-sse"@,
            l.base == base,
            l.topic_prefix == topic_prefix,
            l.health.consecutive_failures == 0,
            l.health.enabled,
    {
        SseHttpLink {
            name_: String::from_str("remote-sse"),
            base,
            topic_prefix,
            health: HealthState::new(true),
        }
    }

    /// `{base}/report/{topic}`, with the base's trailing slashes dropped.
    pub fn report_url(&self, topic: &str) -> (r: String)
        ensures
            r@ == trim_end_char(self.base@, '/') + "/report/"@ + topic@,
    {
        let b = String::from_str(trim_end_matches_char(self.base.as_str(), '/'));
        b.concat("/report/").concat(topic)
    }

    /// `{base}/events/{topic_prefix}`, with trailing slashes of both dropped.
    pub fn events_url(&self) -> (r: String)
        ensures
            r@ == trim_end_char(self.base@, '/') + "/events/"@ + trim_end_char(
                self.topic_prefix@,
                '/',
            ),
    {
        let b = String::from_str(trim_end_matches_char(self.base.as_str(), '/'));
        b.concat("/events/").concat(trim_end_matches_char(self.topic_prefix.as_str(), '/'))
    }
}

/// Remote link over WebSocket.
pub struct WsAdapter {
    pub name_: String,
    pub endpoint: String,
    pub topic_prefix: String,
    pub health: HealthState,
}

impl WsAdapter {
    pub fn new(endpoint: &str, topic_prefix: &str) -> (w: WsAdapter)
        ensures
            w.name_@ == "remote-ws"@,
            w.endpoint@ == endpoint@,
            w.topic_prefix@ == topic_prefix@,
            w.health.consecutive_failures == 0,
            w.health.enabled,
    {
        WsAdapter {
            name_: String::from_str("remote-ws"),
            endpoint: String::from_str(endpoint),
            topic_prefix: String::from_str(topic_prefix),
            health: HealthState::new(true),
        }
    }
}

/// Full MQTT topic: the prefix followed by the topic.
pub fn mqtt_topic(prefix: &str, topic: &str) -> (r: String)
    ensures
        r@ == prefix@ + topic@,
{
    String::from_str(prefix).concat(topic)
}

} // verus!
