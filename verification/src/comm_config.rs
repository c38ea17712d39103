//! Configuration of the dispatch and communication centre
//! (`/etc/taihao-os/comm-center.toml`): the remote link, the local mesh, the
//! fail-over threshold and the topic routing table.
use vstd::prelude::*;
use crate::text::{has_prefix, starts_with, text_eq};

verus! {

/// One routing rule: messages whose topic starts with `topic` get `action`
/// (`script:<command>` or `builtin:report`).
#[derive(Debug, Clone)]
pub struct RouteDef {
    pub topic: String,
    pub action: String,
}

/// Settings of the communication centre.
#[derive(Debug, Clone)]
pub struct Config {
    /// Remote link protocol: sse_http / websocket / mqtt.
    pub remote_proto: String,
    /// Remote endpoint.
    pub remote_endpoint: String,
    /// MQTT topic prefix.
    pub topic_prefix: String,
    /// Local mesh UDP port.
    pub mesh_port: u16,
    /// Health check period (seconds).
    pub health_check_secs: u64,
    /// Periodic status report interval (seconds); 0 turns it off.
    pub status_report_secs: u64,
    /// Consecutive failures before switching links.
    pub fail_threshold: u32,
    /// Routing table, tried in order.
    pub routes: Vec<RouteDef>,
    /// Status report file (JSON).
    pub status_file: String,
}

pub fn default_remote_proto() -> (r: String)
    ensures
        r@ == "sse_http"@,
{
    String::from_str("sse_http")
}

pub fn default_remote_endpoint() -> (r: String)
    ensures
        r@ == "http://127.0.0.1:9000"@,
{
    String::from_str("http://127.0.0.1:9000")
}

pub fn default_topic_prefix() -> (r: String)
    ensures
        r@ == "taihao/"@,
{
    String::from_str("taihao/")
}

pub fn default_mesh_port() -> (r: u16)
    ensures
        r == 41800,
{
    41800
}

pub fn default_health_secs() -> (r: u64)
    ensures
        r == 5,
{
    5
}

pub fn default_status_report_secs() -> (r: u64)
    ensures
        r == 10,
{
    10
}

pub fn default_fail_threshold() -> (r: u32)
    ensures
        r == 3,
{
    3
}

pub fn default_status_file() -> (r: String)
    ensures
        r@ == "/var/lib/taihao-os/comm-center/status.json"@,
{
    String::from_str("/var/lib/taihao-os/comm-center/status.json")
}

/// A route matches a topic that starts with its topic (or equals it).
pub open spec fn route_matches(topic: Seq<char>, r: RouteDef) -> bool {
    has_prefix(topic, r.topic@) || topic == r.topic@
}

/// Index of the first matching route, or -1.
pub open spec fn first_route(routes: Seq<RouteDef>, topic: Seq<char>) -> int
    decreases routes.len(),
{
    if routes.len() == 0 {
        -1
    } else if route_matches(topic, routes[0]) {
        0
    } else {
        let r = first_route(routes.drop_first(), topic);
        if r < 0 {
            -1
        } else {
            r + 1
        }
    }
}

proof fn lemma_first_route_unique(routes: Seq<RouteDef>, topic: Seq<char>, i: int)
    requires
        -1 <= i < routes.len(),
        i >= 0 ==> route_matches(topic, routes[i]),
        forall|j: int| 0 <= j < routes.len() && (i < 0 || j < i) ==> !route_matches(topic, routes[j]),
    ensures
        first_route(routes, topic) == i,
    decreases routes.len(),
{
    if routes.len() > 0 && i != 0 {
        let rest = routes.drop_first();
        assert(!route_matches(topic, routes[0]));
        let k = if i < 0 { -1 } else { i - 1 };
        assert forall|j: int| 0 <= j < rest.len() && (k < 0 || j < k) implies !route_matches(topic, rest[j]) by {
            assert(rest[j] == routes[j + 1]);
        }
        if k >= 0 {
            assert(rest[k] == routes[i]);
        }
        lemma_first_route_unique(rest, topic, k);
    }
}

impl Default for Config {
    fn default() -> (c: Config)
        ensures
            c.remote_proto@ == "sse_http"@,
            c.remote_endpoint@ == "http://127.0.0.1:9000"@,
            c.topic_prefix@ == "taihao/"@,
            c.mesh_port == 41800,
            c.health_check_secs == 5,
            c.status_report_secs == 10,
            c.fail_threshold == 3,
            c.routes@.len() == 2,
            c.routes@[0].topic@ == "task"@,
            c.routes@[0].action@ == "builtin:report"@,
            c.routes@[1].topic@ == "command"@,
            c.routes@[1].action@ == "builtin:report"@,
            c.status_file@ == "/var/lib/taihao-os/comm-center/status.json"@,
    {
        let mut routes: Vec<RouteDef> = Vec::new();
        routes.push(
            RouteDef { topic: String::from_str("task"), action: String::from_str("builtin:report") },
        );
        routes.push(
            RouteDef {
                topic: String::from_str("command"),
                action: String::from_str("builtin:report"),
            },
        );
        Config {
            remote_proto: default_remote_proto(),
            remote_endpoint: default_remote_endpoint(),
            topic_prefix: default_topic_prefix(),
            mesh_port: default_mesh_port(),
            health_check_secs: default_health_secs(),
            status_report_secs: default_status_report_secs(),
            fail_threshold: default_fail_threshold(),
            routes,
            status_file: default_status_file(),
        }
    }
}

impl Config {
    /// Applies the `REMOTE_ENDPOINT` setting (`ep`, `None` when it is unset):
    /// a non-empty value replaces the remote endpoint, and the warning that
    /// says so is returned; otherwise nothing changes.
    pub fn override_endpoint(&mut self, ep: Option<String>) -> (warning: Option<String>)
        ensures
            (ep matches Some(e) && e@.len() > 0) ==> *final(self) == (Config {
                remote_endpoint: ep->0,
                ..*old(self)
            }) && (warning matches Some(w) && w@ == "REMOTE_ENDPOINT 环境变量覆盖 remote_endpoint: "@
                + ep->0@),
            !(ep matches Some(e) && e@.len() > 0) ==> *final(self) == *old(self) && warning is None,
    {
        match ep {
            Some(e) => {
                if e.as_str().unicode_len() > 0 {
                    let w = String::from_str("REMOTE_ENDPOINT 环境变量覆盖 remote_endpoint: ").concat(e.as_str());
                    self.remote_endpoint = e;
                    Some(w)
                } else {
                    None
                }
            },
            None => None,
        }
    }

    /// The first route whose topic is a prefix of `topic`.
    pub fn find_route(&self, topic: &str) -> (r: Option<&RouteDef>)
        ensures
            r is None <==> first_route(self.routes@, topic@) < 0,
            r matches Some(d) ==> *d == self.routes@[first_route(self.routes@, topic@)],
    {
        let n = self.routes.len();
        let mut i: usize = 0;
        while i < n
            invariant
                n == self.routes@.len(),
                i <= n,
                forall|j: int| 0 <= j < i ==> !route_matches(topic@, #[trigger] self.routes@[j]),
            decreases n - i,
        {
            let r = &self.routes[i];
            if starts_with(topic, r.topic.as_str()) || text_eq(topic, r.topic.as_str()) {
                proof {
                    lemma_first_route_unique(self.routes@, topic@, i as int);
                }
                return Some(r);
            }
            i = i + 1;
        }
        proof {
            lemma_first_route_unique(self.routes@, topic@, -1);
        }
        None
    }
}

} // verus!
