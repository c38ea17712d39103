//! Settings of the agent service (`/etc/taihao-os/pi-agent.toml`) and their
//! conversion into the structures the agent loop runs with. A missing or
//! unreadable file means the built-in defaults.
use vstd::prelude::*;
use crate::agent::{views, AgentConfig};
use crate::provider::{default_key_env, default_timeout, ProviderConfig};
use crate::rt_config::{default_modes, standard_modes};
use crate::text::text_eq;

verus! {

/// A hook: a shell command run before or after each decision.
#[derive(Debug, Clone)]
pub struct HookToml {
    /// `before` or `after`; any other value is ignored.
    pub when: String,
    pub command: String,
}

/// The `[agent]` section.
#[derive(Debug, Clone)]
pub struct AgentToml {
    pub tick_secs: u64,
    pub state_file: Option<String>,
    pub decision_file: String,
    pub allowed_modes: Vec<String>,
}

/// The `[provider]` section.
#[derive(Debug, Clone)]
pub struct ProviderToml {
    pub base_url: String,
    pub model: String,
    pub api_key_env: Option<String>,
    pub timeout_secs: u64,
}

/// The whole file.
#[derive(Debug, Clone)]
pub struct Config {
    pub agent: AgentToml,
    pub provider: ProviderToml,
    /// SKILL directories.
    pub skill_dirs: Vec<String>,
    /// Environment variable that holds the SKILL signing key.
    pub signing_key_env: Option<String>,
    pub hooks: Vec<HookToml>,
    /// Extension directories (`extension.toml` tool lists).
    pub extension_dirs: Vec<String>,
}

pub fn default_tick() -> (r: u64)
    ensures
        r == 1,
{
    1
}

pub fn default_decision_file() -> (r: String)
    ensures
        r@ == "/var/lib/taihao-os/pi-agent/decision.json"@,
{
    String::from_str("/var/lib/taihao-os/pi-agent/decision.json")
}

impl Default for AgentToml {
    fn default() -> (a: AgentToml)
        ensures
            a.tick_secs == 1,
            a.state_file is None,
            a.decision_file@ == "/var/lib/taihao-os/pi-agent/decision.json"@,
            views(a.allowed_modes@) == standard_modes(),
    {
        let allowed_modes = default_modes();
        proof {
            assert(views(allowed_modes@) =~= allowed_modes@.map_values(|s: String| s@));
        }
        AgentToml {
            tick_secs: default_tick(),
            state_file: None,
            decision_file: default_decision_file(),
            allowed_modes,
        }
    }
}

impl Default for ProviderToml {
    fn default() -> (p: ProviderToml)
        ensures
            p.base_url@ == "http://127.0.0.1:8000/v1"@,
            p.model@ == "taihao-default"@,
            p.api_key_env is None,
            p.timeout_secs == 10,
    {
        ProviderToml {
            base_url: String::from_str("http://127.0.0.1:8000/v1"),
            model: String::from_str("taihao-default"),
            api_key_env: None,
            timeout_secs: default_timeout(),
        }
    }
}

impl Default for Config {
    fn default() -> (c: Config)
        ensures
            c.agent.tick_secs == 1,
            c.agent.state_file is None,
            c.agent.decision_file@ == "/var/lib/taihao-os/pi-agent/decision.json"@,
            views(c.agent.allowed_modes@) == standard_modes(),
            c.provider.base_url@ == "http://127.0.0.1:8000/v1"@,
            c.provider.model@ == "taihao-default"@,
            c.provider.api_key_env is None,
            c.provider.timeout_secs == 10,
            c.skill_dirs@.len() == 0,
            c.signing_key_env is None,
            c.hooks@.len() == 0,
            c.extension_dirs@.len() == 0,
    {
        Config {
            agent: AgentToml::default(),
            provider: ProviderToml::default(),
            skill_dirs: Vec::new(),
            signing_key_env: None,
            hooks: Vec::new(),
            extension_dirs: Vec::new(),
        }
    }
}

/// The commands of the hooks whose `when` is `when`, in file order.
pub open spec fn hook_commands(hooks: Seq<HookToml>, when: Seq<char>) -> Seq<Seq<char>>
    decreases hooks.len(),
{
    if hooks.len() == 0 {
        Seq::empty()
    } else {
        let rest = hook_commands(hooks.drop_last(), when);
        if hooks.last().when@ == when {
            rest.push(hooks.last().command@)
        } else {
            rest
        }
    }
}

/// The SKILL directories used when the file names none.
pub open spec fn default_skill_dirs() -> Seq<Seq<char>> {
    seq!["/usr/share/taihao-os/skills"@, "/etc/taihao-os/skills"@]
}

/// The SKILL directories to scan.
pub open spec fn runtime_skill_dirs(dirs: Seq<String>) -> Seq<Seq<char>> {
    if dirs.len() == 0 {
        default_skill_dirs()
    } else {
        views(dirs)
    }
}

fn copy_texts(v: &Vec<String>) -> (r: Vec<String>)
    ensures
        views(r@) == views(v@),
{
    let mut r: Vec<String> = Vec::new();
    let mut i: usize = 0;
    while i < v.len()
        invariant
            i <= v@.len(),
            views(r@) == views(v@.subrange(0, i as int)),
        decreases v@.len() - i,
    {
        let ghost old_r = r@;
        let s = v[i].clone();
        r.push(s);
        proof {
            assert(r@ =~= old_r.push(v@[i as int]));
            assert(v@.subrange(0, i + 1) =~= v@.subrange(0, i as int).push(v@[i as int]));
            assert(views(r@) =~= views(old_r).push(v@[i as int]@));
            assert(views(v@.subrange(0, i + 1)) =~= views(v@.subrange(0, i as int)).push(v@[i as int]@));
        }
        i = i + 1;
    }
    proof {
        assert(v@.subrange(0, v@.len() as int) =~= v@);
    }
    r
}

impl Config {
    /// The hook commands split by their `when`: the `before` ones, then the
    /// `after` ones; hooks with any other `when` are dropped.
    fn split_hooks(&self) -> (r: (Vec<String>, Vec<String>))
        ensures
            views(r.0@) == hook_commands(self.hooks@, "before"@),
            views(r.1@) == hook_commands(self.hooks@, "after"@),
    {
        let mut before: Vec<String> = Vec::new();
        let mut after: Vec<String> = Vec::new();
        let mut i: usize = 0;
        proof {
            reveal_strlit("before");
            reveal_strlit("after");
        }
        while i < self.hooks.len()
            invariant
                i <= self.hooks@.len(),
                views(before@) == hook_commands(self.hooks@.subrange(0, i as int), "before"@),
                views(after@) == hook_commands(self.hooks@.subrange(0, i as int), "after"@),
            decreases self.hooks@.len() - i,
        {
            let h = &self.hooks[i];
            let ghost prefix = self.hooks@.subrange(0, i + 1);
            proof {
                reveal_strlit("before");
                reveal_strlit("after");
                assert("before"@.len() != "after"@.len());
                assert(prefix.drop_last() =~= self.hooks@.subrange(0, i as int));
                assert(prefix.last() == self.hooks@[i as int]);
            }
            if text_eq(h.when.as_str(), "before") {
                before.push(h.command.clone());
            } else if text_eq(h.when.as_str(), "after") {
                after.push(h.command.clone());
            }
            proof {
                assert(views(before@) =~= hook_commands(prefix, "before"@));
                assert(views(after@) =~= hook_commands(prefix, "after"@));
            }
            i = i + 1;
        }
        proof {
            assert(self.hooks@.subrange(0, self.hooks@.len() as int) =~= self.hooks@);
        }
        (before, after)
    }

    /// The structures the agent runs with: the loop settings (a decision
    /// period of at least one second, hooks split by `when`, no extension
    /// tools yet), the provider settings (API key in
    /// `OPENAI_API_KEY` unless named) and the SKILL directories (the system
    /// and vendor ones unless named).
    pub fn to_runtime(&self) -> (r: (AgentConfig, ProviderConfig, Vec<String>))
        ensures
            r.0.tick_secs == (if self.agent.tick_secs < 1 {
                1
            } else {
                self.agent.tick_secs
            }),
            r.0.state_file == self.agent.state_file,
            r.0.decision_file == self.agent.decision_file,
            views(r.0.allowed_modes@) == views(self.agent.allowed_modes@),
            views(r.0.hooks_before@) == hook_commands(self.hooks@, "before"@),
            views(r.0.hooks_after@) == hook_commands(self.hooks@, "after"@),
            r.0.extension_tools@.len() == 0,
            r.1.base_url == self.provider.base_url,
            r.1.model == self.provider.model,
            self.provider.api_key_env matches Some(k) ==> r.1.api_key_env == k,
            self.provider.api_key_env is None ==> r.1.api_key_env@ == "OPENAI_API_KEY"@,
            r.1.timeout_secs == self.provider.timeout_secs,
            views(r.2@) == runtime_skill_dirs(self.skill_dirs@),
    {
        let (hooks_before, hooks_after) = self.split_hooks();
        let tick_secs = if self.agent.tick_secs < 1 {
            1
        } else {
            self.agent.tick_secs
        };
        let agent = AgentConfig {
            tick_secs,
            state_file: match &self.agent.state_file {
                Some(p) => Some(p.clone()),
                None => None,
            },
            decision_file: self.agent.decision_file.clone(),
            allowed_modes: copy_texts(&self.agent.allowed_modes),
            hooks_before,
            hooks_after,
            extension_tools: Vec::new(),
        };
        let provider = ProviderConfig {
            base_url: self.provider.base_url.clone(),
            model: self.provider.model.clone(),
            api_key_env: match &self.provider.api_key_env {
                Some(k) => k.clone(),
                None => default_key_env(),
            },
            timeout_secs: self.provider.timeout_secs,
        };
        let skill_dirs = if self.skill_dirs.len() == 0 {
            let mut d: Vec<String> = Vec::new();
            d.push(String::from_str("/usr/share/taihao-os/skills"));
            d.push(String::from_str("/etc/taihao-os/skills"));
            proof {
                assert(views(d@) =~= default_skill_dirs());
            }
            d
        } else {
            copy_texts(&self.skill_dirs)
        };
        (agent, provider, skill_dirs)
    }

    /// The environment variable that holds the SKILL signing key
    /// (`TAIHAO_SKILL_SIGNING_KEY` unless named).
    pub fn signing_key_env_name(&self) -> (r: String)
        ensures
            self.signing_key_env matches Some(k) ==> r == k,
            self.signing_key_env is None ==> r@ == "TAIHAO_SKILL_SIGNING_KEY"@,
    {
        match &self.signing_key_env {
            Some(k) => k.clone(),
            None => String::from_str("TAIHAO_SKILL_SIGNING_KEY"),
        }
    }
}

/// The signing key read from the environment: an unset or empty variable
/// turns signature checking off.
pub fn usable_signing_key(value: Option<String>) -> (r: Option<String>)
    ensures
        r == (match value {
            Some(k) => if k@.len() > 0 { Some(k) } else { None },
            None => None,
        }),
{
    match value {
        Some(k) => if !k.as_str().is_empty() {
            Some(k)
        } else {
            None
        },
        None => None,
    }
}

} // verus!
