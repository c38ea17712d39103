//! Properties of the services that span several operations or hold of every
//! input, stated over the specifications that the operations' contracts use.
use vstd::prelude::*;
use crate::agent::{json_object_of, unfenced};
use crate::agent_config::{hook_commands, HookToml};
use crate::agent_runtime::{skill_lookup, Skill as RuntimeSkill, SkillRegistry};
use crate::argmap::{param_lookup, ArgMap};
use crate::skill::{frontmatter_split, lines_of, meta_problem, SkillMeta};
use crate::hal_driver::known_drivers;
use crate::hal_service::builtin_devices;
use crate::bridge_service::{builtin_methods, dispatched, MethodReply, RpcFailure};
use crate::bridge::RpcParams;
use vstd::utf8::encode_utf8;
use crate::bridge::{escaped, filtered, member_index, ParamValue};
use crate::dispatcher::{effective_threshold, health_after, Dispatcher};
use crate::health::{decimal, digit_char};
use crate::links::{frame_of, unframe, HealthState, Link};
use crate::link_stats::{primary_failure_step, LinkHealth, LinkState};
use crate::numparse::{all_digits, digits_value, is_digit, parse_unsigned, unsigned_digits};
use crate::text::{
    join, lemma_first_pos, lemma_first_pos_unique, lemma_index_of_text, lemma_last_pos, replace_char,
};

verus! {

/// A framed message reads back as the same topic and payload (whatever the
/// fallback topic) when the topic holds no newline.
pub proof fn law_frame_roundtrip(topic: Seq<char>, payload: Seq<char>, fallback: Seq<char>)
    requires
        !topic.contains('\n'),
    ensures
        unframe(frame_of(topic, payload), fallback) == (topic, payload),
{
    let text = frame_of(topic, payload);
    let n = topic.len() as int;
    assert forall|j: int| 0 <= j < text.len() && j < n implies text[j] != '\n' by {
        assert(text[j] == topic[j]);
        if text[j] == '\n' {
            assert(topic.contains('\n'));
        }
    }
    assert(text[n] == '\n');
    lemma_first_pos_unique(text, '\n', n);
    assert(text.subrange(0, n) =~= topic);
    assert(text.subrange(n + 1, text.len() as int) =~= payload);
}

/// A link's health after `k` more failures.
pub open spec fn after_failures(h: HealthState, k: nat) -> HealthState
    decreases k,
{
    if k == 0 {
        h
    } else {
        health_after(after_failures(h, (k - 1) as nat), false)
    }
}

/// Failures are counted one by one from a success: after a success and `k`
/// failures (fewer than 2^32) the count is `k`.
pub proof fn law_failures_counted(h: HealthState, k: nat)
    requires
        k <= u32::MAX,
    ensures
        after_failures(health_after(h, true), k).consecutive_failures == k,
        after_failures(health_after(h, true), k).enabled == h.enabled,
    decreases k,
{
    if k > 0 {
        law_failures_counted(h, (k - 1) as nat);
    }
}

/// The dispatcher after `k` more failures of the primary (remote) link.
pub open spec fn after_remote_failures<L: Link>(d: Dispatcher<L>, k: nat) -> Dispatcher<L>
    decreases k,
{
    if k == 0 {
        d
    } else {
        after_remote_failures(d, (k - 1) as nat).after_outcome(true, false)
    }
}

/// The dispatcher after `k` more failures of the backup (mesh) link.
pub open spec fn after_mesh_failures<L: Link>(d: Dispatcher<L>, k: nat) -> Dispatcher<L>
    decreases k,
{
    if k == 0 {
        d
    } else {
        after_mesh_failures(d, (k - 1) as nat).after_outcome(false, false)
    }
}

proof fn lemma_remote_failures<L: Link>(d: Dispatcher<L>, k: nat)
    ensures
        after_remote_failures(d, k).primary_health == after_failures(d.primary_health, k),
        after_remote_failures(d, k).backup_health == d.backup_health,
        after_remote_failures(d, k).current_primary_is_remote == d.current_primary_is_remote,
        after_remote_failures(d, k).config == d.config,
    decreases k,
{
    if k > 0 {
        lemma_remote_failures(d, (k - 1) as nat);
    }
}

proof fn lemma_mesh_failures<L: Link>(d: Dispatcher<L>, k: nat)
    ensures
        after_mesh_failures(d, k).backup_health == after_failures(d.backup_health, k),
        after_mesh_failures(d, k).primary_health == d.primary_health,
        after_mesh_failures(d, k).current_primary_is_remote == d.current_primary_is_remote,
        after_mesh_failures(d, k).config == d.config,
    decreases k,
{
    if k > 0 {
        lemma_mesh_failures(d, (k - 1) as nat);
    }
}

/// Fail-over: with the remote link in use and its count cleared by a success,
/// `k` remote failures make the fail-over rule switch to the mesh exactly when
/// `k` reaches the threshold (at least one).
pub proof fn law_failover_to_mesh<L: Link>(d: Dispatcher<L>, k: nat)
    requires
        d.current_primary_is_remote,
        k <= u32::MAX,
    ensures
        ({
            let start = d.after_outcome(true, true);
            !after_remote_failures(start, k).after_failover().current_primary_is_remote <==> k
                >= effective_threshold(d.config.fail_threshold)
        }),
{
    let start = d.after_outcome(true, true);
    lemma_remote_failures(start, k);
    law_failures_counted(d.primary_health, k);
}

/// Fail-back: with the mesh in use and its count cleared by a success, `k`
/// mesh failures make the fail-over rule switch back to the remote link
/// exactly when `k` reaches the threshold.
pub proof fn law_failback_to_remote<L: Link>(d: Dispatcher<L>, k: nat)
    requires
        !d.current_primary_is_remote,
        k <= u32::MAX,
    ensures
        ({
            let start = d.after_outcome(false, true);
            after_mesh_failures(start, k).after_failover().current_primary_is_remote <==> k
                >= effective_threshold(d.config.fail_threshold)
        }),
{
    let start = d.after_outcome(false, true);
    lemma_mesh_failures(start, k);
    law_failures_counted(d.backup_health, k);
}

/// The primary link of the bus goes down on the second failure in a row, and
/// only that transition counts as an automatic switch: failures while it is
/// down switch nothing.
pub proof fn law_switch_counted_once(h: LinkHealth)
    requires
        h.consecutive_failures < u32::MAX - 1,
    ensures
        h.state == LinkState::Up && h.consecutive_failures == 0 ==> ({
            let first = primary_failure_step(h);
            let second = primary_failure_step(first.0);
            &&& !first.1 && first.0.state == LinkState::Up
            &&& second.1 && second.0.state == LinkState::Down
        }),
        h.state == LinkState::Down ==> !primary_failure_step(h).1 && primary_failure_step(h).0.state
            == LinkState::Down,
{
}

/// Only whitelisted parameters pass: every name in the filtered map is one of
/// the tool's argument names, and its value is that of the request's first
/// member of that name.
pub proof fn law_only_whitelisted_params(
    tool_args: Seq<String>,
    members: Seq<(String, ParamValue)>,
    k: Seq<char>,
)
    ensures
        filtered(tool_args, members).contains_key(k) ==> tool_args.map_values(|s: String| s@).contains(k)
            && member_index(members, k) >= 0 && filtered(tool_args, members)[k]
            == members[member_index(members, k)].1.rendered(),
    decreases tool_args.len(),
{
    if tool_args.len() > 0 {
        let rest = tool_args.drop_last();
        law_only_whitelisted_params(rest, members, k);
        let names = tool_args.map_values(|s: String| s@);
        if filtered(tool_args, members).contains_key(k) {
            if k == tool_args.last()@ {
                assert(names[tool_args.len() - 1] == k);
            } else {
                assert(filtered(rest, members).contains_key(k));
                let rn = rest.map_values(|s: String| s@);
                let j = choose|j: int| 0 <= j < rn.len() && rn[j] == k;
                assert(names[j] == k);
            }
        }
    }
}

/// Text without single quotes passes the shell escaping unchanged.
pub proof fn law_escape_plain(s: Seq<char>)
    requires
        !s.contains('\''),
    ensures
        escaped(s) == s,
    decreases s.len(),
{
    if s.len() > 0 {
        let rest = s.drop_first();
        assert(!rest.contains('\'')) by {
            if rest.contains('\'') {
                let j = choose|j: int| 0 <= j < rest.len() && rest[j] == '\'';
                assert(s[j + 1] == '\'');
            }
        }
        law_escape_plain(rest);
        assert(s[0] != '\'');
        assert(seq![s[0]] + rest =~= s);
        assert(escaped(s) == replace_char(s, '\'', "'\\''"@));
    }
}

/// The hooks whose `when` is `when`.
pub open spec fn hook_is(when: Seq<char>) -> spec_fn(HookToml) -> bool {
    |h: HookToml| h.when@ == when
}

/// A hook's command.
pub open spec fn hook_command() -> spec_fn(HookToml) -> Seq<char> {
    |h: HookToml| h.command@
}

/// Hooks split by their `when`: each list holds, in file order, the commands
/// of exactly the hooks with that `when`; hooks with any other `when` land in
/// neither list.
pub proof fn law_hooks_split(hooks: Seq<HookToml>, when: Seq<char>)
    ensures
        hook_commands(hooks, when) == hooks.filter(hook_is(when)).map_values(hook_command()),
    decreases hooks.len(),
{
    if hooks.len() > 0 {
        let rest = hooks.drop_last();
        law_hooks_split(rest, when);
        let f = rest.filter(hook_is(when));
        reveal(Seq::<HookToml>::filter);
        assert(hooks.filter(hook_is(when)) == (if hook_is(when)(hooks.last()) {
            f.push(hooks.last())
        } else {
            f
        }));
        if hooks.last().when@ == when {
            assert(f.push(hooks.last()).map_values(hook_command()) =~= f.map_values(
                hook_command(),
            ).push(hooks.last().command@));
        }
    }
}

proof fn lemma_decimal(n: nat)
    ensures
        decimal(n).len() > 0,
        all_digits(decimal(n)),
        digits_value(decimal(n)) == n,
    decreases n,
{
    if n >= 10 {
        lemma_decimal(n / 10);
        let s = decimal(n);
        assert(s.drop_last() =~= decimal(n / 10));
        assert(s.last() == digit_char(n % 10));
        assert((digit_char(n % 10) as u32) == n % 10 + 48);
        assert(n == (n / 10) * 10 + n % 10);
        assert(digits_value(s) == digits_value(s.drop_last()) * 10 + ((s.last() as u32) - ('0' as u32)) as nat);
        assert(digits_value(s) == (n / 10) * 10 + n % 10);
        assert forall|i: int| 0 <= i < s.len() implies is_digit(#[trigger] s[i]) by {
            if i < s.len() - 1 {
                assert(s[i] == decimal(n / 10)[i]);
            }
        }
    } else {
        let s = decimal(n);
        assert(s[0] == digit_char(n));
        assert((digit_char(n) as u32) == n + 48);
        assert(s.drop_last() =~= Seq::<char>::empty());
        assert(digits_value(s.drop_last()) == 0);
        assert(digits_value(s) == n);
    }
}

/// A counter written in decimal parses back to the same number with
/// `str::parse` for any type whose largest value is at least the number.
pub proof fn law_decimal_parses_back(n: nat, max: nat)
    requires
        n <= max,
    ensures
        parse_unsigned(decimal(n), max) == Some(n),
{
    lemma_decimal(n);
    let s = decimal(n);
    assert(is_digit(s[0]));
    assert(unsigned_digits(s) == s);
}

/// The JSON object cut from a model answer runs from a `{` to a `}`.
pub proof fn law_json_object_braces(raw: Seq<char>)
    ensures
        json_object_of(raw) matches Ok(t) ==> (t.len() > 0 ==> t[0] == '{' && t.last() == '}'),
{
    let c = unfenced(raw);
    lemma_first_pos(c, '{');
    lemma_last_pos(c, '}');
}

/// A package whose lines are `---`, the frontmatter lines (none of them
/// `---`), `---`, then the body lines splits into exactly that frontmatter and
/// that body, each joined with newlines.
pub proof fn law_frontmatter_between_delimiters(
    content: Seq<char>,
    front: Seq<Seq<char>>,
    body: Seq<Seq<char>>,
)
    requires
        !front.contains("---"@),
        lines_of(content) == seq!["---"@] + front + seq!["---"@] + body,
    ensures
        frontmatter_split(content) == Ok::<(Seq<char>, Seq<char>), Seq<char>>(
            (join(front, "\n"@), join(body, "\n"@)),
        ),
{
    let lines = lines_of(content);
    let n = front.len() as int;
    assert(lines[0] == "---"@);
    let rest = lines.subrange(1, lines.len() as int);
    assert(rest[n] == "---"@);
    assert forall|j: int| 0 <= j < rest.len() && (n < 0 || j < n) implies rest[j] != "---"@ by {
        assert(rest[j] == front[j]);
        if rest[j] == "---"@ {
            assert(front.contains("---"@));
        }
    }
    lemma_index_of_text(rest, "---"@, n);
    assert(lines.subrange(1, 1 + n) =~= front);
    assert(lines.subrange(n + 2, lines.len() as int) =~= body);
}

/// Reading the SKILL registry after registering a skill gives that skill
/// under its name and leaves every other name as it was.
pub proof fn law_registry_read_after_write(before: SkillRegistry, skill: RuntimeSkill, other: Seq<char>)
    ensures
        skill_lookup(before.with_skill(skill), skill.name@) == Some(skill),
        other != skill.name@ ==> skill_lookup(before.with_skill(skill), other) == skill_lookup(before@, other),
{
}

/// Reading a parameter map after storing a value gives that value under its
/// name and leaves every other name as it was.
pub proof fn law_params_read_after_write(before: ArgMap, key: Seq<char>, value: Seq<char>, other: Seq<char>)
    ensures
        param_lookup(before.with_param(key, value), key) == Some(value),
        other != key ==> param_lookup(before.with_param(key, value), other) == param_lookup(before@, other),
{
}

/// SKILL metadata whose name is 1 to 64 bytes of lower-case ASCII letters,
/// ASCII digits and `-`, with a version and a description, has no problem:
/// `validate` accepts it.
pub proof fn law_valid_skill_meta_accepted(meta: SkillMeta)
    requires
        meta.name@.len() >= 1,
        encode_utf8(meta.name@).len() <= 64,
        forall|i: int|
            0 <= i < meta.name@.len() ==> ('a' <= #[trigger] meta.name@[i] && meta.name@[i] <= 'z') || (
            '0' <= meta.name@[i] && meta.name@[i] <= '9') || meta.name@[i] == '-',
        meta.version@.len() > 0,
        meta.description@.len() > 0,
    ensures
        meta_problem(meta) is None,
{
}

/// SKILL metadata that `validate` accepts has a name of 1 to 64 bytes (as a
/// `usize` count) made of
/// lower-case ASCII letters, ASCII digits and `-`, a version and a
/// description.
pub proof fn law_accepted_skill_meta_valid(meta: SkillMeta)
    requires
        meta_problem(meta) is None,
    ensures
        meta.name@.len() >= 1,
        (encode_utf8(meta.name@).len() as usize) <= 64,
        forall|i: int|
            0 <= i < meta.name@.len() ==> ('a' <= #[trigger] meta.name@[i] && meta.name@[i] <= 'z') || (
            '0' <= meta.name@[i] && meta.name@[i] <= '9') || meta.name@[i] == '-',
        meta.version@.len() > 0,
        meta.description@.len() > 0,
{
}

/// The mock driver runs for exactly the driver kinds mock, spidev, i2c, pwm,
/// serial, can and v4l2: `call_mock` succeeds for these and fails for every
/// other kind.
pub proof fn law_driver_kinds(d: Seq<char>)
    ensures
        known_drivers().contains(d) <==> (d == "mock"@ || d == "spidev"@ || d == "i2c"@ || d == "pwm"@
            || d == "serial"@ || d == "can"@ || d == "v4l2"@),
{
    let k = known_drivers();
    if d == "mock"@ { assert(k[0] == d); }
    if d == "spidev"@ { assert(k[1] == d); }
    if d == "i2c"@ { assert(k[2] == d); }
    if d == "pwm"@ { assert(k[3] == d); }
    if d == "serial"@ { assert(k[4] == d); }
    if d == "can"@ { assert(k[5] == d); }
    if d == "v4l2"@ { assert(k[6] == d); }
}

/// The parameter filter is complete: every whitelisted name that the request
/// has a member for is passed on, with the value of the first member of that
/// name.
pub proof fn law_whitelisted_params_kept(tool_args: Seq<String>, members: Seq<(String, ParamValue)>, j: int)
    requires
        0 <= j < tool_args.len(),
        member_index(members, tool_args[j]@) >= 0,
    ensures
        filtered(tool_args, members).contains_key(tool_args[j]@),
        filtered(tool_args, members)[tool_args[j]@] == members[member_index(members, tool_args[j]@)].1.rendered(),
    decreases tool_args.len(),
{
    let k = tool_args[j]@;
    let last = tool_args.last()@;
    if j < tool_args.len() - 1 {
        assert(tool_args.drop_last()[j] == tool_args[j]);
        law_whitelisted_params_kept(tool_args.drop_last(), members, j);
        if member_index(members, last) >= 0 && last == k {
        }
    }
}

/// The built-in device whitelist allows exactly the documented operations:
/// read and write on spi0, i2c0, gpio0 and uart0, set_duty and set_freq on
/// pwm0, send and recv on can0, whatever was registered before.
pub proof fn law_builtin_device_operations(before: Map<Seq<char>, Set<Seq<char>>>, op: Seq<char>)
    ensures
        ({
            let w = before.union_prefer_right(builtin_devices());
            &&& (w["spi0"@].contains(op) <==> (op == "read"@ || op == "write"@))
            &&& (w["i2c0"@].contains(op) <==> (op == "read"@ || op == "write"@))
            &&& (w["gpio0"@].contains(op) <==> (op == "read"@ || op == "write"@))
            &&& (w["uart0"@].contains(op) <==> (op == "read"@ || op == "write"@))
            &&& (w["pwm0"@].contains(op) <==> (op == "set_duty"@ || op == "set_freq"@))
            &&& (w["can0"@].contains(op) <==> (op == "send"@ || op == "recv"@))
            &&& w.contains_key("spi0"@) && w.contains_key("i2c0"@) && w.contains_key("gpio0"@)
            &&& w.contains_key("uart0"@) && w.contains_key("pwm0"@) && w.contains_key("can0"@)
            &&& w.dom() == before.dom() + set!["spi0"@, "i2c0"@, "gpio0"@, "pwm0"@, "uart0"@, "can0"@]
        }),
{
    reveal_strlit("spi0");
    reveal_strlit("i2c0");
    reveal_strlit("gpio0");
    reveal_strlit("uart0");
    reveal_strlit("pwm0");
    reveal_strlit("can0");
    let names = seq!["spi0"@, "i2c0"@, "gpio0"@, "pwm0"@, "uart0"@, "can0"@];
    assert(names[0][0] != names[1][0] && names[0][0] != names[3][0] && names[0][0] != names[5][0]);
    assert(names[1][0] != names[3][0] && names[1][0] != names[5][0] && names[3][0] != names[5][0]);
    assert(names[2].len() == 5 && names[4].len() == 5 && names[2][0] != names[4][0]);
    let b = builtin_devices();
    let w = before.union_prefer_right(b);
    assert(b["spi0"@] == set!["read"@, "write"@]);
    assert(b["i2c0"@] == set!["read"@, "write"@]);
    assert(b["gpio0"@] == set!["read"@, "write"@]);
    assert(b["pwm0"@] == set!["set_duty"@, "set_freq"@]);
    assert(b["uart0"@] == set!["read"@, "write"@]);
    assert(b["can0"@] == set!["send"@, "recv"@]);
    assert(w["spi0"@] == b["spi0"@]);
    assert(w["i2c0"@] == b["i2c0"@]);
    assert(w["gpio0"@] == b["gpio0"@]);
    assert(w["pwm0"@] == b["pwm0"@]);
    assert(w["uart0"@] == b["uart0"@]);
    assert(w["can0"@] == b["can0"@]);
    assert(w.dom() =~= before.dom() + set!["spi0"@, "i2c0"@, "gpio0"@, "pwm0"@, "uart0"@, "can0"@]);
}

/// The built-in method whitelist holds exactly system.status,
/// system.list_skills, system.heartbeat and intent.submit.
pub proof fn law_builtin_methods(m: Seq<char>)
    ensures
        builtin_methods().contains(m) <==> (m == "system.status"@ || m == "system.list_skills"@ || m
            == "system.heartbeat"@ || m == "intent.submit"@),
{
    let k = builtin_methods();
    if m == "system.status"@ { assert(k[0] == m); }
    if m == "system.list_skills"@ { assert(k[1] == m); }
    if m == "system.heartbeat"@ { assert(k[2] == m); }
    if m == "intent.submit"@ { assert(k[3] == m); }
}

/// Every method that `dispatch` serves is in the built-in method whitelist,
/// so a call of it through `Whitelist::new()` is allowed.
pub proof fn law_served_methods_whitelisted(m: Seq<char>, params: RpcParams, r: Result<MethodReply, RpcFailure>)
    requires
        dispatched(m, params, r),
        r is Ok,
    ensures
        builtin_methods().contains(m),
{
    law_builtin_methods(m);
}

} // verus!
