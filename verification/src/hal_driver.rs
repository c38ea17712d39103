//! Driver registry of the HAL gateway: the executing end of hardware calls.
//!
//! Each driver kind has a mock implementation that normalises the parameters
//! and answers deterministically; real drivers replace it behind the same
//! interface.
use vstd::prelude::*;
use crate::argmap::{map_from_pairs, ArgMap};
use crate::json::{compact_object, compact_object_text, flag_pairs, map_pairs, number_pairs, text_pairs};
use crate::text::{contains_text, text_eq};

verus! {

/// Outcome of a driver call.
#[derive(Debug, Clone)]
pub struct DriverResult {
    pub ok: bool,
    pub detail: String,
}

/// Driver kinds that have an implementation.
pub open spec fn known_drivers() -> Seq<Seq<char>> {
    seq!["mock"@, "spidev"@, "i2c"@, "pwm"@, "serial"@, "can"@, "v4l2"@]
}

/// The parameters as (name, value) pairs in key order.
pub open spec fn arg_pairs(args: ArgMap) -> Seq<(Seq<char>, Seq<char>)> {
    args.key_list().map_values(|k: Seq<char>| (k, args@[k]))
}

/// The mock driver's answer: the compact JSON of the object
/// `{"driver": driver, "tool": tool, "args": {..args..}, "ok": true}`.
pub open spec fn mock_payload_text(driver: Seq<char>, tool: Seq<char>, args: ArgMap) -> Seq<char> {
    compact_object_text(
        seq![("driver"@, driver), ("tool"@, tool)],
        Seq::empty(),
        seq![("ok"@, true)],
        seq![("args"@, arg_pairs(args))],
    )
}

/// Serialises the mock driver's answer (`mock_payload_text`).
fn mock_payload_json(driver: &str, tool: &str, args: &ArgMap) -> (s: String)
    ensures
        s@ == mock_payload_text(driver@, tool@, *args),
{
    let n = args.len();
    let mut pairs: Vec<(String, String)> = Vec::new();
    let mut i: usize = 0;
    while i < n
        invariant
            n == args.key_list().len(),
            i <= n,
            text_pairs(pairs@) == arg_pairs(*args).subrange(0, i as int),
        decreases n - i,
    {
        let (k, v) = args.entry_at(i);
        let ghost before = pairs@;
        let kc = k.clone();
        let vc = v.clone();
        pairs.push((kc, vc));
        proof {
            assert(pairs@ =~= before.push((kc, vc)));
            assert(text_pairs(pairs@) =~= text_pairs(before).push((kc@, vc@)));
            assert(arg_pairs(*args)[i as int] == (kc@, vc@));
            assert(arg_pairs(*args).subrange(0, i + 1) =~= arg_pairs(*args).subrange(0, i as int).push(
                arg_pairs(*args)[i as int],
            ));
        }
        i = i + 1;
    }
    let mut texts: Vec<(String, String)> = Vec::new();
    texts.push((String::from_str("driver"), String::from_str(driver)));
    texts.push((String::from_str("tool"), String::from_str(tool)));
    let numbers: Vec<(String, u64)> = Vec::new();
    let mut flags: Vec<(String, bool)> = Vec::new();
    flags.push((String::from_str("ok"), true));
    let mut maps: Vec<(String, Vec<(String, String)>)> = Vec::new();
    maps.push((String::from_str("args"), pairs));
    proof {
        assert(arg_pairs(*args).subrange(0, n as int) =~= arg_pairs(*args));
        assert(text_pairs(texts@) =~= seq![("driver"@, driver@), ("tool"@, tool@)]);
        assert(number_pairs(numbers@) =~= Seq::empty());
        assert(flag_pairs(flags@) =~= seq![("ok"@, true)]);
        assert(map_pairs(maps@) =~= seq![("args"@, arg_pairs(*args))]);
    }
    compact_object(&texts, &numbers, &flags, &maps)
}

/// Runs the mock of a driver kind: a known kind answers with its JSON payload;
/// an unknown kind fails with a message naming it.
pub fn call_mock(driver: &str, tool: &str, args: &ArgMap) -> (r: DriverResult)
    ensures
        r.ok == known_drivers().contains(driver@),
        r.ok ==> r.detail@ == mock_payload_text(driver@, tool@, *args),
        !r.ok ==> r.detail@ == "未知驱动类型: "@ + driver@,
{
    proof {
        reveal_strlit("mock");
        reveal_strlit("spidev");
        reveal_strlit("i2c");
        reveal_strlit("pwm");
        reveal_strlit("serial");
        reveal_strlit("can");
        reveal_strlit("v4l2");
    }
    let known = text_eq(driver, "mock") || text_eq(driver, "spidev") || text_eq(driver, "i2c")
        || text_eq(driver, "pwm") || text_eq(driver, "serial") || text_eq(driver, "can")
        || text_eq(driver, "v4l2");
    proof {
        let k = known_drivers();
        if k.contains(driver@) {
            let j = choose|j: int| 0 <= j < k.len() && k[j] == driver@;
            assert(j == 0 || j == 1 || j == 2 || j == 3 || j == 4 || j == 5 || j == 6);
        }
        if known {
            if driver@ == "mock"@ { assert(k[0] == driver@); }
            if driver@ == "spidev"@ { assert(k[1] == driver@); }
            if driver@ == "i2c"@ { assert(k[2] == driver@); }
            if driver@ == "pwm"@ { assert(k[3] == driver@); }
            if driver@ == "serial"@ { assert(k[4] == driver@); }
            if driver@ == "can"@ { assert(k[5] == driver@); }
            if driver@ == "v4l2"@ { assert(k[6] == driver@); }
        }
    }
    if known {
        DriverResult { ok: true, detail: mock_payload_json(driver, tool, args) }
    } else {
        DriverResult { ok: false, detail: String::from_str("未知驱动类型: ").concat(driver) }
    }
}

/// Builds a parameter map from `(name, value)` pairs; a later pair overwrites
/// an earlier one with the same name.
pub fn args_from(entries: &[(&str, &str)]) -> (r: ArgMap)
    ensures
        r@ == map_from_pairs(entries@.map_values(|e: (&str, &str)| (e.0@, e.1@))),
{
    let ghost pairs = entries@.map_values(|e: (&str, &str)| (e.0@, e.1@));
    let mut out = ArgMap::new();
    let n = entries.len();
    let mut i: usize = 0;
    while i < n
        invariant
            n == entries@.len(),
            pairs == entries@.map_values(|e: (&str, &str)| (e.0@, e.1@)),
            i <= n,
            out@ == map_from_pairs(pairs.subrange(0, i as int)),
        decreases n - i,
    {
        proof {
            assert(pairs.subrange(0, i + 1).drop_last() =~= pairs.subrange(0, i as int));
        }
        let (k, v) = entries[i];
        out.insert(String::from_str(k), String::from_str(v));
        i = i + 1;
    }
    proof {
        assert(pairs.subrange(0, n as int) =~= pairs);
    }
    out
}

/// The names in `keys` that `allowed` does not hold, in order.
pub open spec fn keys_outside(keys: Seq<Seq<char>>, allowed: Seq<Seq<char>>) -> Seq<Seq<char>>
    decreases keys.len(),
{
    if keys.len() == 0 {
        Seq::empty()
    } else {
        let rest = keys_outside(keys.drop_last(), allowed);
        if allowed.contains(keys.last()) {
            rest
        } else {
            rest.push(keys.last())
        }
    }
}

/// Parameter names outside the whitelist, in key order.
pub fn disallowed_args(tool_args: &[String], provided: &ArgMap) -> (r: Vec<String>)
    ensures
        r@.map_values(|s: String| s@) == keys_outside(
            provided.key_list(),
            tool_args@.map_values(|s: String| s@),
        ),
{
    let keys = provided.keys();
    let ghost ks = provided.key_list();
    let ghost al = tool_args@.map_values(|s: String| s@);
    let mut out: Vec<String> = Vec::new();
    let n = keys.len();
    let mut i: usize = 0;
    proof {
        assert(ks.subrange(0, 0) =~= Seq::<Seq<char>>::empty());
        assert(out@.map_values(|s: String| s@) =~= Seq::<Seq<char>>::empty());
    }
    while i < n
        invariant
            n == keys@.len(),
            keys@.map_values(|s: String| s@) == ks,
            tool_args@.map_values(|s: String| s@) == al,
            i <= n,
            out@.map_values(|s: String| s@) == keys_outside(ks.subrange(0, i as int), al),
        decreases n - i,
    {
        proof {
            assert(ks.subrange(0, i + 1).drop_last() =~= ks.subrange(0, i as int));
            assert(ks.subrange(0, i + 1).last() == keys@[i as int]@);
        }
        if !contains_text(tool_args, keys[i].as_str()) {
            let ghost before = out@.map_values(|s: String| s@);
            out.push(keys[i].clone());
            proof {
                assert(out@.map_values(|s: String| s@) =~= before.push(keys@[i as int]@));
            }
        }
        i = i + 1;
    }
    proof {
        assert(ks.subrange(0, n as int) =~= ks);
    }
    out
}

} // verus!
