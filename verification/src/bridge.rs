//! JSON-RPC request checks and parameter whitelisting of the extension bridge.
//!
//! Tools must be registered; only whitelisted parameter names are passed on;
//! text put into a `sh -c` command line is single-quote escaped.
use vstd::prelude::*;
use crate::argmap::ArgMap;
use crate::text::{replace_char, replace_char_with, text_eq};

verus! {

/// A parameter value as the request carries it: a JSON string, or any other JSON
/// value given by its JSON text.
#[derive(Debug, Clone)]
pub enum ParamValue {
    Text(String),
    Json(String),
}

impl ParamValue {
    /// The text a parameter is passed on as: the string itself, or the JSON text.
    pub open spec fn rendered(self) -> Seq<char> {
        match self {
            ParamValue::Text(s) => s@,
            ParamValue::Json(s) => s@,
        }
    }
}

/// A parameter value by its views: whether it is a JSON string, and its text
/// (the string itself, or the JSON text of another value).
pub open spec fn param_view(p: ParamValue) -> (bool, Seq<char>) {
    match p {
        ParamValue::Text(s) => (true, s@),
        ParamValue::Json(s) => (false, s@),
    }
}

/// The `params` member: the members of a JSON object in order, or `None` when
/// `params` is not an object.
pub type RpcParams = Option<Vec<(String, ParamValue)>>;

/// A JSON-RPC request.
#[derive(Debug)]
pub struct RpcRequest {
    pub jsonrpc: String,
    /// JSON text of the request id.
    pub id: String,
    pub method: String,
    pub params: RpcParams,
}

/// Why a request is refused.
pub open spec fn request_problem(jsonrpc: Seq<char>, method: Seq<char>) -> Option<Seq<char>> {
    if jsonrpc != "2.0"@ {
        Some("jsonrpc 必须为 2.0"@)
    } else if method.len() == 0 {
        Some("method 不能为空"@)
    } else {
        None
    }
}

/// Checks the JSON-RPC 2.0 shape of a request.
pub fn validate(req: &RpcRequest) -> (r: Result<(), String>)
    ensures
        r is Ok <==> request_problem(req.jsonrpc@, req.method@) is None,
        r matches Err(e) ==> Some(e@) == request_problem(req.jsonrpc@, req.method@),
{
    if !text_eq(req.jsonrpc.as_str(), "2.0") {
        return Err(String::from_str("jsonrpc 必须为 2.0"));
    }
    if req.method.as_str().unicode_len() == 0 {
        return Err(String::from_str("method 不能为空"));
    }
    Ok(())
}

/// Index of the first member named `key`, or -1.
pub open spec fn member_index(members: Seq<(String, ParamValue)>, key: Seq<char>) -> int
    decreases members.len(),
{
    if members.len() == 0 {
        -1
    } else if members[0].0@ == key {
        0
    } else {
        let r = member_index(members.drop_first(), key);
        if r < 0 {
            -1
        } else {
            r + 1
        }
    }
}

proof fn lemma_member_index_unique(members: Seq<(String, ParamValue)>, key: Seq<char>, i: int)
    requires
        -1 <= i < members.len(),
        i >= 0 ==> members[i].0@ == key,
        forall|j: int| 0 <= j < members.len() && (i < 0 || j < i) ==> members[j].0@ != key,
    ensures
        member_index(members, key) == i,
    decreases members.len(),
{
    if members.len() > 0 && i != 0 {
        let rest = members.drop_first();
        let k = if i < 0 { -1 } else { i - 1 };
        assert forall|j: int| 0 <= j < rest.len() && (k < 0 || j < k) implies rest[j].0@ != key by {
            assert(rest[j] == members[j + 1]);
        }
        if k >= 0 {
            assert(rest[k] == members[i]);
        }
        lemma_member_index_unique(rest, key, k);
    }
}

/// Member `key` as the request carries it (a string stays a string, any
/// other value keeps its JSON text).
pub fn member_param(members: &Vec<(String, ParamValue)>, key: &str) -> (r: Option<ParamValue>)
    ensures
        r is None <==> member_index(members@, key@) < 0,
        r matches Some(v) ==> param_view(v) == param_view(members@[member_index(members@, key@)].1),
{
    let n = members.len();
    let mut i: usize = 0;
    while i < n
        invariant
            n == members@.len(),
            i <= n,
            forall|j: int| 0 <= j < i ==> (#[trigger] members@[j]).0@ != key@,
        decreases n - i,
    {
        if text_eq(members[i].0.as_str(), key) {
            proof {
                lemma_member_index_unique(members@, key@, i as int);
            }
            let v = match &members[i].1 {
                ParamValue::Text(s) => ParamValue::Text(s.clone()),
                ParamValue::Json(s) => ParamValue::Json(s.clone()),
            };
            return Some(v);
        }
        i = i + 1;
    }
    proof {
        lemma_member_index_unique(members@, key@, -1);
    }
    None
}

/// The value of member `key` as passed on.
pub fn member_value(members: &Vec<(String, ParamValue)>, key: &str) -> (r: Option<String>)
    ensures
        r is None <==> member_index(members@, key@) < 0,
        r matches Some(v) ==> v@ == members@[member_index(members@, key@)].1.rendered(),
{
    let n = members.len();
    let mut i: usize = 0;
    while i < n
        invariant
            n == members@.len(),
            i <= n,
            forall|j: int| 0 <= j < i ==> (#[trigger] members@[j]).0@ != key@,
        decreases n - i,
    {
        if text_eq(members[i].0.as_str(), key) {
            proof {
                lemma_member_index_unique(members@, key@, i as int);
            }
            let v = match &members[i].1 {
                ParamValue::Text(s) => s.clone(),
                ParamValue::Json(s) => s.clone(),
            };
            return Some(v);
        }
        i = i + 1;
    }
    proof {
        lemma_member_index_unique(members@, key@, -1);
    }
    None
}

/// What the whitelist lets through: for each allowed name that the object has,
/// that name and its value; later names overwrite earlier ones.
pub open spec fn filtered(tool_args: Seq<String>, members: Seq<(String, ParamValue)>) -> Map<
    Seq<char>,
    Seq<char>,
>
    decreases tool_args.len(),
{
    if tool_args.len() == 0 {
        Map::empty()
    } else {
        let rest = filtered(tool_args.drop_last(), members);
        let k = tool_args.last()@;
        let i = member_index(members, k);
        if i < 0 {
            rest
        } else {
            rest.insert(k, members[i].1.rendered())
        }
    }
}

/// Extracts the whitelisted parameters of a tool call.
pub fn filter_params(tool_args: &[String], params: &RpcParams) -> (r: ArgMap)
    ensures
        params is None ==> r@ == Map::<Seq<char>, Seq<char>>::empty(),
        params matches Some(members) ==> r@ == filtered(tool_args@, members@),
{
    let mut out = ArgMap::new();
    match params {
        None => out,
        Some(members) => {
            let n = tool_args.len();
            let mut i: usize = 0;
            proof {
                assert(tool_args@.subrange(0, 0) =~= Seq::<String>::empty());
            }
            while i < n
                invariant
                    n == tool_args@.len(),
                    i <= n,
                    out@ == filtered(tool_args@.subrange(0, i as int), members@),
                decreases n - i,
            {
                proof {
                    assert(tool_args@.subrange(0, i + 1).drop_last() =~= tool_args@.subrange(
                        0,
                        i as int,
                    ));
                }
                let key = &tool_args[i];
                match member_value(members, key.as_str()) {
                    Some(v) => {
                        out.insert(key.clone(), v);
                    },
                    None => {},
                }
                i = i + 1;
            }
            proof {
                assert(tool_args@.subrange(0, n as int) =~= tool_args@);
            }
            out
        },
    }
}

/// Single-quote escaping for `sh -c` arguments: every `'` becomes `'\''`.
pub open spec fn escaped(s: Seq<char>) -> Seq<char> {
    replace_char(s, '\'', "'\\''"@)
}

pub fn shell_escape(s: &str) -> (r: String)
    ensures
        r@ == escaped(s@),
{
    replace_char_with(s, '\'', "'\\''")
}

} // verus!
