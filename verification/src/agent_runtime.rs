//! Runtime pieces of the agent service: the SKILL registry with its ed25519
//! signature check, the stub model provider, the decision hooks, the intent
//! counter, and the decisions of one loop iteration (which SKILL the
//! perception names, whether it may run, what the iteration reports).
use vstd::prelude::*;
use vstd::utf8::encode_utf8;
use crate::health::{decimal, decimal_text};
use crate::text::{char_is_ws, has_prefix, is_ws, starts_with, text_eq, trim_start, trim_start_matches, trim_start_pat, trim_start_ws};

verus! {

/// A SKILL entry of the registry.
#[derive(Debug, Clone)]
pub struct Skill {
    pub name: String,
    pub version: String,
    pub description: String,
    /// ed25519 signature, base64.
    pub signature: String,
    /// Entry point (may be provided through the extension bridge).
    pub entrypoint: String,
    /// Input parameter schema (JSON Schema text).
    pub input_schema: String,
}

/// Names of the skills, in order.
pub open spec fn skill_names(skills: Seq<Skill>) -> Seq<Seq<char>> {
    skills.map_values(|s: Skill| s.name@)
}

/// The map that duplicate-free `skills` stand for, by name.
pub open spec fn skills_by_name(skills: Seq<Skill>) -> Map<Seq<char>, Skill> {
    Map::new(
        |k: Seq<char>| skill_names(skills).contains(k),
        |k: Seq<char>| skills[skill_names(skills).index_of(k)],
    )
}

/// SKILLs by name; a name occurs once.
pub struct SkillRegistry {
    skills: Vec<Skill>,
}

impl View for SkillRegistry {
    type V = Map<Seq<char>, Skill>;

    closed spec fn view(&self) -> Map<Seq<char>, Skill> {
        skills_by_name(self.skills@)
    }
}

/// What a lookup of `name` finds in registry contents `m`.
pub open spec fn skill_lookup(m: Map<Seq<char>, Skill>, name: Seq<char>) -> Option<Skill> {
    if m.contains_key(name) {
        Some(m[name])
    } else {
        None
    }
}

impl SkillRegistry {
    /// The contents after registering `skill` under its name.
    pub open spec fn with_skill(self, skill: Skill) -> Map<Seq<char>, Skill> {
        self@.insert(skill.name@, skill)
    }
}

/// A public ed25519 key (its 32 bytes).
#[derive(Debug, Clone, Copy)]
pub struct PublicKey {
    pub bytes: [u8; 32],
}

/// What the standard base64 engine (`base64::engine::general_purpose::STANDARD`)
/// decodes a text to; `None` where it refuses the text.
pub uninterp spec fn base64_standard_decoding(text: Seq<char>) -> Option<Seq<u8>>;

/// The bytes of a decoded text.
pub open spec fn decoded_view(r: Option<Vec<u8>>) -> Option<Seq<u8>> {
    match r {
        Some(v) => Some(v@),
        None => None,
    }
}

/// `base64::Engine::decode` with the standard engine; the contract names the
/// result, a function of the text alone.
#[verifier::external_body]
fn decode_base64(text: &str) -> (r: Option<Vec<u8>>)
    ensures
        decoded_view(r) == base64_standard_decoding(text@),
{
    base64::Engine::decode(&base64::engine::general_purpose::STANDARD, text).ok()
}

/// Whether `ed25519_dalek::VerifyingKey::verify_strict` accepts the 64-byte
/// signature `sig` of `msg` under the key with bytes `key` (false where the
/// bytes are no valid key).
pub uninterp spec fn ed25519_strict_valid(key: Seq<u8>, msg: Seq<u8>, sig: Seq<u8>) -> bool;

/// Strict ed25519 verification (`VerifyingKey::from_bytes`,
/// `Signature::from_slice`, `VerifyingKey::verify_strict`); the contract names
/// the verdict, a function of the key, message and signature bytes.
#[verifier::external_body]
fn ed25519_verify_strict(key: &[u8; 32], msg: &[u8], sig: &[u8]) -> (r: bool)
    requires
        sig@.len() == 64,
    ensures
        r == ed25519_strict_valid(key@, msg@, sig@),
{
    let key = match ed25519_dalek::VerifyingKey::from_bytes(key) {
        Ok(k) => k,
        Err(_) => return false,
    };
    let sig = match ed25519_dalek::Signature::from_slice(sig) {
        Ok(s) => s,
        Err(_) => return false,
    };
    key.verify_strict(msg, &sig).is_ok()
}

/// The signed message of a SKILL: `name:version:entrypoint`.
pub open spec fn signed_message(s: Skill) -> Seq<char> {
    s.name@ + ":"@ + s.version@ + ":"@ + s.entrypoint@
}

/// The SKILL's signature is base64 of 64 bytes that verify strictly, under
/// `key`, against the UTF-8 bytes of its signed message.
pub open spec fn signature_valid(s: Skill, key: Seq<u8>) -> bool {
    match base64_standard_decoding(s.signature@) {
        Some(b) => b.len() == 64 && ed25519_strict_valid(key, encode_utf8(signed_message(s)), b),
        None => false,
    }
}

impl SkillRegistry {
    #[verifier::type_invariant]
    spec fn inv(self) -> bool {
        skill_names(self.skills@).no_duplicates()
    }

    proof fn lemma_index(skills: Seq<Skill>, i: int)
        requires
            skill_names(skills).no_duplicates(),
            0 <= i < skills.len(),
        ensures
            skill_names(skills).index_of(skills[i].name@) == i,
    {
        let names = skill_names(skills);
        assert(names[i] == skills[i].name@);
        assert(names.contains(names[i]));
    }

    fn position(skills: &Vec<Skill>, name: &str) -> (r: Option<usize>)
        ensures
            r matches Some(i) ==> i < skills@.len() && skill_names(skills@)[i as int] == name@,
            r is None ==> !skill_names(skills@).contains(name@),
    {
        let ghost names = skill_names(skills@);
        let n = skills.len();
        let mut i: usize = 0;
        while i < n
            invariant
                n == skills@.len(),
                names == skill_names(skills@),
                i <= n,
                forall|j: int| 0 <= j < i ==> names[j] != name@,
            decreases n - i,
        {
            if text_eq(skills[i].name.as_str(), name) {
                return Some(i);
            }
            i = i + 1;
        }
        proof {
            if names.contains(name@) {
                let j = names.index_of(name@);
                assert(names[j] == name@);
            }
        }
        None
    }

    /// An empty registry.
    pub fn new() -> (r: SkillRegistry)
        ensures
            r@ == Map::<Seq<char>, Skill>::empty(),
    {
        let r = SkillRegistry { skills: Vec::new() };
        assert(r@ =~= Map::<Seq<char>, Skill>::empty());
        r
    }

    /// Registers `skill` under its name, replacing an entry of that name.
    pub fn insert(&mut self, skill: Skill)
        ensures
            final(self)@ == old(self).with_skill(skill),
    {
        proof {
            use_type_invariant(&*self);
        }
        let ghost old_skills = self.skills@;
        let ghost old_names = skill_names(old_skills);
        let ghost sk = skill;
        let ghost k = skill.name@;
        let mut v: Vec<Skill> = Vec::new();
        std::mem::swap(&mut v, &mut self.skills);
        let n = v.len();
        match Self::position(&v, skill.name.as_str()) {
            Some(i) => {
                v.set(i, skill);
                let ghost new_names = skill_names(v@);
                proof {
                    assert(new_names =~= old_names);
                    assert forall|q: Seq<char>| #[trigger] new_names.contains(q) implies skills_by_name(v@)[q]
                        == skills_by_name(old_skills).insert(k, sk)[q] by {
                        let j = new_names.index_of(q);
                        Self::lemma_index(v@, j);
                        Self::lemma_index(old_skills, j);
                        if j != i {
                            assert(q != k);
                        }
                    }
                    assert(skills_by_name(v@) =~= skills_by_name(old_skills).insert(k, sk));
                }
            },
            None => {
                v.push(skill);
                let ghost new_names = skill_names(v@);
                proof {
                    assert(new_names =~= old_names.push(k));
                    assert forall|q: Seq<char>| #[trigger] new_names.contains(q) <==> (old_names.contains(q) || q == k) by {
                        if new_names.contains(q) {
                            let j = new_names.index_of(q);
                            if j < n {
                                assert(old_names[j] == q);
                            }
                        }
                        if old_names.contains(q) {
                            let j = old_names.index_of(q);
                            assert(new_names[j] == q);
                        }
                        if q == k {
                            assert(new_names[n as int] == q);
                        }
                    }
                    assert forall|q: Seq<char>| #[trigger] new_names.contains(q) implies skills_by_name(v@)[q]
                        == skills_by_name(old_skills).insert(k, sk)[q] by {
                        let j = new_names.index_of(q);
                        Self::lemma_index(v@, j);
                        if j < n {
                            Self::lemma_index(old_skills, j);
                            assert(old_names[j] == q);
                        }
                    }
                    assert(skills_by_name(v@) =~= skills_by_name(old_skills).insert(k, sk));
                }
            },
        }
        self.skills = v;
    }

    /// A SKILL of that name is registered.
    pub fn contains(&self, name: &str) -> (r: bool)
        ensures
            r == self@.contains_key(name@),
    {
        Self::position(&self.skills, name).is_some()
    }

    /// The SKILL registered under `name`.
    pub fn get(&self, name: &str) -> (r: Option<&Skill>)
        ensures
            r is None <==> !self@.contains_key(name@),
            r matches Some(s) ==> *s == self@[name@],
            (match r {
                Some(s) => Some(*s),
                None => None,
            }) == skill_lookup(self@, name@),
    {
        proof {
            use_type_invariant(self);
        }
        match Self::position(&self.skills, name) {
            Some(i) => {
                proof {
                    Self::lemma_index(self.skills@, i as int);
                }
                Some(&self.skills[i])
            },
            None => None,
        }
    }

    /// All registered SKILLs, each once.
    pub fn list(&self) -> (r: Vec<&Skill>)
        ensures
            r@.len() == self@.dom().len(),
            forall|i: int| 0 <= i < r@.len() ==> self@.contains_key(#[trigger] r@[i].name@) && self@[r@[i].name@]
                == *r@[i],
            forall|k: Seq<char>| self@.contains_key(k) ==> exists|i: int| 0 <= i < r@.len() && #[trigger] r@[i].name@ == k,
    {
        proof {
            use_type_invariant(self);
            let names = skill_names(self.skills@);
            assert(self@.dom() =~= names.to_set());
            names.unique_seq_to_set();
        }
        let mut r: Vec<&Skill> = Vec::new();
        let mut i: usize = 0;
        while i < self.skills.len()
            invariant
                i <= self.skills@.len(),
                skill_names(self.skills@).no_duplicates(),
                r@.len() == i,
                forall|j: int| 0 <= j < i ==> *r@[j] == self.skills@[j],
            decreases self.skills@.len() - i,
        {
            r.push(&self.skills[i]);
            i = i + 1;
        }
        proof {
            let names = skill_names(self.skills@);
            assert forall|j: int| 0 <= j < r@.len() implies self@.contains_key(#[trigger] r@[j].name@) && self@[r@[j].name@]
                == *r@[j] by {
                assert(names[j] == r@[j].name@);
                Self::lemma_index(self.skills@, j);
            }
            assert forall|k: Seq<char>| self@.contains_key(k) implies exists|j: int| 0 <= j < r@.len() && #[trigger] r@[j].name@ == k by {
                let j = names.index_of(k);
                assert(names[j] == k);
                assert(r@[j].name@ == k);
            }
        }
        r
    }

    /// Checks the SKILL's signature against `pubkey` (see `signature_valid`).
    pub fn verify(&self, skill: &Skill, pubkey: &PublicKey) -> (r: bool)
        ensures
            r == signature_valid(*skill, pubkey.bytes@),
    {
        let sig = match decode_base64(skill.signature.as_str()) {
            Some(s) => s,
            None => return false,
        };
        if sig.len() != 64 {
            return false;
        }
        let msg = skill.name.clone().concat(":").concat(skill.version.as_str()).concat(":").concat(
            skill.entrypoint.as_str(),
        );
        let bytes = msg.as_str().as_bytes();
        ed25519_verify_strict(&pubkey.bytes, bytes, sig.as_slice())
    }
}

/// The built-in `echo` SKILL: unsigned, entry point `echo`.
pub open spec fn is_builtin_echo(s: Skill) -> bool {
    &&& s.name@ == "echo"@
    &&& s.version@ == "0.1.0"@
    &&& s.description@ == "内置 echo SKILL(占位,无签名)"@
    &&& s.signature@.len() == 0
    &&& s.entrypoint@ == "echo"@
    &&& s.input_schema@.len() == 0
}

/// Registers the built-in `echo` SKILL unless a SKILL of that name is
/// registered already (a loaded, possibly signed, `echo` is kept).
pub fn ensure_echo(registry: &mut SkillRegistry)
    ensures
        old(registry)@.contains_key("echo"@) ==> final(registry)@ == old(registry)@,
        !old(registry)@.contains_key("echo"@) ==> final(registry)@.contains_key("echo"@)
            && is_builtin_echo(final(registry)@["echo"@])
            && final(registry)@.remove("echo"@) == old(registry)@,
{
    if !registry.contains("echo") {
        proof {
            reveal_strlit("");
        }
        let demo = Skill {
            name: String::from_str("echo"),
            version: String::from_str("0.1.0"),
            description: String::from_str("内置 echo SKILL(占位,无签名)"),
            signature: String::new(),
            entrypoint: String::from_str("echo"),
            input_schema: String::new(),
        };
        let ghost before = registry@;
        registry.insert(demo);
        proof {
            assert(registry@.remove("echo"@) =~= before);
        }
    }
}

/// Reads the public key from its base64 text: 32 bytes.
pub fn decode_public_key(text: &str) -> (r: Result<PublicKey, String>)
    ensures
        base64_standard_decoding(text@) is None ==> (r matches Err(e) && e@
            == "TAIHAO_SKILL_PUBKEY 不是合法 base64"@),
        base64_standard_decoding(text@) matches Some(b) ==> (b.len() != 32 ==> (r matches Err(e) && e@
            == "TAIHAO_SKILL_PUBKEY 长度应为 32 字节"@)),
        base64_standard_decoding(text@) matches Some(b) ==> (b.len() == 32 ==> (r matches Ok(k)
            && k.bytes@ == b)),
{
    let bytes = match decode_base64(text) {
        Some(b) => b,
        None => return Err(String::from_str("TAIHAO_SKILL_PUBKEY 不是合法 base64")),
    };
    if bytes.len() != 32 {
        return Err(String::from_str("TAIHAO_SKILL_PUBKEY 长度应为 32 字节"));
    }
    let mut arr: [u8; 32] = [0u8; 32];
    let mut i: usize = 0;
    while i < 32
        invariant
            bytes@.len() == 32,
            i <= 32,
            forall|j: int| 0 <= j < i ==> arr@[j] == bytes@[j],
        decreases 32 - i,
    {
        arr.set(i, bytes[i]);
        i = i + 1;
    }
    proof {
        assert(arr@ =~= bytes@);
    }
    Ok(PublicKey { bytes: arr })
}

/// A chat message.
#[derive(Debug, Clone)]
pub struct ChatMessage {
    pub role: String,
    pub content: String,
}

/// A completion: the text and the token counts by name.
#[derive(Debug, Clone)]
pub struct CompletionResponse {
    pub content: String,
    pub usage: Vec<(String, u64)>,
}

/// The usage counts a reply reports, in the order prompt, completion, total,
/// each where the reply holds it.
pub open spec fn usage_entries(prompt: Option<u64>, completion: Option<u64>, total: Option<u64>) -> Seq<(Seq<char>, u64)> {
    let a: Seq<(Seq<char>, u64)> = match prompt {
        Some(v) => seq![("prompt_tokens"@, v)],
        None => Seq::empty(),
    };
    let b: Seq<(Seq<char>, u64)> = match completion {
        Some(v) => seq![("completion_tokens"@, v)],
        None => Seq::empty(),
    };
    let c: Seq<(Seq<char>, u64)> = match total {
        Some(v) => seq![("total_tokens"@, v)],
        None => Seq::empty(),
    };
    a + b + c
}

/// Usage entries by their views.
pub open spec fn usage_view(u: Seq<(String, u64)>) -> Seq<(Seq<char>, u64)> {
    u.map_values(|p: (String, u64)| (p.0@, p.1))
}

/// The completion an OpenAI-compatible reply gives: the first choice's text
/// (empty when there is none) and the usage counts it reports.
pub fn completion_from_reply(
    choices: &Vec<String>,
    prompt_tokens: Option<u64>,
    completion_tokens: Option<u64>,
    total_tokens: Option<u64>,
) -> (r: CompletionResponse)
    ensures
        r.content@ == (if choices@.len() > 0 {
            choices@[0]@
        } else {
            Seq::empty()
        }),
        usage_view(r.usage@) == usage_entries(prompt_tokens, completion_tokens, total_tokens),
{
    let content = if choices.len() > 0 {
        choices[0].clone()
    } else {
        String::new()
    };
    let mut usage: Vec<(String, u64)> = Vec::new();
    if let Some(v) = prompt_tokens {
        usage.push((String::from_str("prompt_tokens"), v));
    }
    let ghost after_prompt = usage@;
    if let Some(v) = completion_tokens {
        usage.push((String::from_str("completion_tokens"), v));
    }
    let ghost after_completion = usage@;
    if let Some(v) = total_tokens {
        usage.push((String::from_str("total_tokens"), v));
    }
    proof {
        let a: Seq<(Seq<char>, u64)> = match prompt_tokens {
            Some(v) => seq![("prompt_tokens"@, v)],
            None => Seq::empty(),
        };
        let b: Seq<(Seq<char>, u64)> = match completion_tokens {
            Some(v) => seq![("completion_tokens"@, v)],
            None => Seq::empty(),
        };
        assert(usage_view(after_prompt) =~= a);
        assert(usage_view(after_completion) =~= a + b);
        assert(usage_view(usage@) =~= usage_entries(prompt_tokens, completion_tokens, total_tokens));
    }
    CompletionResponse { content, usage }
}

/// A provider that sends nothing and acknowledges the last user message
/// (for tests and for running without an endpoint).
pub struct StubProvider {
    name: String,
}

/// The position of the last message from the user, or -1.
pub open spec fn last_user(msgs: Seq<ChatMessage>) -> int
    decreases msgs.len(),
{
    if msgs.len() == 0 {
        -1
    } else if msgs.last().role@ == "user"@ {
        msgs.len() - 1
    } else {
        last_user(msgs.drop_last())
    }
}

/// The first `n` characters of `s` (all of them where it is shorter).
pub open spec fn prefix_chars(s: Seq<char>, n: nat) -> Seq<char> {
    if s.len() <= n {
        s
    } else {
        s.subrange(0, n as int)
    }
}

/// The stub's answer: the provider name and the first sixty characters of the
/// last user message, or a fixed text where there is none.
pub open spec fn stub_reply(name: Seq<char>, msgs: Seq<ChatMessage>) -> Seq<char> {
    let i = last_user(msgs);
    if i < 0 {
        "[stub] empty"@
    } else {
        "["@ + name + " stub] ack: "@ + prefix_chars(msgs[i].content@, 60)
    }
}

impl StubProvider {
    pub fn new(name: &str) -> (p: StubProvider)
        ensures
            p.name_view() == name@,
    {
        StubProvider { name: String::from_str(name) }
    }

    /// The provider's name.
    pub closed spec fn name_view(&self) -> Seq<char> {
        self.name@
    }

    pub fn name(&self) -> (r: &str)
        ensures
            r@ == self.name_view(),
    {
        self.name.as_str()
    }

    /// Completes a conversation: `stub_reply`, one prompt and one completion
    /// token.
    pub fn complete(&self, messages: &[ChatMessage]) -> (r: CompletionResponse)
        ensures
            r.content@ == stub_reply(self.name_view(), messages@),
            r.usage@.len() == 2,
            r.usage@[0].0@ == "prompt_tokens"@ && r.usage@[0].1 == 1,
            r.usage@[1].0@ == "completion_tokens"@ && r.usage@[1].1 == 1,
    {
        let n = messages.len();
        let mut k: usize = n;
        proof {
            reveal_strlit("user");
            assert(messages@.subrange(0, n as int) =~= messages@);
        }
        while k > 0
            invariant
                n == messages@.len(),
                k <= n,
                last_user(messages@) == last_user(messages@.subrange(0, k as int)),
            ensures
                k <= n,
                last_user(messages@) == last_user(messages@.subrange(0, k as int)),
                k > 0 ==> messages@[k - 1].role@ == "user"@,
            decreases k,
        {
            let ghost pre = messages@.subrange(0, k as int);
            proof {
                assert(pre.drop_last() =~= messages@.subrange(0, k - 1));
                assert(pre.last() == messages@[k - 1]);
            }
            if text_eq(messages[k - 1].role.as_str(), "user") {
                break;
            }
            k = k - 1;
        }
        let content = if k == 0 {
            proof {
                assert(messages@.subrange(0, 0) =~= Seq::<ChatMessage>::empty());
            }
            String::from_str("[stub] empty")
        } else {
            proof {
                let pre = messages@.subrange(0, k as int);
                assert(pre.last() == messages@[k - 1]);
            }
            let text = messages[k - 1].content.as_str();
            let len = text.unicode_len();
            let head = if len <= 60 {
                text
            } else {
                text.substring_char(0, 60)
            };
            String::from_str("[").concat(self.name.as_str()).concat(" stub] ack: ").concat(head)
        };
        let mut usage: Vec<(String, u64)> = Vec::new();
        usage.push((String::from_str("prompt_tokens"), 1));
        usage.push((String::from_str("completion_tokens"), 1));
        CompletionResponse { content, usage }
    }
}

/// Hook commands run before and after each decision.
pub struct Hooks {
    pre_decision: Vec<String>,
    post_decision: Vec<String>,
}

impl Hooks {
    pub fn new() -> (h: Hooks)
        ensures
            h.pre_view().len() == 0,
            h.post_view().len() == 0,
    {
        Hooks { pre_decision: Vec::new(), post_decision: Vec::new() }
    }

    /// The commands run before a decision, in order of registration.
    pub closed spec fn pre_view(&self) -> Seq<Seq<char>> {
        self.pre_decision@.map_values(|s: String| s@)
    }

    /// The commands run after a decision, in order of registration.
    pub closed spec fn post_view(&self) -> Seq<Seq<char>> {
        self.post_decision@.map_values(|s: String| s@)
    }

    pub fn register_pre(&mut self, hook: &str)
        ensures
            final(self).pre_view() == old(self).pre_view().push(hook@),
            final(self).post_view() == old(self).post_view(),
    {
        let ghost before = self.pre_decision@;
        self.pre_decision.push(String::from_str(hook));
        proof {
            assert(self.pre_decision@.map_values(|s: String| s@) =~= before.map_values(|s: String| s@).push(hook@));
        }
    }

    pub fn register_post(&mut self, hook: &str)
        ensures
            final(self).post_view() == old(self).post_view().push(hook@),
            final(self).pre_view() == old(self).pre_view(),
    {
        let ghost before = self.post_decision@;
        self.post_decision.push(String::from_str(hook));
        proof {
            assert(self.post_decision@.map_values(|s: String| s@) =~= before.map_values(|s: String| s@).push(hook@));
        }
    }

    pub fn pre(&self) -> (r: &Vec<String>)
        ensures
            r@.map_values(|s: String| s@) == self.pre_view(),
    {
        &self.pre_decision
    }

    pub fn post(&self) -> (r: &Vec<String>)
        ensures
            r@.map_values(|s: String| s@) == self.post_view(),
    {
        &self.post_decision
    }
}

/// Where intents go (the communication center's bus socket) and how many were
/// sent.
pub struct IntentSender {
    sock_path: String,
    intents_emitted: u64,
}

impl IntentSender {
    pub fn new(sock_path: &str) -> (s: IntentSender)
        ensures
            s.path_view() == sock_path@,
            s.count_view() == 0,
    {
        IntentSender { sock_path: String::from_str(sock_path), intents_emitted: 0 }
    }

    pub closed spec fn path_view(&self) -> Seq<char> {
        self.sock_path@
    }

    pub closed spec fn count_view(&self) -> u64 {
        self.intents_emitted
    }

    pub fn sock_path(&self) -> (r: &str)
        ensures
            r@ == self.path_view(),
    {
        self.sock_path.as_str()
    }

    /// Number of intents sent.
    pub fn count(&self) -> (n: u64)
        ensures
            n == self.count_view(),
    {
        self.intents_emitted
    }

    /// Counts one more intent sent (the counter wraps as an atomic one does).
    pub fn record_sent(&mut self)
        ensures
            final(self).count_view() == (if old(self).count_view() == u64::MAX {
                0
            } else {
                (old(self).count_view() + 1) as u64
            }),
            final(self).path_view() == old(self).path_view(),
    {
        self.intents_emitted = self.intents_emitted.wrapping_add(1);
    }
}

/// Length of the run of non-whitespace characters that `t` starts with.
pub open spec fn word_len(t: Seq<char>) -> nat
    decreases t.len(),
{
    if t.len() == 0 || is_ws(t[0]) {
        0
    } else {
        1 + word_len(t.drop_first())
    }
}

proof fn lemma_word_len(t: Seq<char>, i: int)
    requires
        0 <= i <= t.len(),
        forall|j: int| 0 <= j < i ==> !is_ws(t[j]),
        i == t.len() || is_ws(t[i]),
    ensures
        word_len(t) == i,
    decreases i,
{
    if i > 0 {
        let rest = t.drop_first();
        assert forall|j: int| 0 <= j < i - 1 implies !is_ws(rest[j]) by {
            assert(rest[j] == t[j + 1]);
        }
        lemma_word_len(rest, i - 1);
    }
}

/// The first whitespace-separated word of `s` (empty where there is none).
pub open spec fn first_word(s: Seq<char>) -> Seq<char> {
    let t = trim_start_ws(s);
    t.subrange(0, word_len(t) as int)
}

/// The SKILL a perception names: `skill:<name> ...` names the first word after
/// the prefix; anything else names `echo`.
pub open spec fn perceived_skill(perception: Seq<char>) -> Seq<char> {
    if has_prefix(perception, "skill:"@) {
        first_word(trim_start_pat(perception, "skill:"@))
    } else {
        "echo"@
    }
}

/// The SKILL named by a perception (see `perceived_skill`).
pub fn skill_name_of(perception: &str) -> (r: String)
    ensures
        r@ == perceived_skill(perception@),
{
    if starts_with(perception, "skill:") {
        let rest = trim_start_matches(perception, "skill:");
        let t = trim_start(rest);
        let n = t.unicode_len();
        let mut i: usize = 0;
        while i < n
            invariant
                n == t@.len(),
                i <= n,
                forall|j: int| 0 <= j < i ==> !is_ws(t@[j]),
            ensures
                i <= n,
                forall|j: int| 0 <= j < i ==> !is_ws(t@[j]),
                i == n || is_ws(t@[i as int]),
            decreases n - i,
        {
            if char_is_ws(t.get_char(i)) {
                break;
            }
            i = i + 1;
        }
        proof {
            lemma_word_len(t@, i as int);
        }
        String::from_str(t.substring_char(0, i))
    } else {
        String::from_str("echo")
    }
}

/// A perception's SKILL may run: an unregistered name is let through, a
/// registered one must carry a valid signature.
pub open spec fn skill_approved(registry: Map<Seq<char>, Skill>, name: Seq<char>, key: Seq<u8>) -> bool {
    registry.contains_key(name) ==> signature_valid(registry[name], key)
}

/// The decision of one iteration for a perception.
pub struct TickPlan {
    pub skill_name: String,
    pub approved: bool,
}

/// Decides one iteration: the SKILL that the perception names and whether it
/// may run.
pub fn plan_tick(registry: &SkillRegistry, pubkey: &PublicKey, perception: &str) -> (r: TickPlan)
    ensures
        r.skill_name@ == perceived_skill(perception@),
        r.approved == skill_approved(registry@, perceived_skill(perception@), pubkey.bytes@),
{
    let skill_name = skill_name_of(perception);
    let approved = match registry.get(skill_name.as_str()) {
        Some(s) => registry.verify(s, pubkey),
        None => true,
    };
    TickPlan { skill_name, approved }
}

/// The line one iteration reports.
pub open spec fn tick_line(content: Seq<char>, skill: Seq<char>, approved: bool, intents: nat) -> Seq<char> {
    content + " [skill="@ + skill + ",decision="@ + (if approved { "approved"@ } else { "denied"@ })
        + ",intents="@ + decimal(intents) + "]"@
}

pub fn tick_report(content: &str, plan: &TickPlan, intents: u64) -> (r: String)
    ensures
        r@ == tick_line(content@, plan.skill_name@, plan.approved, intents as nat),
{
    let decision = if plan.approved {
        "approved"
    } else {
        "denied"
    };
    String::from_str(content).concat(" [skill=").concat(plan.skill_name.as_str()).concat(",decision=").concat(
        decision,
    ).concat(",intents=").concat(decimal_text(intents).as_str()).concat("]")
}

/// The intent an iteration sends: one for the planned SKILL exactly when the
/// plan approves it.
pub fn intent_to_send(plan: &TickPlan) -> (r: Option<String>)
    ensures
        r is Some <==> plan.approved,
        r matches Some(name) ==> name@ == plan.skill_name@,
{
    if plan.approved {
        Some(plan.skill_name.clone())
    } else {
        None
    }
}

/// Ends an iteration: an intent that was written is counted (a failed or
/// skipped one is not), then the iteration's line reports the count.
pub fn finish_tick(sender: &mut IntentSender, content: &str, plan: &TickPlan, written: bool) -> (r: String)
    ensures
        final(sender).path_view() == old(sender).path_view(),
        final(sender).count_view() == (if !written {
            old(sender).count_view()
        } else if old(sender).count_view() == u64::MAX {
            0
        } else {
            (old(sender).count_view() + 1) as u64
        }),
        r@ == tick_line(content@, plan.skill_name@, plan.approved, final(sender).count_view() as nat),
{
    if written {
        sender.record_sent();
    }
    tick_report(content, plan, sender.count())
}

/// The health probe's JSON body: the number of intents sent.
pub fn health_body(intents: u64) -> (r: String)
    ensures
        r@ == "{\"ok\":true,\"intents\":"@ + decimal(intents as nat) + "}\n"@,
{
    String::from_str("{\"ok\":true,\"intents\":").concat(decimal_text(intents).as_str()).concat("}\n")
}

} // verus!
