//! The HAL gateway's socket service: the (device, operation) whitelist, the
//! mock driver that answers in simulation, and the handling of one request.
//! Every request is audited; a pair outside the whitelist is refused.
use vstd::prelude::*;
use crate::audit::{audit_decision, AuditDecision, AuditRecord};
use crate::hal_config::texts;
use crate::health::{decimal, decimal_text};
use crate::text::{contains_text, text_eq};

verus! {

/// Names of the whitelisted devices, in their order of entry.
pub open spec fn device_names(entries: Seq<(String, Vec<String>)>) -> Seq<Seq<char>> {
    entries.map_values(|e: (String, Vec<String>)| e.0@)
}

/// The whitelist that duplicate-free `entries` stand for: each device with the
/// set of its operations.
pub open spec fn whitelist_map(entries: Seq<(String, Vec<String>)>) -> Map<Seq<char>, Set<Seq<char>>> {
    Map::new(
        |d: Seq<char>| device_names(entries).contains(d),
        |d: Seq<char>| texts(entries[device_names(entries).index_of(d)].1@).to_set(),
    )
}

/// Registered (device, operation) pairs; a device occurs once.
pub struct DeviceWhitelist {
    entries: Vec<(String, Vec<String>)>,
}

impl View for DeviceWhitelist {
    type V = Map<Seq<char>, Set<Seq<char>>>;

    closed spec fn view(&self) -> Map<Seq<char>, Set<Seq<char>>> {
        whitelist_map(self.entries@)
    }
}

/// The whitelist that `DeviceWhitelist::builtin` registers: SPI, I2C, GPIO,
/// PWM, UART and CAN with their usual operations.
pub open spec fn builtin_devices() -> Map<Seq<char>, Set<Seq<char>>> {
    map![
        "spi0"@ => set!["read"@, "write"@],
        "i2c0"@ => set!["read"@, "write"@],
        "gpio0"@ => set!["read"@, "write"@],
        "pwm0"@ => set!["set_duty"@, "set_freq"@],
        "uart0"@ => set!["read"@, "write"@],
        "can0"@ => set!["send"@, "recv"@],
    ]
}

fn pair_of(a: &str, b: &str) -> (r: Vec<String>)
    ensures
        texts(r@).to_set() == set![a@, b@],
{
    let mut r: Vec<String> = Vec::new();
    r.push(String::from_str(a));
    r.push(String::from_str(b));
    proof {
        let t = texts(r@);
        assert(t =~= seq![a@, b@]);
        assert(t[0] == a@);
        assert(t[1] == b@);
        assert(t.to_set() =~= set![a@, b@]);
    }
    r
}

/// Position of `device` among the entries' names.
fn find_device(entries: &Vec<(String, Vec<String>)>, device: &str) -> (r: Option<usize>)
    ensures
        r matches Some(i) ==> i < entries@.len() && device_names(entries@)[i as int] == device@,
        r is None ==> !device_names(entries@).contains(device@),
{
    let ghost names = device_names(entries@);
    let n = entries.len();
    let mut i: usize = 0;
    while i < n
        invariant
            n == entries@.len(),
            names == device_names(entries@),
            i <= n,
            forall|j: int| 0 <= j < i ==> names[j] != device@,
        decreases n - i,
    {
        if text_eq(entries[i].0.as_str(), device) {
            return Some(i);
        }
        i = i + 1;
    }
    proof {
        if names.contains(device@) {
            let j = names.index_of(device@);
            assert(names[j] == device@);
        }
    }
    None
}

impl DeviceWhitelist {
    #[verifier::type_invariant]
    spec fn inv(self) -> bool {
        device_names(self.entries@).no_duplicates()
    }

    proof fn lemma_index(entries: Seq<(String, Vec<String>)>, i: int)
        requires
            device_names(entries).no_duplicates(),
            0 <= i < entries.len(),
        ensures
            device_names(entries).index_of(entries[i].0@) == i,
    {
        let names = device_names(entries);
        assert(names[i] == entries[i].0@);
        assert(names.contains(names[i]));
    }

    /// An empty whitelist.
    pub fn new() -> (w: DeviceWhitelist)
        ensures
            w@ == Map::<Seq<char>, Set<Seq<char>>>::empty(),
    {
        let w = DeviceWhitelist { entries: Vec::new() };
        assert(w@ =~= Map::<Seq<char>, Set<Seq<char>>>::empty());
        w
    }

    /// Registers `device` with `operations`, replacing its earlier entry.
    pub fn insert(&mut self, device: String, operations: Vec<String>)
        ensures
            final(self)@ == old(self)@.insert(device@, texts(operations@).to_set()),
    {
        proof {
            use_type_invariant(&*self);
        }
        let ghost old_entries = self.entries@;
        let ghost old_names = device_names(old_entries);
        let ghost ops = texts(operations@).to_set();
        let mut v: Vec<(String, Vec<String>)> = Vec::new();
        std::mem::swap(&mut v, &mut self.entries);
        let n = v.len();
        let found = find_device(&v, device.as_str());
        if let Some(i) = found {
            let ghost d = device@;
            v.set(i, (device, operations));
            let ghost new_names = device_names(v@);
            proof {
                assert(new_names =~= old_names);
                assert forall|k: Seq<char>| #[trigger] new_names.contains(k) implies whitelist_map(v@)[k]
                    == whitelist_map(old_entries).insert(d, ops)[k] by {
                    let j = new_names.index_of(k);
                    Self::lemma_index(v@, j);
                    Self::lemma_index(old_entries, j);
                    if j != i {
                        assert(k != d);
                    }
                }
                assert(whitelist_map(v@) =~= whitelist_map(old_entries).insert(d, ops));
            }
            self.entries = v;
        } else {
            let ghost d = device@;
            v.push((device, operations));
            let ghost new_names = device_names(v@);
            proof {
                assert(new_names =~= old_names.push(d));
                assert(!old_names.contains(d));
                assert forall|k: Seq<char>| #[trigger] new_names.contains(k) <==> (old_names.contains(k) || k == d) by {
                    if new_names.contains(k) {
                        let j = new_names.index_of(k);
                        if j < n {
                            assert(old_names[j] == k);
                        }
                    }
                    if old_names.contains(k) {
                        let j = old_names.index_of(k);
                        assert(new_names[j] == k);
                    }
                    if k == d {
                        assert(new_names[n as int] == k);
                    }
                }
                assert forall|k: Seq<char>| #[trigger] new_names.contains(k) implies whitelist_map(v@)[k]
                    == whitelist_map(old_entries).insert(d, ops)[k] by {
                    let j = new_names.index_of(k);
                    Self::lemma_index(v@, j);
                    if j < n {
                        Self::lemma_index(old_entries, j);
                        assert(old_names[j] == k);
                    }
                }
                assert(whitelist_map(v@) =~= whitelist_map(old_entries).insert(d, ops));
            }
            self.entries = v;
        }
    }

    /// Registers the built-in devices (`builtin_devices`), each replacing an
    /// earlier entry of the same device.
    pub fn builtin(&mut self)
        ensures
            final(self)@ == old(self)@.union_prefer_right(builtin_devices()),
    {
        let ghost before = self@;
        proof {
            reveal_strlit("spi0");
            reveal_strlit("i2c0");
            reveal_strlit("gpio0");
            reveal_strlit("pwm0");
            reveal_strlit("uart0");
            reveal_strlit("can0");
        }
        self.insert(String::from_str("spi0"), pair_of("read", "write"));
        self.insert(String::from_str("i2c0"), pair_of("read", "write"));
        self.insert(String::from_str("gpio0"), pair_of("read", "write"));
        self.insert(String::from_str("pwm0"), pair_of("set_duty", "set_freq"));
        self.insert(String::from_str("uart0"), pair_of("read", "write"));
        self.insert(String::from_str("can0"), pair_of("send", "recv"));
        proof {
            assert("spi0"@.len() == 4);
            assert("i2c0"@.len() == 4);
            assert("gpio0"@.len() == 5);
            assert("pwm0"@.len() == 4);
            assert("uart0"@.len() == 5);
            assert("can0"@.len() == 4);
            assert("spi0"@[0] != "i2c0"@[0]);
            assert("spi0"@[0] != "pwm0"@[0]);
            assert("spi0"@[0] != "can0"@[0]);
            assert("i2c0"@[0] != "pwm0"@[0]);
            assert("i2c0"@[0] != "can0"@[0]);
            assert("pwm0"@[0] != "can0"@[0]);
            assert("gpio0"@[0] != "uart0"@[0]);
            assert(self@ =~= before.union_prefer_right(builtin_devices()));
        }
    }

    /// The operation is registered for the device.
    pub fn check(&self, device: &str, operation: &str) -> (r: bool)
        ensures
            r == (self@.contains_key(device@) && self@[device@].contains(operation@)),
    {
        proof {
            use_type_invariant(self);
        }
        let ghost names = device_names(self.entries@);
        let n = self.entries.len();
        let mut i: usize = 0;
        while i < n
            invariant
                n == self.entries@.len(),
                names == device_names(self.entries@),
                names.no_duplicates(),
                i <= n,
                forall|j: int| 0 <= j < i ==> names[j] != device@,
            decreases n - i,
        {
            if text_eq(self.entries[i].0.as_str(), device) {
                proof {
                    Self::lemma_index(self.entries@, i as int);
                    assert(names[i as int] == device@);
                }
                return contains_text(self.entries[i].1.as_slice(), operation);
            }
            i = i + 1;
        }
        proof {
            assert(!names.contains(device@)) by {
                if names.contains(device@) {
                    let j = names.index_of(device@);
                    assert(names[j] == device@);
                }
            }
        }
        false
    }

    /// Number of whitelisted devices.
    pub fn len(&self) -> (n: usize)
        ensures
            n == self@.dom().len(),
    {
        proof {
            use_type_invariant(self);
            let names = device_names(self.entries@);
            assert(self@.dom() =~= names.to_set());
            names.unique_seq_to_set();
        }
        self.entries.len()
    }

    /// The health probe's JSON body: the number of whitelisted devices.
    pub fn health_body(&self) -> (r: String)
        ensures
            r@ == "{\"whitelisted_devices\":"@ + decimal(self@.dom().len()) + "}\n"@,
    {
        let n = self.len();
        String::from_str("{\"whitelisted_devices\":").concat(decimal_text(n as u64).as_str()).concat("}\n")
    }
}

/// A request on the gateway's socket. `params_json` is the JSON text of the
/// request's `params` (`null` where it has none).
#[derive(Debug, Clone)]
pub struct HalRequest {
    pub id: String,
    pub actor: String,
    pub device: String,
    pub operation: String,
    pub params_json: String,
}

/// The answer to a request; `payload_json` is JSON text.
#[derive(Debug, Clone)]
pub struct HalResponse {
    pub id: String,
    pub ok: bool,
    pub payload_json: Option<String>,
    pub error: Option<String>,
}

/// The mock driver's data for a device and operation; other pairs echo the
/// request's parameters.
pub open spec fn mock_payload(device: Seq<char>, operation: Seq<char>, params: Seq<char>) -> Seq<char> {
    if device == "spi0"@ && operation == "read"@ {
        "{\"bytes\":[1,2,3]}"@
    } else if device == "i2c0"@ && operation == "read"@ {
        "{\"reg\":66,\"value\":171}"@
    } else if device == "gpio0"@ && operation == "read"@ {
        "{\"pin\":17,\"value\":1}"@
    } else if device == "pwm0"@ {
        "{\"channel\":0,\"duty\":50}"@
    } else if device == "can0"@ && operation == "recv"@ {
        "{\"data\":[222,173],\"id\":256}"@
    } else {
        "{\"echo\":"@ + params + "}"@
    }
}

/// The mock driver: answers with simulated data (`mock_payload`).
pub fn mock_hal(req: &HalRequest) -> (r: HalResponse)
    ensures
        r.id == req.id,
        r.ok,
        r.error is None,
        r.payload_json matches Some(p) && p@ == mock_payload(req.device@, req.operation@, req.params_json@),
{
    let d = req.device.as_str();
    let o = req.operation.as_str();
    let payload = if text_eq(d, "spi0") && text_eq(o, "read") {
        String::from_str("{\"bytes\":[1,2,3]}")
    } else if text_eq(d, "i2c0") && text_eq(o, "read") {
        String::from_str("{\"reg\":66,\"value\":171}")
    } else if text_eq(d, "gpio0") && text_eq(o, "read") {
        String::from_str("{\"pin\":17,\"value\":1}")
    } else if text_eq(d, "pwm0") {
        String::from_str("{\"channel\":0,\"duty\":50}")
    } else if text_eq(d, "can0") && text_eq(o, "recv") {
        String::from_str("{\"data\":[222,173],\"id\":256}")
    } else {
        String::from_str("{\"echo\":").concat(req.params_json.as_str()).concat("}")
    };
    HalResponse { id: req.id.clone(), ok: true, payload_json: Some(payload), error: None }
}

/// The audit event for a request: actor, `device:operation`, the device, the
/// verdict, and the reason of a refusal.
pub open spec fn request_audit(req: HalRequest, allowed: bool, a: AuditRecord) -> bool {
    &&& a.actor@ == req.actor@
    &&& a.action@ == req.device@ + ":"@ + req.operation@
    &&& a.target@ == req.device@
    &&& a.decision == (if allowed { AuditDecision::Allow } else { AuditDecision::Deny })
    &&& allowed ==> a.reason is None
    &&& !allowed ==> (a.reason matches Some(t) && t@ == "未在白名单"@)
}

/// The request's (device, operation) pair is whitelisted.
pub open spec fn request_permitted(wl: Map<Seq<char>, Set<Seq<char>>>, req: HalRequest) -> bool {
    wl.contains_key(req.device@) && wl[req.device@].contains(req.operation@)
}

/// Handles one request: audits it, answers a whitelisted pair from the mock
/// driver and refuses any other.
pub fn handle_request(wl: &DeviceWhitelist, req: &HalRequest) -> (r: (AuditRecord, HalResponse))
    ensures
        request_audit(*req, request_permitted(wl@, *req), r.0),
        r.1.id == req.id,
        request_permitted(wl@, *req) ==> r.1.ok && r.1.error is None,
        request_permitted(wl@, *req) ==> (r.1.payload_json matches Some(p) && p@ == mock_payload(
            req.device@,
            req.operation@,
            req.params_json@,
        )),
        !request_permitted(wl@, *req) ==> !r.1.ok && r.1.payload_json is None,
        !request_permitted(wl@, *req) ==> (r.1.error matches Some(e) && e@ == "白名单拒绝: "@
            + req.device@ + " / "@ + req.operation@),
{
    let allowed = wl.check(req.device.as_str(), req.operation.as_str());
    let audit = AuditRecord {
        actor: req.actor.clone(),
        action: req.device.clone().concat(":").concat(req.operation.as_str()),
        target: req.device.clone(),
        decision: audit_decision(allowed),
        reason: if allowed {
            None
        } else {
            Some(String::from_str("未在白名单"))
        },
    };
    if allowed {
        (audit, mock_hal(req))
    } else {
        let error = String::from_str("白名单拒绝: ").concat(req.device.as_str()).concat(" / ").concat(
            req.operation.as_str(),
        );
        (audit, HalResponse { id: req.id.clone(), ok: false, payload_json: None, error: Some(error) })
    }
}

} // verus!
