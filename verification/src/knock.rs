//! Knock sequences: checking a port list, and planning the packets and pauses of
//! a knock from the parsed list and the address check of each step.

use vstd::prelude::*;
use crate::models::KnockStep;
use crate::text::{
    ascii_lowercase, concat2, decimal, is_ascii_text, lowercase_text, push_decimal, str_eq, to_lowercase,
};

verus! {

/// The outcome of a knock: whether it went through, and what to tell the user.
#[derive(Debug, Clone)]
pub struct KnockResult {
    pub success: bool,
    pub message: String,
}

/// The transport of one knock packet.
#[derive(Debug, Clone, Copy, PartialEq, Eq)]
pub enum KnockProtocol {
    Udp,
    Tcp,
}

/// One thing to do while knocking.
#[derive(Debug, Clone, Copy, PartialEq, Eq)]
pub enum KnockAction {
    /// Send one packet (UDP datagram or TCP connection attempt) to the host on `port`;
    /// a failure to send is not fatal.
    Send { protocol: KnockProtocol, port: u16 },
    /// Wait `millis` milliseconds.
    Pause { millis: u64 },
}

/// The packets and pauses of a knock, in order, and its outcome once they are done.
#[derive(Debug, Clone)]
pub struct KnockPlan {
    pub actions: Vec<KnockAction>,
    pub result: KnockResult,
}

pub open spec fn result_view(r: KnockResult) -> (bool, Seq<char>) {
    (r.success, r.message@)
}

/// The protocol of a step: its own when given, else the default; compared lowercased.
pub open spec fn step_protocol(step_protocol: Seq<char>, default_protocol: Seq<char>) -> Result<KnockProtocol, Seq<char>> {
    let p = if step_protocol.len() == 0 { default_protocol } else { step_protocol };
    let l = lowercase_text(p);
    if l == "udp"@ {
        Ok(KnockProtocol::Udp)
    } else if l == "tcp"@ {
        Ok(KnockProtocol::Tcp)
    } else {
        Err("Unknown protocol: "@ + l)
    }
}

/// A step's protocol is its own, or the default when it has none, read without
/// regard to the case of ASCII letters: `udp` in any case is UDP, `tcp` in any case
/// is TCP, and anything else is refused with its lowercase named.
pub proof fn lemma_step_protocol_ignores_case(step_protocol_text: Seq<char>, default_protocol: Seq<char>)
    ensures
        ({
            let chosen = if step_protocol_text.len() == 0 { default_protocol } else { step_protocol_text };
            &&& ascii_lowercase(chosen) == "udp"@ && is_ascii_text(chosen) ==> step_protocol(
                step_protocol_text,
                default_protocol,
            ) == Ok::<KnockProtocol, Seq<char>>(KnockProtocol::Udp)
            &&& ascii_lowercase(chosen) == "tcp"@ && is_ascii_text(chosen) ==> step_protocol(
                step_protocol_text,
                default_protocol,
            ) == Ok::<KnockProtocol, Seq<char>>(KnockProtocol::Tcp)
            &&& lowercase_text(chosen) != "udp"@ && lowercase_text(chosen) != "tcp"@ ==> step_protocol(
                step_protocol_text,
                default_protocol,
            ) == Err::<KnockProtocol, Seq<char>>("Unknown protocol: "@ + lowercase_text(chosen))
        }),
        step_protocol_text.len() == 0 ==> step_protocol(step_protocol_text, default_protocol) == step_protocol(
            default_protocol,
            default_protocol,
        ),
{
    reveal_strlit("udp");
    reveal_strlit("tcp");
    assert("udp"@[0] != "tcp"@[0]);
}

/// What a step leads to: a packet of its protocol, or the failure message when its
/// address did not parse (`address_error`) or its protocol is unknown.
pub open spec fn step_outcome(host: Seq<char>, step: KnockStep, default_protocol: Seq<char>, address_error: Option<String>) -> Result<KnockProtocol, Seq<char>> {
    match address_error {
        Some(e) => Err("Invalid address "@ + host + ":"@ + decimal(step.port as nat) + ": "@ + e@),
        None => step_protocol(step.protocol@, default_protocol),
    }
}

/// The actions for steps `i..` and, when a step fails, its failure message: a
/// packet per step, a pause after each packet but the last, up to the first
/// step that fails.
pub open spec fn plan_from(
    host: Seq<char>,
    steps: Seq<KnockStep>,
    default_protocol: Seq<char>,
    address_errors: Seq<Option<String>>,
    pause: u64,
    i: int,
) -> (Seq<KnockAction>, Option<Seq<char>>)
    decreases steps.len() - i,
{
    if i < 0 || i >= steps.len() {
        (seq![], None)
    } else {
        match step_outcome(host, steps[i], default_protocol, address_errors[i]) {
            Err(m) => (seq![], Some(m)),
            Ok(p) => {
                let rest = plan_from(host, steps, default_protocol, address_errors, pause, i + 1);
                let send = KnockAction::Send { protocol: p, port: steps[i].port };
                let head = if i < steps.len() - 1 {
                    seq![send, KnockAction::Pause { millis: pause }]
                } else {
                    seq![send]
                };
                (head + rest.0, rest.1)
            },
        }
    }
}

/// The pause between packets: the configured delay, at least 10 ms.
pub open spec fn knock_pause(delay_ms: u64) -> u64 {
    if delay_ms < 10 { 10 } else { delay_ms }
}

/// The whole knock: its actions and its outcome `(success, message)`.
pub open spec fn knock_plan(
    host: Seq<char>,
    parsed: Result<Seq<KnockStep>, Seq<char>>,
    default_protocol: Seq<char>,
    address_errors: Seq<Option<String>>,
    delay_ms: u64,
) -> (Seq<KnockAction>, (bool, Seq<char>)) {
    match parsed {
        Err(e) => (seq![], (false, "Invalid knock ports JSON: "@ + e)),
        Ok(steps) => if steps.len() == 0 {
            (seq![], (false, "No knock ports configured"@))
        } else {
            let (actions, failure) = plan_from(host, steps, default_protocol, address_errors, knock_pause(delay_ms), 0);
            match failure {
                Some(m) => (actions, (false, m)),
                None => (actions, (true, "Knock sequence complete: "@ + decimal(steps.len()) + " packets sent to "@ + host)),
            }
        },
    }
}

pub open spec fn view_steps_result(r: Result<Vec<KnockStep>, String>) -> Result<Seq<KnockStep>, Seq<char>> {
    match r {
        Ok(v) => Ok(v@),
        Err(e) => Err(e@),
    }
}

/// The protocol of a step, or the message for an unknown one.
pub fn resolve_protocol(step_protocol_text: &str, default_protocol: &str) -> (res: Result<KnockProtocol, String>)
    ensures
        match res {
            Ok(p) => step_protocol(step_protocol_text@, default_protocol@) == Ok::<KnockProtocol, Seq<char>>(p),
            Err(m) => step_protocol(step_protocol_text@, default_protocol@) == Err::<KnockProtocol, Seq<char>>(m@),
        },
{
    let chosen = if step_protocol_text.unicode_len() == 0 { default_protocol } else { step_protocol_text };
    let lower = to_lowercase(chosen);
    if str_eq(lower.as_str(), "udp") {
        Ok(KnockProtocol::Udp)
    } else if str_eq(lower.as_str(), "tcp") {
        Ok(KnockProtocol::Tcp)
    } else {
        Err(concat2("Unknown protocol: ", lower.as_str()))
    }
}

/// The failure message of a step whose address `host:port` did not parse.
fn address_failure(host: &str, port: u16, error: &str) -> (res: String)
    ensures
        res@ == "Invalid address "@ + host@ + ":"@ + decimal(port as nat) + ": "@ + error@,
{
    let mut out = String::from_str("Invalid address ");
    out.append(host);
    out.append(":");
    push_decimal(&mut out, port as u64);
    out.append(": ");
    out.append(error);
    out
}

/// Plans a knock on `host` from the parsed port list (or its parse error), the
/// default protocol, the delay between packets, and, for each step, the error
/// of parsing its address `host:port` (`None` when it parsed).
pub fn plan_knock(
    host: &str,
    parsed: Result<Vec<KnockStep>, String>,
    protocol: &str,
    delay_ms: u64,
    address_errors: &Vec<Option<String>>,
) -> (res: KnockPlan)
    requires
        parsed matches Ok(steps) ==> address_errors@.len() == steps@.len(),
    ensures
        (res.actions@, result_view(res.result)) == knock_plan(
            host@,
            view_steps_result(parsed),
            protocol@,
            address_errors@,
            delay_ms,
        ),
{
    let ghost parsed_view = view_steps_result(parsed);
    let steps = match parsed {
        Err(e) => {
            return KnockPlan {
                actions: Vec::new(),
                result: KnockResult { success: false, message: concat2("Invalid knock ports JSON: ", e.as_str()) },
            };
        },
        Ok(s) => s,
    };
    if steps.len() == 0 {
        return KnockPlan {
            actions: Vec::new(),
            result: KnockResult { success: false, message: String::from_str("No knock ports configured") },
        };
    }
    let pause: u64 = if delay_ms < 10 { 10 } else { delay_ms };
    let total = steps.len();
    let ghost whole = plan_from(host@, steps@, protocol@, address_errors@, pause, 0);
    let mut actions: Vec<KnockAction> = Vec::new();
    let mut i: usize = 0;
    while i < total
        invariant
            total == steps@.len(),
            address_errors@.len() == total,
            i <= total,
            whole == plan_from(host@, steps@, protocol@, address_errors@, pause, 0),
            parsed_view == view_steps_result(parsed),
            parsed_view == Ok::<Seq<KnockStep>, Seq<char>>(steps@),
            total > 0,
            pause == knock_pause(delay_ms),
            actions@ + plan_from(host@, steps@, protocol@, address_errors@, pause, i as int).0 == whole.0,
            plan_from(host@, steps@, protocol@, address_errors@, pause, i as int).1 == whole.1,
        decreases total - i,
    {
        let step = &steps[i];
        let outcome: Result<KnockProtocol, String> = match &address_errors[i] {
            Some(e) => Err(address_failure(host, step.port, e.as_str())),
            None => resolve_protocol(step.protocol.as_str(), protocol),
        };
        match outcome {
            Err(m) => {
                proof {
                    assert(actions@ + seq![] =~= actions@);
                }
                return KnockPlan { actions, result: KnockResult { success: false, message: m } };
            },
            Ok(p) => {
                let ghost before = actions@;
                actions.push(KnockAction::Send { protocol: p, port: step.port });
                if i < total - 1 {
                    actions.push(KnockAction::Pause { millis: pause });
                }
                proof {
                    let rest = plan_from(host@, steps@, protocol@, address_errors@, pause, i + 1);
                    let cur = plan_from(host@, steps@, protocol@, address_errors@, pause, i as int);
                    if i < total - 1 {
                        assert(cur.0 == seq![KnockAction::Send { protocol: p, port: step.port }, KnockAction::Pause { millis: pause }] + rest.0);
                    } else {
                        assert(cur.0 == seq![KnockAction::Send { protocol: p, port: step.port }] + rest.0);
                    }
                    assert(actions@ + rest.0 =~= before + cur.0);
                }
            },
        }
        i = i + 1;
    }
    proof {
        assert(actions@ + seq![] =~= actions@);
    }
    let mut message = String::from_str("Knock sequence complete: ");
    push_decimal(&mut message, total as u64);
    message.append(" packets sent to ");
    message.append(host);
    KnockPlan { actions, result: KnockResult { success: true, message } }
}

/// The problem with step `i` of a port list, if any: a zero port, or a protocol
/// other than empty, `udp` or `tcp` (compared lowercased).
pub open spec fn step_problem(i: int, step: KnockStep) -> Option<Seq<char>> {
    if step.port == 0 {
        Some("Step "@ + decimal((i + 1) as nat) + ": port cannot be 0"@)
    } else {
        let l = lowercase_text(step.protocol@);
        if l.len() != 0 && l != "udp"@ && l != "tcp"@ {
            Some("Step "@ + decimal((i + 1) as nat) + ": protocol must be 'udp' or 'tcp', got '"@ + step.protocol@ + "'"@)
        } else {
            None
        }
    }
}

/// The message of an error result.
pub open spec fn error_text<T>(r: Result<T, String>) -> Option<Seq<char>> {
    match r {
        Ok(_) => None,
        Err(m) => Some(m@),
    }
}

/// Checks a parsed port list: it must be non-empty and every step must have a
/// non-zero port and an empty, `udp` or `tcp` protocol. The first problem is
/// reported; a parse error is reported as invalid JSON.
pub fn validate_ports_json(parsed: Result<Vec<KnockStep>, String>) -> (res: Result<Vec<KnockStep>, String>)
    ensures
        match parsed {
            Err(e) => res matches Err(m) && m@ == "Invalid JSON: "@ + e@,
            Ok(steps) => {
                &&& steps@.len() == 0 ==> (res matches Err(m) && m@ == "Port list cannot be empty"@)
                &&& steps@.len() != 0 ==> (res is Ok <==> forall|i: int| 0 <= i < steps@.len() ==> #[trigger] step_problem(i, steps@[i]) is None)
                &&& res matches Ok(v) ==> v@ == steps@
                &&& (steps@.len() != 0 && res is Err) ==> exists|k: int| {
                    &&& 0 <= k < steps@.len()
                    &&& forall|j: int| 0 <= j < k ==> #[trigger] step_problem(j, steps@[j]) is None
                    &&& #[trigger] step_problem(k, steps@[k]) == error_text(res)
                }
            },
        },
{
    let ghost parsed_view = view_steps_result(parsed);
    let steps = match parsed {
        Err(e) => {
            return Err(concat2("Invalid JSON: ", e.as_str()));
        },
        Ok(s) => s,
    };
    if steps.len() == 0 {
        return Err(String::from_str("Port list cannot be empty"));
    }
    let mut i: usize = 0;
    while i < steps.len()
        invariant
            i <= steps@.len(),
            steps@.len() > 0,
            parsed_view == view_steps_result(parsed),
            parsed_view == Ok::<Seq<KnockStep>, Seq<char>>(steps@),
            forall|j: int| 0 <= j < i ==> #[trigger] step_problem(j, steps@[j]) is None,
        decreases steps@.len() - i,
    {
        let step = &steps[i];
        if step.port == 0 {
            let mut m = String::from_str("Step ");
            push_decimal(&mut m, (i + 1) as u64);
            m.append(": port cannot be 0");
            proof {
                assert(step_problem(i as int, steps@[i as int]) == Some(m@));
            }
            return Err(m);
        }
        let lower = to_lowercase(step.protocol.as_str());
        if lower.as_str().unicode_len() != 0 && !str_eq(lower.as_str(), "udp") && !str_eq(lower.as_str(), "tcp") {
            let mut m = String::from_str("Step ");
            push_decimal(&mut m, (i + 1) as u64);
            m.append(": protocol must be 'udp' or 'tcp', got '");
            m.append(step.protocol.as_str());
            m.append("'");
            proof {
                assert(step_problem(i as int, steps@[i as int]) == Some(m@));
            }
            return Err(m);
        }
        proof {
            assert(step_problem(i as int, steps@[i as int]) is None);
        }
        i = i + 1;
    }
    Ok(steps)
}

/// The action at position `j` of a knock on `steps` from step `i` on where every
/// step goes through: packets at even positions, pauses between them.
pub open spec fn knock_action_at(steps: Seq<KnockStep>, default_protocol: Seq<char>, pause: u64, i: int, j: int) -> KnockAction {
    if j % 2 == 0 {
        KnockAction::Send {
            protocol: step_protocol(steps[i + j / 2].protocol@, default_protocol)->Ok_0,
            port: steps[i + j / 2].port,
        }
    } else {
        KnockAction::Pause { millis: pause }
    }
}

proof fn lemma_plan_from_complete(
    host: Seq<char>,
    steps: Seq<KnockStep>,
    default_protocol: Seq<char>,
    address_errors: Seq<Option<String>>,
    pause: u64,
    i: int,
)
    requires
        0 <= i < steps.len(),
        plan_from(host, steps, default_protocol, address_errors, pause, i).1 is None,
    ensures
        plan_from(host, steps, default_protocol, address_errors, pause, i).0 == Seq::new(
            (2 * (steps.len() - i) - 1) as nat,
            |j: int| knock_action_at(steps, default_protocol, pause, i, j),
        ),
        forall|k: int| i <= k < steps.len() ==> address_errors[k] is None && #[trigger] step_protocol(
            steps[k].protocol@,
            default_protocol,
        ) is Ok,
    decreases steps.len() - i,
{
    let n = steps.len();
    let whole = plan_from(host, steps, default_protocol, address_errors, pause, i);
    let target = Seq::new((2 * (n - i) - 1) as nat, |j: int| knock_action_at(steps, default_protocol, pause, i, j));
    if i + 1 < n {
        lemma_plan_from_complete(host, steps, default_protocol, address_errors, pause, i + 1);
        let rest = Seq::new((2 * (n - i - 1) - 1) as nat, |j: int| knock_action_at(steps, default_protocol, pause, i + 1, j));
        assert forall|j: int| 0 <= j < target.len() implies #[trigger] whole.0[j] == target[j] by {
            if j >= 2 {
                assert(whole.0[j] == rest[j - 2]);
                assert((j - 2) % 2 == j % 2);
                assert(i + 1 + (j - 2) / 2 == i + j / 2);
            }
        }
        assert(whole.0 =~= target);
    } else {
        let rest = plan_from(host, steps, default_protocol, address_errors, pause, i + 1);
        assert(rest.0 == Seq::<KnockAction>::empty());
        assert(address_errors[i] is None);
        let p = step_protocol(steps[i].protocol@, default_protocol)->Ok_0;
        assert(whole.0 == seq![KnockAction::Send { protocol: p, port: steps[i].port }] + rest.0);
        assert(target[0] == KnockAction::Send { protocol: p, port: steps[i].port });
        assert(whole.0 =~= target);
    }
}

/// A knock that succeeds sends one packet per step, in order, each with its own
/// protocol or the default, with a pause of at least 10 ms between packets and
/// none after the last; every step's address parsed.
pub proof fn lemma_successful_knock_sends_every_step(
    host: Seq<char>,
    steps: Seq<KnockStep>,
    default_protocol: Seq<char>,
    address_errors: Seq<Option<String>>,
    delay_ms: u64,
)
    requires
        knock_plan(host, Ok(steps), default_protocol, address_errors, delay_ms).1.0,
    ensures
        steps.len() > 0,
        knock_plan(host, Ok(steps), default_protocol, address_errors, delay_ms).0 == Seq::new(
            (2 * steps.len() - 1) as nat,
            |j: int| knock_action_at(steps, default_protocol, knock_pause(delay_ms), 0, j),
        ),
        knock_pause(delay_ms) >= 10,
        forall|k: int| 0 <= k < steps.len() ==> address_errors[k] is None && #[trigger] step_protocol(
            steps[k].protocol@,
            default_protocol,
        ) is Ok,
{
    lemma_plan_from_complete(host, steps, default_protocol, address_errors, knock_pause(delay_ms), 0);
}

impl KnockResult {
    /// The result as a `Result`: the message on success, the message as the error otherwise.
    pub fn into_result(self) -> (res: Result<String, String>)
        ensures
            self.success ==> (res matches Ok(m) && m@ == self.message@),
            !self.success ==> (res matches Err(m) && m@ == self.message@),
    {
        if self.success {
            Ok(self.message)
        } else {
            Err(self.message)
        }
    }
}

} // verus!
