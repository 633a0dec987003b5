use knockd_client::knock::{
    plan_knock, resolve_protocol, validate_ports_json, KnockAction, KnockProtocol, KnockResult,
};
use knockd_client::models::KnockStep;

fn step(protocol: &str, port: u16) -> KnockStep {
    KnockStep { protocol: protocol.to_string(), port }
}

#[test]
fn protocol_resolution() {
    assert_eq!(resolve_protocol("", "udp"), Ok(KnockProtocol::Udp));
    assert_eq!(resolve_protocol("TCP", "udp"), Ok(KnockProtocol::Tcp));
    assert_eq!(resolve_protocol("", "Tcp"), Ok(KnockProtocol::Tcp));
    assert_eq!(resolve_protocol("ICMP", "udp"), Err("Unknown protocol: icmp".to_string()));
}

#[test]
fn knock_plan_for_a_valid_sequence() {
    let steps = vec![step("udp", 7000), step("tcp", 8000), step("", 9000)];
    let plan = plan_knock("10.0.0.1", Ok(steps), "udp", 5, &vec![None, None, None]);
    assert_eq!(
        plan.actions,
        vec![
            KnockAction::Send { protocol: KnockProtocol::Udp, port: 7000 },
            KnockAction::Pause { millis: 10 },
            KnockAction::Send { protocol: KnockProtocol::Tcp, port: 8000 },
            KnockAction::Pause { millis: 10 },
            KnockAction::Send { protocol: KnockProtocol::Udp, port: 9000 },
        ]
    );
    assert!(plan.result.success);
    assert_eq!(plan.result.message, "Knock sequence complete: 3 packets sent to 10.0.0.1");
}

#[test]
fn knock_plan_keeps_longer_delays() {
    let plan = plan_knock("h", Ok(vec![step("", 1), step("", 2)]), "tcp", 250, &vec![None, None]);
    assert_eq!(
        plan.actions,
        vec![
            KnockAction::Send { protocol: KnockProtocol::Tcp, port: 1 },
            KnockAction::Pause { millis: 250 },
            KnockAction::Send { protocol: KnockProtocol::Tcp, port: 2 },
        ]
    );
}

#[test]
fn knock_plan_failures() {
    let plan = plan_knock("h", Err("expected value".to_string()), "udp", 100, &vec![]);
    assert!(plan.actions.is_empty());
    assert!(!plan.result.success);
    assert_eq!(plan.result.message, "Invalid knock ports JSON: expected value");

    let plan = plan_knock("h", Ok(vec![]), "udp", 100, &vec![]);
    assert!(plan.actions.is_empty());
    assert_eq!(plan.result.message, "No knock ports configured");

    let steps = vec![step("udp", 7000), step("icmp", 8000), step("udp", 9000)];
    let plan = plan_knock("h", Ok(steps), "udp", 100, &vec![None, None, None]);
    assert_eq!(
        plan.actions,
        vec![KnockAction::Send { protocol: KnockProtocol::Udp, port: 7000 }, KnockAction::Pause { millis: 100 }]
    );
    assert!(!plan.result.success);
    assert_eq!(plan.result.message, "Unknown protocol: icmp");

    let steps = vec![step("udp", 7000), step("udp", 8000)];
    let errors = vec![None, Some("invalid socket address syntax".to_string())];
    let plan = plan_knock("bad host", Ok(steps), "udp", 100, &errors);
    assert_eq!(plan.actions.len(), 2);
    assert_eq!(plan.result.message, "Invalid address bad host:8000: invalid socket address syntax");
}

#[test]
fn port_list_validation_accepts_good_lists() {
    let steps = vec![step("udp", 7000), step("TCP", 8000), step("", 9000)];
    let ok = validate_ports_json(Ok(steps)).unwrap();
    assert_eq!(ok.len(), 3);
    assert_eq!(ok[1].protocol, "TCP");
    assert_eq!(ok[2].port, 9000);
}

#[test]
fn port_list_validation_errors() {
    assert_eq!(
        validate_ports_json(Err("EOF while parsing".to_string())).unwrap_err(),
        "Invalid JSON: EOF while parsing"
    );
    assert_eq!(validate_ports_json(Ok(vec![])).unwrap_err(), "Port list cannot be empty");
    assert_eq!(
        validate_ports_json(Ok(vec![step("udp", 1), step("udp", 0)])).unwrap_err(),
        "Step 2: port cannot be 0"
    );
    assert_eq!(
        validate_ports_json(Ok(vec![step("Icmp", 5), step("udp", 0)])).unwrap_err(),
        "Step 1: protocol must be 'udp' or 'tcp', got 'Icmp'"
    );
}

#[test]
fn knock_result_as_result() {
    let ok = KnockResult { success: true, message: "done".to_string() };
    assert_eq!(ok.into_result(), Ok("done".to_string()));
    let err = KnockResult { success: false, message: "failed".to_string() };
    assert_eq!(err.into_result(), Err("failed".to_string()));
}
