use wol::{
    confirmation, exit_code, first_stage, next_step, Destination, SendError, Stage, Step,
    DEFAULT_ADDRESS, DEFAULT_PORT, EXIT_FAILED, EXIT_SENT, LOCAL_ADDRESS,
};

#[test]
fn default_destination_is_the_broadcast_discard_port() {
    assert_eq!(DEFAULT_ADDRESS, "255.255.255.255");
    assert_eq!(DEFAULT_PORT, 9);
    let destination = Destination::broadcast();
    assert_eq!(destination.address, "255.255.255.255");
    assert_eq!(destination.port, 9);
    assert_eq!(destination.to_text(), "255.255.255.255:9");
}

#[test]
fn destination_keeps_what_it_is_given() {
    let destination = Destination::new(String::from("192.168.1.255"), 7);
    assert_eq!(destination.address, "192.168.1.255");
    assert_eq!(destination.port, 7);
}

#[test]
fn destination_text_writes_the_port_in_decimal() {
    assert_eq!(Destination::new(String::from("h"), 0).to_text(), "h:0");
    assert_eq!(Destination::new(String::from("h"), 9).to_text(), "h:9");
    assert_eq!(Destination::new(String::from("h"), 10).to_text(), "h:10");
    assert_eq!(Destination::new(String::from("h"), 99).to_text(), "h:99");
    assert_eq!(Destination::new(String::from("h"), 100).to_text(), "h:100");
    assert_eq!(Destination::new(String::from("h"), 4000).to_text(), "h:4000");
    assert_eq!(Destination::new(String::from("h"), 40009).to_text(), "h:40009");
    assert_eq!(Destination::new(String::from("h"), 65535).to_text(), "h:65535");
    assert_eq!(Destination::new(String::new(), 1).to_text(), ":1");
}

#[test]
fn destination_text_agrees_with_the_standard_format() {
    let ports: Vec<u16> = vec![0, 1, 9, 10, 11, 255, 256, 999, 1000, 1024, 9999, 10000, 65534];
    for port in ports {
        let text = Destination::new(String::from("10.0.0.255"), port).to_text();
        assert_eq!(text, format!("10.0.0.255:{}", port));
    }
}

#[test]
fn socket_is_bound_to_any_address_and_port() {
    assert_eq!(LOCAL_ADDRESS, "0.0.0.0:0");
}

#[test]
fn operations_run_in_order() {
    assert_eq!(first_stage(), Stage::Bind);
    assert!(matches!(next_step(Stage::Bind, Ok(())), Step::Run(Stage::EnableBroadcast)));
    assert!(matches!(next_step(Stage::EnableBroadcast, Ok(())), Step::Run(Stage::Send)));
    assert!(matches!(next_step(Stage::Send, Ok(())), Step::Sent));
}

#[test]
fn three_successes_end_the_transmission() {
    let mut stage = first_stage();
    let mut ran: Vec<Stage> = Vec::new();
    loop {
        ran.push(stage);
        match next_step(stage, Ok(())) {
            Step::Run(next) => stage = next,
            step => {
                assert!(matches!(step, Step::Sent));
                assert_eq!(exit_code(&step), Some(0));
                break;
            }
        }
    }
    assert_eq!(ran, vec![Stage::Bind, Stage::EnableBroadcast, Stage::Send]);
}

#[test]
fn a_failure_ends_the_transmission_at_once() {
    let stages: Vec<Stage> = vec![Stage::Bind, Stage::EnableBroadcast, Stage::Send];
    for stage in stages {
        match next_step(stage, Err(String::from("permission denied"))) {
            Step::Failed(error) => {
                assert_eq!(error.stage, stage);
                assert_eq!(error.cause, "permission denied");
            }
            other => panic!("expected a failure, got {:?}", other),
        }
    }
}

#[test]
fn diagnostics_name_the_operation_and_the_cause() {
    let destination = Destination::broadcast();
    let bind = SendError { stage: Stage::Bind, cause: String::from("address in use") };
    assert_eq!(bind.diagnostic(&destination), "Error: failed to bind socket: address in use");
    let broadcast =
        SendError { stage: Stage::EnableBroadcast, cause: String::from("permission denied") };
    assert_eq!(
        broadcast.diagnostic(&destination),
        "Error: failed to enable broadcast: permission denied"
    );
}

#[test]
fn send_diagnostic_names_the_destination() {
    let destination = Destination::new(String::from("192.168.1.255"), 7);
    let step = next_step(Stage::Send, Err(String::from("Network is unreachable (os error 101)")));
    assert_eq!(exit_code(&step), Some(1));
    match step {
        Step::Failed(error) => assert_eq!(
            error.diagnostic(&destination),
            "Error: failed to send packet to 192.168.1.255:7: Network is unreachable (os error 101)"
        ),
        other => panic!("expected a failure, got {:?}", other),
    }
}

#[test]
fn diagnostic_with_empty_cause_keeps_its_prefix() {
    let destination = Destination::broadcast();
    let error = SendError { stage: Stage::Send, cause: String::new() };
    assert_eq!(error.diagnostic(&destination), "Error: failed to send packet to 255.255.255.255:9: ");
}

#[test]
fn confirmation_names_the_address() {
    assert_eq!(confirmation("b8:ae:ed:9c:c7:89"), "Wake up packet sent to b8:ae:ed:9c:c7:89");
    assert!(confirmation("00:11:22:33:44:55").contains("00:11:22:33:44:55"));
    assert_eq!(confirmation(""), "Wake up packet sent to ");
}

#[test]
fn exit_codes_follow_the_final_step() {
    assert_eq!(EXIT_SENT, 0);
    assert_eq!(EXIT_FAILED, 1);
    assert_eq!(exit_code(&Step::Sent), Some(EXIT_SENT));
    let failed = Step::Failed(SendError { stage: Stage::Bind, cause: String::from("x") });
    assert_eq!(exit_code(&failed), Some(EXIT_FAILED));
    assert_eq!(exit_code(&Step::Run(Stage::Send)), None);
}
