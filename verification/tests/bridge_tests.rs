use manta_ws::bridge::{
    console_banner, console_chunk_frame, console_hint, console_outbound_frames, console_preamble,
    frame_for_line, inbound_step, log_tail_frames, run_inbound, InboundAction, InboundEvent,
};

#[test]
fn frame_for_nonempty_line_is_identical() {
    assert_eq!(frame_for_line(&String::from("starting")), "starting");
}

#[test]
fn frame_for_empty_line_is_single_space() {
    assert_eq!(frame_for_line(&String::from("")), " ");
}

#[test]
fn log_tail_scenario_three_lines() {
    let lines = vec![
        String::from("starting"),
        String::from(""),
        String::from("done"),
    ];
    let frames = log_tail_frames(&lines);
    assert_eq!(frames, vec!["starting", " ", "done"]);
}

#[test]
fn log_tail_preserves_order_and_count() {
    let lines = vec![
        String::from("a"),
        String::from("b"),
        String::from("a"),
        String::from(""),
        String::from(""),
    ];
    let frames = log_tail_frames(&lines);
    assert_eq!(frames, vec!["a", "b", "a", " ", " "]);
}

#[test]
fn banner_names_the_target() {
    let banner = console_banner(&String::from("x1000c0s0b0n0"));
    assert_eq!(banner, "Connected to x1000c0s0b0n0\n\r");
}

#[test]
fn hint_is_the_fixed_usage_line() {
    assert_eq!(console_hint(), "User &. key combination to exit the console\n\r");
}

#[test]
fn preamble_is_banner_then_hint() {
    let frames = console_preamble(&String::from("n1"));
    assert_eq!(frames.len(), 2);
    assert_eq!(frames[0], "Connected to n1\n\r");
    assert_eq!(frames[1], "User &. key combination to exit the console\n\r");
}

#[test]
fn banner_precedes_all_forwarded_output() {
    let chunks = vec![String::from("login: "), String::from("$ ")];
    let frames = console_outbound_frames(&String::from("n7"), &chunks);
    assert_eq!(frames.len(), 4);
    assert_eq!(frames[0], "Connected to n7\n\r");
    assert_eq!(frames[1], "User &. key combination to exit the console\n\r");
    assert_eq!(frames[2], "login: ");
    assert_eq!(frames[3], "$ ");
}

#[test]
fn inbound_text_is_written_to_sink() {
    let act = inbound_step(&InboundEvent::Text(String::from("ls -l\r")));
    match act {
        InboundAction::WriteSink(s) => assert_eq!(s, "ls -l\r"),
        InboundAction::Terminate => panic!("text frame must be forwarded"),
    }
}

#[test]
fn inbound_close_terminates() {
    assert!(matches!(inbound_step(&InboundEvent::Close), InboundAction::Terminate));
}

#[test]
fn inbound_transport_error_terminates() {
    assert!(matches!(inbound_step(&InboundEvent::TransportError), InboundAction::Terminate));
}

#[test]
fn no_write_reaches_sink_after_close() {
    let events = vec![
        InboundEvent::Text(String::from("uptime\r")),
        InboundEvent::Close,
        InboundEvent::Text(String::from("stale")),
        InboundEvent::Text(String::from("more stale")),
    ];
    let acts = run_inbound(&events);
    assert_eq!(acts.len(), 2);
    match &acts[0] {
        InboundAction::WriteSink(s) => assert_eq!(s, "uptime\r"),
        InboundAction::Terminate => panic!("first action must forward the text frame"),
    }
    assert!(matches!(acts[1], InboundAction::Terminate));
}

#[test]
fn inbound_without_stop_forwards_everything() {
    let events = vec![
        InboundEvent::Text(String::from("a")),
        InboundEvent::Text(String::from("b")),
    ];
    let acts = run_inbound(&events);
    assert_eq!(acts.len(), 2);
    assert!(matches!(&acts[0], InboundAction::WriteSink(s) if s == "a"));
    assert!(matches!(&acts[1], InboundAction::WriteSink(s) if s == "b"));
}

#[test]
fn chunk_frame_decodes_utf8_losslessly() {
    let bytes: Vec<u8> = "boot: ok ✓".as_bytes().to_vec();
    assert_eq!(console_chunk_frame(&bytes), Some(String::from("boot: ok ✓")));
}

#[test]
fn chunk_frame_rejects_invalid_utf8() {
    let bytes: Vec<u8> = vec![0xff, 0xfe, 0x20];
    assert_eq!(console_chunk_frame(&bytes), None);
}
