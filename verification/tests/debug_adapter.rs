use rust_debug::debug_adapter::{
    attach_requests, dap_command, dap_scope, kind_of_message_type, dap_stack_frame, find_frame, message_kind, stopped_event_body,
    verify_init_command, AttachRequestArguments, AttachStart, DapCommand, DapMessageError, MessageKind,
};
use rust_debug::debug_handler::ConfigRequest;
use rust_debug::debugger::stack_frame::StackFrame;
use rust_debug::debugger::stacktrace::CallFrame;
use rust_debug::rust_debug::source_information::SourceInformation;

#[test]
fn commands_of_the_protocol() {
    assert_eq!(dap_command("setBreakpoints"), DapCommand::SetBreakpoints);
    assert_eq!(dap_command("configurationDone"), DapCommand::ConfigurationDone);
    assert_eq!(dap_command("stepOut"), DapCommand::StepOut);
    assert_eq!(dap_command("evaluate"), DapCommand::Unknown);
}

#[test]
fn first_request_must_initialize() {
    assert_eq!(verify_init_command("initialize"), Ok(()));
    assert_eq!(
        verify_init_command("attach"),
        Err("Error: Expected command initialize got attach".to_string())
    );
}

#[test]
fn attach_plan() {
    let args = AttachRequestArguments {
        program: "fw.elf".to_string(),
        chip: "nRF52".to_string(),
        cwd: Some("/work".to_string()),
        reset: Some(true),
        halt_after_reset: None,
        flash: None,
    };
    let plan = attach_requests(args);
    assert_eq!(plan.settings.len(), 3);
    assert!(matches!(&plan.settings[0], ConfigRequest::SetBinary { path } if path == "fw.elf"));
    assert!(matches!(&plan.settings[1], ConfigRequest::SetChip { chip } if chip == "nRF52"));
    assert!(matches!(&plan.settings[2], ConfigRequest::SetCwd { cwd } if cwd == "/work"));
    assert_eq!(plan.start, AttachStart::Attach { reset: true, reset_and_halt: false });
    let args = AttachRequestArguments {
        program: "fw.elf".to_string(),
        chip: "nRF52".to_string(),
        cwd: None,
        reset: None,
        halt_after_reset: Some(true),
        flash: Some(true),
    };
    let plan = attach_requests(args);
    assert_eq!(plan.settings.len(), 2);
    assert_eq!(plan.start, AttachStart::Flash { reset_and_halt: true });
}

fn frame(id: u64, dir: Option<&str>, file: Option<&str>, column: Option<u64>) -> StackFrame {
    StackFrame {
        call_frame: CallFrame { id, registers: vec![None; 16], code_location: 0x100, cfa: 0 },
        name: "main".to_string(),
        source: SourceInformation {
            directory: dir.map(|d| d.to_string()),
            file: file.map(|f| f.to_string()),
            line: Some(12),
            column,
        },
        variables: vec![],
    }
}

#[test]
fn stack_frames_as_reported() {
    let f = dap_stack_frame(&frame(3, Some("/src"), Some("main.rs"), None));
    assert_eq!(f.id, 3);
    assert_eq!(f.name, "main");
    assert_eq!(f.source.name, Some("main.rs".to_string()));
    assert_eq!(f.source.path, Some("/src/main.rs".to_string()));
    assert_eq!(f.line, 12);
    assert_eq!(f.column, 0);
    assert_eq!(f.presentation_hint, "normal");
    let g = dap_stack_frame(&frame(0, None, Some("main.rs"), Some(5)));
    assert_eq!(g.source.path, None);
    assert_eq!(g.column, 5);
}

#[test]
fn scope_of_a_frame() {
    let c = dap_scope(&frame(7, Some("/src"), Some("lib.rs"), Some(3)));
    assert_eq!(c.name, "main");
    assert_eq!(c.source.name, Some("lib.rs".to_string()));
    assert_eq!(c.source.path, Some("/src/lib.rs".to_string()));
    assert_eq!(c.line, Some(12));
    assert_eq!(c.column, Some(3));
    assert!(!c.expensive);
    assert_eq!(c.variables_reference, 7);
    let d = dap_scope(&frame(1, Some("/src"), None, None));
    assert_eq!(d.source.path, None);
    assert_eq!(d.column, None);
}

#[test]
fn frame_numbers_are_reported_as_signed() {
    let f = dap_stack_frame(&frame(u64::MAX, None, None, None));
    assert_eq!(f.id, -1);
    let frames = vec![frame(u64::MAX, None, None, None)];
    assert_eq!(find_frame(&frames, -1), Some(0));
}

#[test]
fn frames_are_found_by_number() {
    let frames = vec![frame(0, None, None, None), frame(1, None, None, None)];
    assert_eq!(find_frame(&frames, 1), Some(1));
    assert_eq!(find_frame(&frames, 2), None);
    assert_eq!(find_frame(&frames, -1), None);
}

#[test]
fn stopped_events() {
    let b = stopped_event_body(true, "Breakpoint".to_string(), Some(vec![4]));
    assert_eq!(b.reason, "breakpoint");
    assert_eq!(b.description, Some("Target stopped due to breakpoint.".to_string()));
    assert_eq!(b.thread_id, Some(0));
    assert_eq!(b.hit_breakpoint_ids, Some(vec![4]));
    let b = stopped_event_body(false, "Request".to_string(), None);
    assert_eq!(b.reason, "Request");
    assert_eq!(b.description, None);
}

#[test]
fn message_kinds_by_type_field() {
    assert_eq!(message_kind(br#"{"seq":1,"type":"request","command":"next"}"#).unwrap(), MessageKind::Request);
    assert_eq!(message_kind(br#"{"type":"event","seq":4}"#).unwrap(), MessageKind::Event);
    assert_eq!(message_kind(br#"{"seq":2,"type":"response"}"#).unwrap(), MessageKind::Response);
    match message_kind(br#"{"seq":2,"type":"notice"}"#) {
        Err(DapMessageError::UnknownType { message }) => assert_eq!(message, "Unknown message type: notice"),
        _ => panic!("expected an unknown type"),
    }
    assert!(matches!(message_kind(b"{\"seq\":2}"), Err(DapMessageError::Json(_))));
    assert!(matches!(message_kind(b"not json"), Err(DapMessageError::Json(_))));
}

#[test]
fn message_types_name_their_kind() {
    assert_eq!(kind_of_message_type("request"), Ok(MessageKind::Request));
    assert_eq!(kind_of_message_type("response"), Ok(MessageKind::Response));
    assert_eq!(kind_of_message_type("event"), Ok(MessageKind::Event));
    assert_eq!(kind_of_message_type("Event"), Err("Unknown message type: Event".to_string()));
}
