use rust_debug::config::Config;
use rust_debug::debug_handler::config::Config as HandlerConfig;
use rust_debug::debug_handler::{ConfigRequest, DebugHandler, HandlerDecision, HandlerRequest};

#[test]
fn missing_configuration_messages() {
    let c = Config::new(None);
    assert!(c.is_missing_config());
    assert_eq!(c.missing_config(), "Missing required configurations:\n\tbinary file\n\tchip");
    let c = Config::new(Some("app.elf".to_string()));
    assert_eq!(c.missing_config(), "Missing required configurations:\n\tchip");
    let c = Config { bin: Some("a".to_string()), chip: Some("b".to_string()), probe_num: 0 };
    assert!(!c.is_missing_config());
    assert_eq!(c.missing_config(), "No required configurations missing");
}

#[test]
fn handler_configuration() {
    let c = HandlerConfig::new(None);
    assert_eq!(c.chip, Some("STM32F411RETx".to_string()));
    assert_eq!(c.missing_config_message(), "Missing required configurations:\n\tbinary file");
}

#[test]
fn handler_requests() {
    let mut h = DebugHandler::new(None);
    match h.handle_request(HandlerRequest::Target) {
        HandlerDecision::MissingConfig { message } => {
            assert_eq!(message, "Missing required configurations:\n\tbinary file")
        },
        _ => panic!("expected missing configuration"),
    }
    let d = h.handle_request(HandlerRequest::Config(ConfigRequest::SetBinary { path: "fw.elf".to_string() }));
    assert!(matches!(d, HandlerDecision::Configured));
    let d = h.handle_request(HandlerRequest::Config(ConfigRequest::SetProbeNumber { number: 2 }));
    assert!(matches!(d, HandlerDecision::Configured));
    match h.handle_request(HandlerRequest::Target) {
        HandlerDecision::Start { binary, probe_num, chip, cwd } => {
            assert_eq!(binary, "fw.elf");
            assert_eq!(probe_num, 2);
            assert_eq!(chip, "STM32F411RETx");
            assert_eq!(cwd, None);
        },
        _ => panic!("expected a start"),
    }
    assert!(matches!(h.handle_request(HandlerRequest::Exit), HandlerDecision::Exit));
}
