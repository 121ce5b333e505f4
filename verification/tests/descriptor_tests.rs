use subconv::descriptor::{build_descriptor, exec_search_result, exec_search_step, ExecEvent,
    ExecSearch};
use subconv::errors::Error;
use subconv::transform::ControllerInfo;

#[test]
fn descriptor_has_fixed_field_order() {
    let ctrl = ControllerInfo {
        address: String::from("127.0.0.1"),
        port: String::from("7890"),
    };
    let line = build_descriptor("/usr/local/bin/sing-box", &ctrl, "/work/config.json");
    assert_eq!(
        line,
        "External = external, exec = \"/usr/local/bin/sing-box\", local-port = 7890, \
         args = \"run\", args = \"-c\", args = \"/work/config.json\", address = 127.0.0.1"
    );
}

#[test]
fn descriptor_is_deterministic() {
    let ctrl = ControllerInfo { address: String::from("::"), port: String::from("1080") };
    let a = build_descriptor("/bin/sb", &ctrl, "/tmp/config.json");
    let b = build_descriptor("/bin/sb", &ctrl, "/tmp/config.json");
    assert_eq!(a, b);
}

#[test]
fn empty_controller_gives_empty_fields() {
    let ctrl = ControllerInfo { address: String::new(), port: String::new() };
    let line = build_descriptor("/bin/sb", &ctrl, "/tmp/config.json");
    assert_eq!(
        line,
        "External = external, exec = \"/bin/sb\", local-port = , \
         args = \"run\", args = \"-c\", args = \"/tmp/config.json\", address = "
    );
}

#[test]
fn located_executable_is_taken_directly() {
    let s = exec_search_step(
        ExecSearch::Looking,
        ExecEvent::LocateDone(true, String::from("/opt/sb")),
    );
    assert!(matches!(s, ExecSearch::Found(p) if p == "/opt/sb"));
}

#[test]
fn missing_executable_triggers_an_install() {
    let s = exec_search_step(ExecSearch::Looking, ExecEvent::LocateDone(false, String::new()));
    assert!(matches!(s, ExecSearch::Installing));
}

#[test]
fn successful_install_relocates_and_takes_any_output() {
    let s = exec_search_step(ExecSearch::Installing, ExecEvent::InstallDone(true));
    assert!(matches!(s, ExecSearch::Relocating));
    let s = exec_search_step(s, ExecEvent::LocateDone(false, String::from("/opt/new")));
    assert!(matches!(s, ExecSearch::Found(p) if p == "/opt/new"));
}

#[test]
fn failed_install_is_terminal() {
    let s = exec_search_step(ExecSearch::Installing, ExecEvent::InstallDone(false));
    assert!(matches!(s, ExecSearch::Failed));
    assert_eq!(exec_search_result(s), Err(Error::InstallFailed));
}

#[test]
fn found_path_is_the_search_result() {
    let r = exec_search_result(ExecSearch::Found(String::from("/opt/sb")));
    assert_eq!(r, Ok(String::from("/opt/sb")));
}

#[test]
fn error_messages_are_fixed_lines() {
    assert_eq!(Error::MissingInbounds.message(), "Can't find any inbounds in target configuration.");
    assert_eq!(Error::UnsupportedScheme.message(), "Only support http or https.");
    assert_eq!(
        Error::InstallFailed.message(),
        "Failed to install sing-box, please try: brew install sing-box."
    );
    assert_eq!(Error::ExecutableNotFound.message(), "sing-box executable not found.");
    assert_eq!(Error::FileWriteError.message(), "Failed to write config.json.");
}

#[test]
fn terminal_state_ignores_stray_events() {
    let s = exec_search_step(ExecSearch::Failed, ExecEvent::LocateDone(true, String::from("/x")));
    assert!(matches!(s, ExecSearch::Failed));
    let s = exec_search_step(ExecSearch::Looking, ExecEvent::InstallDone(true));
    assert!(matches!(s, ExecSearch::Looking));
}
