use lightctl::bridge::{BridgeConfig, Method};
use lightctl::color::RGB;
use lightctl::dispatch::{dispatch, exit_status, Command, HueCommand, Notice, Plan};
use lightctl::error::LightError;

fn config() -> BridgeConfig {
    BridgeConfig::new("10.0.0.2".to_string(), "s3cr3t".to_string(), true)
}

#[test]
fn list_fetches_the_groups() {
    match dispatch(&config(), &Command::Hue(HueCommand::List)) {
        Plan::ListGroups { request } => {
            assert_eq!(request.method, Method::Get);
            assert_eq!(request.url, "https://10.0.0.2/api/s3cr3t/groups");
            assert_eq!(request.body, None);
            assert!(request.trust_any_certificate);
        }
        other => panic!("{other:?}"),
    }
}

#[test]
fn on_turns_the_group_on() {
    let command = Command::Hue(HueCommand::On { group: "4".to_string(), color: None });
    match dispatch(&config(), &command) {
        Plan::SetPower { request, notice } => {
            assert_eq!(request.method, Method::Put);
            assert_eq!(request.url, "https://10.0.0.2/4/action");
            assert_eq!(request.credential, Some("s3cr3t".to_string()));
            assert_eq!(request.body, Some("{\"on\":true}".to_string()));
            assert_eq!(notice, None);
        }
        other => panic!("{other:?}"),
    }
}

#[test]
fn off_turns_the_group_off() {
    let command = Command::Hue(HueCommand::Off { group: "4".to_string() });
    match dispatch(&config(), &command) {
        Plan::SetPower { request, notice } => {
            assert_eq!(request.method, Method::Put);
            assert_eq!(request.url, "https://10.0.0.2/4/action");
            assert_eq!(request.body, Some("{\"on\":false}".to_string()));
            assert_eq!(notice, None);
        }
        other => panic!("{other:?}"),
    }
}

#[test]
fn a_colour_is_accepted_and_answered_with_a_notice() {
    let plain = Command::Hue(HueCommand::On { group: "4".to_string(), color: None });
    for color in ["red", "#ff0000", ""] {
        let command =
            Command::Hue(HueCommand::On { group: "4".to_string(), color: Some(color.to_string()) });
        match (dispatch(&config(), &command), dispatch(&config(), &plain)) {
            (Plan::SetPower { request, notice }, Plan::SetPower { request: same, .. }) => {
                assert_eq!(request, same);
                assert_eq!(notice, Some(Notice::ColorUnsupported));
            }
            other => panic!("{other:?}"),
        }
    }
}

#[test]
fn an_unknown_subcommand_is_a_notice_and_no_error() {
    let command = Command::Hue(HueCommand::Other("dim".to_string()));
    assert_eq!(dispatch(&config(), &command), Plan::Tell(Notice::NotImplemented));
}

#[test]
fn the_hardware_command_runs_a_pass_over_the_hid_subsystem() {
    assert_eq!(
        dispatch(&config(), &Command::Razer),
        Plan::StaticEffect { subsystem: "hid".to_string(), marker: "device_type".to_string() }
    );
}

#[test]
fn notices_have_their_texts() {
    assert_eq!(Notice::NotImplemented.describe(), "need to be implemented");
    assert_eq!(
        Notice::ColorUnsupported.describe(),
        "color is accepted but unsupported: it is not applied"
    );
}

#[test]
fn the_exit_status_is_zero_only_on_success() {
    assert_eq!(exit_status(&Ok(())), 0);
    assert_eq!(exit_status(&Err(LightError::Transport("x".to_string()))), 1);
    assert_eq!(exit_status(&Err(LightError::Io(String::new()))), 1);
    assert_eq!(exit_status(&Err(LightError::BusUnavailable(String::new()))), 1);
    assert_eq!(
        exit_status(&Err(LightError::Decode(lightctl::error::DecodeError::NotAnObject))),
        1
    );
}

#[test]
fn a_colour_holds_its_three_channels() {
    let color = RGB::new(0, 255, 17);
    assert_eq!(color.red, 0);
    assert_eq!(color.green, 255);
    assert_eq!(color.blue, 17);
    assert_eq!(color, RGB { red: 0, green: 255, blue: 17 });
}
