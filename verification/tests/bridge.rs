use lightctl::bridge::{
    change_hue_group, change_hue_group_reply, get_hue, get_hue_request, get_hue_url, power_body,
    read_listing, BridgeConfig, Method, MissingSetting,
};
use lightctl::error::{DecodeError, Field, LightError};

const LIVING_ROOM: &str = r#"{"1":{"name":"Living room","lights":["1","2"],"sensors":[],"type":"Room","state":{"all_on":false,"any_on":true},"recycle":false,"class":"Living room","action":{"on":true,"bri":254,"hue":8418,"sat":140,"effect":"none","xy":[0.4573,0.41],"ct":366,"alert":"select","colormode":"ct"}}}"#;

fn config() -> BridgeConfig {
    BridgeConfig::new("192.168.1.2".to_string(), "abc123".to_string(), true)
}

#[test]
fn group_listing_address_is_built_from_host_and_token() {
    assert_eq!(get_hue_url(&config()), "https://192.168.1.2/api/abc123/groups");
}

#[test]
fn configuration_keeps_what_it_was_given() {
    let config = BridgeConfig::new("bridge.local".to_string(), "token".to_string(), false);
    assert_eq!(config.host(), "bridge.local");
    assert_eq!(config.token(), "token");
    assert!(!config.trust_any_certificate());
}

#[test]
fn listing_request_is_a_get_without_body() {
    let request = get_hue_request(&config());
    assert_eq!(request.method, Method::Get);
    assert_eq!(request.url, "https://192.168.1.2/api/abc123/groups");
    assert_eq!(request.body, None);
    assert_eq!(request.credential, None);
    assert!(request.trust_any_certificate);
}

#[test]
fn trust_flag_of_the_request_follows_the_configuration() {
    let strict = BridgeConfig::new("h".to_string(), "t".to_string(), false);
    assert!(!get_hue_request(&strict).trust_any_certificate);
    assert!(!change_hue_group(&strict, "1", true).trust_any_certificate);
}

#[test]
fn power_change_is_a_put_to_the_action_of_the_group() {
    let request = change_hue_group(&config(), "7", true);
    assert_eq!(request.method, Method::Put);
    assert_eq!(request.url, "https://192.168.1.2/7/action");
    assert_eq!(request.body, Some("{\"on\":true}".to_string()));
    assert_eq!(request.credential, Some("abc123".to_string()));
    assert!(request.trust_any_certificate);
}

#[test]
fn the_address_of_a_power_change_holds_no_token() {
    let config = BridgeConfig::new("bridge.local".to_string(), "s3cr3t".to_string(), false);
    for (group, state) in [("1", true), ("10", false), ("", true)] {
        let request = change_hue_group(&config, group, state);
        assert_eq!(request.url, format!("https://bridge.local/{group}/action"));
        assert!(!request.url.contains("s3cr3t"));
        assert_eq!(request.credential, Some("s3cr3t".to_string()));
    }
}

#[test]
fn power_change_off_carries_false() {
    let request = change_hue_group(&config(), "7", false);
    assert_eq!(request.body, Some("{\"on\":false}".to_string()));
}

#[test]
fn power_body_holds_only_the_power_state() {
    assert_eq!(power_body(true), "{\"on\":true}");
    assert_eq!(power_body(false), "{\"on\":false}");
}

#[test]
fn same_power_change_twice_gives_the_same_request() {
    assert_eq!(change_hue_group(&config(), "1", true), change_hue_group(&config(), "1", true));
}

#[test]
fn empty_catalog_lists_no_groups() {
    let catalog = get_hue(Ok(b"{}".to_vec())).unwrap();
    assert!(catalog.is_empty());
    assert_eq!(catalog.len(), 0);
    assert!(catalog.entries().is_empty());
}

#[test]
fn listing_is_read_into_a_catalog() {
    let catalog = get_hue(Ok(LIVING_ROOM.as_bytes().to_vec())).unwrap();
    assert_eq!(catalog.len(), 1);
    let group = catalog.get("1").unwrap();
    assert_eq!(group.name, "Living room");
    assert_eq!(group.lights, vec!["1".to_string(), "2".to_string()]);
    assert!(group.sensors.is_empty());
    assert_eq!(group.kind, "Room");
    assert!(!group.state.all_on());
    assert!(group.state.any_on());
    assert!(!group.recycle);
    assert_eq!(group.class, "Living room");
    assert!(group.action.on);
    assert_eq!(group.action.bri, 254);
    assert_eq!(group.action.hue, 8418);
    assert_eq!(group.action.sat, 140);
    assert_eq!(group.action.effect, "none");
    assert_eq!(group.action.xy, vec!["0.4573".to_string(), "0.41".to_string()]);
    assert_eq!(group.action.ct, 366);
    assert_eq!(group.action.alert, "select");
    assert_eq!(group.action.colormode, "ct");
    assert!(catalog.get("2").is_none());
}

#[test]
fn listing_without_name_is_a_decode_error() {
    let payload = LIVING_ROOM.replace("\"name\":\"Living room\",", "");
    let outcome = get_hue(Ok(payload.into_bytes()));
    assert_eq!(outcome, Err(LightError::Decode(DecodeError::MissingField(Field::Name))));
}

#[test]
fn listing_that_is_no_json_is_a_syntax_error() {
    let outcome = get_hue(Ok(b"{\"1\": ".to_vec()));
    assert!(matches!(outcome, Err(LightError::Decode(DecodeError::Syntax { .. }))));
    assert_eq!(
        read_listing(b"[1, 2"),
        Err(DecodeError::Syntax { line: 1, column: 5 })
    );
}

#[test]
fn listing_that_is_no_object_is_a_decode_error() {
    assert_eq!(get_hue(Ok(b"[]".to_vec())), Err(LightError::Decode(DecodeError::NotAnObject)));
    assert_eq!(
        get_hue(Ok(b"{\"1\": 3}".to_vec())),
        Err(LightError::Decode(DecodeError::NotAnObject))
    );
}

#[test]
fn failed_transport_is_a_transport_error() {
    let outcome = get_hue(Err("connection refused".to_string()));
    assert_eq!(outcome, Err(LightError::Transport("connection refused".to_string())));
    let reply = change_hue_group_reply(Err("timed out".to_string()));
    assert_eq!(reply, Err(LightError::Transport("timed out".to_string())));
}

#[test]
fn any_answer_to_a_power_change_is_acceptance() {
    assert_eq!(change_hue_group_reply(Ok(Vec::new())), Ok(()));
    assert_eq!(change_hue_group_reply(Ok(b"not json at all".to_vec())), Ok(()));
    assert_eq!(change_hue_group_reply(Ok(b"[{\"error\":{}}]".to_vec())), Ok(()));
}

#[test]
fn a_configuration_needs_both_settings() {
    let found = BridgeConfig::resolve(Some("h".to_string()), Some("t".to_string()), true).unwrap();
    assert_eq!(found.host(), "h");
    assert_eq!(found.token(), "t");
    assert!(found.trust_any_certificate());
    assert_eq!(
        BridgeConfig::resolve(None, Some("t".to_string()), true).err(),
        Some(MissingSetting::Host)
    );
    assert_eq!(
        BridgeConfig::resolve(Some("h".to_string()), None, false).err(),
        Some(MissingSetting::Token)
    );
    assert_eq!(BridgeConfig::resolve(None, None, false).err(), Some(MissingSetting::Host));
}

#[test]
fn a_listed_group_without_colour_members_is_read_with_placeholders() {
    let body = br#"{"3":{"name":"Plugs","lights":["5"],"sensors":[],"type":"Room","state":{"all_on":true,"any_on":true},"recycle":false,"class":"Other","action":{"on":true,"bri":77,"alert":"select"}}}"#;
    let catalog = get_hue(Ok(body.to_vec())).unwrap();
    let group = catalog.get("3").unwrap();
    assert!(group.action.on);
    assert_eq!(group.action.bri, 77);
    assert_eq!(group.action.alert, "select");
    assert_eq!(group.action.hue, 0);
    assert_eq!(group.action.sat, 0);
    assert_eq!(group.action.effect, "none");
    assert!(group.action.xy.is_empty());
    assert_eq!(group.action.ct, 0);
    assert_eq!(group.action.colormode, "");
}
