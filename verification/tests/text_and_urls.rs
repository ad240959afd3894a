use kubes_cd_sidecar::client::KubesCDControllerClient;
use kubes_cd_sidecar::text::{parse_i32, str_eq, u32_to_dec};

#[test]
fn parse_accepts_plain_decimals() {
    assert_eq!(parse_i32("0"), Some(0));
    assert_eq!(parse_i32("41"), Some(41));
    assert_eq!(parse_i32("007"), Some(7));
    assert_eq!(parse_i32("2147483647"), Some(i32::MAX));
}

#[test]
fn parse_accepts_negative_decimals() {
    assert_eq!(parse_i32("-1"), Some(-1));
    assert_eq!(parse_i32("-2147483648"), Some(i32::MIN));
}

#[test]
fn parse_rejects_malformed_input() {
    assert_eq!(parse_i32(""), None);
    assert_eq!(parse_i32("-"), None);
    assert_eq!(parse_i32("12a"), None);
    assert_eq!(parse_i32("a12"), None);
    assert_eq!(parse_i32(" 12"), None);
    assert_eq!(parse_i32("1 2"), None);
    assert_eq!(parse_i32("--1"), None);
}

#[test]
fn parse_rejects_out_of_range_values() {
    assert_eq!(parse_i32("2147483648"), None);
    assert_eq!(parse_i32("-2147483649"), None);
    assert_eq!(parse_i32("99999999999999999999"), None);
}

#[test]
fn decimal_rendering_round_trips() {
    assert_eq!(u32_to_dec(0), "0");
    assert_eq!(u32_to_dec(7), "7");
    assert_eq!(u32_to_dec(10), "10");
    assert_eq!(u32_to_dec(205), "205");
    assert_eq!(u32_to_dec(4294967295), "4294967295");
}

#[test]
fn string_equality_is_character_wise() {
    assert!(str_eq("", ""));
    assert!(str_eq("abc", "abc"));
    assert!(!str_eq("abc", "abd"));
    assert!(!str_eq("abc", "ab"));
    assert!(!str_eq("ab", "abc"));
}

#[test]
fn request_urls_embed_base_and_installation_id() {
    let client = KubesCDControllerClient {
        installation_id: 205,
        pod_name: "pod-1".to_string(),
        base_url: "http://controller".to_string(),
    };
    assert_eq!(client.update_check_run_url(), "http://controller/update-check-run/205");
    assert_eq!(client.pod_finished_url(), "http://controller/pod-finished/205");
}
