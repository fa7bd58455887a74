use scpsl_api::ip::parse_ip;
use scpsl_api::ip::IpAddress;
use scpsl_api::query::query_pairs;
use scpsl_api::query::server_info_url;
use scpsl_api::query::RequestParameters;
use scpsl_api::query::RequestParametersBuilder;
use scpsl_api::query::UrlBuildError;

#[test]
fn set_flags_appear_and_unset_parameters_are_omitted() {
    let p = RequestParameters::builder()
        .url("https://api.example.com/serverinfo".to_string())
        .players(true)
        .info(false)
        .build();
    let pairs = query_pairs(&p);
    assert!(pairs.iter().any(|(k, v)| k == "players" && v == "true"));
    assert!(!pairs.iter().any(|(k, _)| k == "id"));
    assert!(!pairs.iter().any(|(k, _)| k == "key"));
    assert!(!pairs.iter().any(|(k, _)| k == "info"));
}

#[test]
fn every_set_parameter_is_appended_in_order() {
    let p = RequestParameters::builder()
        .url("https://api.example.com/serverinfo".to_string())
        .id(42)
        .key("secret".to_string())
        .last_online(true)
        .players(true)
        .list(true)
        .info(true)
        .pastebin(true)
        .version(true)
        .flags(true)
        .nicknames(true)
        .online(true)
        .build();
    let pairs = query_pairs(&p);
    let keys: Vec<&str> = pairs.iter().map(|(k, _)| k.as_str()).collect();
    assert_eq!(
        keys,
        vec![
            "id",
            "key",
            "lo",
            "players",
            "list",
            "info",
            "pastebin",
            "version",
            "flags",
            "nicknames",
            "online"
        ]
    );
    assert_eq!(pairs[0].1, "42");
    assert_eq!(pairs[1].1, "secret");
    assert!(pairs.iter().skip(2).all(|(_, v)| v == "true"));
}

#[test]
fn builder_defaults_leave_everything_unset() {
    let p = RequestParametersBuilder::new()
        .url("https://api.example.com/serverinfo".to_string())
        .build();
    assert!(query_pairs(&p).is_empty());
}

#[test]
fn url_carries_the_query_and_escapes_reserved_characters() {
    let p = RequestParameters::builder()
        .url("https://api.example.com/serverinfo".to_string())
        .key("a&b".to_string())
        .players(true)
        .build();
    let url = server_info_url(&p).expect("a valid absolute base URL");
    assert!(url.starts_with("https://api.example.com/serverinfo?"));
    assert!(url.contains("key=a%26b"));
    assert!(url.contains("players=true"));
}

#[test]
fn invalid_base_url_is_reported() {
    let p = RequestParameters::builder().url("not a url".to_string()).players(true).build();
    assert_eq!(server_info_url(&p), Err(UrlBuildError));
}

#[test]
fn ipv4_literals_parse_to_octets() {
    assert_eq!(parse_ip("127.0.0.1"), Ok(IpAddress::V4(127, 0, 0, 1)));
    assert_eq!(parse_ip("255.255.255.255"), Ok(IpAddress::V4(255, 255, 255, 255)));
    assert_eq!(parse_ip("0.0.0.0"), Ok(IpAddress::V4(0, 0, 0, 0)));
}

#[test]
fn ipv4_rejects_out_of_range_and_padding() {
    assert!(parse_ip("256.0.0.1").is_err());
    assert!(parse_ip("01.2.3.4").is_err());
    assert!(parse_ip("1.2.3").is_err());
    assert!(parse_ip("1.2.3.4.5").is_err());
    assert!(parse_ip("1.2.3.").is_err());
    assert!(parse_ip("hello").is_err());
    assert!(parse_ip("").is_err());
}

#[test]
fn ipv6_full_form_parses() {
    assert_eq!(
        parse_ip("1:2:3:4:5:6:7:8"),
        Ok(IpAddress::V6(1, 2, 3, 4, 5, 6, 7, 8))
    );
    assert_eq!(
        parse_ip("2001:db8:0:0:0:8a2e:370:7334"),
        Ok(IpAddress::V6(0x2001, 0xdb8, 0, 0, 0, 0x8a2e, 0x370, 0x7334))
    );
    assert_eq!(
        parse_ip("ABCD:ef01:0:0:0:0:0:1"),
        Ok(IpAddress::V6(0xabcd, 0xef01, 0, 0, 0, 0, 0, 1))
    );
}

#[test]
fn ipv6_compressed_form_fills_with_zeros() {
    assert_eq!(parse_ip("::1"), Ok(IpAddress::V6(0, 0, 0, 0, 0, 0, 0, 1)));
    assert_eq!(parse_ip("::"), Ok(IpAddress::V6(0, 0, 0, 0, 0, 0, 0, 0)));
    assert_eq!(parse_ip("1::"), Ok(IpAddress::V6(1, 0, 0, 0, 0, 0, 0, 0)));
    assert_eq!(
        parse_ip("2001:db8::8a2e:370:7334"),
        Ok(IpAddress::V6(0x2001, 0xdb8, 0, 0, 0, 0x8a2e, 0x370, 0x7334))
    );
    assert_eq!(
        parse_ip("1:2:3:4:5:6:7::"),
        Ok(IpAddress::V6(1, 2, 3, 4, 5, 6, 7, 0))
    );
}

#[test]
fn ipv6_embedded_ipv4_takes_the_last_two_segments() {
    assert_eq!(
        parse_ip("::ffff:192.168.0.1"),
        Ok(IpAddress::V6(0, 0, 0, 0, 0, 0xffff, 0xc0a8, 0x0001))
    );
    assert_eq!(
        parse_ip("1:2:3:4:5:6:1.2.3.4"),
        Ok(IpAddress::V6(1, 2, 3, 4, 5, 6, 0x0102, 0x0304))
    );
}

#[test]
fn ipv6_rejects_malformed_literals() {
    assert!(parse_ip("1:2:3:4:5:6:7").is_err());
    assert!(parse_ip("1:2:3:4:5:6:7:8:9").is_err());
    assert!(parse_ip("1:2:3:4:5:6:7:8::").is_err());
    assert!(parse_ip("1::2::3").is_err());
    assert!(parse_ip(":::").is_err());
    assert!(parse_ip(":1:2:3:4:5:6:7").is_err());
    assert!(parse_ip("1:2:3:4:5:6:7:").is_err());
    assert!(parse_ip("12345::").is_err());
    assert!(parse_ip("g::1").is_err());
}
