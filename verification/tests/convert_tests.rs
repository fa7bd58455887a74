use scpsl_api::convert::decode_info;
use scpsl_api::convert::encode_info;
use scpsl_api::convert::format_count;
use scpsl_api::convert::parse_count;
use scpsl_api::convert::ConvertError;
use scpsl_api::date::format_date;
use scpsl_api::date::parse_date;
use scpsl_api::date::CalendarDate;
use scpsl_api::digits::u64_to_dec;
use scpsl_api::domain::ErrorResponse;
use scpsl_api::domain::Player;
use scpsl_api::domain::PlayersCount;
use scpsl_api::domain::Response;
use scpsl_api::domain::ServerInfo;
use scpsl_api::domain::SuccessResponse;
use scpsl_api::wire::RawPlayer;
use scpsl_api::wire::RawResponse;
use scpsl_api::wire::RawServerInfo;

fn full_record() -> ServerInfo {
    ServerInfo {
        id: 7,
        port: 7777,
        last_online: Some(CalendarDate { year: 2023, month: 2, day: 28 }),
        players_count: Some(PlayersCount { max_players: 20, current_players: 5 }),
        players: Some(vec![
            Player { id: "111@steam".to_string(), nickname: None },
            Player { id: "222@steam".to_string(), nickname: Some("captain".to_string()) },
        ]),
        info: Some("Hello".to_string()),
        friendly_fire: Some(true),
        whitelist: Some(false),
        modded: Some(true),
        mods: Some(3),
        suppress: Some(false),
        auto_suppress: Some(true),
    }
}

#[test]
fn record_round_trip_all_fields() {
    let rec = full_record();
    let raw = rec.to_raw();
    assert_eq!(raw.id, 7);
    assert_eq!(raw.port, 7777);
    assert_eq!(raw.last_online.as_deref(), Some("2023-02-28"));
    assert_eq!(raw.players_count.as_deref(), Some("5/20"));
    assert_eq!(raw.info.as_deref(), Some("SGVsbG8="));
    let back = ServerInfo::from_raw(&raw).expect("round trip must succeed");
    assert_eq!(back.id, rec.id);
    assert_eq!(back.port, rec.port);
    assert_eq!(back.last_online, rec.last_online);
    assert_eq!(
        back.players_count.as_ref().map(|c| (c.current_players, c.max_players)),
        Some((5, 20))
    );
    let ps = back.players.as_ref().expect("players kept");
    assert_eq!(ps.len(), 2);
    assert_eq!(ps[0].id, "111@steam");
    assert_eq!(ps[0].nickname, None);
    assert_eq!(ps[1].id, "222@steam");
    assert_eq!(ps[1].nickname.as_deref(), Some("captain"));
    assert_eq!(back.info.as_deref(), Some("Hello"));
    assert_eq!(back.friendly_fire, Some(true));
    assert_eq!(back.whitelist, Some(false));
    assert_eq!(back.modded, Some(true));
    assert_eq!(back.mods, Some(3));
    assert_eq!(back.suppress, Some(false));
    assert_eq!(back.auto_suppress, Some(true));
}

#[test]
fn record_round_trip_absent_fields_stay_absent() {
    let rec = ServerInfo { id: 1, port: 2, ..Default::default() };
    let raw = rec.to_raw();
    assert!(raw.last_online.is_none());
    assert!(raw.players_count.is_none());
    assert!(raw.players.is_none());
    assert!(raw.info.is_none());
    let back = ServerInfo::from_raw(&raw).expect("empty record converts");
    assert!(back.last_online.is_none());
    assert!(back.players_count.is_none());
    assert!(back.players.is_none());
    assert!(back.info.is_none());
    assert!(back.friendly_fire.is_none());
    assert!(back.mods.is_none());
}

#[test]
fn player_without_nickname_takes_bare_variant() {
    let p = Player { id: "abc@steam".to_string(), nickname: None };
    let raw = p.to_raw();
    assert!(matches!(raw, RawPlayer::UserId(ref s) if s == "abc@steam"));
    let back = Player::from_raw(&raw);
    assert_eq!(back.id, "abc@steam");
    assert_eq!(back.nickname, None);
}

#[test]
fn player_with_nickname_takes_object_variant() {
    let p = Player { id: "abc@steam".to_string(), nickname: Some("nick".to_string()) };
    let raw = p.to_raw();
    match &raw {
        RawPlayer::UserIdWithNickname { id, nickname } => {
            assert_eq!(id, "abc@steam");
            assert_eq!(nickname.as_deref(), Some("nick"));
        },
        RawPlayer::UserId(_) => panic!("expected the object variant"),
    }
    let back = Player::from_raw(&raw);
    assert_eq!(back.id, "abc@steam");
    assert_eq!(back.nickname.as_deref(), Some("nick"));
}

#[test]
fn count_five_of_twenty_parses() {
    let pc = parse_count("5/20").expect("valid count");
    assert_eq!(pc.current_players, 5);
    assert_eq!(pc.max_players, 20);
}

#[test]
fn count_rejects_bad_strings() {
    assert!(parse_count("abc/20").is_none());
    assert!(parse_count("5").is_none());
    assert!(parse_count("").is_none());
    assert!(parse_count("5/").is_none());
    assert!(parse_count("/20").is_none());
    assert!(parse_count("1/2/3").is_none());
}

#[test]
fn count_allows_leading_zeros_and_nonsense_ratios() {
    let pc = parse_count("025/007").expect("leading zeros are digits");
    assert_eq!(pc.current_players, 25);
    assert_eq!(pc.max_players, 7);
    let pc = parse_count("30/10").expect("current above max passes through");
    assert_eq!(pc.current_players, 30);
    assert_eq!(pc.max_players, 10);
}

#[test]
fn count_rejects_values_beyond_u32() {
    assert!(parse_count("4294967296/1").is_none());
    let pc = parse_count("4294967295/1").expect("u32 maximum fits");
    assert_eq!(pc.current_players, 4294967295);
}

#[test]
fn count_formats_without_padding() {
    let s = format_count(&PlayersCount { max_players: 20, current_players: 5 });
    assert_eq!(s, "5/20");
    let s = format_count(&PlayersCount { max_players: 0, current_players: 0 });
    assert_eq!(s, "0/0");
}

#[test]
fn decimal_formatting_is_canonical() {
    assert_eq!(u64_to_dec(0), "0");
    assert_eq!(u64_to_dec(42), "42");
    assert_eq!(u64_to_dec(18446744073709551615), "18446744073709551615");
}

#[test]
fn date_rejects_impossible_calendar_day() {
    assert!(parse_date("2023-02-30").is_none());
    let d = parse_date("2023-02-28").expect("a real day");
    assert_eq!(d, CalendarDate { year: 2023, month: 2, day: 28 });
}

#[test]
fn date_knows_leap_years() {
    assert!(parse_date("2024-02-29").is_some());
    assert!(parse_date("2023-02-29").is_none());
    assert!(parse_date("2000-02-29").is_some());
    assert!(parse_date("1900-02-29").is_none());
}

#[test]
fn date_rejects_format_deviations() {
    assert!(parse_date("2023-2-28").is_none());
    assert!(parse_date("2023/02/28").is_none());
    assert!(parse_date("2023-02-281").is_none());
    assert!(parse_date("2023-13-01").is_none());
    assert!(parse_date("2023-00-10").is_none());
    assert!(parse_date("2023-01-00").is_none());
    assert!(parse_date("").is_none());
}

#[test]
fn date_formats_zero_padded() {
    let s = format_date(&CalendarDate { year: 2023, month: 2, day: 8 });
    assert_eq!(s, "2023-02-08");
    let s = format_date(&CalendarDate { year: 7, month: 12, day: 31 });
    assert_eq!(s, "0007-12-31");
}

#[test]
fn calendar_date_new_checks_the_day() {
    assert!(CalendarDate::new(2023, 2, 28).is_some());
    assert!(CalendarDate::new(2023, 2, 30).is_none());
    assert!(CalendarDate::new(10000, 1, 1).is_none());
}

#[test]
fn description_decodes_base64_text() {
    assert_eq!(decode_info("SGVsbG8=").as_deref(), Some("Hello"));
    assert_eq!(encode_info("Hello"), "SGVsbG8=");
}

#[test]
fn description_rejects_bad_base64_and_bad_utf8() {
    assert!(decode_info("not-base64!").is_none());
    // A single 0xff byte: valid base64, invalid UTF-8.
    assert!(decode_info("/w==").is_none());
}

#[test]
fn record_errors_name_the_failing_field() {
    let raw = RawServerInfo { last_online: Some("2023-02-30".to_string()), ..ok_raw_record() };
    assert!(matches!(ServerInfo::from_raw(&raw), Err(ConvertError::DateFormatError)));
    let raw = RawServerInfo { players_count: Some("abc/20".to_string()), ..ok_raw_record() };
    assert!(matches!(ServerInfo::from_raw(&raw), Err(ConvertError::CountFormatError)));
    let raw = RawServerInfo { info: Some("not-base64!".to_string()), ..ok_raw_record() };
    assert!(matches!(ServerInfo::from_raw(&raw), Err(ConvertError::EncodingError)));
}

fn ok_raw_record() -> RawServerInfo {
    RawServerInfo {
        id: 1,
        port: 7777,
        last_online: None,
        players_count: None,
        players: None,
        info: None,
        friendly_fire: None,
        whitelist: None,
        modded: None,
        mods: None,
        suppress: None,
        auto_suppress: None,
    }
}

#[test]
fn error_key_selects_failure() {
    let raw = RawResponse {
        success: false,
        error: Some("rate limited".to_string()),
        servers: None,
        cooldown: None,
    };
    match Response::from_raw(&raw).expect("failure converts") {
        Response::Error(e) => assert_eq!(e.error(), "rate limited"),
        Response::Success(_) => panic!("expected the failure outcome"),
    }
}

#[test]
fn success_path_carries_cooldown_and_servers() {
    let raw = RawResponse {
        success: true,
        error: None,
        servers: Some(vec![ok_raw_record()]),
        cooldown: Some(30),
    };
    match Response::from_raw(&raw).expect("success converts") {
        Response::Success(s) => {
            assert_eq!(s.cooldown(), 30);
            assert_eq!(s.servers().len(), 1);
            assert_eq!(s.servers()[0].id(), 1);
        },
        Response::Error(_) => panic!("expected the success outcome"),
    }
}

#[test]
fn missing_required_fields_are_malformed() {
    let raw = RawResponse { success: true, error: None, servers: None, cooldown: Some(30) };
    assert!(matches!(Response::from_raw(&raw), Err(ConvertError::MalformedPayload)));
    let raw = RawResponse {
        success: true,
        error: None,
        servers: Some(vec![]),
        cooldown: None,
    };
    assert!(matches!(Response::from_raw(&raw), Err(ConvertError::MalformedPayload)));
}

#[test]
fn one_bad_record_aborts_the_whole_response() {
    let bad = RawServerInfo { players_count: Some("x/y".to_string()), ..ok_raw_record() };
    let raw = RawResponse {
        success: true,
        error: None,
        servers: Some(vec![ok_raw_record(), bad]),
        cooldown: Some(1),
    };
    assert!(matches!(Response::from_raw(&raw), Err(ConvertError::CountFormatError)));
}

#[test]
fn response_round_trips_both_outcomes() {
    let resp = Response::Success(SuccessResponse { cooldown: 12, servers: vec![full_record()] });
    let raw = resp.to_raw();
    assert!(raw.success);
    assert_eq!(raw.cooldown, Some(12));
    match Response::from_raw(&raw).expect("wire form reads back") {
        Response::Success(s) => {
            assert_eq!(s.cooldown(), 12);
            assert_eq!(s.servers().len(), 1);
            assert_eq!(s.servers()[0].info(), Some(&"Hello".to_string()));
        },
        Response::Error(_) => panic!("expected success back"),
    }
    let resp = Response::Error(ErrorResponse::new("nope".to_string()));
    let raw = resp.to_raw();
    assert!(!raw.success);
    assert_eq!(raw.error.as_deref(), Some("nope"));
    assert!(raw.servers.is_none());
    assert!(raw.cooldown.is_none());
}

#[test]
fn getters_and_setters_agree() {
    let mut rec = full_record();
    assert_eq!(rec.id(), 7);
    assert_eq!(rec.port(), 7777);
    *rec.id_mut() = 9;
    assert_eq!(rec.id(), 9);
    *rec.mods_mut() = Some(11);
    assert_eq!(rec.mods(), Some(11));
    let mut pc = PlayersCount::default();
    *pc.max_players_mut() = 8;
    *pc.current_players_mut() = 3;
    assert_eq!(pc.max_players(), 8);
    assert_eq!(pc.current_players(), 3);
    let mut e = ErrorResponse::default();
    assert_eq!(e.error(), "");
    *e.error_mut() = "boom".to_string();
    assert_eq!(e.error(), "boom");
    let mut s = SuccessResponse::default();
    *s.cooldown_mut() = 5;
    s.servers_mut().push(full_record());
    assert_eq!(s.cooldown(), 5);
    assert_eq!(s.servers().len(), 1);
    let p = Player::default();
    assert_eq!(p.id(), "");
    assert!(p.nickname().is_none());
}
