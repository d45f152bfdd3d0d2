use data_engine::session_type::{session_from_timestamp, session_from_timestamp_enum, Session};

#[test]
fn three_bars_resolve_to_their_sessions() {
    assert_eq!(Session::from_timestamp("2023-03-27T02:00:00"), Session::AS);
    assert_eq!(Session::from_timestamp("2023-03-27T09:30:00"), Session::LN);
    assert_eq!(Session::from_timestamp("2023-03-27T19:15:00"), Session::NYL);
    assert_eq!(session_from_timestamp("2023-03-27T02:00:00"), "AS");
    assert_eq!(session_from_timestamp("2023-03-27T09:30:00"), "LN");
    assert_eq!(session_from_timestamp("2023-03-27T19:15:00"), "NYL");
}

#[test]
fn every_hour_has_one_session() {
    let expected = [
        Session::Unknown,
        Session::AS, Session::AS, Session::AS, Session::AS, Session::AS, Session::AS, Session::AS,
        Session::LN, Session::LN, Session::LN, Session::LN, Session::LN, Session::LN, Session::LN,
        Session::NYAM, Session::NYAM, Session::NYAM, Session::NYAM,
        Session::NYL, Session::NYL,
        Session::NYPM, Session::NYPM, Session::NYPM,
    ];
    for h in 0..24u32 {
        assert_eq!(Session::from_hour(h), expected[h as usize], "hour {}", h);
    }
    assert_eq!(Session::from_hour(24), Session::Unknown);
    assert_eq!(Session::from_hour(u32::MAX), Session::Unknown);
}

#[test]
fn space_separated_and_dotted_timestamps() {
    assert_eq!(Session::from_timestamp("2023-03-27 15:00:00"), Session::NYAM);
    assert_eq!(Session::from_timestamp("2023.03.27T21:05:00"), Session::NYPM);
    assert_eq!(session_from_timestamp_enum("2023-03-27 08:00"), Session::LN);
}

#[test]
fn unreadable_hours_are_unknown() {
    assert_eq!(Session::from_timestamp("2023-03-27"), Session::Unknown);
    assert_eq!(Session::from_timestamp("2023-03-27T"), Session::Unknown);
    assert_eq!(Session::from_timestamp("2023-03-27Tab:00"), Session::Unknown);
    assert_eq!(Session::from_timestamp("2023-03-27T00:30:00"), Session::Unknown);
    assert_eq!(Session::from_timestamp("2023-03-27T-1:00"), Session::Unknown);
    assert_eq!(Session::from_timestamp("2023-03-27T99999999999:00"), Session::Unknown);
    assert_eq!(session_from_timestamp("garbage"), "Unknown");
}

#[test]
fn hour_token_follows_integer_parsing() {
    assert_eq!(Session::from_timestamp("2023-03-27T+05:00"), Session::AS);
    assert_eq!(Session::from_timestamp("2023-03-27T0000009:00"), Session::LN);
    assert_eq!(Session::from_timestamp("2023-03-27T+:00"), Session::Unknown);
    assert_eq!(Session::from_timestamp("x 22"), Session::NYPM);
    assert_eq!(Session::from_timestamp("x 3 y"), Session::AS);
}

#[test]
fn session_names() {
    assert_eq!(Session::AS.as_str(), "AS");
    assert_eq!(Session::LN.as_str(), "LN");
    assert_eq!(Session::NYAM.as_str(), "NYAM");
    assert_eq!(Session::NYL.as_str(), "NYL");
    assert_eq!(Session::NYPM.as_str(), "NYPM");
    assert_eq!(Session::Unknown.as_str(), "Unknown");
    assert_eq!(Session::NYPM.rank(), 4);
}
