use parkour_api::persistence::{parse_u64, save_interval_secs, save_timer_minutes, DEFAULT_SAVE_MINUTES};

#[test]
fn timer_defaults_to_fifteen_minutes() {
    assert_eq!(DEFAULT_SAVE_MINUTES, 15);
    assert_eq!(save_timer_minutes(None), Some(15));
}

#[test]
fn timer_setting_is_read() {
    assert_eq!(save_timer_minutes(Some("30")), Some(30));
    assert_eq!(save_timer_minutes(Some("abc")), None);
}

#[test]
fn parse_matches_std() {
    for s in ["0", "42", "+7", "", "+", "-1", " 1", "1 ", "007", "18446744073709551615",
              "18446744073709551616", "99999999999999999999", "١٢", "1_000"] {
        assert_eq!(parse_u64(s), s.parse::<u64>().ok(), "input {:?}", s);
    }
}

#[test]
fn interval_in_seconds() {
    assert_eq!(save_interval_secs(15), Some(900));
    assert_eq!(save_interval_secs(0), Some(0));
    assert_eq!(save_interval_secs(u64::MAX / 60), Some((u64::MAX / 60) * 60));
    assert_eq!(save_interval_secs(u64::MAX / 60 + 1), None);
}
