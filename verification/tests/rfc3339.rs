use phonemic::rfc3339::{
    civil_from_days, epoch_millis_to_rfc3339, epoch_secs_to_rfc3339, format_expires_at,
    rfc3339_from_millis,
};

#[test]
fn civil_dates_of_known_days() {
    assert_eq!(civil_from_days(0), (1970, 1, 1));
    assert_eq!(civil_from_days(19723), (2024, 1, 1));
    assert_eq!(civil_from_days(11016), (2000, 2, 29));
    assert_eq!(civil_from_days(-1), (1969, 12, 31));
}

#[test]
fn epoch_seconds_render_as_rfc3339() {
    assert_eq!(epoch_secs_to_rfc3339(0), "1970-01-01T00:00:00.000Z");
    assert_eq!(epoch_secs_to_rfc3339(1_704_067_199), "2023-12-31T23:59:59.000Z");
    assert_eq!(epoch_secs_to_rfc3339(951_782_400), "2000-02-29T00:00:00.000Z");
    assert_eq!(epoch_millis_to_rfc3339(1, 7), "1970-01-01T00:00:01.007Z");
    assert_eq!(rfc3339_from_millis(1_704_067_200_123), "2024-01-01T00:00:00.123Z");
}

#[test]
fn sessions_expire_thirty_days_after_pairing() {
    assert_eq!(format_expires_at(1_704_067_200_999), "2024-01-31T00:00:00.000Z");
}

#[test]
fn times_before_the_epoch_round_down_to_the_day() {
    assert_eq!(epoch_millis_to_rfc3339(951_782_400, 5), "2000-02-29T00:00:00.005Z");
    assert_eq!(epoch_millis_to_rfc3339(0, 0), "1970-01-01T00:00:00.000Z");
    assert_eq!(epoch_millis_to_rfc3339(-1, 0), "1969-12-31T23:59:59.000Z");
    assert_eq!(epoch_secs_to_rfc3339(-86_400), "1969-12-31T00:00:00.000Z");
    assert_eq!(epoch_secs_to_rfc3339(-62_167_219_200), "0000-01-01T00:00:00.000Z");
    assert_eq!(epoch_secs_to_rfc3339(-62_167_219_201), "-001-12-31T23:59:59.000Z");
}
