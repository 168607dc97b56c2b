use uptime_core::format::{
    day_plural_class, duration_parts, format_days_with_forms, format_duration, u64_to_string,
    PluralClass,
};

#[test]
fn zero_seconds_is_zero_minutes() {
    assert_eq!(format_duration(0), "0 minutes");
}

#[test]
fn one_minute_is_singular() {
    assert_eq!(format_duration(60), "1 minute");
}

#[test]
fn thirty_five_minutes() {
    assert_eq!(format_duration(2100), "35 minutes");
}

#[test]
fn one_hour_omits_zero_minutes() {
    assert_eq!(format_duration(3600), "1 hour");
}

#[test]
fn one_day_omits_zero_hours_and_minutes() {
    assert_eq!(format_duration(86400), "1 day");
}

#[test]
fn two_days() {
    assert_eq!(format_duration(2 * 86400), "2 days");
}

#[test]
fn twenty_one_days() {
    assert_eq!(format_duration(21 * 86400), "21 days");
}

#[test]
fn full_phrase_with_all_units() {
    let secs = 238 * 86400 + 15 * 3600 + 13 * 60;
    assert_eq!(format_duration(secs), "238 days 15 hours 13 minutes");
}

#[test]
fn seconds_below_a_minute_are_dropped() {
    assert_eq!(format_duration(59), "0 minutes");
    assert_eq!(format_duration(61), "1 minute");
    assert_eq!(format_duration(3661), "1 hour 1 minute");
}

#[test]
fn day_and_minutes_without_hours() {
    assert_eq!(format_duration(86400 + 120), "1 day 2 minutes");
}

#[test]
fn parts_split_correctly() {
    assert_eq!(duration_parts(238 * 86400 + 15 * 3600 + 13 * 60), (238, 15, 13));
    assert_eq!(duration_parts(0), (0, 0, 0));
}

#[test]
fn decimal_rendering() {
    assert_eq!(u64_to_string(0), "0");
    assert_eq!(u64_to_string(7), "7");
    assert_eq!(u64_to_string(10), "10");
    assert_eq!(u64_to_string(1234567890), "1234567890");
    assert_eq!(u64_to_string(u64::MAX), "18446744073709551615");
}

#[test]
fn plural_class_singular_at_one_except_eleven() {
    assert_eq!(day_plural_class(1), PluralClass::Singular);
    assert_eq!(day_plural_class(21), PluralClass::Singular);
    assert_eq!(day_plural_class(101), PluralClass::Singular);
    assert_eq!(day_plural_class(11), PluralClass::Many);
    assert_eq!(day_plural_class(111), PluralClass::Many);
}

#[test]
fn plural_class_few_at_two_to_four_except_teens() {
    assert_eq!(day_plural_class(2), PluralClass::Few);
    assert_eq!(day_plural_class(4), PluralClass::Few);
    assert_eq!(day_plural_class(22), PluralClass::Few);
    assert_eq!(day_plural_class(12), PluralClass::Many);
    assert_eq!(day_plural_class(14), PluralClass::Many);
}

#[test]
fn plural_class_many_otherwise() {
    assert_eq!(day_plural_class(0), PluralClass::Many);
    assert_eq!(day_plural_class(5), PluralClass::Many);
    assert_eq!(day_plural_class(19), PluralClass::Many);
    assert_eq!(day_plural_class(100), PluralClass::Many);
}

#[test]
fn localized_day_forms_follow_the_class() {
    assert_eq!(format_days_with_forms(1, "one", "few", "many"), "1 one");
    assert_eq!(format_days_with_forms(2, "one", "few", "many"), "2 few");
    assert_eq!(format_days_with_forms(5, "one", "few", "many"), "5 many");
    assert_eq!(format_days_with_forms(11, "one", "few", "many"), "11 many");
    assert_eq!(format_days_with_forms(21, "one", "few", "many"), "21 one");
}
