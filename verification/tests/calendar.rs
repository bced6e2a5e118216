use stm32f103xx_rtc::datetime::{DateTime, DayOfWeek};
use stm32f103xx_rtc::text::push_zero_padded;

fn fields(dt: &DateTime) -> (u16, u8, u8, u8, u8, u8) {
    (dt.year, dt.month, dt.day, dt.hour, dt.min, dt.sec)
}

#[test]
fn epoch_zero_is_the_first_of_january_1970() {
    let dt = DateTime::new(0);
    assert_eq!(fields(&dt), (1970, 1, 1, 0, 0, 0));
    assert_eq!(dt.day_of_week, DayOfWeek::Thursday);
    assert_eq!(dt.to_string(), "1970-01-01 00:00:00 (Thursday)");
}

#[test]
fn time_of_day_is_split_into_hours_minutes_seconds() {
    assert_eq!(fields(&DateTime::new(1)), (1970, 1, 1, 0, 0, 1));
    assert_eq!(fields(&DateTime::new(59)), (1970, 1, 1, 0, 0, 59));
    assert_eq!(fields(&DateTime::new(60)), (1970, 1, 1, 0, 1, 0));
    assert_eq!(fields(&DateTime::new(3599)), (1970, 1, 1, 0, 59, 59));
    assert_eq!(fields(&DateTime::new(3600)), (1970, 1, 1, 1, 0, 0));
    assert_eq!(fields(&DateTime::new(4242)), (1970, 1, 1, 1, 10, 42));
    assert_eq!(fields(&DateTime::new(86399)), (1970, 1, 1, 23, 59, 59));
}

#[test]
fn a_day_has_86400_seconds() {
    let dt = DateTime::new(86400);
    assert_eq!(fields(&dt), (1970, 1, 2, 0, 0, 0));
    assert_eq!(dt.day_of_week, DayOfWeek::Friday);
}

#[test]
fn a_common_year_ends_after_365_days() {
    let last = DateTime::new(31_535_999);
    assert_eq!(fields(&last), (1970, 12, 31, 23, 59, 59));
    assert_eq!(last.day_of_week, DayOfWeek::Thursday);
    let first = DateTime::new(31_536_000);
    assert_eq!(fields(&first), (1971, 1, 1, 0, 0, 0));
    assert_eq!(first.day_of_week, DayOfWeek::Friday);
}

#[test]
fn a_leap_year_ends_after_366_days() {
    let last = DateTime::new(94_694_399);
    assert_eq!(fields(&last), (1972, 12, 31, 23, 59, 59));
    assert_eq!(last.day_of_week, DayOfWeek::Sunday);
    let first = DateTime::new(94_694_400);
    assert_eq!(fields(&first), (1973, 1, 1, 0, 0, 0));
    assert_eq!(first.day_of_week, DayOfWeek::Monday);
}

#[test]
fn february_has_29_days_in_2000() {
    assert_eq!(fields(&DateTime::new(951_782_400)), (2000, 2, 29, 0, 0, 0));
    assert_eq!(fields(&DateTime::new(951_868_799)), (2000, 2, 29, 23, 59, 59));
    assert_eq!(fields(&DateTime::new(951_868_800)), (2000, 3, 1, 0, 0, 0));
}

#[test]
fn february_has_29_days_in_2004() {
    assert_eq!(fields(&DateTime::new(1_078_099_199)), (2004, 2, 29, 23, 59, 59));
    assert_eq!(fields(&DateTime::new(1_078_099_200)), (2004, 3, 1, 0, 0, 0));
}

#[test]
fn february_has_29_days_in_1972() {
    assert_eq!(fields(&DateTime::new(68_255_999)), (1972, 2, 29, 23, 59, 59));
    assert_eq!(fields(&DateTime::new(68_256_000)), (1972, 3, 1, 0, 0, 0));
}

#[test]
fn february_has_28_days_in_2001() {
    assert_eq!(fields(&DateTime::new(983_404_799)), (2001, 2, 28, 23, 59, 59));
    assert_eq!(fields(&DateTime::new(983_404_800)), (2001, 3, 1, 0, 0, 0));
}

#[test]
fn february_has_28_days_in_2100() {
    let last = DateTime::new(4_107_542_399);
    assert_eq!(fields(&last), (2100, 2, 28, 23, 59, 59));
    assert_eq!(last.day_of_week, DayOfWeek::Sunday);
    let next = DateTime::new(4_107_542_400);
    assert_eq!(fields(&next), (2100, 3, 1, 0, 0, 0));
    assert_eq!(next.day_of_week, DayOfWeek::Monday);
}

#[test]
fn the_century_turns_in_2100() {
    assert_eq!(fields(&DateTime::new(4_102_444_799)), (2099, 12, 31, 23, 59, 59));
    assert_eq!(fields(&DateTime::new(4_102_444_800)), (2100, 1, 1, 0, 0, 0));
}

#[test]
fn the_largest_counter_value_falls_in_2106() {
    let dt = DateTime::new(u32::MAX);
    assert_eq!(fields(&dt), (2106, 2, 7, 6, 28, 15));
    assert_eq!(dt.day_of_week, DayOfWeek::Sunday);
    assert_eq!(dt.to_string(), "2106-02-07 06:28:15 (Sunday)");
}

#[test]
fn a_summer_night_in_2018() {
    let dt = DateTime::new(1_534_026_785 + 2 * 60 * 60);
    assert_eq!(fields(&dt), (2018, 8, 12, 0, 33, 5));
    assert_eq!(dt.day_of_week, DayOfWeek::Sunday);
    assert_eq!(dt.to_string(), "2018-08-12 00:33:05 (Sunday)");
}

#[test]
fn the_signed_32_bit_limit_is_nothing_special() {
    assert_eq!(DateTime::new(2_147_483_647).to_string(), "2038-01-19 03:14:07 (Tuesday)");
    assert_eq!(DateTime::new(2_147_483_648).to_string(), "2038-01-19 03:14:08 (Tuesday)");
}

#[test]
fn seconds_are_recovered_from_the_fields() {
    let samples: [u32; 16] = [
        0,
        1,
        86_399,
        86_400,
        31_535_999,
        31_536_000,
        68_255_999,
        94_694_400,
        951_868_799,
        951_868_800,
        1_000_000_000,
        1_534_033_985,
        2_147_483_648,
        4_107_542_399,
        4_107_542_400,
        u32::MAX,
    ];
    for n in samples {
        assert_eq!(DateTime::new(n).epoch_seconds(), n as u64);
    }
}

#[test]
fn seconds_are_recovered_over_a_stride_of_the_whole_range() {
    let mut n: u64 = 0;
    while n <= u32::MAX as u64 {
        assert_eq!(DateTime::new(n as u32).epoch_seconds(), n);
        n += 2_999_983;
    }
}

#[test]
fn consecutive_seconds_differ_by_one_second() {
    let mut n: u32 = 951_782_400 - 5;
    while n < 951_782_400 + 5 {
        let here = DateTime::new(n).epoch_seconds();
        let next = DateTime::new(n + 1).epoch_seconds();
        assert_eq!(next, here + 1);
        n += 1;
    }
}

#[test]
fn epoch_seconds_of_a_value_written_by_hand() {
    let dt = DateTime {
        year: 2000,
        month: 2,
        day: 29,
        hour: 23,
        min: 59,
        sec: 59,
        day_of_week: DayOfWeek::Tuesday,
    };
    assert_eq!(dt.epoch_seconds(), 951_868_799);
    assert_eq!(dt, DateTime::new(951_868_799));
}

#[test]
fn the_weekday_repeats_after_seven_days() {
    let week: u32 = 7 * 86_400;
    let samples: [u32; 6] = [0, 86_399, 86_400, 951_868_799, 1_534_033_985, u32::MAX - week];
    for n in samples {
        assert_eq!(DateTime::new(n).day_of_week, DateTime::new(n + week).day_of_week);
    }
}

#[test]
fn the_weekday_changes_from_day_to_day() {
    let expected = [
        DayOfWeek::Thursday,
        DayOfWeek::Friday,
        DayOfWeek::Saturday,
        DayOfWeek::Sunday,
        DayOfWeek::Monday,
        DayOfWeek::Tuesday,
        DayOfWeek::Wednesday,
        DayOfWeek::Thursday,
    ];
    for (day, weekday) in expected.iter().enumerate() {
        assert_eq!(DayOfWeek::from_days_since_epoch(day as u32), *weekday);
        assert_eq!(DateTime::new(day as u32 * 86_400).day_of_week, *weekday);
    }
}

#[test]
fn the_weekday_of_the_last_day_that_can_be_counted() {
    assert_eq!(DayOfWeek::from_days_since_epoch(49_710), DayOfWeek::Sunday);
    assert_eq!(DayOfWeek::from_days_since_epoch(u32::MAX), DayOfWeek::Sunday);
}

#[test]
fn leap_years_follow_the_gregorian_rule() {
    assert!(!DateTime::is_leap(1970));
    assert!(DateTime::is_leap(1972));
    assert!(!DateTime::is_leap(1900));
    assert!(DateTime::is_leap(2000));
    assert!(!DateTime::is_leap(2001));
    assert!(DateTime::is_leap(2004));
    assert!(!DateTime::is_leap(2100));
    assert!(DateTime::is_leap(2400));
}

#[test]
fn every_month_has_its_length_in_a_common_year() {
    let lengths: [u32; 12] = [31, 28, 31, 30, 31, 30, 31, 31, 30, 31, 30, 31];
    let mut day: u32 = 365;
    for (index, length) in lengths.iter().enumerate() {
        let first = DateTime::new(day * 86_400);
        assert_eq!((first.year, first.month, first.day), (1971, index as u8 + 1, 1));
        let last = DateTime::new((day + length - 1) * 86_400);
        assert_eq!((last.year, last.month, last.day), (1971, index as u8 + 1, *length as u8));
        day += length;
    }
    assert_eq!(day, 365 + 365);
}

#[test]
fn every_month_has_its_length_in_a_leap_year() {
    let lengths: [u32; 12] = [31, 29, 31, 30, 31, 30, 31, 31, 30, 31, 30, 31];
    let mut day: u32 = 365 + 365;
    for (index, length) in lengths.iter().enumerate() {
        let first = DateTime::new(day * 86_400);
        assert_eq!((first.year, first.month, first.day), (1972, index as u8 + 1, 1));
        let last = DateTime::new((day + length - 1) * 86_400);
        assert_eq!((last.year, last.month, last.day), (1972, index as u8 + 1, *length as u8));
        day += length;
    }
    assert_eq!(day, 365 + 365 + 366);
}

#[test]
fn weekdays_print_as_their_names() {
    assert_eq!(DayOfWeek::Monday.to_string(), "Monday");
    assert_eq!(DayOfWeek::Tuesday.to_string(), "Tuesday");
    assert_eq!(DayOfWeek::Wednesday.to_string(), "Wednesday");
    assert_eq!(DayOfWeek::Thursday.to_string(), "Thursday");
    assert_eq!(DayOfWeek::Friday.to_string(), "Friday");
    assert_eq!(DayOfWeek::Saturday.to_string(), "Saturday");
    assert_eq!(DayOfWeek::Sunday.to_string(), "Sunday");
    assert_eq!(DayOfWeek::Sunday.name(), "Sunday");
}

#[test]
fn numbers_are_filled_up_with_zeros() {
    let dt = DateTime {
        year: 1999,
        month: 1,
        day: 2,
        hour: 3,
        min: 4,
        sec: 5,
        day_of_week: DayOfWeek::Saturday,
    };
    assert_eq!(dt.to_string(), "1999-01-02 03:04:05 (Saturday)");
}

#[test]
fn numbers_that_are_too_wide_are_printed_in_full() {
    let dt = DateTime {
        year: 65535,
        month: 255,
        day: 100,
        hour: 9,
        min: 10,
        sec: 0,
        day_of_week: DayOfWeek::Monday,
    };
    assert_eq!(dt.to_string(), "65535-255-100 09:10:00 (Monday)");
    let early = DateTime { year: 7, ..dt };
    assert_eq!(early.to_string(), "0007-255-100 09:10:00 (Monday)");
}

#[test]
fn zero_padding_appends_to_what_is_there() {
    let mut out = String::from("n=");
    push_zero_padded(&mut out, 0, 0);
    assert_eq!(out, "n=0");
    push_zero_padded(&mut out, 42, 5);
    assert_eq!(out, "n=000042");
    push_zero_padded(&mut out, 65535, 2);
    assert_eq!(out, "n=00004265535");
    push_zero_padded(&mut out, 7, 1);
    assert_eq!(out, "n=000042655357");
}

#[test]
fn scattered_instants_print_as_the_calendar_has_them() {
    let table: [(u32, &str); 36] = [
        (200938633, "1976-05-14 16:17:13 (Friday)"),
        (352691398, "1981-03-06 01:49:58 (Friday)"),
        (366810092, "1981-08-16 11:41:32 (Sunday)"),
        (388729379, "1982-04-27 04:22:59 (Tuesday)"),
        (450825375, "1984-04-14 21:16:15 (Saturday)"),
        (476603081, "1985-02-07 05:44:41 (Thursday)"),
        (586009973, "1988-07-27 12:32:53 (Wednesday)"),
        (866790703, "1997-06-20 07:11:43 (Friday)"),
        (962446526, "2000-07-01 10:15:26 (Saturday)"),
        (1143313811, "2006-03-25 19:10:11 (Saturday)"),
        (1458055371, "2016-03-15 15:22:51 (Tuesday)"),
        (1463466210, "2016-05-17 06:23:30 (Tuesday)"),
        (1494674010, "2017-05-13 11:13:30 (Saturday)"),
        (1681625975, "2023-04-16 06:19:35 (Sunday)"),
        (1707976656, "2024-02-15 05:57:36 (Thursday)"),
        (1810884477, "2027-05-21 07:27:57 (Friday)"),
        (1909816440, "2030-07-09 08:34:00 (Tuesday)"),
        (1910331847, "2030-07-15 07:44:07 (Monday)"),
        (1939665144, "2031-06-19 19:52:24 (Thursday)"),
        (2234088860, "2040-10-17 12:14:20 (Wednesday)"),
        (2569119160, "2051-05-31 04:12:40 (Wednesday)"),
        (2673832676, "2054-09-24 03:17:56 (Thursday)"),
        (3086374389, "2067-10-20 22:13:09 (Thursday)"),
        (3124922195, "2069-01-09 01:56:35 (Wednesday)"),
        (3156801168, "2070-01-13 01:12:48 (Monday)"),
        (3298573291, "2074-07-11 22:21:31 (Wednesday)"),
        (3377458583, "2077-01-09 22:56:23 (Saturday)"),
        (3424468933, "2078-07-08 01:22:13 (Friday)"),
        (3471309495, "2080-01-01 04:38:15 (Monday)"),
        (3483582909, "2080-05-22 05:55:09 (Wednesday)"),
        (3878122697, "2092-11-21 16:18:17 (Friday)"),
        (3967393688, "2095-09-20 21:48:08 (Tuesday)"),
        (4018810954, "2097-05-08 00:22:34 (Wednesday)"),
        (4097689804, "2099-11-06 23:10:04 (Friday)"),
        (4227643079, "2103-12-21 01:17:59 (Friday)"),
        (4256217020, "2104-11-15 18:30:20 (Saturday)"),
    ];
    for (epoch, text) in table {
        assert_eq!(DateTime::new(epoch).to_string(), text);
    }
}
