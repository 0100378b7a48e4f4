use chrono::{TimeZone, Utc};
use svc_scheduler::schedule::{Calendar, CalendarError, Timeslot, TimeslotError};

const HOUR: i64 = 3_600_000;

const CAL_WORKDAYS_8AM_6PM: &str = "DTSTART:20221020T180000Z;DURATION:PT14H\n\
    RRULE:FREQ=DAILY;BYDAY=MO,TU,WE,TH,FR\n\
    DTSTART:20221022T000000Z;DURATION:PT24H\n\
    RRULE:FREQ=DAILY;BYDAY=SA,SU";

const WITH_1HR_DAILY_BREAK: &str = "\n\
    DTSTART:20221020T120000Z;DURATION:PT1H\n\
    RRULE:FREQ=DAILY;BYDAY=MO,TU,WE,TH,FR";

const WITH_ONE_OFF_BLOCK: &str = "\n\
    DTSTART:20221026T133000Z;DURATION:PT3H\n\
    RDATE:20221026T133000Z";

const INVALID_CALENDAR: &str = "DURATION:PT3H;DTSTART:20221026T133000Z;\n\
    RRULE:FREQ=DAILY;BYDAY=SA,SU";

fn ms(y: i32, mo: u32, d: u32, h: u32, mi: u32) -> i64 {
    Utc.with_ymd_and_hms(y, mo, d, h, mi, 0).unwrap().timestamp_millis()
}

fn slot(a: i64, b: i64) -> Timeslot {
    Timeslot { time_start: a, time_end: b }
}

#[test]
fn schedule_test_parse_calendar() {
    let calendar = Calendar::parse(CAL_WORKDAYS_8AM_6PM).unwrap();
    assert_eq!(calendar.events.len(), 2);
    assert_eq!(calendar.events[0].duration, 14 * HOUR);
    assert_eq!(calendar.events[1].duration, 24 * HOUR);
}

#[test]
#[should_panic]
fn schedule_test_invalid_input() {
    let _calendar = Calendar::parse(INVALID_CALENDAR).unwrap();
}

#[test]
fn calendar_errors() {
    assert_eq!(Calendar::parse(INVALID_CALENDAR).unwrap_err(), CalendarError::Rrule);
    assert_eq!(
        Calendar::parse("DTSTART:20221020T180000Z\nRRULE:FREQ=DAILY").unwrap_err(),
        CalendarError::HeaderPartsLength
    );
    assert_eq!(Calendar::parse("DTSTART:20221020T180000Z;DURATION:PT14H").unwrap_err(), CalendarError::Rrule);
    assert_eq!(
        Calendar::parse("DTSTART:20221020T180000Z;DURATION:P1Q\nRRULE:FREQ=DAILY").unwrap_err(),
        CalendarError::Duration
    );
    assert_eq!(
        Calendar::parse("DTSTART:20221020T180000Z;DURATION:PT1H\nRRULE:FREQ=NEVER").unwrap_err(),
        CalendarError::RruleSet
    );
    assert_eq!(Calendar::parse("").unwrap().events.len(), 0);
}

#[test]
fn test_calendar_to_timeslots() {
    let calendar = "DTSTART:20221020T080000Z;DURATION:PT4H\n\
        RRULE:FREQ=DAILY;BYDAY=MO,TU,WE,TH,FR\n\
        DTSTART:20221020T140000Z;DURATION:PT4H\n\
        RRULE:FREQ=DAILY;BYDAY=MO,TU,WE,TH,FR\n";
    let calendar = Calendar::parse(calendar).unwrap();
    assert_eq!(calendar.events.len(), 2);
    let cal_start = ms(2022, 10, 20, 8, 0);
    let expected = vec![slot(cal_start, cal_start + 4 * HOUR), slot(cal_start + 6 * HOUR, cal_start + 10 * HOUR)];
    let timeslots = calendar.to_timeslots(&(cal_start - HOUR), &(cal_start + 12 * HOUR)).unwrap();
    assert_eq!(timeslots.len(), 2);
    assert_eq!(timeslots, expected);
}

#[test]
fn test_calendar_to_timeslots_cropped() {
    let calendar = "DTSTART:20221020T080000Z;DURATION:PT4H\n\
        RRULE:FREQ=DAILY;BYDAY=MO,TU,WE,TH,FR\n\
        DTSTART:20221020T140000Z;DURATION:PT4H\n\
        RRULE:FREQ=DAILY;BYDAY=MO,TU,WE,TH,FR\n";
    let calendar = Calendar::parse(calendar).unwrap();
    assert_eq!(calendar.events.len(), 2);
    let cal_start = ms(2022, 10, 20, 8, 0);
    let start = cal_start + 2 * HOUR;
    let end = cal_start + 8 * HOUR;
    let expected = vec![slot(start, cal_start + 4 * HOUR), slot(cal_start + 6 * HOUR, end)];
    let timeslots = calendar.to_timeslots(&start, &end).unwrap();
    assert_eq!(timeslots.len(), 2);
    assert_eq!(timeslots, expected);
}

#[test]
fn test_calendar_to_timeslots_cropped_to_single() {
    let calendar = "DTSTART:20221020T080000Z;DURATION:PT4H\n\
        RRULE:FREQ=DAILY;BYDAY=MO,TU,WE,TH,FR\n\
        DTSTART:20221020T140000Z;DURATION:PT4H\n\
        RRULE:FREQ=DAILY;BYDAY=MO,TU,WE,TH,FR\n";
    let calendar = Calendar::parse(calendar).unwrap();
    assert_eq!(calendar.events.len(), 2);
    let cal_start = ms(2022, 10, 20, 8, 0);
    let start = cal_start + 2 * HOUR;
    let end = cal_start + 3 * HOUR;
    let timeslots = calendar.to_timeslots(&start, &end).unwrap();
    assert_eq!(timeslots.len(), 1);
    assert_eq!(timeslots, vec![slot(start, end)]);
}

#[test]
fn test_calendar_to_timeslots_future() {
    let calendar = "DTSTART:20221020T080000Z;DURATION:PT4H\n\
        RRULE:FREQ=DAILY;BYDAY=MO,TU,WE,TH,FR,SA,SU\n\
        DTSTART:20221020T140000Z;DURATION:PT4H\n\
        RRULE:FREQ=DAILY;BYDAY=MO,TU,WE,TH,FR,SA,SU";
    let calendar = Calendar::parse(calendar).unwrap();
    assert_eq!(calendar.events.len(), 2);
    let cal_start = ms(2023, 10, 20, 8, 0);
    let start = cal_start - 2 * HOUR;
    let end = cal_start + 16 * HOUR;
    let expected = vec![slot(cal_start, cal_start + 4 * HOUR), slot(cal_start + 6 * HOUR, cal_start + 10 * HOUR)];
    let timeslots = calendar.to_timeslots(&start, &end).unwrap();
    assert_eq!(timeslots.len(), 2);
    assert_eq!(timeslots, expected);
}

#[test]
fn test_timeslot_sub_cleave() {
    let dt_start = ms(2023, 10, 24, 0, 0);
    let a = slot(dt_start, dt_start + 3 * HOUR);
    let b = slot(dt_start + HOUR, dt_start + 2 * HOUR);
    let timeslots = a - b;
    assert_eq!(timeslots.len(), 2);
    assert_eq!(timeslots, vec![slot(dt_start, dt_start + HOUR), slot(dt_start + 2 * HOUR, dt_start + 3 * HOUR)]);
}

#[test]
fn test_timeslot_sub_crop_end() {
    let dt_start = ms(2023, 10, 24, 0, 0);
    let a = slot(dt_start, dt_start + 3 * HOUR);
    let b = slot(dt_start + 2 * HOUR, dt_start + 4 * HOUR);
    let timeslots = a - b;
    assert_eq!(timeslots.len(), 1);
    assert_eq!(timeslots, vec![slot(dt_start, dt_start + 2 * HOUR)]);
}

#[test]
fn test_timeslot_sub_crop_start() {
    let dt_start = ms(2023, 10, 24, 0, 0);
    let a = slot(dt_start + HOUR, dt_start + 3 * HOUR);
    let b = slot(dt_start, dt_start + 2 * HOUR);
    let timeslots = a - b;
    assert_eq!(timeslots.len(), 1);
    assert_eq!(timeslots, vec![slot(dt_start + 2 * HOUR, dt_start + 3 * HOUR)]);
}

#[test]
fn test_timeslot_sub_no_overlap() {
    let dt_start = ms(2023, 10, 24, 0, 0);
    let a = slot(dt_start + 2 * HOUR, dt_start + 3 * HOUR);
    let b = slot(dt_start, dt_start + 2 * HOUR);
    let timeslots = a - b;
    assert_eq!(timeslots.len(), 1);
    assert_eq!(timeslots, vec![a]);

    let a = slot(dt_start, dt_start + HOUR);
    let b = slot(dt_start + HOUR, dt_start + 2 * HOUR);
    let timeslots = a - b;
    assert_eq!(timeslots.len(), 1);
    assert_eq!(timeslots, vec![a]);
}

#[test]
fn timeslot_sub_covered_leaves_nothing() {
    let a = slot(10, 20);
    assert_eq!(a - slot(5, 25), Vec::<Timeslot>::new());
    assert_eq!(a - slot(10, 20), Vec::<Timeslot>::new());
}

#[test]
fn timeslot_new_overlap_split() {
    assert_eq!(Timeslot::new(5, 5), Err(TimeslotError::InvalidTimes));
    assert_eq!(Timeslot::new(6, 5), Err(TimeslotError::InvalidTimes));
    assert_eq!(Timeslot::new(5, 6), Ok(slot(5, 6)));
    assert_eq!(slot(0, 10).overlap(&slot(5, 20)), Ok(slot(5, 10)));
    assert_eq!(slot(0, 10).overlap(&slot(10, 20)), Err(TimeslotError::NoOverlap));
    assert_eq!(slot(0, 10).duration(), 10);
    // pieces of 4, the last shorter one kept when long enough
    assert_eq!(slot(0, 10).split(&2, &4), vec![slot(0, 4), slot(4, 8), slot(8, 10)]);
    assert_eq!(slot(0, 10).split(&3, &4), vec![slot(0, 4), slot(4, 8)]);
    assert_eq!(slot(0, 10).split(&11, &4), Vec::<Timeslot>::new());
}

#[test]
fn test_save_and_load_calendar() {
    let orig_cal_str = &(CAL_WORKDAYS_8AM_6PM.to_owned() + WITH_1HR_DAILY_BREAK + WITH_ONE_OFF_BLOCK);
    let calendar = Calendar::parse(orig_cal_str).unwrap();
    let cal_str = calendar.to_string();
    let calendar = Calendar::parse(&cal_str).unwrap();
    assert_eq!(calendar.events.len(), 4);
    assert_eq!(calendar.events[0].duration, 14 * HOUR);
}

#[test]
fn calendar_text_form() {
    let calendar = Calendar::parse(&("DTSTART:20221026T133000Z;DURATION:PT3H\nRDATE:20221026T133000Z".to_owned())).unwrap();
    assert_eq!(calendar.to_string(), "DTSTART:20221026T133000Z;DURATION:PT10800S\nRDATE:20221026T133000Z\n");
    let calendar = Calendar::parse(CAL_WORKDAYS_8AM_6PM).unwrap();
    let text = calendar.to_string();
    assert!(text.starts_with("DTSTART:20221020T180000Z;DURATION:PT50400S\nRRULE:"));
    assert!(text.contains("DTSTART:20221022T000000Z;DURATION:PT86400S\nRRULE:"));
}

#[test]
fn calendar_timeslots_come_in_order_of_start() {
    let calendar = "DTSTART:20221020T080000Z;DURATION:PT4H\n\
        RRULE:FREQ=DAILY;BYDAY=MO,TU,WE,TH,FR\n\
        DTSTART:20221020T140000Z;DURATION:PT4H\n\
        RRULE:FREQ=DAILY;BYDAY=MO,TU,WE,TH,FR\n";
    let calendar = Calendar::parse(calendar).unwrap();
    let timeslots = calendar.to_timeslots(&ms(2022, 10, 20, 7, 0), &ms(2022, 10, 21, 20, 0)).unwrap();
    assert_eq!(
        timeslots,
        vec![
            slot(ms(2022, 10, 20, 8, 0), ms(2022, 10, 20, 12, 0)),
            slot(ms(2022, 10, 20, 14, 0), ms(2022, 10, 20, 18, 0)),
            slot(ms(2022, 10, 21, 8, 0), ms(2022, 10, 21, 12, 0)),
            slot(ms(2022, 10, 21, 14, 0), ms(2022, 10, 21, 18, 0)),
        ]
    );
}

#[test]
fn calendar_times_must_be_utc_or_in_a_named_zone() {
    // Without `Z` the time would be read in the machine's time zone.
    assert_eq!(
        Calendar::parse("DTSTART:20221020T180000;DURATION:PT1H\nRRULE:FREQ=DAILY").unwrap_err(),
        CalendarError::RruleSet
    );
    assert_eq!(
        Calendar::parse("DTSTART:20221020T180000Z;DURATION:PT1H\nRRULE:FREQ=DAILY;UNTIL=20221030T000000").unwrap_err(),
        CalendarError::RruleSet
    );
    assert_eq!(
        Calendar::parse("DTSTART:20221020T180000Z;DURATION:PT1H\nRDATE:20221026").unwrap_err(),
        CalendarError::RruleSet
    );
    assert!(Calendar::parse("DTSTART:20221020T180000Z;DURATION:PT1H\nRRULE:FREQ=DAILY;UNTIL=20221030T000000Z").is_ok());
    // Dates of an RDATE or EXDATE line may name their time zone.
    let zoned = Calendar::parse("DTSTART:20221020T180000Z;DURATION:PT1H\nRDATE;TZID=Europe/Berlin:20221026T133000").unwrap();
    let slots = zoned.to_timeslots(&ms(2022, 10, 26, 0, 0), &ms(2022, 10, 27, 0, 0)).unwrap();
    assert_eq!(slots, vec![slot(ms(2022, 10, 26, 11, 30), ms(2022, 10, 26, 12, 30))]);
    assert_eq!(
        Calendar::parse("DTSTART:20221020T180000Z;DURATION:PT1H\nRDATE;TZID=Nowhere/Else:20221026T133000").unwrap_err(),
        CalendarError::RruleSet
    );
}

#[test]
fn durations_must_be_plain_numbers() {
    for text in ["PT1e20S", "PTinfS", "PTnanS", "PT-1e20S"] {
        let cal = format!("DTSTART:20221020T180000Z;DURATION:{text}\nRRULE:FREQ=DAILY");
        assert_eq!(Calendar::parse(&cal).unwrap_err(), CalendarError::Duration);
    }
    let cal = "DTSTART:20221020T180000Z;DURATION:PT1.5H\nRRULE:FREQ=DAILY";
    assert_eq!(Calendar::parse(cal).unwrap().events[0].duration, 90 * 60_000);
    // A decimal comma passes the character check; the duration parser reads
    // the number before it and then finds no designator.
    let cal = "DTSTART:20221020T180000Z;DURATION:PT1,5H\nRRULE:FREQ=DAILY";
    assert_eq!(Calendar::parse(cal).unwrap_err(), CalendarError::Duration);
    let cal = "DTSTART:20221020T180000Z;DURATION:PT12000000000S\nRRULE:FREQ=DAILY";
    assert!(Calendar::parse(cal).unwrap().events[0].duration > 11_000_000_000_000);
    let cal = "DTSTART:20221020T180000Z;DURATION:PT99999999999S\nRRULE:FREQ=DAILY";
    assert_eq!(Calendar::parse(cal).unwrap_err(), CalendarError::Duration);
}

#[test]
fn a_free_window_stays_free_when_shrunk() {
    let text = format!("{CAL_WORKDAYS_8AM_6PM}{WITH_1HR_DAILY_BREAK}{WITH_ONE_OFF_BLOCK}");
    let calendar = Calendar::parse(&text).unwrap();
    // Tuesday 25 October, 08:00 to 12:00, is free.
    let (start, end) = (ms(2022, 10, 25, 8, 0), ms(2022, 10, 25, 12, 0));
    assert!(calendar.is_available_between(start, end));
    for (s2, e2) in [(start, end), (start + HOUR, end), (start, end - HOUR), (start + HOUR, start + 2 * HOUR)] {
        assert!(calendar.is_available_between(s2, e2));
    }
    // Growing it into the daily break makes it busy.
    assert!(!calendar.is_available_between(start, end + HOUR));
}
