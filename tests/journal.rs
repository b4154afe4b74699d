use mail_journal::config::{plan_startup, Config, StartupPlan};
use mail_journal::date::{date_of_instant, day_start, lookback_date, CivilDate};
use mail_journal::journal::{contains_text, decide_ingest, sender_is_authorized, IngestAction};
use mail_journal::message::{Email, EmailError, RequiredHeader};
use mail_journal::notice::{
    decimal_text, duplicate_entry_mail, error_mail, reminder_mail, reminder_text, search_date, search_query,
    sequence_set,
    JournalEntry,
};
use mail_journal::schedule::{is_instant_in_range, ReminderSchedule};

const TARGET: &str = "john.smith@example.com";
// 2019-12-12 00:00:00 UTC
const DEC_12_2019: i64 = 1576108800;
const HOUR: i64 = 3600;
const DAY: i64 = 86400;

const PROMPT: &str = "How was your day today? Reply to this email with your daily journal entry.";

fn entry(day: u32, month: u32, year: i32, body: &str) -> JournalEntry {
    JournalEntry { id: 1, day, month, year, body: body.to_string() }
}

#[test]
fn second_reply_same_day_is_rejected() {
    // The first reply of a day is stored, a second one on that day is refused.
    assert_eq!(decide_ingest(TARGET, TARGET, false), IngestAction::Insert);
    assert_eq!(decide_ingest(TARGET, TARGET, true), IngestAction::RejectDuplicate);
    let notice = duplicate_entry_mail(&Config::default());
    assert_eq!(notice.subject, "Error");
    assert_eq!(notice.body, "You already submitted a journal entry for today!");
    assert_eq!(notice.to_address, TARGET);
}

#[test]
fn two_replies_same_timestamp_share_a_date() {
    let a = Email {
        from: TARGET.to_string(),
        subject: "Re".to_string(),
        timestamp: DEC_12_2019 + HOUR,
        body: "first".to_string(),
    };
    let b = Email { timestamp: DEC_12_2019 + 20 * HOUR, body: "second".to_string(), ..a.clone() };
    assert_eq!(a.sent_date(), b.sent_date());
    assert_eq!(a.sent_date(), Some(CivilDate { day: 12, month: 12, year: 2019 }));
}

#[test]
fn other_sender_is_ignored() {
    assert!(!sender_is_authorized("other@example.com", TARGET));
    assert_eq!(decide_ingest("other@example.com", TARGET, false), IngestAction::Ignore);
    assert_eq!(decide_ingest("other@example.com", TARGET, true), IngestAction::Ignore);
}

#[test]
fn bracketed_sender_is_accepted() {
    let from = "\"Jane\" <john.smith@example.com>";
    assert!(sender_is_authorized(from, TARGET));
    assert_eq!(decide_ingest(from, TARGET, false), IngestAction::Insert);
    assert!(sender_is_authorized(TARGET, TARGET));
    assert!(!sender_is_authorized("xjohn.smith@example.com", TARGET));
    assert!(!sender_is_authorized("<john.smith@example.co>", TARGET));
    assert!(!sender_is_authorized("", TARGET));
}

#[test]
fn substring_search() {
    assert!(contains_text("abcabd", "abd"));
    assert!(contains_text("abc", ""));
    assert!(!contains_text("ab", "abc"));
    assert!(!contains_text("aXbXc", "abc"));
}

#[test]
fn reminder_fires_once_per_day() {
    let day = DEC_12_2019;
    let mut s = ReminderSchedule::new(day + 7 * HOUR, 9);
    assert_eq!(s.next_fire, day + 9 * HOUR);
    assert!(!s.tick(day + 8 * HOUR));
    assert!(s.tick(day + 9 * HOUR));
    assert_eq!(s.next_fire, day + 9 * HOUR + DAY);
    assert!(!s.tick(day + 9 * HOUR + 1));
    assert!(!s.tick(day + 23 * HOUR));
    assert!(s.tick(day + DAY + 9 * HOUR));
    assert_eq!(s.next_fire, day + 2 * DAY + 9 * HOUR);
}

#[test]
fn start_after_hour_skips_today() {
    let day = DEC_12_2019;
    let mut s = ReminderSchedule::new(day + 10 * HOUR, 9);
    assert_eq!(s.next_fire, day + DAY + 9 * HOUR);
    assert!(s.fired_today(day + 10 * HOUR));
    assert!(!s.tick(day + 11 * HOUR));
    assert!(s.tick(day + DAY + 9 * HOUR));
}

#[test]
fn catch_up_fires_once_a_day_only() {
    let day = DEC_12_2019;
    let mut s = ReminderSchedule::new(day, 0);
    // The process was stalled for three days.
    assert!(s.tick(day + 3 * DAY + HOUR));
    assert!(!s.tick(day + 3 * DAY + 2 * HOUR));
    assert!(s.tick(day + 4 * DAY));
}

#[test]
fn lookback_is_365_days() {
    assert_eq!(lookback_date(DEC_12_2019 + 15 * HOUR), Some(CivilDate { day: 12, month: 12, year: 2018 }));
    // 2020 is a leap year: 365 days before 2020-12-12 is 2019-12-13.
    let dec_12_2020 = DEC_12_2019 + 366 * DAY;
    assert_eq!(date_of_instant(dec_12_2020), Some(CivilDate { day: 12, month: 12, year: 2020 }));
    assert_eq!(lookback_date(dec_12_2020), Some(CivilDate { day: 13, month: 12, year: 2019 }));
    assert_eq!(lookback_date(i64::MIN), None);
}

#[test]
fn reminder_quotes_entry_of_a_year_ago() {
    let entries = vec![entry(12, 12, 2018, "  Went hiking today.\n ")];
    let text = reminder_text(&entries);
    assert_eq!(
        text,
        format!("{}\n\nOn this day, one year ago:\n\"Went hiking today.\"", PROMPT)
    );
    let mail = reminder_mail(&Config::default(), &entries);
    assert_eq!(mail.subject, "Daily Journal Entry");
    assert_eq!(mail.from_name, "Mail Journal");
    assert_eq!(mail.from_address, "mail-journal@example.com");
    assert_eq!(mail.to_name, "John Smith");
    assert!(mail.body.contains("\"Went hiking today.\""));
}

#[test]
fn reminder_without_lookback_has_no_section() {
    let text = reminder_text(&Vec::new());
    assert_eq!(text, PROMPT);
    assert!(!text.contains("one year ago"));
}

#[test]
fn reminder_quotes_each_entry() {
    let entries = vec![entry(1, 2, 2018, "a "), entry(1, 2, 2018, "\tb")];
    assert_eq!(
        reminder_text(&entries),
        format!("{}\n\nOn this day, one year ago:\n\"a\"\"b\"", PROMPT)
    );
}

#[test]
fn stored_body_keeps_whitespace() {
    let body = "  Dear diary,\n  nothing new.  \n";
    let e = entry(12, 12, 2019, body);
    assert_eq!(e.body, body);
    assert_eq!(e.date(), CivilDate { day: 12, month: 12, year: 2019 });
    let text = reminder_text(&vec![e]);
    assert!(text.ends_with("\"Dear diary,\n  nothing new.\""));
}

#[test]
fn missing_config_writes_default() {
    let plan = plan_startup("", None);
    assert_eq!(plan.exit_code(), Some(0));
    match plan {
        StartupPlan::WriteDefault(c) => {
            assert_eq!(c.target_email, "john.smith@example.com");
            assert_eq!(c.target_name, "John Smith");
            assert_eq!(c.db_filename, "mail-journal.db");
            assert_eq!(c.journal_email_smtp, "smtp.example.com");
            assert_eq!(c.journal_email_imap, "imap.example.com");
            assert_eq!(c.journal_email, "mail-journal@example.com");
            assert_eq!(c.journal_email_password, "password");
            assert_eq!(c.utc_reminder_hour, 0);
        }
        _ => panic!("expected the default template"),
    }
}

#[test]
fn malformed_config_stops() {
    let plan = plan_startup("not settings", None);
    assert!(matches!(plan, StartupPlan::Malformed));
    assert_eq!(plan.exit_code(), Some(1));
}

#[test]
fn reminder_hour_is_checked() {
    let mut c = Config::default();
    c.utc_reminder_hour = 24;
    assert!(!c.reminder_hour_is_valid());
    assert!(matches!(plan_startup("x", Some(c.clone())), StartupPlan::ReminderHourOutOfRange(24)));
    c.utc_reminder_hour = -1;
    assert!(matches!(plan_startup("x", Some(c.clone())), StartupPlan::ReminderHourOutOfRange(-1)));
    c.utc_reminder_hour = 23;
    let plan = plan_startup("x", Some(c));
    assert_eq!(plan.exit_code(), None);
    assert!(matches!(plan, StartupPlan::Run(ref r) if r.utc_reminder_hour == 23));
}

#[test]
fn day_start_rounds_down() {
    assert_eq!(day_start(DEC_12_2019 + 5 * HOUR + 7), Some(DEC_12_2019));
    assert_eq!(day_start(DEC_12_2019), Some(DEC_12_2019));
    assert_eq!(day_start(-1), Some(-DAY));
    assert_eq!(day_start(i64::MIN), None);
}

#[test]
fn error_mail_carries_message() {
    let m = error_mail(&Config::default(), "boom");
    assert_eq!(m.subject, "Error");
    assert_eq!(m.body, "boom");
}

#[test]
fn search_query_text() {
    assert_eq!(
        search_query(TARGET, DEC_12_2019 + 13 * HOUR),
        Some("UNSEEN FROM john.smith@example.com SINCE 12-Dec-2019".to_string())
    );
    assert_eq!(search_query(TARGET, i64::MAX), None);
}

#[test]
fn sequence_set_text() {
    assert_eq!(sequence_set(&vec![1, 22, 4000000000]), "1,22,4000000000");
    assert_eq!(sequence_set(&vec![7]), "7");
    assert_eq!(sequence_set(&vec![0]), "0");
    assert_eq!(sequence_set(&Vec::new()), "");
}

#[test]
fn parse_plain_message() {
    let raw = b"From: \"Jane\" <john.smith@example.com>\r\nSubject: Re: Daily Journal Entry\r\nDate: Thu, 12 Dec 2019 22:30:00 -0500\r\n\r\nHello there\r\n";
    let e = Email::from_bytes(raw).unwrap();
    assert_eq!(e.from, "\"Jane\" <john.smith@example.com>");
    assert_eq!(e.subject, "Re: Daily Journal Entry");
    // 22:30 at -05:00 is 03:30 UTC the next day.
    assert_eq!(e.timestamp, DEC_12_2019 + DAY + 3 * HOUR + 1800);
    assert_eq!(e.sent_date(), Some(CivilDate { day: 13, month: 12, year: 2019 }));
    assert_eq!(e.body, "");
}

#[test]
fn parse_multipart_message() {
    let raw = "From: john.smith@example.com\n\
Subject: entry\n\
Date: Thu, 12 Dec 2019 10:00:00 +0000\n\
Content-Type: multipart/alternative; boundary=XX\n\
\n\
--XX\n\
Content-Type: text/plain\n\
\n\
Plain part\n\
--XX\n\
Content-Type: text/html\n\
\n\
<p>Html part</p>\n\
--XX--\n";
    let e = Email::from_bytes(raw.as_bytes()).unwrap();
    assert_eq!(e.from, "john.smith@example.com");
    assert_eq!(e.timestamp, DEC_12_2019 + 10 * HOUR);
    assert_eq!(e.body.trim_end(), "Plain part");
}

#[test]
fn parse_missing_headers() {
    let no_subject = b"From: a@b.c\nDate: Thu, 12 Dec 2019 10:00:00 +0000\n\nx";
    assert_eq!(Email::from_bytes(no_subject).unwrap_err(), EmailError::MissingHeader(RequiredHeader::Subject));
    let no_from = b"Subject: s\nDate: Thu, 12 Dec 2019 10:00:00 +0000\n\nx";
    assert_eq!(Email::from_bytes(no_from).unwrap_err(), EmailError::MissingHeader(RequiredHeader::From));
    let no_date = b"From: a@b.c\nSubject: s\n\nx";
    assert_eq!(Email::from_bytes(no_date).unwrap_err(), EmailError::MissingHeader(RequiredHeader::Date));
    let bad_date = b"From: a@b.c\nSubject: s\nDate: yesterday\n\nx";
    assert_eq!(Email::from_bytes(bad_date).unwrap_err(), EmailError::BadDate);
}

#[test]
fn from_parts_cases() {
    let s = |t: &str| Some(t.to_string());
    let date = s("Thu, 12 Dec 2019 10:00:00 +0000");
    let e = Email::from_parts(s("a"), s("b"), date.clone(), None).unwrap();
    assert_eq!(e.body, "");
    assert_eq!(e.timestamp, DEC_12_2019 + 10 * HOUR);
    let e = Email::from_parts(s("a"), s("b"), date.clone(), Some(s("text"))).unwrap();
    assert_eq!(e.body, "text");
    assert_eq!(
        Email::from_parts(s("a"), s("b"), date, Some(None)).unwrap_err(),
        EmailError::UndecodableBody
    );
    assert_eq!(
        Email::from_parts(None, None, None, None).unwrap_err(),
        EmailError::MissingHeader(RequiredHeader::From)
    );
}

#[test]
fn search_date_text() {
    let d = |day: u32, month: u32, year: i32| CivilDate { day, month, year };
    assert_eq!(search_date(d(5, 3, 2020)), Some("05-Mar-2020".to_string()));
    assert_eq!(search_date(d(31, 1, 1999)), Some("31-Jan-1999".to_string()));
    assert_eq!(search_date(d(10, 12, 2019)), Some("10-Dec-2019".to_string()));
    assert_eq!(search_date(d(1, 13, 2019)), None);
    assert_eq!(search_date(d(0, 1, 2019)), None);
    assert_eq!(search_date(d(1, 1, 999)), Some("01-Jan-0999".to_string()));
    assert_eq!(search_date(d(1, 1, 0)), Some("01-Jan-0000".to_string()));
    assert_eq!(search_date(d(9, 9, 9999)), Some("09-Sep-9999".to_string()));
    assert_eq!(search_date(d(2, 2, 10000)), Some("02-Feb-+10000".to_string()));
    assert_eq!(search_date(d(3, 3, -5)), Some("03-Mar--0005".to_string()));
    assert_eq!(search_date(d(4, 4, -262144)), Some("04-Apr--262144".to_string()));
    assert_eq!(search_date(d(5, 5, i32::MIN)), Some("05-May--2147483648".to_string()));
}

#[test]
fn parse_malformed_message() {
    assert_eq!(Email::from_bytes(b" leading space\n\nbody").unwrap_err(), EmailError::Malformed);
    assert_eq!(Email::from_bytes(b"\rFrom: a@b.c\n\nbody").unwrap_err(), EmailError::Malformed);
}

#[test]
fn reminder_quotes_entry_dated_365_days_before() {
    let now = DEC_12_2019 + DAY + 9 * HOUR;
    let then = lookback_date(now).unwrap();
    assert_eq!(then, CivilDate { day: 13, month: 12, year: 2018 });
    let stored = vec![entry(then.day, then.month, then.year, "\n  A quiet day.  ")];
    assert_eq!(stored[0].date(), then);
    let text = reminder_text(&stored);
    assert!(text.contains("On this day, one year ago:"));
    assert!(text.contains("\"A quiet day.\""));
    let none = reminder_mail(&Config::default(), &Vec::new());
    assert_eq!(none.body, PROMPT);
}

#[test]
fn decimal_text_values() {
    assert_eq!(decimal_text(0), "0");
    assert_eq!(decimal_text(9), "9");
    assert_eq!(decimal_text(10), "10");
    assert_eq!(decimal_text(407), "407");
    assert_eq!(decimal_text(u32::MAX), "4294967295");
}

#[test]
fn instant_range() {
    assert!(is_instant_in_range(0));
    assert!(is_instant_in_range(DEC_12_2019));
    assert!(is_instant_in_range(i64::MAX - 2 * DAY));
    assert!(!is_instant_in_range(i64::MAX - 2 * DAY + 1));
    assert!(!is_instant_in_range(i64::MIN));
}

#[test]
fn search_query_far_year() {
    // 10000-01-01 00:00:00 UTC
    let y10000 = 253402300800;
    assert_eq!(
        search_query(TARGET, y10000 + HOUR),
        Some("UNSEEN FROM john.smith@example.com SINCE 01-Jan-+10000".to_string())
    );
}

#[test]
fn parse_header_case_and_first_value() {
    let raw = b"from: a@b.c\nSUBJECT: one\nSubject: two\nDate: Thu, 12 Dec 2019 10:00:00 +0000\n\nx";
    let e = Email::from_bytes(raw).unwrap();
    assert_eq!(e.from, "a@b.c");
    assert_eq!(e.subject, "one");
    assert_eq!(Email::from_bytes(raw).unwrap().body, e.body);
}

#[test]
fn search_date_agrees_with_chrono() {
    let years = [-262144, -10000, -9999, -5, 0, 7, 999, 1000, 2019, 9999, 10000, 262143];
    for &year in years.iter() {
        for &(day, month) in [(1u32, 1u32), (9, 6), (29, 2), (31, 12)].iter() {
            if let Some(n) = chrono::NaiveDate::from_ymd_opt(year, month, day) {
                let expected = n.format("%d-%b-%Y").to_string();
                assert_eq!(search_date(CivilDate { day, month, year }), Some(expected));
            }
        }
    }
}
