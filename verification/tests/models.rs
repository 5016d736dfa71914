use awebot::clock::{self, Timestamp};
use awebot::error::{report_err, DatabaseSetupFailed, Error, Failure};
use awebot::models::Message;

const NOW: i64 = 1_600_000_000;

fn ago(secs: i64) -> String {
    Message::time_ago_at(Timestamp::new(NOW - secs, 0).unwrap(), Timestamp::new(NOW, 0).unwrap())
}

#[test]
fn time_ago_names_the_coarsest_unit() {
    assert_eq!(ago(0), "Moments ago");
    assert_eq!(ago(59), "Moments ago");
    assert_eq!(ago(60), "A minute ago");
    assert_eq!(ago(119), "A minute ago");
    assert_eq!(ago(120), "2 minutes ago");
    assert_eq!(ago(3599), "59 minutes ago");
    assert_eq!(ago(3600), "An hour ago");
    assert_eq!(ago(7199), "An hour ago");
    assert_eq!(ago(7200), "2 hours ago");
    assert_eq!(ago(86_399), "23 hours ago");
    assert_eq!(ago(86_400), "A day ago");
    assert_eq!(ago(2 * 86_400), "2 days ago");
    assert_eq!(ago(7 * 86_400 - 1), "6 days ago");
    assert_eq!(ago(7 * 86_400), "A week ago");
    assert_eq!(ago(14 * 86_400 - 1), "A week ago");
    assert_eq!(ago(14 * 86_400), "2 weeks ago");
    assert_eq!(ago(3650 * 86_400), "521 weeks ago");
}

#[test]
fn time_ago_of_the_future_is_moments_ago() {
    assert_eq!(ago(-1), "Moments ago");
    assert_eq!(ago(-86_400 * 30), "Moments ago");
}

#[test]
fn time_ago_counts_whole_seconds_only() {
    let sent = Timestamp::new(NOW - 60, 500_000_000).unwrap();
    let now = Timestamp::new(NOW, 0).unwrap();
    assert_eq!(Message::time_ago_at(sent, now), "Moments ago");
    let now = Timestamp::new(NOW, 500_000_000).unwrap();
    assert_eq!(Message::time_ago_at(sent, now), "A minute ago");
}

#[test]
fn time_ago_reaches_across_the_whole_range() {
    let first = Timestamp::new(clock::MIN_SECS, 0).unwrap();
    let last = Timestamp::new(clock::MAX_SECS, 999_999_999).unwrap();
    assert_eq!(Message::time_ago_at(first, last), "27355932 weeks ago");
    assert_eq!(Message::time_ago_at(last, first), "Moments ago");
}

#[test]
fn time_ago_str_reads_the_clock() {
    let secs = std::time::SystemTime::now()
        .duration_since(std::time::UNIX_EPOCH)
        .unwrap()
        .as_secs() as i64;
    let sent = Timestamp::new(secs - 3 * 86_400 - 5, 0).unwrap();
    assert_eq!(Message::time_ago_str(sent), "3 days ago");
    let m = Message {
        key: 1,
        target: "carol".to_owned(),
        sender: "bob".to_owned(),
        message: "hello".to_owned(),
        sent,
        private: false,
    };
    assert_eq!(m.to_text(), "carol: 3 days ago, bob said hello.");
}

#[test]
fn message_text_adds_a_full_stop_where_none_is() {
    let text = |message: &str| {
        Message {
            key: 1,
            target: "carol".to_owned(),
            sender: "bob".to_owned(),
            message: message.to_owned(),
            sent: Timestamp::new(NOW - 7200, 0).unwrap(),
            private: true,
        }
        .to_text_at(Timestamp::new(NOW, 0).unwrap())
    };
    assert_eq!(text("hi"), "carol: 2 hours ago, bob said hi.");
    assert_eq!(text("hi."), "carol: 2 hours ago, bob said hi.");
    assert_eq!(text("hi!"), "carol: 2 hours ago, bob said hi!");
    assert_eq!(text("hi?"), "carol: 2 hours ago, bob said hi?");
    assert_eq!(text(""), "carol: 2 hours ago, bob said .");
}

#[test]
fn timestamps_lie_in_range() {
    assert!(Timestamp::new(0, 0).is_some());
    assert!(Timestamp::new(clock::MIN_SECS, 0).is_some());
    assert!(Timestamp::new(clock::MIN_SECS - 1, 0).is_none());
    assert!(Timestamp::new(clock::MAX_SECS, 999_999_999).is_some());
    assert!(Timestamp::new(clock::MAX_SECS + 1, 0).is_none());
    assert!(Timestamp::new(0, 1_000_000_000).is_none());
    let t = Timestamp::new(12, 34).unwrap();
    assert_eq!(t.seconds(), 12);
    assert_eq!(t.subsec_nanos(), 34);
}

#[test]
fn elapsed_counts_each_unit_of_the_whole_span() {
    let e = clock::elapsed(
        Timestamp::new(NOW, 0).unwrap(),
        Timestamp::new(NOW - (15 * 86_400 + 3 * 3600 + 61), 0).unwrap(),
    );
    assert_eq!(e.weeks, 2);
    assert_eq!(e.days, 15);
    assert_eq!(e.hours, 15 * 24 + 3);
    assert_eq!(e.minutes, (15 * 24 + 3) * 60 + 1);
    let e = clock::elapsed(
        Timestamp::new(NOW - 15 * 86_400, 0).unwrap(),
        Timestamp::new(NOW, 0).unwrap(),
    );
    assert_eq!(e.weeks, -2);
    assert_eq!(e.days, -15);
    let e = clock::elapsed(
        Timestamp::new(NOW - 90, 0).unwrap(),
        Timestamp::new(NOW, 1).unwrap(),
    );
    assert_eq!(e.minutes, -1);
    assert_eq!(e.hours, 0);
}

#[test]
fn report_joins_the_chain_of_causes() {
    let f = Failure {
        message: "failed to connect".to_owned(),
        causes: vec!["handshake failed".to_owned(), "connection reset".to_owned()],
    };
    assert_eq!(report_err(&f), "failed to connect: handshake failed: connection reset");
    let lone = Failure { message: "just this".to_owned(), causes: Vec::new() };
    assert_eq!(report_err(&lone), "just this");
}

#[test]
fn unclassified_failures_are_ephemeral() {
    let f = Failure { message: "oops".to_owned(), causes: Vec::new() };
    let e: Error = f.clone().into();
    assert_eq!(e, Error::Ephemeral(f.clone()));
    assert!(!e.is_permanent());
    assert_eq!(e.failure(), &f);
    let p = Error::Permanent(f.clone());
    assert!(p.is_permanent());
    assert_eq!(p.failure(), &f);
}

#[test]
fn database_failure_names_the_database_and_keeps_the_cause() {
    let cause = Failure {
        message: "migration failed".to_owned(),
        causes: vec!["disk full".to_owned()],
    };
    let f = DatabaseSetupFailed { database: "bot.db".to_owned(), cause }.into_failure();
    assert_eq!(f.message, "failed to configure database: bot.db");
    assert_eq!(f.causes, vec!["migration failed".to_owned(), "disk full".to_owned()]);
    assert_eq!(
        report_err(&f),
        "failed to configure database: bot.db: migration failed: disk full"
    );
}

#[test]
fn the_range_of_timestamps_is_that_of_chrono() {
    assert!(chrono::DateTime::from_timestamp(clock::MIN_SECS, 0).is_some());
    assert!(chrono::DateTime::from_timestamp(clock::MIN_SECS - 1, 999_999_999).is_none());
    assert!(chrono::DateTime::from_timestamp(clock::MAX_SECS, 999_999_999).is_some());
    assert!(chrono::DateTime::from_timestamp(clock::MAX_SECS + 1, 0).is_none());
    assert_eq!(chrono::DateTime::<chrono::Utc>::MAX_UTC.timestamp(), clock::MAX_SECS);
    assert_eq!(chrono::DateTime::<chrono::Utc>::MIN_UTC.timestamp(), clock::MIN_SECS);
    assert!(chrono::Duration::try_seconds(clock::MAX_SPAN).is_some());
    assert!(chrono::Duration::try_seconds(-clock::MAX_SPAN).is_some());
    assert!(chrono::Duration::try_seconds(clock::MAX_SPAN + 1).is_none());
}
