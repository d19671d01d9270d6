use meet_url::registry::{Code, Rooms, EXPIRES_AFTER_N_SECS};

fn s(text: &str) -> String {
    String::from(text)
}

#[test]
fn lifetime_is_twenty_minutes() {
    assert_eq!(EXPIRES_AFTER_N_SECS, 1_200);
}

#[test]
fn new_registry_is_empty() {
    let rooms = Rooms::new();
    assert_eq!(rooms.len(), 0);
    assert!(!rooms.holds("r1"));
}

#[test]
fn store_then_lookup_round_trip() {
    let mut rooms = Rooms::new();
    rooms.store(s("r1"), s("abc-defg-hij"), 50);
    assert_eq!(rooms.lookup("r1", 50), Some(s("abc-defg-hij")));
    assert_eq!(rooms.len(), 1);
}

#[test]
fn last_writer_wins() {
    let mut rooms = Rooms::new();
    rooms.store(s("r1"), s("aaa-aaaa-aaa"), 10);
    rooms.store(s("r1"), s("bbb-bbbb-bbb"), 11);
    assert_eq!(rooms.lookup("r1", 11), Some(s("bbb-bbbb-bbb")));
    assert_eq!(rooms.len(), 1);
}

#[test]
fn code_is_found_until_the_lifetime_is_over() {
    let mut rooms = Rooms::new();
    rooms.store(s("r1"), s("abc-defg-hij"), 100);
    assert_eq!(rooms.lookup("r1", 100), Some(s("abc-defg-hij")));
    assert_eq!(rooms.lookup("r1", 700), Some(s("abc-defg-hij")));
    assert_eq!(rooms.lookup("r1", 1_299), Some(s("abc-defg-hij")));
    assert_eq!(rooms.lookup("r1", 1_300), Some(s("abc-defg-hij")));
    assert!(rooms.holds("r1"));
}

#[test]
fn code_expires_after_the_lifetime() {
    let mut rooms = Rooms::new();
    rooms.store(s("r1"), s("abc-defg-hij"), 100);
    assert!(rooms.holds("r1"));
    assert_eq!(rooms.lookup("r1", 1_301), None);
    assert!(!rooms.holds("r1"));
    assert_eq!(rooms.len(), 0);
    // Gone for good, also for a lookup at an earlier time.
    assert_eq!(rooms.lookup("r1", 100), None);
}

#[test]
fn expired_entry_stays_until_its_room_is_read() {
    let mut rooms = Rooms::new();
    rooms.store(s("a"), s("aaa-aaaa-aaa"), 0);
    rooms.store(s("b"), s("bbb-bbbb-bbb"), 5_000);
    // Reading `b` long after `a` has expired does not sweep `a`.
    assert_eq!(rooms.lookup("b", 5_000), Some(s("bbb-bbbb-bbb")));
    assert!(rooms.holds("a"));
    assert_eq!(rooms.len(), 2);
    assert_eq!(rooms.lookup("a", 5_000), None);
    assert!(!rooms.holds("a"));
    assert_eq!(rooms.len(), 1);
}

#[test]
fn reading_does_not_renew() {
    let mut rooms = Rooms::new();
    rooms.store(s("r1"), s("abc-defg-hij"), 0);
    assert_eq!(rooms.lookup("r1", 1_200), Some(s("abc-defg-hij")));
    assert_eq!(rooms.lookup("r1", 1_201), None);
}

#[test]
fn writing_renews() {
    let mut rooms = Rooms::new();
    rooms.store(s("r1"), s("abc-defg-hij"), 0);
    rooms.store(s("r1"), s("abc-defg-hij"), 1_000);
    assert_eq!(rooms.lookup("r1", 2_200), Some(s("abc-defg-hij")));
    assert_eq!(rooms.lookup("r1", 2_201), None);
}

#[test]
fn writing_over_an_expired_entry_revives_the_room() {
    let mut rooms = Rooms::new();
    rooms.store(s("r1"), s("aaa-aaaa-aaa"), 0);
    rooms.store(s("r1"), s("bbb-bbbb-bbb"), 9_000);
    assert_eq!(rooms.lookup("r1", 9_001), Some(s("bbb-bbbb-bbb")));
}

#[test]
fn clock_before_the_write_counts_as_no_time_gone_by() {
    let mut rooms = Rooms::new();
    rooms.store(s("r1"), s("abc-defg-hij"), 5_000);
    assert_eq!(rooms.lookup("r1", 10), Some(s("abc-defg-hij")));
}

#[test]
fn times_at_the_end_of_the_range() {
    let mut rooms = Rooms::new();
    rooms.store(s("r1"), s("abc-defg-hij"), u64::MAX - 1_200);
    assert_eq!(rooms.lookup("r1", u64::MAX), Some(s("abc-defg-hij")));
    rooms.store(s("r2"), s("abc-defg-hij"), u64::MAX - 1_201);
    assert_eq!(rooms.lookup("r2", u64::MAX), None);
    rooms.store(s("r3"), s("abc-defg-hij"), u64::MAX);
    assert_eq!(rooms.lookup("r3", 0), Some(s("abc-defg-hij")));
}

#[test]
fn unknown_room_is_a_miss() {
    let mut rooms = Rooms::new();
    assert_eq!(rooms.lookup("unknown", 0), None);
    assert_eq!(rooms.lookup("unknown", 0), None);
    assert_eq!(rooms.len(), 0);
    rooms.store(s("known"), s("abc-defg-hij"), 0);
    assert_eq!(rooms.lookup("unknown", 1), None);
    assert_eq!(rooms.lookup("unknown", 99_999), None);
    assert_eq!(rooms.len(), 1);
    assert_eq!(rooms.lookup("known", 1), Some(s("abc-defg-hij")));
}

#[test]
fn rooms_are_isolated() {
    let mut rooms = Rooms::new();
    rooms.store(s("b"), s("bbb-bbbb-bbb"), 0);
    rooms.store(s("a"), s("aaa-aaaa-aaa"), 600);
    assert_eq!(rooms.lookup("b", 600), Some(s("bbb-bbbb-bbb")));
    rooms.store(s("a"), s("ccc-cccc-ccc"), 1_200);
    assert_eq!(rooms.lookup("b", 1_200), Some(s("bbb-bbbb-bbb")));
    // The write to `a` did not renew `b`.
    assert_eq!(rooms.lookup("b", 1_201), None);
    assert_eq!(rooms.lookup("a", 1_201), Some(s("ccc-cccc-ccc")));
}

#[test]
fn room_names_are_case_sensitive() {
    let mut rooms = Rooms::new();
    rooms.store(s("Room"), s("aaa-aaaa-aaa"), 0);
    assert_eq!(rooms.lookup("room", 0), None);
    assert_eq!(rooms.lookup("Room", 0), Some(s("aaa-aaaa-aaa")));
}

#[test]
fn many_writes_leave_one_entry_with_the_last_code() {
    let mut rooms = Rooms::new();
    let mut last = String::new();
    for i in 0..26u8 {
        let letter = (b'a' + i) as char;
        let code: String = format!("{0}{0}{0}-{0}{0}{0}{0}-{0}{0}{0}", letter);
        rooms.store(s("r1"), code.clone(), u64::from(i));
        last = code;
    }
    assert_eq!(rooms.len(), 1);
    assert_eq!(rooms.lookup("r1", 26), Some(last));
    assert_eq!(rooms.lookup("r1", 26), Some(s("zzz-zzzz-zzz")));
}

#[test]
fn store_keeps_whatever_it_is_given() {
    let mut rooms = Rooms::new();
    rooms.store(s(""), s("not a code"), 0);
    assert_eq!(rooms.lookup("", 0), Some(s("not a code")));
}

#[test]
fn code_knows_whether_it_is_live() {
    let code = Code { value: s("abc-defg-hij"), updated: 100 };
    assert!(code.is_live_at(0));
    assert!(code.is_live_at(100));
    assert!(code.is_live_at(1_300));
    assert!(!code.is_live_at(1_301));
    assert!(!code.is_live_at(u64::MAX));
}
