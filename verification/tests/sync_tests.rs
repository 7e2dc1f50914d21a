use sr_exam::catalog::AllEnrollmentQuery;
use sr_exam::person::{Credential, Person};
use sr_exam::records::{Enrollment, Room, Shift, Subject, User, ViewTransaction};
use sr_exam::store::{ConstraintError, Store};
use sr_exam::sync::{
    fixed_shifts, insert_enrollment, insert_rooms, insert_sessions, insert_shifts,
    insert_subjects, insert_transaction_header, insert_users, sample_rows, sync, Collection,
    SyncError,
};

fn user(bn: &str, nim: &str, name: &str, initial: Option<&str>) -> User {
    User {
        bn_number: bn.to_string(),
        nim: nim.to_string(),
        name: name.to_string(),
        major: "Computer Science".to_string(),
        role: "Student".to_string(),
        initial: initial.map(|s| s.to_string()),
    }
}

fn subject(code: &str, name: &str) -> Subject {
    Subject { subject_name: name.to_string(), subject_code: code.to_string() }
}

fn room(number: &str, capacity: i32, campus: &str) -> Room {
    Room { campus: campus.to_string(), room_capacity: capacity, room_number: number.to_string() }
}

fn enrollment(class: &str, nim: &str, subject: &str) -> Enrollment {
    Enrollment {
        class_code: class.to_string(),
        nim: nim.to_string(),
        subject_code: subject.to_string(),
    }
}

fn remote_users() -> Vec<User> {
    vec![
        user("BN001", "2501", "Ann", None),
        user("BN002", "2502", "Ben", Some("BE")),
    ]
}

fn remote_rooms() -> Vec<Room> {
    vec![room("601", 40, "Anggrek"), room("602", 30, "Syahdan")]
}

fn remote_subjects() -> Vec<Subject> {
    vec![subject("COMP6047", "Algorithms"), subject("ACCT6300003", "Accounting")]
}

fn remote_enrollments() -> Vec<Enrollment> {
    vec![enrollment("LA01", "2501", "COMP6047"), enrollment("LB02", "2502", "ACCT6300003")]
}

fn run_sync(store: &mut Store) -> Result<(), SyncError> {
    sync(
        store,
        Ok(remote_users()),
        Ok(remote_rooms()),
        Ok(remote_subjects()),
        Ok(remote_enrollments()),
    )
}

fn implicit(u: User) -> Person {
    Person { user: u, credential: Credential::Implicit }
}

#[test]
fn sync_mirrors_all_four_collections() {
    let mut store = Store::new();
    assert_eq!(run_sync(&mut store), Ok(()));
    let people: Vec<Person> = remote_users().into_iter().map(implicit).collect();
    assert_eq!(store.roster(), people);
    assert_eq!(store.rooms(), remote_rooms());
    assert_eq!(store.subjects(), remote_subjects());
    assert_eq!(store.enrollments(), remote_enrollments());
    assert!(store.get_all_shifts().is_empty());
    assert!(store.view_transaction().is_empty());
}

#[test]
fn sync_twice_leaves_store_unchanged() {
    let mut store = Store::new();
    let users = vec![
        user("BN001", "2501", "Ann", None),
        user("BN002", "2502", "Ben", Some("BE")),
        user("BN009", "2501", "Ann Renamed", Some("AR")),
    ];
    let subjects = vec![
        subject("COMP6047", "Algorithms"),
        subject("COMP6047", "Algorithms and Programming"),
    ];
    let rooms = vec![room("601", 40, "Anggrek"), room("601", 45, "Kijang")];
    let enrollments = vec![
        enrollment("LA01", "2501", "COMP6047"),
        enrollment("LA01", "2502", "COMP6047"),
    ];
    let first = sync(
        &mut store,
        Ok(users.clone()),
        Ok(rooms.clone()),
        Ok(subjects.clone()),
        Ok(enrollments.clone()),
    );
    assert_eq!(first, Ok(()));
    let roster = store.roster();
    let room_rows = store.rooms();
    let subject_rows = store.subjects();
    let enrollment_rows = store.enrollments();
    let second = sync(&mut store, Ok(users), Ok(rooms), Ok(subjects), Ok(enrollments));
    assert_eq!(second, Ok(()));
    assert_eq!(store.roster(), roster);
    assert_eq!(store.rooms(), room_rows);
    assert_eq!(store.subjects(), subject_rows);
    assert_eq!(store.enrollments(), enrollment_rows);
}

#[test]
fn sync_duplicate_keys_keep_last_listing() {
    let mut store = Store::new();
    let users = vec![
        user("BN001", "2501", "Ann", None),
        user("BN002", "2502", "Ben", Some("BE")),
        user("BN009", "2501", "Ann Renamed", Some("AR")),
    ];
    let subjects = vec![
        subject("COMP6047", "Algorithms"),
        subject("COMP6047", "Algorithms and Programming"),
    ];
    let rooms = vec![room("601", 40, "Anggrek"), room("601", 45, "Kijang")];
    let enrollments = vec![
        enrollment("LA01", "2501", "COMP6047"),
        enrollment("LA01", "2502", "COMP6047"),
    ];
    assert_eq!(sync(&mut store, Ok(users), Ok(rooms), Ok(subjects), Ok(enrollments)), Ok(()));
    assert_eq!(
        store.roster(),
        vec![
            implicit(user("BN009", "2501", "Ann Renamed", Some("AR"))),
            implicit(user("BN002", "2502", "Ben", Some("BE"))),
        ]
    );
    assert_eq!(store.rooms(), vec![room("601", 45, "Kijang")]);
    assert_eq!(store.subjects(), vec![subject("COMP6047", "Algorithms and Programming")]);
    assert_eq!(store.enrollments(), vec![enrollment("LA01", "2502", "COMP6047")]);
}

#[test]
fn sync_overwrites_non_key_fields_of_existing_rows() {
    let mut store = Store::new();
    assert_eq!(run_sync(&mut store), Ok(()));
    let r = sync(
        &mut store,
        Ok(vec![user("BN777", "2502", "Benjamin", None)]),
        Ok(vec![room("602", 99, "Alam Sutera")]),
        Ok(vec![subject("ACCT6300003", "Financial Accounting")]),
        Ok(vec![enrollment("LB02", "2501", "COMP6047")]),
    );
    assert_eq!(r, Ok(()));
    assert_eq!(
        store.roster(),
        vec![
            implicit(user("BN001", "2501", "Ann", None)),
            implicit(user("BN777", "2502", "Benjamin", None)),
        ]
    );
    assert_eq!(store.rooms(), vec![room("601", 40, "Anggrek"), room("602", 99, "Alam Sutera")]);
    assert_eq!(
        store.subjects(),
        vec![subject("COMP6047", "Algorithms"), subject("ACCT6300003", "Financial Accounting")]
    );
    assert_eq!(
        store.enrollments(),
        vec![enrollment("LA01", "2501", "COMP6047"), enrollment("LB02", "2501", "COMP6047")]
    );
}

#[test]
fn sync_keeps_the_password_hash_of_a_known_person() {
    let mut store = Store::new();
    assert_eq!(run_sync(&mut store), Ok(()));
    store.set_password_hash(&"2501".to_string(), &"$2b$04$somehash".to_string());
    assert_eq!(run_sync(&mut store), Ok(()));
    let roster = store.roster();
    assert_eq!(roster[0].credential, Credential::Hashed("$2b$04$somehash".to_string()));
    assert_eq!(roster[0].user, user("BN001", "2501", "Ann", None));
    assert_eq!(roster[1].credential, Credential::Implicit);
}

#[test]
fn sync_stops_when_the_roster_cannot_be_fetched() {
    let mut store = Store::new();
    let r = sync(
        &mut store,
        Err(()),
        Ok(remote_rooms()),
        Ok(remote_subjects()),
        Ok(remote_enrollments()),
    );
    assert_eq!(r, Err(SyncError::Transport(Collection::Roster)));
    assert!(store.roster().is_empty());
    assert!(store.rooms().is_empty());
    assert!(store.subjects().is_empty());
    assert!(store.enrollments().is_empty());
}

#[test]
fn sync_stops_when_the_rooms_cannot_be_fetched() {
    let mut store = Store::new();
    let r = sync(
        &mut store,
        Ok(remote_users()),
        Err(()),
        Ok(remote_subjects()),
        Ok(remote_enrollments()),
    );
    assert_eq!(r, Err(SyncError::Transport(Collection::Rooms)));
    assert_eq!(store.roster().len(), 2);
    assert!(store.rooms().is_empty());
    assert!(store.subjects().is_empty());
    assert!(store.enrollments().is_empty());
}

#[test]
fn sync_stops_when_the_subjects_cannot_be_fetched() {
    let mut store = Store::new();
    let r = sync(
        &mut store,
        Ok(remote_users()),
        Ok(remote_rooms()),
        Err(()),
        Ok(remote_enrollments()),
    );
    assert_eq!(r, Err(SyncError::Transport(Collection::Subjects)));
    assert_eq!(store.roster().len(), 2);
    assert_eq!(store.rooms(), remote_rooms());
    assert!(store.subjects().is_empty());
    assert!(store.enrollments().is_empty());
}

#[test]
fn sync_stops_when_the_enrollments_cannot_be_fetched() {
    let mut store = Store::new();
    let r = sync(
        &mut store,
        Ok(remote_users()),
        Ok(remote_rooms()),
        Ok(remote_subjects()),
        Err(()),
    );
    assert_eq!(r, Err(SyncError::Transport(Collection::Enrollments)));
    assert_eq!(store.subjects(), remote_subjects());
    assert!(store.enrollments().is_empty());
}

#[test]
fn sync_reports_the_first_enrollment_with_an_unknown_subject() {
    let mut store = Store::new();
    let enrollments = vec![
        enrollment("LA01", "2501", "COMP6047"),
        enrollment("LC03", "2501", "MATH0000"),
        enrollment("LB02", "2502", "ACCT6300003"),
    ];
    let r = sync(
        &mut store,
        Ok(remote_users()),
        Ok(remote_rooms()),
        Ok(remote_subjects()),
        Ok(enrollments),
    );
    assert_eq!(
        r,
        Err(SyncError::Constraint { index: 1, error: ConstraintError::MissingSubject })
    );
    assert_eq!(store.enrollments(), vec![enrollment("LA01", "2501", "COMP6047")]);
    assert_eq!(store.subjects(), remote_subjects());
}

#[test]
fn sync_reports_an_enrollment_with_an_unknown_person() {
    let mut store = Store::new();
    let r = sync(
        &mut store,
        Ok(remote_users()),
        Ok(remote_rooms()),
        Ok(remote_subjects()),
        Ok(vec![enrollment("LA01", "9999", "COMP6047")]),
    );
    assert_eq!(
        r,
        Err(SyncError::Constraint { index: 0, error: ConstraintError::MissingPerson })
    );
    assert!(store.enrollments().is_empty());
}

#[test]
fn enrollments_need_roster_and_subjects_first() {
    let mut store = Store::new();
    let r = insert_enrollment(&mut store, &remote_enrollments());
    assert_eq!(
        r,
        Err(SyncError::Constraint { index: 0, error: ConstraintError::MissingSubject })
    );
    insert_subjects(&mut store, &remote_subjects());
    let r = insert_enrollment(&mut store, &remote_enrollments());
    assert_eq!(
        r,
        Err(SyncError::Constraint { index: 0, error: ConstraintError::MissingPerson })
    );
    insert_users(&mut store, &remote_users());
    assert_eq!(insert_enrollment(&mut store, &remote_enrollments()), Ok(()));
    assert_eq!(store.enrollments(), remote_enrollments());
}

#[test]
fn stages_write_only_their_own_table() {
    let mut store = Store::new();
    insert_rooms(&mut store, &remote_rooms());
    assert_eq!(store.rooms(), remote_rooms());
    assert!(store.roster().is_empty());
    assert!(store.subjects().is_empty());
    insert_users(&mut store, &Vec::new());
    assert!(store.roster().is_empty());
}

#[test]
fn shift_catalog_has_seven_two_hour_shifts() {
    let shifts = fixed_shifts();
    let expected = [
        ("1", "07:00:00", "09:00:00"),
        ("2", "09:00:00", "11:00:00"),
        ("3", "11:00:00", "13:00:00"),
        ("4", "13:00:00", "15:00:00"),
        ("5", "15:00:00", "17:00:00"),
        ("6", "17:00:00", "19:00:00"),
        ("7", "19:00:00", "21:00:00"),
    ];
    assert_eq!(shifts.len(), 7);
    for (row, (code, start, end)) in shifts.iter().zip(expected.iter()) {
        assert_eq!(
            *row,
            Shift {
                shift_code: code.to_string(),
                start_time: start.to_string(),
                end_time: end.to_string(),
            }
        );
    }
}

#[test]
fn seeding_shifts_twice_keeps_seven_rows() {
    let mut store = Store::new();
    insert_shifts(&mut store);
    assert_eq!(store.get_all_shifts(), fixed_shifts());
    insert_shifts(&mut store);
    assert_eq!(store.get_all_shifts(), fixed_shifts());
    assert_eq!(store.get_all_shifts().len(), 7);
}

#[test]
fn enrollment_answer_drops_missing_entries() {
    let answer = AllEnrollmentQuery {
        get_all_enrollment: Some(vec![
            None,
            Some(enrollment("LA01", "2501", "COMP6047")),
            None,
            Some(enrollment("LB02", "2502", "ACCT6300003")),
        ]),
    };
    assert_eq!(answer.enrollments(), remote_enrollments());
}

#[test]
fn enrollment_answer_without_a_list_is_empty() {
    let answer = AllEnrollmentQuery { get_all_enrollment: None };
    assert!(answer.enrollments().is_empty());
    let answer = AllEnrollmentQuery { get_all_enrollment: Some(Vec::new()) };
    assert!(answer.enrollments().is_empty());
}

fn sample(code: &str, shift: &str, room: &str, date: &str) -> ViewTransaction {
    ViewTransaction {
        transaction_code: code.to_string(),
        subject_codes: "ACCT6300003".to_string(),
        shift_code: shift.to_string(),
        room_number: room.to_string(),
        date: date.to_string(),
        proctor: None,
    }
}

fn store_for_samples(rooms: &[&str]) -> Store {
    let mut store = Store::new();
    insert_shifts(&mut store);
    store.upsert_subject(subject("ACCT6300003", "Accounting"));
    for number in rooms {
        store.upsert_room(room(number, 40, "Anggrek"));
    }
    store
}

const SAMPLE_ROOMS: [&str; 11] =
    ["601", "602", "603", "604", "605", "606", "607", "608", "609", "610", "613"];

#[test]
fn sample_sessions_are_the_twelve_fixed_rows() {
    let expected = vec![
        sample("TH001", "1", "601", "2024-06-01"),
        sample("TH002", "2", "602", "2024-06-01"),
        sample("TH003", "3", "603", "2024-06-01"),
        sample("TH004", "4", "604", "2024-06-01"),
        sample("TH005", "1", "601", "2024-06-02"),
        sample("TH006", "7", "605", "2024-06-02"),
        sample("TH007", "6", "606", "2024-06-01"),
        sample("TH008", "3", "607", "2024-06-02"),
        sample("TH009", "5", "608", "2024-06-01"),
        sample("TH010", "4", "609", "2024-06-02"),
        sample("TH011", "7", "610", "2024-06-01"),
        sample("TH012", "2", "613", "2024-06-02"),
    ];
    assert_eq!(sample_rows(), expected);
}

#[test]
fn sample_sessions_are_seeded_once() {
    let mut store = store_for_samples(&SAMPLE_ROOMS);
    assert_eq!(insert_transaction_header(&mut store), Ok(()));
    assert_eq!(store.view_transaction(), sample_rows());
    assert_eq!(insert_transaction_header(&mut store), Ok(()));
    assert_eq!(store.view_transaction(), sample_rows());
}

#[test]
fn seeding_leaves_a_taken_code_as_it_is() {
    let mut store = store_for_samples(&SAMPLE_ROOMS);
    let mine = sample("TH003", "5", "613", "2025-01-15");
    assert_eq!(store.insert_session(mine.clone()), Ok(()));
    assert_eq!(insert_transaction_header(&mut store), Ok(()));
    let rows = store.view_transaction();
    assert_eq!(rows.len(), 12);
    assert_eq!(rows[0], mine);
    assert_eq!(rows[1], sample("TH001", "1", "601", "2024-06-01"));
    assert_eq!(rows[2], sample("TH002", "2", "602", "2024-06-01"));
    assert_eq!(rows[3], sample("TH004", "4", "604", "2024-06-01"));
}

#[test]
fn seeding_stops_at_the_first_session_that_does_not_resolve() {
    let mut store = store_for_samples(&["601", "602", "604"]);
    assert_eq!(
        insert_transaction_header(&mut store),
        Err(SyncError::Constraint { index: 2, error: ConstraintError::MissingRoom })
    );
    assert_eq!(
        store.view_transaction(),
        vec![sample("TH001", "1", "601", "2024-06-01"), sample("TH002", "2", "602", "2024-06-01")]
    );
    let mut empty = Store::new();
    assert_eq!(
        insert_transaction_header(&mut empty),
        Err(SyncError::Constraint { index: 0, error: ConstraintError::MissingSubject })
    );
    assert!(empty.view_transaction().is_empty());
}

#[test]
fn offered_sessions_skip_repeats_within_the_batch() {
    let mut store = store_for_samples(&SAMPLE_ROOMS);
    let batch = vec![
        sample("TH100", "1", "601", "2024-07-01"),
        sample("TH100", "2", "602", "2024-07-02"),
        sample("TH101", "9", "601", "2024-07-01"),
        sample("TH102", "3", "601", "2024-07-01"),
    ];
    assert_eq!(
        insert_sessions(&mut store, &batch),
        Err(SyncError::Constraint { index: 2, error: ConstraintError::MissingShift })
    );
    assert_eq!(store.view_transaction(), vec![sample("TH100", "1", "601", "2024-07-01")]);
    assert_eq!(insert_sessions(&mut store, &Vec::new()), Ok(()));
}
