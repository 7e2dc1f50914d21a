use sr_exam::catalog::{AllRoomsQuery, AllSubjectsQuery, UsersQuery};
use sr_exam::config::MySQLConfig;
use sr_exam::person::{Credential, Person};
use sr_exam::records::{
    Enrollment, EnrollmentsBySubject, Room, Shift, Subject, User, ViewTransaction,
};
use sr_exam::rows::{copy_rows, find_row, upsert_row, upsert_rows};
use sr_exam::store::{ConstraintError, Store};

fn s(text: &str) -> String {
    text.to_string()
}

fn user(bn: &str, nim: &str, role: &str) -> User {
    User {
        bn_number: s(bn),
        nim: s(nim),
        name: s("Name"),
        major: s("Major"),
        role: s(role),
        initial: None,
    }
}

fn enrollment(class: &str, nim: &str, subject: &str) -> Enrollment {
    Enrollment { class_code: s(class), nim: s(nim), subject_code: s(subject) }
}

#[test]
fn new_store_is_empty() {
    let store = Store::new();
    assert!(store.roster().is_empty());
    assert!(store.rooms().is_empty());
    assert!(store.subjects().is_empty());
    assert!(store.enrollments().is_empty());
    assert!(store.get_all_shifts().is_empty());
    assert!(store.view_transaction().is_empty());
    assert!(!store.has_session_at(&s("2024-06-01"), &s("1")));
}

#[test]
fn upsert_inserts_then_overwrites_in_place() {
    let mut store = Store::new();
    store.upsert_subject(Subject { subject_name: s("A"), subject_code: s("S1") });
    store.upsert_subject(Subject { subject_name: s("B"), subject_code: s("S2") });
    store.upsert_subject(Subject { subject_name: s("A2"), subject_code: s("S1") });
    assert_eq!(
        store.subjects(),
        vec![
            Subject { subject_name: s("A2"), subject_code: s("S1") },
            Subject { subject_name: s("B"), subject_code: s("S2") },
        ]
    );
    store.upsert_room(Room { campus: s("X"), room_capacity: 10, room_number: s("601") });
    store.upsert_room(Room { campus: s("Y"), room_capacity: -3, room_number: s("601") });
    assert_eq!(
        store.rooms(),
        vec![Room { campus: s("Y"), room_capacity: -3, room_number: s("601") }]
    );
    store.upsert_shift(Shift { shift_code: s("1"), start_time: s("07:00"), end_time: s("09:00") });
    store.upsert_shift(Shift { shift_code: s("1"), start_time: s("07:30"), end_time: s("09:30") });
    assert_eq!(
        store.get_all_shifts(),
        vec![Shift { shift_code: s("1"), start_time: s("07:30"), end_time: s("09:30") }]
    );
}

#[test]
fn upsert_of_a_person_keeps_the_credential() {
    let mut store = Store::new();
    store.upsert_user(user("BN1", "1", "Student"));
    assert_eq!(
        store.roster(),
        vec![Person { user: user("BN1", "1", "Student"), credential: Credential::Implicit }]
    );
    store.set_password_hash(&s("1"), &s("hash"));
    store.upsert_user(user("BN1b", "1", "Assistant"));
    assert_eq!(
        store.roster(),
        vec![Person {
            user: user("BN1b", "1", "Assistant"),
            credential: Credential::Hashed(s("hash")),
        }]
    );
}

#[test]
fn enrollment_references_are_checked_subject_first() {
    let mut store = Store::new();
    assert_eq!(
        store.upsert_enrollment(enrollment("C1", "1", "S1")),
        Err(ConstraintError::MissingSubject)
    );
    store.upsert_subject(Subject { subject_name: s("A"), subject_code: s("S1") });
    assert_eq!(
        store.upsert_enrollment(enrollment("C1", "1", "S1")),
        Err(ConstraintError::MissingPerson)
    );
    store.upsert_user(user("BN1", "1", "Student"));
    assert_eq!(store.upsert_enrollment(enrollment("C1", "1", "S1")), Ok(()));
    assert_eq!(
        store.upsert_enrollment(enrollment("C1", "2", "S1")),
        Err(ConstraintError::MissingPerson)
    );
    assert_eq!(store.enrollments(), vec![enrollment("C1", "1", "S1")]);
}

#[test]
fn enrollments_are_listed_by_subject() {
    let mut store = Store::new();
    store.upsert_subject(Subject { subject_name: s("A"), subject_code: s("S1") });
    store.upsert_subject(Subject { subject_name: s("B"), subject_code: s("S2") });
    store.upsert_user(user("BN1", "1", "Student"));
    store.upsert_user(user("BN2", "2", "Student"));
    for e in [
        enrollment("C1", "1", "S1"),
        enrollment("C2", "1", "S2"),
        enrollment("C3", "2", "S1"),
    ] {
        assert_eq!(store.upsert_enrollment(e), Ok(()));
    }
    assert_eq!(
        store.get_enrollments_by_subject_code(&s("S1")),
        vec![
            EnrollmentsBySubject { class_code: s("C1"), nim: s("1"), subject_code: s("S1") },
            EnrollmentsBySubject { class_code: s("C3"), nim: s("2"), subject_code: s("S1") },
        ]
    );
    assert_eq!(
        store.get_enrollments_by_subject_code(&s("S2")),
        vec![EnrollmentsBySubject { class_code: s("C2"), nim: s("1"), subject_code: s("S2") }]
    );
    assert!(store.get_enrollments_by_subject_code(&s("S3")).is_empty());
    assert!(store.get_enrollments_by_subject_code(&s("S1' OR '1'='1")).is_empty());
}

#[test]
fn session_references_are_checked_in_order() {
    let mut store = Store::new();
    let row = || ViewTransaction {
        transaction_code: s("TH001"),
        subject_codes: s("S1"),
        shift_code: s("1"),
        room_number: s("601"),
        date: s("2024-06-01"),
        proctor: Some(s("1")),
    };
    assert_eq!(store.insert_session(row()), Err(ConstraintError::MissingSubject));
    store.upsert_subject(Subject { subject_name: s("A"), subject_code: s("S1") });
    assert_eq!(store.insert_session(row()), Err(ConstraintError::MissingShift));
    store.upsert_shift(Shift { shift_code: s("1"), start_time: s("07:00"), end_time: s("09:00") });
    assert_eq!(store.insert_session(row()), Err(ConstraintError::MissingRoom));
    store.upsert_room(Room { campus: s("X"), room_capacity: 10, room_number: s("601") });
    assert_eq!(store.insert_session(row()), Err(ConstraintError::MissingPerson));
    store.upsert_user(user("BN1", "1", "Assistant"));
    assert_eq!(store.insert_session(row()), Ok(()));
    assert_eq!(store.insert_session(row()), Err(ConstraintError::DuplicateKey));
    assert_eq!(store.view_transaction(), vec![row()]);
    assert!(store.has_session_at(&s("2024-06-01"), &s("1")));
    assert!(!store.has_session_at(&s("2024-06-01"), &s("2")));
    assert!(!store.has_session_at(&s("2024-06-02"), &s("1")));
}

#[test]
fn role_changes_for_every_row_with_the_identifier() {
    let mut store = Store::new();
    store.upsert_user(user("BN1", "1", "Student"));
    store.upsert_user(user("BN2", "2", "Student"));
    store.upsert_user(user("BN1", "3", "Student"));
    store.set_password_hash(&s("2"), &s("hash"));
    store.update_user_role(&s("BN1"), &s("Assistant"));
    assert_eq!(
        store.roster(),
        vec![
            Person { user: user("BN1", "1", "Assistant"), credential: Credential::Implicit },
            Person { user: user("BN2", "2", "Student"), credential: Credential::Hashed(s("hash")) },
            Person { user: user("BN1", "3", "Assistant"), credential: Credential::Implicit },
        ]
    );
    store.update_user_role(&s("BN9"), &s("Admin"));
    assert_eq!(store.roster().len(), 3);
    assert_eq!(store.roster()[1].user.role, "Student");
}

#[test]
fn rows_are_found_by_login_name_and_by_nim() {
    let mut store = Store::new();
    let mut a = user("BN1", "111", "Student");
    a.initial = Some(s("AA"));
    store.upsert_user(a.clone());
    store.upsert_user(user("BN2", "222", "Student"));
    assert_eq!(store.find_login_row(&s("AA")).unwrap().user, a);
    assert_eq!(store.find_login_row(&s("111")).unwrap().user, a);
    assert_eq!(store.find_login_row(&s("222")).unwrap().user.bn_number, "BN2");
    assert_eq!(store.find_login_row(&s("BN1")), None);
    assert_eq!(store.find_login_row(&s("")), None);
    assert_eq!(store.find_by_nim(&s("222")).unwrap().user.bn_number, "BN2");
    assert_eq!(store.find_by_nim(&s("111")).unwrap().user, a);
    assert_eq!(store.find_by_nim(&s("AA")), None);
    assert_eq!(store.find_by_nim(&s("BN2")), None);
}

#[test]
fn mysql_url_is_put_together_from_the_four_parameters() {
    let config = MySQLConfig::new(s("root"), s(""), s("localhost"), s("sr-exam"));
    assert_eq!(config.format_url(), "mysql://root:@localhost/sr-exam");
    let config = MySQLConfig::new(s("exam"), s("p@ss"), s("db.internal:3306"), s("rooms"));
    assert_eq!(config.format_url(), "mysql://exam:p@ss@db.internal:3306/rooms");
}

#[test]
fn query_answers_hold_their_rows() {
    let users = UsersQuery { get_all_user: vec![user("BN1", "1", "Student")] };
    assert_eq!(users.get_all_user.len(), 1);
    let subjects = AllSubjectsQuery {
        get_all_subject: vec![Subject { subject_name: s("A"), subject_code: s("S1") }],
    };
    assert_eq!(subjects.get_all_subject[0].subject_code, "S1");
    let rooms = AllRoomsQuery {
        get_all_room: vec![Room { campus: s("X"), room_capacity: 10, room_number: s("601") }],
    };
    assert_eq!(rooms.get_all_room[0].room_capacity, 10);
}

#[test]
fn password_hash_goes_to_the_row_with_the_nim_alone() {
    let mut store = Store::new();
    store.upsert_user(user("BN1", "1", "Student"));
    store.upsert_user(user("BN1", "2", "Student"));
    store.set_password_hash(&s("2"), &s("hash"));
    assert_eq!(
        store.roster(),
        vec![
            Person { user: user("BN1", "1", "Student"), credential: Credential::Implicit },
            Person { user: user("BN1", "2", "Student"), credential: Credential::Hashed(s("hash")) },
        ]
    );
    store.set_password_hash(&s("BN1"), &s("other"));
    store.set_password_hash(&s("3"), &s("other"));
    assert_eq!(store.roster()[0].credential, Credential::Implicit);
    assert_eq!(store.roster()[1].credential, Credential::Hashed(s("hash")));
    store.set_password_hash(&s("2"), &s("newer"));
    assert_eq!(store.roster()[1].credential, Credential::Hashed(s("newer")));
}

#[test]
fn batches_are_upserted_first_to_last() {
    let mut store = Store::new();
    store.upsert_subjects(&vec![
        Subject { subject_name: s("A"), subject_code: s("S1") },
        Subject { subject_name: s("B"), subject_code: s("S2") },
        Subject { subject_name: s("A2"), subject_code: s("S1") },
    ]);
    assert_eq!(
        store.subjects(),
        vec![
            Subject { subject_name: s("A2"), subject_code: s("S1") },
            Subject { subject_name: s("B"), subject_code: s("S2") },
        ]
    );
    store.upsert_rooms(&vec![
        Room { campus: s("X"), room_capacity: 10, room_number: s("601") },
        Room { campus: s("Y"), room_capacity: 20, room_number: s("601") },
    ]);
    assert_eq!(
        store.rooms(),
        vec![Room { campus: s("Y"), room_capacity: 20, room_number: s("601") }]
    );
    store.upsert_shifts(&vec![
        Shift { shift_code: s("1"), start_time: s("07:00"), end_time: s("09:00") },
        Shift { shift_code: s("2"), start_time: s("09:00"), end_time: s("11:00") },
    ]);
    assert_eq!(store.get_all_shifts().len(), 2);
    store.upsert_users(&vec![user("BN1", "1", "Student"), user("BN2", "2", "Student")]);
    store.set_password_hash(&s("1"), &s("hash"));
    store.upsert_users(&vec![user("BN1", "1", "Assistant"), user("BN3", "3", "Student")]);
    assert_eq!(
        store.roster(),
        vec![
            Person { user: user("BN1", "1", "Assistant"), credential: Credential::Hashed(s("hash")) },
            Person { user: user("BN2", "2", "Student"), credential: Credential::Implicit },
            Person { user: user("BN3", "3", "Student"), credential: Credential::Implicit },
        ]
    );
    store.upsert_users(&Vec::new());
    assert_eq!(store.roster().len(), 3);
}

#[test]
fn rows_of_any_table_are_found_copied_and_upserted_alike() {
    let mut rows: Vec<Subject> = Vec::new();
    assert_eq!(find_row(&rows, &s("S1")), None);
    upsert_row(&mut rows, Subject { subject_name: s("A"), subject_code: s("S1") });
    upsert_row(&mut rows, Subject { subject_name: s("B"), subject_code: s("S2") });
    assert_eq!(find_row(&rows, &s("S1")), Some(0));
    assert_eq!(find_row(&rows, &s("S2")), Some(1));
    assert_eq!(find_row(&rows, &s("S3")), None);
    upsert_row(&mut rows, Subject { subject_name: s("B2"), subject_code: s("S2") });
    assert_eq!(rows.len(), 2);
    assert_eq!(rows[1].subject_name, "B2");
    let copy = copy_rows(&rows);
    assert_eq!(copy, rows);
    upsert_rows(
        &mut rows,
        &vec![
            Subject { subject_name: s("C"), subject_code: s("S3") },
            Subject { subject_name: s("A3"), subject_code: s("S1") },
            Subject { subject_name: s("C2"), subject_code: s("S3") },
        ],
    );
    assert_eq!(
        rows,
        vec![
            Subject { subject_name: s("A3"), subject_code: s("S1") },
            Subject { subject_name: s("B2"), subject_code: s("S2") },
            Subject { subject_name: s("C2"), subject_code: s("S3") },
        ]
    );
    assert_eq!(copy.len(), 2);
    let mut people: Vec<Person> = Vec::new();
    upsert_rows(&mut people, &vec![user("BN1", "1", "Student"), user("BN1", "1", "Assistant")]);
    assert_eq!(
        people,
        vec![Person { user: user("BN1", "1", "Assistant"), credential: Credential::Implicit }]
    );
}
