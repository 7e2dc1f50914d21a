//! The replica synchronizer: mirrors the remote catalog's four collections
//! into the store, roster first, then rooms, subjects and enrollments.

use crate::person::enrolled_all;
use crate::allocation::with_session;
use crate::records::{
    Enrollment, EnrollmentView, Room, RoomView, Shift, ShiftView, Subject, SubjectView, User,
    UserView, ViewTransaction, ViewTransactionView,
};
use crate::store::{ConstraintError, Store, StoreView};
use crate::table::{
    exactly_once, has_key, index_of, lemma_exactly_once, lemma_last_write_wins, lemma_upsert_all,
    lemma_upsert_all_idempotent, lemma_upsert_all_step, unique_keys, upsert_all, Keyed,
};
use vstd::prelude::*;

verus! {

/// One of the four collections that the remote catalog offers.
#[derive(Debug, Clone, Copy, PartialEq, Eq, Structural)]
pub enum Collection {
    Roster,
    Rooms,
    Subjects,
    Enrollments,
}

/// Why a synchronization stopped.
#[derive(Debug, Clone, Copy, PartialEq, Eq, Structural)]
pub enum SyncError {
    /// The collection could not be fetched.
    Transport(Collection),
    /// The store turned away the row at `index` of the batch being written.
    Constraint { index: usize, error: ConstraintError },
}

/// What was fetched from the remote catalog: each collection, or `None`
/// where the fetch failed.
pub struct Catalog {
    pub roster: Option<Seq<UserView>>,
    pub rooms: Option<Seq<RoomView>>,
    pub subjects: Option<Seq<SubjectView>>,
    pub enrollments: Option<Seq<EnrollmentView>>,
}

/// A fetch's result as the contracts see it.
pub open spec fn fetched<T: DeepView>(r: Result<Vec<T>, ()>) -> Option<Seq<T::V>> {
    match r {
        Ok(rows) => Some(rows.deep_view()),
        Err(_) => None,
    }
}

/// The store after the roster took every entry of `us`, first to last.
pub open spec fn roster_synced(s: StoreView, us: Seq<UserView>) -> StoreView {
    StoreView { roster: upsert_all(s.roster, enrolled_all(us)), ..s }
}

/// The store after the room table took every room of `rs`.
pub open spec fn rooms_synced(s: StoreView, rs: Seq<RoomView>) -> StoreView {
    StoreView { rooms: upsert_all(s.rooms, rs), ..s }
}

/// The store after the shift table took every shift of `hs`.
pub open spec fn shifts_synced(s: StoreView, hs: Seq<ShiftView>) -> StoreView {
    StoreView { shifts: upsert_all(s.shifts, hs), ..s }
}

/// The store after the subject table took every subject of `ss`.
pub open spec fn subjects_synced(s: StoreView, ss: Seq<SubjectView>) -> StoreView {
    StoreView { subjects: upsert_all(s.subjects, ss), ..s }
}

/// The store after the enrollment table took every enrollment of `es`.
pub open spec fn enrollments_synced(s: StoreView, es: Seq<EnrollmentView>) -> StoreView {
    StoreView { enrollments: upsert_all(s.enrollments, es), ..s }
}

/// The enrollment at `j` is the first of `es` with a reference that the
/// store cannot resolve.
pub open spec fn unresolved_at(s: StoreView, es: Seq<EnrollmentView>, j: int) -> bool {
    &&& 0 <= j < es.len()
    &&& s.enrollment_violation(es[j]) is Some
    &&& forall|l: int| 0 <= l < j ==> s.enrollment_violation(#[trigger] es[l]) is None
}

/// Where the first enrollment stands that the store cannot take, if any.
pub open spec fn first_unresolved(s: StoreView, es: Seq<EnrollmentView>) -> Option<int> {
    if exists|j: int| unresolved_at(s, es, j) {
        Some(choose|j: int| unresolved_at(s, es, j))
    } else {
        None
    }
}

/// The enrollment stage: every enrollment is upserted in turn, up to the
/// first that the store cannot take; that one stops the stage.
pub open spec fn enrollment_stage(s: StoreView, es: Seq<EnrollmentView>) -> (
    StoreView,
    Option<SyncError>,
) {
    match first_unresolved(s, es) {
        Some(j) => (
            enrollments_synced(s, es.take(j)),
            Some(
                SyncError::Constraint {
                    index: j as usize,
                    error: s.enrollment_violation(es[j])->0,
                },
            ),
        ),
        None => (enrollments_synced(s, es), None),
    }
}

/// A whole synchronization: the four stages in order, stopped by the first
/// collection that was not fetched or the first enrollment that the store
/// cannot take. What earlier stages wrote stays written.
pub open spec fn sync_outcome(s: StoreView, c: Catalog) -> (StoreView, Option<SyncError>) {
    if c.roster is None {
        (s, Some(SyncError::Transport(Collection::Roster)))
    } else if c.rooms is None {
        (roster_synced(s, c.roster->0), Some(SyncError::Transport(Collection::Rooms)))
    } else if c.subjects is None {
        (
            rooms_synced(roster_synced(s, c.roster->0), c.rooms->0),
            Some(SyncError::Transport(Collection::Subjects)),
        )
    } else if c.enrollments is None {
        (
            subjects_synced(rooms_synced(roster_synced(s, c.roster->0), c.rooms->0), c.subjects->0),
            Some(SyncError::Transport(Collection::Enrollments)),
        )
    } else {
        enrollment_stage(
            subjects_synced(rooms_synced(roster_synced(s, c.roster->0), c.rooms->0), c.subjects->0),
            c.enrollments->0,
        )
    }
}

/// The seven fixed shifts: two hours each, from seven in the morning on.
pub open spec fn shift_catalog() -> Seq<ShiftView> {
    seq![
        ShiftView { shift_code: "1"@, start_time: "07:00:00"@, end_time: "09:00:00"@ },
        ShiftView { shift_code: "2"@, start_time: "09:00:00"@, end_time: "11:00:00"@ },
        ShiftView { shift_code: "3"@, start_time: "11:00:00"@, end_time: "13:00:00"@ },
        ShiftView { shift_code: "4"@, start_time: "13:00:00"@, end_time: "15:00:00"@ },
        ShiftView { shift_code: "5"@, start_time: "15:00:00"@, end_time: "17:00:00"@ },
        ShiftView { shift_code: "6"@, start_time: "17:00:00"@, end_time: "19:00:00"@ },
        ShiftView { shift_code: "7"@, start_time: "19:00:00"@, end_time: "21:00:00"@ },
    ]
}

/// The first unresolved enrollment is the only one.
pub proof fn lemma_first_unresolved(s: StoreView, es: Seq<EnrollmentView>, j: int)
    requires
        unresolved_at(s, es, j),
    ensures
        first_unresolved(s, es) == Some(j),
{
    let c = choose|j: int| unresolved_at(s, es, j);
    assert(unresolved_at(s, es, c));
    if c < j {
        assert(s.enrollment_violation(es[c]) is None);
    } else if j < c {
        assert(s.enrollment_violation(es[j]) is None);
    }
}

/// A shift row with these three texts.
fn shift(code: &str, start: &str, end: &str) -> (r: Shift)
    ensures
        r@ == (ShiftView { shift_code: code@, start_time: start@, end_time: end@ }),
{
    Shift {
        shift_code: String::from_str(code),
        start_time: String::from_str(start),
        end_time: String::from_str(end),
    }
}

/// The seven fixed shifts as rows.
pub fn fixed_shifts() -> (rows: Vec<Shift>)
    ensures
        rows.deep_view() == shift_catalog(),
{
    let mut rows: Vec<Shift> = Vec::new();
    rows.push(shift("1", "07:00:00", "09:00:00"));
    rows.push(shift("2", "09:00:00", "11:00:00"));
    rows.push(shift("3", "11:00:00", "13:00:00"));
    rows.push(shift("4", "13:00:00", "15:00:00"));
    rows.push(shift("5", "15:00:00", "17:00:00"));
    rows.push(shift("6", "17:00:00", "19:00:00"));
    rows.push(shift("7", "19:00:00", "21:00:00"));
    assert(rows.deep_view() =~= shift_catalog());
    rows
}

/// Upserts every roster entry, first to last.
pub fn insert_users(store: &mut Store, users: &Vec<User>)
    requires
        old(store).wf(),
    ensures
        final(store).wf(),
        final(store)@ == roster_synced(old(store)@, users.deep_view()),
{
    store.upsert_users(users);
}

/// Upserts every room, first to last.
pub fn insert_rooms(store: &mut Store, rooms: &Vec<Room>)
    requires
        old(store).wf(),
    ensures
        final(store).wf(),
        final(store)@ == rooms_synced(old(store)@, rooms.deep_view()),
{
    store.upsert_rooms(rooms);
}

/// Upserts every subject, first to last.
pub fn insert_subjects(store: &mut Store, subjects: &Vec<Subject>)
    requires
        old(store).wf(),
    ensures
        final(store).wf(),
        final(store)@ == subjects_synced(old(store)@, subjects.deep_view()),
{
    store.upsert_subjects(subjects);
}

/// Seeds the shift table with the seven fixed shifts.
pub fn insert_shifts(store: &mut Store)
    requires
        old(store).wf(),
    ensures
        final(store).wf(),
        final(store)@ == shifts_synced(old(store)@, shift_catalog()),
{
    let shifts = fixed_shifts();
    store.upsert_shifts(&shifts);
}

/// Upserts every enrollment, first to last, and stops at the first whose
/// subject or person the store does not hold. Those before it stay written.
pub fn insert_enrollment(store: &mut Store, enrollments: &Vec<Enrollment>) -> (r: Result<
    (),
    SyncError,
>)
    requires
        old(store).wf(),
    ensures
        final(store).wf(),
        final(store)@ == enrollment_stage(old(store)@, enrollments.deep_view()).0,
        match r {
            Ok(()) => enrollment_stage(old(store)@, enrollments.deep_view()).1 is None,
            Err(e) => enrollment_stage(old(store)@, enrollments.deep_view()).1 == Some(e),
        },
{
    let ghost before = store@;
    let ghost recs = enrollments.deep_view();
    let mut i: usize = 0;
    while i < enrollments.len()
        invariant
            i <= enrollments.len(),
            store.wf(),
            recs == enrollments.deep_view(),
            store@ == (StoreView {
                enrollments: upsert_all(before.enrollments, recs.take(i as int)),
                ..before
            }),
            before == old(store)@,
            forall|l: int| 0 <= l < i ==> before.enrollment_violation(#[trigger] recs[l]) is None,
        decreases enrollments.len() - i,
    {
        proof {
            lemma_upsert_all_step(before.enrollments, recs, i as int);
        }
        match store.upsert_enrollment(enrollments[i].clone()) {
            Ok(()) => {},
            Err(error) => {
                proof {
                    assert(before.enrollment_violation(recs[i as int]) == Some(error));
                    lemma_first_unresolved(before, recs, i as int);
                }
                return Err(SyncError::Constraint { index: i, error });
            },
        }
        i += 1;
    }
    proof {
        assert(recs.take(enrollments.len() as int) =~= recs);
        assert(first_unresolved(before, recs) is None) by {
            if exists|j: int| unresolved_at(before, recs, j) {
                let j = choose|j: int| unresolved_at(before, recs, j);
                assert(before.enrollment_violation(recs[j]) is None);
            }
        }
    }
    Ok(())
}

/// The store after one sample session was offered to it: left alone where
/// the session's code is taken, else added where its references resolve.
pub open spec fn session_offered(s: StoreView, row: ViewTransactionView) -> (
    StoreView,
    Option<ConstraintError>,
) {
    if has_key(s.sessions, row.transaction_code) {
        (s, None)
    } else {
        match s.session_violation(row) {
            Some(e) => (s, Some(e)),
            None => (with_session(s, row), None),
        }
    }
}

/// The store after a batch of sessions was offered to it, first to last, up
/// to the first whose references do not resolve; that one stops the batch.
pub open spec fn sessions_offered(s: StoreView, rows: Seq<ViewTransactionView>) -> (
    StoreView,
    Option<SyncError>,
)
    decreases rows.len(),
{
    if rows.len() == 0 {
        (s, None)
    } else {
        let before = sessions_offered(s, rows.drop_last());
        if before.1 is Some {
            before
        } else {
            let step = session_offered(before.0, rows.last());
            (
                step.0,
                match step.1 {
                    Some(e) => Some(
                        SyncError::Constraint { index: (rows.len() - 1) as usize, error: e },
                    ),
                    None => None,
                },
            )
        }
    }
}

/// A session of subject `ACCT6300003` without a proctor.
pub open spec fn sample(
    code: Seq<char>,
    shift_code: Seq<char>,
    room_number: Seq<char>,
    date: Seq<char>,
) -> ViewTransactionView {
    ViewTransactionView {
        transaction_code: code,
        subject_codes: "ACCT6300003"@,
        shift_code: shift_code,
        room_number: room_number,
        date: date,
        proctor: None,
    }
}

/// The twelve sample sessions that a fresh installation starts with.
pub open spec fn sample_sessions() -> Seq<ViewTransactionView> {
    seq![
        sample("TH001"@, "1"@, "601"@, "2024-06-01"@),
        sample("TH002"@, "2"@, "602"@, "2024-06-01"@),
        sample("TH003"@, "3"@, "603"@, "2024-06-01"@),
        sample("TH004"@, "4"@, "604"@, "2024-06-01"@),
        sample("TH005"@, "1"@, "601"@, "2024-06-02"@),
        sample("TH006"@, "7"@, "605"@, "2024-06-02"@),
        sample("TH007"@, "6"@, "606"@, "2024-06-01"@),
        sample("TH008"@, "3"@, "607"@, "2024-06-02"@),
        sample("TH009"@, "5"@, "608"@, "2024-06-01"@),
        sample("TH010"@, "4"@, "609"@, "2024-06-02"@),
        sample("TH011"@, "7"@, "610"@, "2024-06-01"@),
        sample("TH012"@, "2"@, "613"@, "2024-06-02"@),
    ]
}

/// Offering a batch one session longer is offering the batch, then the
/// session, unless the batch was stopped.
pub proof fn lemma_sessions_offered_step(s: StoreView, rows: Seq<ViewTransactionView>, n: int)
    requires
        0 <= n < rows.len(),
    ensures
        sessions_offered(s, rows.take(n + 1)) == if sessions_offered(s, rows.take(n)).1 is Some {
            sessions_offered(s, rows.take(n))
        } else {
            (
                session_offered(sessions_offered(s, rows.take(n)).0, rows[n]).0,
                match session_offered(sessions_offered(s, rows.take(n)).0, rows[n]).1 {
                    Some(e) => Some(SyncError::Constraint { index: n as usize, error: e }),
                    None => None,
                },
            )
        },
{
    assert(rows.take(n + 1).drop_last() =~= rows.take(n));
    assert(rows.take(n + 1).last() == rows[n]);
}

/// A batch that was stopped stays stopped, whatever follows.
pub proof fn lemma_sessions_offered_stops(s: StoreView, rows: Seq<ViewTransactionView>, n: int)
    requires
        0 <= n <= rows.len(),
        sessions_offered(s, rows.take(n)).1 is Some,
    ensures
        sessions_offered(s, rows) == sessions_offered(s, rows.take(n)),
    decreases rows.len(),
{
    if n == rows.len() {
        assert(rows.take(n) =~= rows);
    } else {
        let before = rows.drop_last();
        assert(before.take(n) =~= rows.take(n));
        lemma_sessions_offered_stops(s, before, n);
    }
}

/// A sample session row with these four texts.
fn sample_row(code: &str, shift_code: &str, room_number: &str, date: &str) -> (r: ViewTransaction)
    ensures
        r@ == sample(code@, shift_code@, room_number@, date@),
{
    ViewTransaction {
        transaction_code: String::from_str(code),
        subject_codes: String::from_str("ACCT6300003"),
        shift_code: String::from_str(shift_code),
        room_number: String::from_str(room_number),
        date: String::from_str(date),
        proctor: None,
    }
}

/// The twelve sample sessions as rows.
pub fn sample_rows() -> (rows: Vec<ViewTransaction>)
    ensures
        rows.deep_view() == sample_sessions(),
{
    let mut rows: Vec<ViewTransaction> = Vec::new();
    rows.push(sample_row("TH001", "1", "601", "2024-06-01"));
    rows.push(sample_row("TH002", "2", "602", "2024-06-01"));
    rows.push(sample_row("TH003", "3", "603", "2024-06-01"));
    rows.push(sample_row("TH004", "4", "604", "2024-06-01"));
    rows.push(sample_row("TH005", "1", "601", "2024-06-02"));
    rows.push(sample_row("TH006", "7", "605", "2024-06-02"));
    rows.push(sample_row("TH007", "6", "606", "2024-06-01"));
    rows.push(sample_row("TH008", "3", "607", "2024-06-02"));
    rows.push(sample_row("TH009", "5", "608", "2024-06-01"));
    rows.push(sample_row("TH010", "4", "609", "2024-06-02"));
    rows.push(sample_row("TH011", "7", "610", "2024-06-01"));
    rows.push(sample_row("TH012", "2", "613", "2024-06-02"));
    assert(rows.deep_view() =~= sample_sessions());
    rows
}

/// Offers each session of `rows` to the store, first to last: one whose code
/// is taken is left as the store has it, one whose references do not resolve
/// stops the batch and is reported, any other is added.
pub fn insert_sessions(store: &mut Store, rows: &Vec<ViewTransaction>) -> (r: Result<
    (),
    SyncError,
>)
    requires
        old(store).wf(),
    ensures
        final(store).wf(),
        final(store)@ == sessions_offered(old(store)@, rows.deep_view()).0,
        match r {
            Ok(()) => sessions_offered(old(store)@, rows.deep_view()).1 is None,
            Err(e) => sessions_offered(old(store)@, rows.deep_view()).1 == Some(e),
        },
{
    let ghost before = store@;
    let ghost recs = rows.deep_view();
    let mut i: usize = 0;
    while i < rows.len()
        invariant
            i <= rows.len(),
            store.wf(),
            recs == rows.deep_view(),
            before == old(store)@,
            sessions_offered(before, recs.take(i as int)) == (store@, None::<SyncError>),
        decreases rows.len() - i,
    {
        proof {
            lemma_sessions_offered_step(before, recs, i as int);
        }
        match store.insert_session(rows[i].clone()) {
            Ok(()) => {},
            Err(ConstraintError::DuplicateKey) => {},
            Err(error) => {
                proof {
                    lemma_sessions_offered_stops(before, recs, i as int + 1);
                }
                return Err(SyncError::Constraint { index: i, error });
            },
        }
        i += 1;
    }
    assert(recs.take(rows.len() as int) =~= recs);
    Ok(())
}

/// Offers the twelve sample sessions to the store.
pub fn insert_transaction_header(store: &mut Store) -> (r: Result<(), SyncError>)
    requires
        old(store).wf(),
    ensures
        final(store).wf(),
        final(store)@ == sessions_offered(old(store)@, sample_sessions()).0,
        match r {
            Ok(()) => sessions_offered(old(store)@, sample_sessions()).1 is None,
            Err(e) => sessions_offered(old(store)@, sample_sessions()).1 == Some(e),
        },
{
    let rows = sample_rows();
    insert_sessions(store, &rows)
}

/// Mirrors what was fetched from the remote catalog into the store: roster,
/// rooms, subjects, enrollments, in that order. A collection that could not
/// be fetched, or an enrollment that the store cannot take, stops the run
/// there and is reported; what was written before it stays written.
pub fn sync(
    store: &mut Store,
    users: Result<Vec<User>, ()>,
    rooms: Result<Vec<Room>, ()>,
    subjects: Result<Vec<Subject>, ()>,
    enrollments: Result<Vec<Enrollment>, ()>,
) -> (r: Result<(), SyncError>)
    requires
        old(store).wf(),
    ensures
        final(store).wf(),
        final(store)@ == sync_outcome(
            old(store)@,
            Catalog {
                roster: fetched(users),
                rooms: fetched(rooms),
                subjects: fetched(subjects),
                enrollments: fetched(enrollments),
            },
        ).0,
        match r {
            Ok(()) => sync_outcome(
                old(store)@,
                Catalog {
                    roster: fetched(users),
                    rooms: fetched(rooms),
                    subjects: fetched(subjects),
                    enrollments: fetched(enrollments),
                },
            ).1 is None,
            Err(e) => sync_outcome(
                old(store)@,
                Catalog {
                    roster: fetched(users),
                    rooms: fetched(rooms),
                    subjects: fetched(subjects),
                    enrollments: fetched(enrollments),
                },
            ).1 == Some(e),
        },
{
    match users {
        Err(_) => {
            return Err(SyncError::Transport(Collection::Roster));
        },
        Ok(rows) => {
            insert_users(store, &rows);
        },
    }
    match rooms {
        Err(_) => {
            return Err(SyncError::Transport(Collection::Rooms));
        },
        Ok(rows) => {
            insert_rooms(store, &rows);
        },
    }
    match subjects {
        Err(_) => {
            return Err(SyncError::Transport(Collection::Subjects));
        },
        Ok(rows) => {
            insert_subjects(store, &rows);
        },
    }
    match enrollments {
        Err(_) => Err(SyncError::Transport(Collection::Enrollments)),
        Ok(rows) => insert_enrollment(store, &rows),
    }
}

/// A synchronization that ran through leaves, in each of the four tables,
/// what upserting the whole collection leaves; shifts and sessions are as
/// they were.
pub proof fn lemma_sync_tables(s: StoreView, c: Catalog)
    requires
        sync_outcome(s, c).1 is None,
    ensures
        c.roster is Some && c.rooms is Some && c.subjects is Some && c.enrollments is Some,
        sync_outcome(s, c).0 == (StoreView {
            roster: upsert_all(s.roster, enrolled_all(c.roster->0)),
            rooms: upsert_all(s.rooms, c.rooms->0),
            shifts: s.shifts,
            subjects: upsert_all(s.subjects, c.subjects->0),
            enrollments: upsert_all(s.enrollments, c.enrollments->0),
            sessions: s.sessions,
        }),
        first_unresolved(
            subjects_synced(rooms_synced(roster_synced(s, c.roster->0), c.rooms->0), c.subjects->0),
            c.enrollments->0,
        ) is None,
{
}

/// Running the synchronizer a second time on the same catalog changes
/// nothing: the second run ends as the first did, with the same report, and
/// leaves every table row for row as the first run left it.
pub proof fn lemma_sync_idempotent(s: StoreView, c: Catalog)
    requires
        s.wf(),
    ensures
        sync_outcome(sync_outcome(s, c).0, c) == sync_outcome(s, c),
{
    let t = sync_outcome(s, c).0;
    if c.roster is Some {
        lemma_upsert_all_idempotent(s.roster, enrolled_all(c.roster->0));
        assert(roster_synced(t, c.roster->0).roster == t.roster);
        if c.rooms is Some {
            lemma_upsert_all_idempotent(s.rooms, c.rooms->0);
            if c.subjects is Some {
                lemma_upsert_all_idempotent(s.subjects, c.subjects->0);
                if c.enrollments is Some {
                    let es = c.enrollments->0;
                    let s3 = subjects_synced(
                        rooms_synced(roster_synced(s, c.roster->0), c.rooms->0),
                        c.subjects->0,
                    );
                    let t3 = subjects_synced(
                        rooms_synced(roster_synced(t, c.roster->0), c.rooms->0),
                        c.subjects->0,
                    );
                    assert(t3 == t);
                    assert forall|l: int| 0 <= l < es.len() implies t.enrollment_violation(
                        #[trigger] es[l],
                    ) == s3.enrollment_violation(es[l]) by {}
                    match first_unresolved(s3, es) {
                        Some(j) => {
                            assert(unresolved_at(s3, es, j));
                            assert(unresolved_at(t, es, j)) by {
                                assert forall|l: int| 0 <= l < j implies t.enrollment_violation(
                                    #[trigger] es[l],
                                ) is None by {
                                    assert(s3.enrollment_violation(es[l]) is None);
                                }
                            }
                            lemma_first_unresolved(t, es, j);
                            lemma_upsert_all_idempotent(s.enrollments, es.take(j));
                            assert(enrollments_synced(t, es.take(j)) == t);
                        },
                        None => {
                            assert(first_unresolved(t, es) is None) by {
                                if exists|j: int| unresolved_at(t, es, j) {
                                    let j = choose|j: int| unresolved_at(t, es, j);
                                    assert forall|l: int|
                                        0 <= l < j implies s3.enrollment_violation(
                                        #[trigger] es[l],
                                    ) is None by {
                                        assert(t.enrollment_violation(es[l]) is None);
                                    }
                                    assert(unresolved_at(s3, es, j));
                                }
                            }
                            lemma_upsert_all_idempotent(s.enrollments, es);
                            assert(enrollments_synced(t, es) == t);
                        },
                    }
                }
            }
        }
    }
}

/// After a synchronization, however it ended, no table holds a key twice.
pub proof fn lemma_sync_keys_unique(s: StoreView, c: Catalog)
    requires
        s.wf(),
    ensures
        unique_keys(sync_outcome(s, c).0.roster),
        unique_keys(sync_outcome(s, c).0.rooms),
        unique_keys(sync_outcome(s, c).0.shifts),
        unique_keys(sync_outcome(s, c).0.subjects),
        unique_keys(sync_outcome(s, c).0.enrollments),
        unique_keys(sync_outcome(s, c).0.sessions),
{
    if c.roster is Some {
        lemma_upsert_all(s.roster, enrolled_all(c.roster->0));
        if c.rooms is Some {
            lemma_upsert_all(s.rooms, c.rooms->0);
            if c.subjects is Some {
                lemma_upsert_all(s.subjects, c.subjects->0);
                if c.enrollments is Some {
                    let es = c.enrollments->0;
                    let s3 = subjects_synced(
                        rooms_synced(roster_synced(s, c.roster->0), c.rooms->0),
                        c.subjects->0,
                    );
                    match first_unresolved(s3, es) {
                        Some(j) => {
                            lemma_upsert_all(s.enrollments, es.take(j));
                        },
                        None => {
                            lemma_upsert_all(s.enrollments, es);
                        },
                    }
                }
            }
        }
    }
}

/// After a synchronization that ran through, every table has unique keys and
/// every key that a collection listed, once or more often, stands in its
/// table exactly once.
pub proof fn lemma_sync_keys_once(s: StoreView, c: Catalog)
    requires
        s.wf(),
        sync_outcome(s, c).1 is None,
    ensures
        unique_keys(sync_outcome(s, c).0.roster),
        unique_keys(sync_outcome(s, c).0.rooms),
        unique_keys(sync_outcome(s, c).0.subjects),
        unique_keys(sync_outcome(s, c).0.enrollments),
        forall|j: int|
            0 <= j < c.roster->0.len() ==> exactly_once(
                sync_outcome(s, c).0.roster,
                (#[trigger] c.roster->0[j]).nim,
            ),
        forall|j: int|
            0 <= j < c.rooms->0.len() ==> exactly_once(
                sync_outcome(s, c).0.rooms,
                (#[trigger] c.rooms->0[j]).room_number,
            ),
        forall|j: int|
            0 <= j < c.subjects->0.len() ==> exactly_once(
                sync_outcome(s, c).0.subjects,
                (#[trigger] c.subjects->0[j]).subject_code,
            ),
        forall|j: int|
            0 <= j < c.enrollments->0.len() ==> exactly_once(
                sync_outcome(s, c).0.enrollments,
                (#[trigger] c.enrollments->0[j]).class_code,
            ),
{
    lemma_sync_tables(s, c);
    let t = sync_outcome(s, c).0;
    let us = enrolled_all(c.roster->0);
    lemma_upsert_all(s.roster, us);
    lemma_upsert_all(s.rooms, c.rooms->0);
    lemma_upsert_all(s.subjects, c.subjects->0);
    lemma_upsert_all(s.enrollments, c.enrollments->0);
    assert forall|j: int| 0 <= j < c.roster->0.len() implies exactly_once(
        t.roster,
        (#[trigger] c.roster->0[j]).nim,
    ) by {
        assert(us[j].key() == c.roster->0[j].nim);
        lemma_exactly_once(t.roster, us[j].key());
    }
    assert forall|j: int| 0 <= j < c.rooms->0.len() implies exactly_once(
        t.rooms,
        (#[trigger] c.rooms->0[j]).room_number,
    ) by {
        lemma_exactly_once(t.rooms, c.rooms->0[j].key());
    }
    assert forall|j: int| 0 <= j < c.subjects->0.len() implies exactly_once(
        t.subjects,
        (#[trigger] c.subjects->0[j]).subject_code,
    ) by {
        lemma_exactly_once(t.subjects, c.subjects->0[j].key());
    }
    assert forall|j: int| 0 <= j < c.enrollments->0.len() implies exactly_once(
        t.enrollments,
        (#[trigger] c.enrollments->0[j]).class_code,
    ) by {
        lemma_exactly_once(t.enrollments, c.enrollments->0[j].key());
    }
}

/// Where the roster collection lists a `nim` more than once, the last
/// listing stands: after a synchronization that ran through, the roster row
/// under that `nim` holds what the last listing says.
pub proof fn lemma_last_user_listing_stands(s: StoreView, c: Catalog, j: int)
    requires
        s.wf(),
        sync_outcome(s, c).1 is None,
        0 <= j < c.roster->0.len(),
        forall|l: int| j < l < c.roster->0.len() ==> (#[trigger] c.roster->0[l]).nim != c.roster->0[j].nim,
    ensures
        has_key(sync_outcome(s, c).0.roster, c.roster->0[j].nim),
        sync_outcome(s, c).0.roster[index_of(sync_outcome(s, c).0.roster, c.roster->0[j].nim)].user
            == c.roster->0[j],
{
    lemma_sync_tables(s, c);
    let us = enrolled_all(c.roster->0);
    assert forall|l: int| j < l < us.len() implies (#[trigger] us[l]).key() != us[j].key() by {
        assert(c.roster->0[l].nim != c.roster->0[j].nim);
    }
    lemma_last_write_wins(s.roster, us, j);
}

/// The same of rooms: the last listing of a room number stands.
pub proof fn lemma_last_room_listing_stands(s: StoreView, c: Catalog, j: int)
    requires
        s.wf(),
        sync_outcome(s, c).1 is None,
        0 <= j < c.rooms->0.len(),
        forall|l: int| j < l < c.rooms->0.len() ==> (#[trigger] c.rooms->0[l]).key() != c.rooms->0[j].key(),
    ensures
        has_key(sync_outcome(s, c).0.rooms, c.rooms->0[j].room_number),
        sync_outcome(s, c).0.rooms[index_of(sync_outcome(s, c).0.rooms, c.rooms->0[j].room_number)]
            == c.rooms->0[j],
{
    lemma_sync_tables(s, c);
    lemma_last_write_wins(s.rooms, c.rooms->0, j);
}

/// The same of subjects: the last listing of a subject code stands.
pub proof fn lemma_last_subject_listing_stands(s: StoreView, c: Catalog, j: int)
    requires
        s.wf(),
        sync_outcome(s, c).1 is None,
        0 <= j < c.subjects->0.len(),
        forall|l: int|
            j < l < c.subjects->0.len() ==> (#[trigger] c.subjects->0[l]).key() != c.subjects->0[j].key(),
    ensures
        has_key(sync_outcome(s, c).0.subjects, c.subjects->0[j].subject_code),
        sync_outcome(s, c).0.subjects[index_of(
            sync_outcome(s, c).0.subjects,
            c.subjects->0[j].subject_code,
        )] == c.subjects->0[j],
{
    lemma_sync_tables(s, c);
    lemma_last_write_wins(s.subjects, c.subjects->0, j);
}

/// The same of enrollments: the last listing of a class code stands.
pub proof fn lemma_last_enrollment_listing_stands(s: StoreView, c: Catalog, j: int)
    requires
        s.wf(),
        sync_outcome(s, c).1 is None,
        0 <= j < c.enrollments->0.len(),
        forall|l: int|
            j < l < c.enrollments->0.len() ==> (#[trigger] c.enrollments->0[l]).key()
                != c.enrollments->0[j].key(),
    ensures
        has_key(sync_outcome(s, c).0.enrollments, c.enrollments->0[j].class_code),
        sync_outcome(s, c).0.enrollments[index_of(
            sync_outcome(s, c).0.enrollments,
            c.enrollments->0[j].class_code,
        )] == c.enrollments->0[j],
{
    lemma_sync_tables(s, c);
    lemma_last_write_wins(s.enrollments, c.enrollments->0, j);
}

} // verus!
