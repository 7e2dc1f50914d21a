//! The local store: six keyed tables with their referential constraints.

use crate::person::{enrolled, enrolled_all, Credential, CredentialView, Person, PersonView};
use crate::records::{
    clone_text_option, same_text, Enrollment, EnrollmentView, EnrollmentsBySubject,
    EnrollmentsBySubjectView, Room, RoomView, ScheduledRoom, ScheduledRoomView, Shift, ShiftView,
    Subject, SubjectView, User, UserView, ViewTransaction, ViewTransactionView,
};
use crate::rows::{copy_rows, find_row, listings, models, upsert_row, upsert_rows};
use crate::table::{
    collect, first_match, has_key, lemma_collect_step, lemma_first_match_skip, lemma_index_of,
    lemma_same_keys, lemma_upsert, lemma_upsert_all, unique_keys, upsert, upsert_all, Keyed,
};
use vstd::prelude::*;

verus! {

/// Why the store turned a row away.
#[derive(Debug, Clone, Copy, PartialEq, Eq, Structural)]
pub enum ConstraintError {
    /// A row with the same unique key is already there.
    DuplicateKey,
    /// The row names a subject that the store does not hold.
    MissingSubject,
    /// The row names a shift that the store does not hold.
    MissingShift,
    /// The row names a room that the store does not hold.
    MissingRoom,
    /// The row names a person that the roster does not hold.
    MissingPerson,
}

impl ConstraintError {
    /// The violation in words, as contracts speak of them.
    pub open spec fn words(self) -> Seq<char> {
        match self {
            ConstraintError::DuplicateKey => "duplicate entry for a unique key"@,
            ConstraintError::MissingSubject => "no such subject"@,
            ConstraintError::MissingShift => "no such shift"@,
            ConstraintError::MissingRoom => "no such room"@,
            ConstraintError::MissingPerson => "no such person"@,
        }
    }

    /// The violation in words.
    pub fn message(&self) -> (text: &'static str)
        ensures
            text@ == self.words(),
    {
        match self {
            ConstraintError::DuplicateKey => "duplicate entry for a unique key",
            ConstraintError::MissingSubject => "no such subject",
            ConstraintError::MissingShift => "no such shift",
            ConstraintError::MissingRoom => "no such room",
            ConstraintError::MissingPerson => "no such person",
        }
    }
}

/// What a [`Store`] is: its six tables, each a sequence of rows.
pub struct StoreView {
    pub roster: Seq<PersonView>,
    pub rooms: Seq<RoomView>,
    pub shifts: Seq<ShiftView>,
    pub subjects: Seq<SubjectView>,
    pub enrollments: Seq<EnrollmentView>,
    pub sessions: Seq<ViewTransactionView>,
}

impl StoreView {
    /// The store with no row in any table.
    pub open spec fn empty() -> StoreView {
        StoreView {
            roster: Seq::empty(),
            rooms: Seq::empty(),
            shifts: Seq::empty(),
            subjects: Seq::empty(),
            enrollments: Seq::empty(),
            sessions: Seq::empty(),
        }
    }

    /// The first reference of an enrollment that the store cannot resolve.
    pub open spec fn enrollment_violation(self, e: EnrollmentView) -> Option<ConstraintError> {
        if !has_key(self.subjects, e.subject_code) {
            Some(ConstraintError::MissingSubject)
        } else if !has_key(self.roster, e.nim) {
            Some(ConstraintError::MissingPerson)
        } else {
            None
        }
    }

    /// The first reference of an exam session that the store cannot resolve.
    pub open spec fn session_violation(self, s: ViewTransactionView) -> Option<ConstraintError> {
        if !has_key(self.subjects, s.subject_codes) {
            Some(ConstraintError::MissingSubject)
        } else if !has_key(self.shifts, s.shift_code) {
            Some(ConstraintError::MissingShift)
        } else if !has_key(self.rooms, s.room_number) {
            Some(ConstraintError::MissingRoom)
        } else if s.proctor is Some && !has_key(self.roster, s.proctor->0) {
            Some(ConstraintError::MissingPerson)
        } else {
            None
        }
    }

    /// Every table has unique keys and every reference resolves.
    pub open spec fn wf(self) -> bool {
        &&& unique_keys(self.roster)
        &&& unique_keys(self.rooms)
        &&& unique_keys(self.shifts)
        &&& unique_keys(self.subjects)
        &&& unique_keys(self.enrollments)
        &&& unique_keys(self.sessions)
        &&& forall|i: int|
            0 <= i < self.enrollments.len() ==> self.enrollment_violation(
                #[trigger] self.enrollments[i],
            ) is None
        &&& forall|i: int|
            0 <= i < self.sessions.len() ==> self.session_violation(#[trigger] self.sessions[i])
                is None
    }
}

/// The local store.
pub struct Store {
    roster: Vec<Person>,
    rooms: Vec<Room>,
    shifts: Vec<Shift>,
    subjects: Vec<Subject>,
    enrollments: Vec<Enrollment>,
    sessions: Vec<ViewTransaction>,
}

impl View for Store {
    type V = StoreView;

    closed spec fn view(&self) -> StoreView {
        StoreView {
            roster: models(self.roster@),
            rooms: models(self.rooms@),
            shifts: models(self.shifts@),
            subjects: models(self.subjects@),
            enrollments: models(self.enrollments@),
            sessions: models(self.sessions@),
        }
    }
}

/// The row `p` with its role replaced.
pub open spec fn with_role(p: PersonView, role: Seq<char>) -> PersonView {
    PersonView { user: UserView { role: role, ..p.user }, credential: p.credential }
}

/// The row `p` with its password kept as `hash`.
pub open spec fn with_hash(p: PersonView, hash: Seq<char>) -> PersonView {
    PersonView { user: p.user, credential: CredentialView::Hashed(hash) }
}

/// The session `s` with `who` as its proctor.
pub open spec fn with_proctor(s: ViewTransactionView, who: Seq<char>) -> ViewTransactionView {
    ViewTransactionView { proctor: Some(who), ..s }
}

/// Whether `name` can stand for the row at login: it is the row's `nim`, or
/// its initials.
pub open spec fn answers_to(p: PersonView, name: Seq<char>) -> bool {
    p.user.nim == name || p.user.initial == Some(name)
}

/// The rows that answer to `name` at login.
pub open spec fn answering(name: Seq<char>) -> spec_fn(PersonView) -> bool {
    |p: PersonView| answers_to(p, name)
}

/// The rows whose `nim` is `nim`; the roster's keys being unique, at most
/// one.
pub open spec fn with_nim(nim: Seq<char>) -> spec_fn(PersonView) -> bool {
    |p: PersonView| p.user.nim == nim
}

/// The sessions held on `date`.
pub open spec fn held_on(date: Seq<char>) -> spec_fn(ViewTransactionView) -> bool {
    |s: ViewTransactionView| s.date == date
}

/// A session's room and shift.
pub open spec fn room_and_shift() -> spec_fn(ViewTransactionView) -> ScheduledRoomView {
    |s: ViewTransactionView|
        ScheduledRoomView { room_number: s.room_number, shift_code: s.shift_code }
}

/// The enrollments in subject `code`.
pub open spec fn in_subject(code: Seq<char>) -> spec_fn(EnrollmentView) -> bool {
    |e: EnrollmentView| e.subject_code == code
}

/// An enrollment as listed under its subject.
pub open spec fn listed() -> spec_fn(EnrollmentView) -> EnrollmentsBySubjectView {
    |e: EnrollmentView|
        EnrollmentsBySubjectView {
            class_code: e.class_code,
            nim: e.nim,
            subject_code: e.subject_code,
        }
}

impl StoreView {
    /// Some session is held on `date` in shift `shift_code`, in whatever room.
    pub open spec fn booked(self, date: Seq<char>, shift_code: Seq<char>) -> bool {
        exists|i: int|
            0 <= i < self.sessions.len() && (#[trigger] self.sessions[i]).date == date
                && self.sessions[i].shift_code == shift_code
    }

    /// Why a new session row is turned away, if it is: its code is taken, or
    /// else the first of its references that does not resolve.
    pub open spec fn insert_violation(self, s: ViewTransactionView) -> Option<ConstraintError> {
        if has_key(self.sessions, s.transaction_code) {
            Some(ConstraintError::DuplicateKey)
        } else {
            self.session_violation(s)
        }
    }

    /// The store after every row whose `bn_number` is `bn` got role `role`.
    pub open spec fn role_updated(self, bn: Seq<char>, role: Seq<char>) -> StoreView {
        StoreView {
            roster: Seq::new(
                self.roster.len(),
                |i: int|
                    if self.roster[i].user.bn_number == bn {
                        with_role(self.roster[i], role)
                    } else {
                        self.roster[i]
                    },
            ),
            ..self
        }
    }

    /// The store after the roster row with `nim`, if there is one, got `hash`
    /// as its password hash. Every other row, and every other field of that
    /// row, is as it was.
    pub open spec fn password_set(self, nim: Seq<char>, hash: Seq<char>) -> StoreView {
        StoreView {
            roster: Seq::new(
                self.roster.len(),
                |i: int|
                    if self.roster[i].user.nim == nim {
                        with_hash(self.roster[i], hash)
                    } else {
                        self.roster[i]
                    },
            ),
            ..self
        }
    }

    /// Why a proctor cannot be assigned, if so: the session exists and the
    /// roster does not hold the proctor.
    pub open spec fn proctor_violation(self, code: Seq<char>, who: Seq<char>) -> Option<
        ConstraintError,
    > {
        if has_key(self.sessions, code) && !has_key(self.roster, who) {
            Some(ConstraintError::MissingPerson)
        } else {
            None
        }
    }

    /// The store after the session with code `code`, if any, got `who` as its
    /// proctor.
    pub open spec fn proctor_set(self, code: Seq<char>, who: Seq<char>) -> StoreView {
        StoreView {
            sessions: Seq::new(
                self.sessions.len(),
                |i: int|
                    if self.sessions[i].transaction_code == code {
                        with_proctor(self.sessions[i], who)
                    } else {
                        self.sessions[i]
                    },
            ),
            ..self
        }
    }
}

/// References that resolved keep resolving while the four tables they point
/// into only gain keys.
pub proof fn lemma_references_kept(before: StoreView, after: StoreView)
    requires
        before.wf(),
        after.enrollments == before.enrollments,
        after.sessions == before.sessions,
        forall|k: Seq<char>| has_key(before.roster, k) ==> has_key(after.roster, k),
        forall|k: Seq<char>| has_key(before.rooms, k) ==> has_key(after.rooms, k),
        forall|k: Seq<char>| has_key(before.shifts, k) ==> has_key(after.shifts, k),
        forall|k: Seq<char>| has_key(before.subjects, k) ==> has_key(after.subjects, k),
    ensures
        forall|i: int|
            0 <= i < after.enrollments.len() ==> after.enrollment_violation(
                #[trigger] after.enrollments[i],
            ) is None,
        forall|i: int|
            0 <= i < after.sessions.len() ==> after.session_violation(#[trigger] after.sessions[i])
                is None,
{
    assert forall|i: int| 0 <= i < after.enrollments.len() implies after.enrollment_violation(
        #[trigger] after.enrollments[i],
    ) is None by {
        assert(before.enrollment_violation(before.enrollments[i]) is None);
    }
    assert forall|i: int| 0 <= i < after.sessions.len() implies after.session_violation(
        #[trigger] after.sessions[i],
    ) is None by {
        assert(before.session_violation(before.sessions[i]) is None);
    }
}

impl Store {
    /// Whether the tables keep their keys unique and their references whole.
    pub open spec fn wf(&self) -> bool {
        self@.wf()
    }

    /// A store with empty tables.
    pub fn new() -> (s: Store)
        ensures
            s@ == StoreView::empty(),
            s.wf(),
    {
        let s = Store {
            roster: Vec::new(),
            rooms: Vec::new(),
            shifts: Vec::new(),
            subjects: Vec::new(),
            enrollments: Vec::new(),
            sessions: Vec::new(),
        };
        assert(s@.roster =~= Seq::empty());
        assert(s@.rooms =~= Seq::empty());
        assert(s@.shifts =~= Seq::empty());
        assert(s@.subjects =~= Seq::empty());
        assert(s@.enrollments =~= Seq::empty());
        assert(s@.sessions =~= Seq::empty());
        s
    }

    /// Inserts the catalog entry as a roster row with no password set, or
    /// overwrites what the catalog knows of the row that has its `nim`,
    /// keeping that row's credential.
    pub fn upsert_user(&mut self, user: User)
        requires
            old(self).wf(),
        ensures
            final(self).wf(),
            final(self)@ == (StoreView {
                roster: upsert(old(self)@.roster, enrolled(user@)),
                ..old(self)@
            }),
    {
        let ghost before = self@;
        upsert_row(&mut self.roster, Person { user, credential: Credential::Implicit });
        proof {
            lemma_upsert(before.roster, enrolled(user@));
            lemma_references_kept(before, self@);
        }
    }

    /// Upserts every catalog entry of the batch, first to last.
    pub fn upsert_users(&mut self, users: &Vec<User>)
        requires
            old(self).wf(),
        ensures
            final(self).wf(),
            final(self)@ == (StoreView {
                roster: upsert_all(old(self)@.roster, enrolled_all(users.deep_view())),
                ..old(self)@
            }),
    {
        let ghost before = self@;
        upsert_rows(&mut self.roster, users);
        proof {
            assert(listings::<Person>(users@) =~= enrolled_all(users.deep_view()));
            lemma_upsert_all(before.roster, enrolled_all(users.deep_view()));
            lemma_references_kept(before, self@);
        }
    }

    /// Inserts the room, or overwrites the room that has its number.
    pub fn upsert_room(&mut self, room: Room)
        requires
            old(self).wf(),
        ensures
            final(self).wf(),
            final(self)@ == (StoreView { rooms: upsert(old(self)@.rooms, room@), ..old(self)@ }),
    {
        let ghost before = self@;
        upsert_row(&mut self.rooms, room);
        proof {
            lemma_upsert(before.rooms, room@);
            lemma_references_kept(before, self@);
        }
    }

    /// Upserts every room of the batch, first to last.
    pub fn upsert_rooms(&mut self, rooms: &Vec<Room>)
        requires
            old(self).wf(),
        ensures
            final(self).wf(),
            final(self)@ == (StoreView {
                rooms: upsert_all(old(self)@.rooms, rooms.deep_view()),
                ..old(self)@
            }),
    {
        let ghost before = self@;
        upsert_rows(&mut self.rooms, rooms);
        proof {
            assert(listings::<Room>(rooms@) =~= rooms.deep_view());
            lemma_upsert_all(before.rooms, rooms.deep_view());
            lemma_references_kept(before, self@);
        }
    }

    /// Inserts the shift, or overwrites the shift that has its code.
    pub fn upsert_shift(&mut self, shift: Shift)
        requires
            old(self).wf(),
        ensures
            final(self).wf(),
            final(self)@ == (StoreView { shifts: upsert(old(self)@.shifts, shift@), ..old(self)@ }),
    {
        let ghost before = self@;
        upsert_row(&mut self.shifts, shift);
        proof {
            lemma_upsert(before.shifts, shift@);
            lemma_references_kept(before, self@);
        }
    }

    /// Upserts every shift of the batch, first to last.
    pub fn upsert_shifts(&mut self, shifts: &Vec<Shift>)
        requires
            old(self).wf(),
        ensures
            final(self).wf(),
            final(self)@ == (StoreView {
                shifts: upsert_all(old(self)@.shifts, shifts.deep_view()),
                ..old(self)@
            }),
    {
        let ghost before = self@;
        upsert_rows(&mut self.shifts, shifts);
        proof {
            assert(listings::<Shift>(shifts@) =~= shifts.deep_view());
            lemma_upsert_all(before.shifts, shifts.deep_view());
            lemma_references_kept(before, self@);
        }
    }

    /// Inserts the subject, or overwrites the subject that has its code.
    pub fn upsert_subject(&mut self, subject: Subject)
        requires
            old(self).wf(),
        ensures
            final(self).wf(),
            final(self)@ == (StoreView {
                subjects: upsert(old(self)@.subjects, subject@),
                ..old(self)@
            }),
    {
        let ghost before = self@;
        upsert_row(&mut self.subjects, subject);
        proof {
            lemma_upsert(before.subjects, subject@);
            lemma_references_kept(before, self@);
        }
    }

    /// Upserts every subject of the batch, first to last.
    pub fn upsert_subjects(&mut self, subjects: &Vec<Subject>)
        requires
            old(self).wf(),
        ensures
            final(self).wf(),
            final(self)@ == (StoreView {
                subjects: upsert_all(old(self)@.subjects, subjects.deep_view()),
                ..old(self)@
            }),
    {
        let ghost before = self@;
        upsert_rows(&mut self.subjects, subjects);
        proof {
            assert(listings::<Subject>(subjects@) =~= subjects.deep_view());
            lemma_upsert_all(before.subjects, subjects.deep_view());
            lemma_references_kept(before, self@);
        }
    }

    /// Inserts the enrollment, or overwrites the enrollment that has its
    /// class code, provided the store holds its subject and its person.
    /// Turned away, it leaves the store as it was.
    pub fn upsert_enrollment(&mut self, enrollment: Enrollment) -> (r: Result<(), ConstraintError>)
        requires
            old(self).wf(),
        ensures
            final(self).wf(),
            match r {
                Ok(()) => {
                    &&& old(self)@.enrollment_violation(enrollment@) is None
                    &&& final(self)@ == (StoreView {
                        enrollments: upsert(old(self)@.enrollments, enrollment@),
                        ..old(self)@
                    })
                },
                Err(e) => {
                    &&& old(self)@.enrollment_violation(enrollment@) == Some(e)
                    &&& final(self)@ == old(self)@
                },
            },
    {
        if find_row(&self.subjects, &enrollment.subject_code).is_none() {
            return Err(ConstraintError::MissingSubject);
        }
        if find_row(&self.roster, &enrollment.nim).is_none() {
            return Err(ConstraintError::MissingPerson);
        }
        let ghost before = self@;
        upsert_row(&mut self.enrollments, enrollment);
        proof {
            let after = self@;
            lemma_upsert(before.enrollments, enrollment@);
            assert forall|i: int| 0 <= i < after.enrollments.len() implies after.enrollment_violation(
                #[trigger] after.enrollments[i],
            ) is None by {
                if i < before.enrollments.len() && before.enrollments[i].key() != enrollment@.key() {
                    assert(before.enrollment_violation(before.enrollments[i]) is None);
                }
            }
        }
        Ok(())
    }

    /// Adds a new exam session, provided its code is free and the store holds
    /// its subject, shift, room and, if it names one, proctor. Turned away,
    /// it leaves the store as it was.
    pub fn insert_session(&mut self, session: ViewTransaction) -> (r: Result<(), ConstraintError>)
        requires
            old(self).wf(),
        ensures
            final(self).wf(),
            match r {
                Ok(()) => {
                    &&& old(self)@.insert_violation(session@) is None
                    &&& final(self)@ == (StoreView {
                        sessions: old(self)@.sessions.push(session@),
                        ..old(self)@
                    })
                },
                Err(e) => {
                    &&& old(self)@.insert_violation(session@) == Some(e)
                    &&& final(self)@ == old(self)@
                },
            },
    {
        if find_row(&self.sessions, &session.transaction_code).is_some() {
            return Err(ConstraintError::DuplicateKey);
        }
        if find_row(&self.subjects, &session.subject_codes).is_none() {
            return Err(ConstraintError::MissingSubject);
        }
        if find_row(&self.shifts, &session.shift_code).is_none() {
            return Err(ConstraintError::MissingShift);
        }
        if find_row(&self.rooms, &session.room_number).is_none() {
            return Err(ConstraintError::MissingRoom);
        }
        match &session.proctor {
            Some(who) => {
                if find_row(&self.roster, who).is_none() {
                    return Err(ConstraintError::MissingPerson);
                }
            },
            None => {},
        }
        let ghost before = self@;
        self.sessions.push(session);
        proof {
            let after = self@;
            assert(after.sessions =~= before.sessions.push(session@));
            assert forall|i: int, j: int| 0 <= i < j < after.sessions.len() implies (
            #[trigger] after.sessions[i]).key() != (#[trigger] after.sessions[j]).key() by {
                if j < before.sessions.len() {
                    assert(before.sessions[i].key() != before.sessions[j].key());
                } else {
                    assert(before.sessions[i].key() != session@.key());
                }
            }
            assert forall|i: int| 0 <= i < after.sessions.len() implies after.session_violation(
                #[trigger] after.sessions[i],
            ) is None by {
                if i < before.sessions.len() {
                    assert(before.session_violation(before.sessions[i]) is None);
                }
            }
        }
        Ok(())
    }

    /// Whether some session is held on `date` in shift `shift_code`.
    pub fn has_session_at(&self, date: &String, shift_code: &String) -> (b: bool)
        ensures
            b == self@.booked(date@, shift_code@),
    {
        let mut i: usize = 0;
        while i < self.sessions.len()
            invariant
                i <= self.sessions.len(),
                forall|j: int|
                    0 <= j < i ==> !((#[trigger] self@.sessions[j]).date == date@
                        && self@.sessions[j].shift_code == shift_code@),
            decreases self.sessions.len() - i,
        {
            if same_text(&self.sessions[i].date, date) && same_text(
                &self.sessions[i].shift_code,
                shift_code,
            ) {
                assert(self@.sessions[i as int].date == date@);
                return true;
            }
            i += 1;
        }
        false
    }

    /// Gives every row whose `bn_number` is `bn_number` the role `new_role`.
    pub fn update_user_role(&mut self, bn_number: &String, new_role: &String)
        requires
            old(self).wf(),
        ensures
            final(self).wf(),
            final(self)@ == old(self)@.role_updated(bn_number@, new_role@),
    {
        let ghost before = self@;
        let mut i: usize = 0;
        while i < self.roster.len()
            invariant
                i <= self.roster.len(),
                self@.roster.len() == before.roster.len(),
                forall|j: int|
                    0 <= j < i ==> #[trigger] self@.roster[j] == before.role_updated(
                        bn_number@,
                        new_role@,
                    ).roster[j],
                forall|j: int|
                    i <= j < self.roster.len() ==> #[trigger] self@.roster[j] == before.roster[j],
                self@.rooms == before.rooms,
                self@.shifts == before.shifts,
                self@.subjects == before.subjects,
                self@.enrollments == before.enrollments,
                self@.sessions == before.sessions,
            decreases self.roster.len() - i,
        {
            let ghost prior = self@;
            assert(prior.roster[i as int] == before.roster[i as int]);
            if same_text(&self.roster[i].user.bn_number, bn_number) {
                let row = &self.roster[i];
                let changed = Person {
                    user: User {
                        bn_number: row.user.bn_number.clone(),
                        nim: row.user.nim.clone(),
                        name: row.user.name.clone(),
                        major: row.user.major.clone(),
                        role: new_role.clone(),
                        initial: clone_text_option(&row.user.initial),
                    },
                    credential: row.credential.clone(),
                };
                self.roster.set(i, changed);
            }
            proof {
                let goal = before.role_updated(bn_number@, new_role@).roster;
                assert(self@.roster[i as int] == goal[i as int]);
                assert forall|j: int| 0 <= j < i + 1 implies #[trigger] self@.roster[j]
                    == goal[j] by {
                    if j < i {
                        assert(prior.roster[j] == goal[j]);
                    }
                }
                assert forall|j: int| i + 1 <= j < self.roster.len() implies #[trigger] self@.roster[j]
                    == before.roster[j] by {
                    assert(prior.roster[j] == before.roster[j]);
                }
            }
            i += 1;
        }
        proof {
            let after = self@;
            assert(after.roster =~= before.role_updated(bn_number@, new_role@).roster);
            lemma_same_keys(before.roster, after.roster);
            lemma_references_kept(before, after);
        }
    }

    /// Keeps `hash` as the password hash of the roster row with `nim`. Where
    /// no row has it, nothing changes.
    pub fn set_password_hash(&mut self, nim: &String, hash: &String)
        requires
            old(self).wf(),
        ensures
            final(self).wf(),
            final(self)@ == old(self)@.password_set(nim@, hash@),
    {
        let ghost before = self@;
        match find_row(&self.roster, nim) {
            None => {
                assert(before.password_set(nim@, hash@).roster =~= before.roster) by {
                    assert forall|i: int| 0 <= i < before.roster.len() implies (
                    #[trigger] before.roster[i]).user.nim != nim@ by {
                        assert(before.roster[i].key() != nim@);
                    }
                }
            },
            Some(i) => {
                let changed = Person {
                    user: self.roster[i].user.clone(),
                    credential: Credential::Hashed(hash.clone()),
                };
                self.roster.set(i, changed);
                proof {
                    let after = self@;
                    assert forall|j: int| 0 <= j < before.roster.len() && j != i implies (
                    #[trigger] before.roster[j]).user.nim != nim@ by {
                        if j < i {
                            assert(before.roster[j].key() != before.roster[i as int].key());
                        } else {
                            assert(before.roster[i as int].key() != before.roster[j].key());
                        }
                    }
                    assert(after.roster =~= before.password_set(nim@, hash@).roster);
                    lemma_same_keys(before.roster, after.roster);
                    lemma_references_kept(before, after);
                }
            },
        }
    }

    /// Makes `assistant` the proctor of the session with code
    /// `transaction_code`. Where no session has that code, nothing changes
    /// and the call succeeds; where one has and the roster does not hold
    /// `assistant`, the store turns the change away.
    pub fn update_transaction_proctor(
        &mut self,
        transaction_code: &String,
        assistant: &String,
    ) -> (r: Result<(), ConstraintError>)
        requires
            old(self).wf(),
        ensures
            final(self).wf(),
            match r {
                Ok(()) => {
                    &&& old(self)@.proctor_violation(transaction_code@, assistant@) is None
                    &&& final(self)@ == old(self)@.proctor_set(transaction_code@, assistant@)
                },
                Err(e) => {
                    &&& old(self)@.proctor_violation(transaction_code@, assistant@) == Some(e)
                    &&& final(self)@ == old(self)@
                },
            },
    {
        let ghost before = self@;
        match find_row(&self.sessions, transaction_code) {
            None => {
                assert(before.proctor_set(transaction_code@, assistant@).sessions
                    =~= before.sessions) by {
                    assert forall|i: int| 0 <= i < before.sessions.len() implies (
                    #[trigger] before.sessions[i]).transaction_code != transaction_code@ by {
                        assert(before.sessions[i].key() != transaction_code@);
                    }
                }
                Ok(())
            },
            Some(i) => {
                if find_row(&self.roster, assistant).is_none() {
                    return Err(ConstraintError::MissingPerson);
                }
                let row = &self.sessions[i];
                let changed = ViewTransaction {
                    transaction_code: row.transaction_code.clone(),
                    subject_codes: row.subject_codes.clone(),
                    shift_code: row.shift_code.clone(),
                    room_number: row.room_number.clone(),
                    date: row.date.clone(),
                    proctor: Some(assistant.clone()),
                };
                self.sessions.set(i, changed);
                proof {
                    let after = self@;
                    lemma_index_of(before.sessions, i as int);
                    assert forall|j: int| 0 <= j < before.sessions.len() && j != i implies (
                    #[trigger] before.sessions[j]).transaction_code != transaction_code@ by {
                        if j < i {
                            assert(before.sessions[j].key() != before.sessions[i as int].key());
                        } else {
                            assert(before.sessions[i as int].key() != before.sessions[j].key());
                        }
                    }
                    assert(after.sessions =~= before.proctor_set(
                        transaction_code@,
                        assistant@,
                    ).sessions);
                    lemma_same_keys(before.sessions, after.sessions);
                    assert forall|j: int|
                        0 <= j < after.sessions.len() implies after.session_violation(
                        #[trigger] after.sessions[j],
                    ) is None by {
                        assert(before.session_violation(before.sessions[j]) is None);
                    }
                }
                Ok(())
            },
        }
    }

    /// The first roster row that answers to `name` at login.
    pub fn find_login_row(&self, name: &String) -> (r: Option<Person>)
        ensures
            r.deep_view() == first_match(self@.roster, answering(name@)),
    {
        let ghost wanted = answering(name@);
        let mut i: usize = 0;
        while i < self.roster.len()
            invariant
                i <= self.roster.len(),
                wanted == answering(name@),
                forall|j: int| 0 <= j < i ==> !wanted(#[trigger] self@.roster[j]),
            decreases self.roster.len() - i,
        {
            let row = &self.roster[i];
            let by_initial = match &row.user.initial {
                Some(initial) => same_text(initial, name),
                None => false,
            };
            if same_text(&row.user.nim, name) || by_initial {
                proof {
                    lemma_first_match_skip(self@.roster, wanted, i as int);
                    assert(self@.roster.skip(i as int)[0] == self@.roster[i as int]);
                    assert(wanted(self@.roster[i as int]));
                }
                return Some(row.clone());
            }
            assert(!wanted(self@.roster[i as int]));
            i += 1;
        }
        proof {
            lemma_first_match_skip(self@.roster, wanted, self.roster.len() as int);
        }
        None
    }

    /// The roster row with `nim`, if there is one.
    pub fn find_by_nim(&self, nim: &String) -> (r: Option<Person>)
        ensures
            r.deep_view() == first_match(self@.roster, with_nim(nim@)),
    {
        let ghost wanted = with_nim(nim@);
        match find_row(&self.roster, nim) {
            Some(i) => {
                proof {
                    assert forall|j: int| 0 <= j < i implies !wanted(#[trigger] self@.roster[j]) by {
                        assert(self@.roster[j].key() != nim@);
                    }
                    lemma_first_match_skip(self@.roster, wanted, i as int);
                    assert(self@.roster.skip(i as int)[0] == self@.roster[i as int]);
                    assert(wanted(self@.roster[i as int]));
                }
                Some(self.roster[i].clone())
            },
            None => {
                proof {
                    assert forall|j: int| 0 <= j < self@.roster.len() implies !wanted(
                        #[trigger] self@.roster[j],
                    ) by {
                        assert(self@.roster[j].key() != nim@);
                    }
                    lemma_first_match_skip(self@.roster, wanted, self@.roster.len() as int);
                }
                None
            },
        }
    }

    /// The room and shift of every session held on `selected_date`, in the
    /// order of the session table.
    pub fn get_scheduled_rooms(&self, selected_date: &String) -> (out: Vec<ScheduledRoom>)
        ensures
            out.deep_view() == collect(self@.sessions, held_on(selected_date@), room_and_shift()),
    {
        let ghost keep = held_on(selected_date@);
        let ghost shape = room_and_shift();
        let mut out: Vec<ScheduledRoom> = Vec::new();
        let mut i: usize = 0;
        assert(self@.sessions.take(0) =~= Seq::empty());
        while i < self.sessions.len()
            invariant
                i <= self.sessions.len(),
                keep == held_on(selected_date@),
                shape == room_and_shift(),
                out.deep_view() =~= collect(self@.sessions.take(i as int), keep, shape),
            decreases self.sessions.len() - i,
        {
            proof {
                lemma_collect_step(self@.sessions, keep, shape, i as int);
            }
            let row = &self.sessions[i];
            if same_text(&row.date, selected_date) {
                assert(keep(self@.sessions[i as int]));
                let ghost prior = out.deep_view();
                out.push(
                    ScheduledRoom {
                        room_number: row.room_number.clone(),
                        shift_code: row.shift_code.clone(),
                    },
                );
                assert(out.deep_view() =~= prior.push(shape(self@.sessions[i as int])));
            } else {
                assert(!keep(self@.sessions[i as int]));
            }
            i += 1;
        }
        assert(self@.sessions.take(self.sessions.len() as int) =~= self@.sessions);
        out
    }

    /// Every enrollment in subject `subject_code`, in the order of the
    /// enrollment table.
    pub fn get_enrollments_by_subject_code(&self, subject_code: &String) -> (out: Vec<
        EnrollmentsBySubject,
    >)
        ensures
            out.deep_view() == collect(self@.enrollments, in_subject(subject_code@), listed()),
    {
        let ghost keep = in_subject(subject_code@);
        let ghost shape = listed();
        let mut out: Vec<EnrollmentsBySubject> = Vec::new();
        let mut i: usize = 0;
        assert(self@.enrollments.take(0) =~= Seq::empty());
        while i < self.enrollments.len()
            invariant
                i <= self.enrollments.len(),
                keep == in_subject(subject_code@),
                shape == listed(),
                out.deep_view() =~= collect(self@.enrollments.take(i as int), keep, shape),
            decreases self.enrollments.len() - i,
        {
            proof {
                lemma_collect_step(self@.enrollments, keep, shape, i as int);
            }
            let row = &self.enrollments[i];
            if same_text(&row.subject_code, subject_code) {
                assert(keep(self@.enrollments[i as int]));
                let ghost prior = out.deep_view();
                out.push(
                    EnrollmentsBySubject {
                        class_code: row.class_code.clone(),
                        nim: row.nim.clone(),
                        subject_code: row.subject_code.clone(),
                    },
                );
                assert(out.deep_view() =~= prior.push(shape(self@.enrollments[i as int])));
            } else {
                assert(!keep(self@.enrollments[i as int]));
            }
            i += 1;
        }
        assert(self@.enrollments.take(self.enrollments.len() as int) =~= self@.enrollments);
        out
    }

    /// Every roster row, in table order.
    pub fn roster(&self) -> (out: Vec<Person>)
        ensures
            out.deep_view() == self@.roster,
    {
        let out = copy_rows(&self.roster);
        assert(out.deep_view() =~= models(out@));
        out
    }

    /// Every room, in table order.
    pub fn rooms(&self) -> (out: Vec<Room>)
        ensures
            out.deep_view() == self@.rooms,
    {
        let out = copy_rows(&self.rooms);
        assert(out.deep_view() =~= models(out@));
        out
    }

    /// Every subject, in table order.
    pub fn subjects(&self) -> (out: Vec<Subject>)
        ensures
            out.deep_view() == self@.subjects,
    {
        let out = copy_rows(&self.subjects);
        assert(out.deep_view() =~= models(out@));
        out
    }

    /// Every enrollment, in table order.
    pub fn enrollments(&self) -> (out: Vec<Enrollment>)
        ensures
            out.deep_view() == self@.enrollments,
    {
        let out = copy_rows(&self.enrollments);
        assert(out.deep_view() =~= models(out@));
        out
    }

    /// Every shift, in table order.
    pub fn get_all_shifts(&self) -> (out: Vec<Shift>)
        ensures
            out.deep_view() == self@.shifts,
    {
        let out = copy_rows(&self.shifts);
        assert(out.deep_view() =~= models(out@));
        out
    }

    /// Every exam session, in table order.
    pub fn view_transaction(&self) -> (out: Vec<ViewTransaction>)
        ensures
            out.deep_view() == self@.sessions,
    {
        let out = copy_rows(&self.sessions);
        assert(out.deep_view() =~= models(out@));
        out
    }
}

} // verus!
