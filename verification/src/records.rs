//! The records that travel between the remote catalog, the store and callers,
//! each with the mathematical value its contracts speak of.

use crate::rows::Row;
use crate::table::Keyed;
use vstd::prelude::*;

verus! {

/// Whether two texts hold the same characters.
pub fn same_text(a: &String, b: &String) -> (r: bool)
    ensures
        r == (a@ == b@),
{
    *a == *b
}

/// A copy of an optional text.
pub fn clone_text_option(t: &Option<String>) -> (r: Option<String>)
    ensures
        r == *t,
{
    match t {
        Some(s) => Some(s.clone()),
        None => None,
    }
}

/// What a [`User`] is: its fields as character sequences.
pub struct UserView {
    pub bn_number: Seq<char>,
    pub nim: Seq<char>,
    pub name: Seq<char>,
    pub major: Seq<char>,
    pub role: Seq<char>,
    pub initial: Option<Seq<char>>,
}

/// One roster entry as the remote catalog lists it.
#[derive(Debug, PartialEq, Eq)]
pub struct User {
    pub bn_number: String,
    pub nim: String,
    pub name: String,
    pub major: String,
    pub role: String,
    pub initial: Option<String>,
}

impl DeepView for User {
    type V = UserView;

    open spec fn deep_view(&self) -> UserView {
        UserView {
            bn_number: self.bn_number@,
            nim: self.nim@,
            name: self.name@,
            major: self.major@,
            role: self.role@,
            initial: self.initial.deep_view(),
        }
    }
}

impl View for User {
    type V = UserView;

    open spec fn view(&self) -> UserView {
        self.deep_view()
    }
}

impl Clone for User {
    fn clone(&self) -> (r: Self)
        ensures
            r == *self,
    {
        User {
            bn_number: self.bn_number.clone(),
            nim: self.nim.clone(),
            name: self.name.clone(),
            major: self.major.clone(),
            role: self.role.clone(),
            initial: clone_text_option(&self.initial),
        }
    }
}

/// What a [`Subject`] is.
pub struct SubjectView {
    pub subject_name: Seq<char>,
    pub subject_code: Seq<char>,
}

/// One subject of the catalog, keyed by its code.
#[derive(Debug, PartialEq, Eq)]
pub struct Subject {
    pub subject_name: String,
    pub subject_code: String,
}

impl DeepView for Subject {
    type V = SubjectView;

    open spec fn deep_view(&self) -> SubjectView {
        SubjectView {
            subject_name: self.subject_name@,
            subject_code: self.subject_code@,
        }
    }
}

impl View for Subject {
    type V = SubjectView;

    open spec fn view(&self) -> SubjectView {
        self.deep_view()
    }
}

impl Clone for Subject {
    fn clone(&self) -> (r: Self)
        ensures
            r == *self,
    {
        Subject {
            subject_name: self.subject_name.clone(),
            subject_code: self.subject_code.clone(),
        }
    }
}

impl Keyed for SubjectView {
    open spec fn key(self) -> Seq<char> {
        self.subject_code
    }

    open spec fn absorb(self, old: Self) -> Self {
        self
    }

    proof fn absorb_keeps_key(self, old: Self) {
    }

    proof fn absorb_forgets(self, mid: Self, old: Self) {
    }

    proof fn absorb_self(self) {
    }
}

/// What a [`Room`] is.
pub struct RoomView {
    pub campus: Seq<char>,
    pub room_capacity: i32,
    pub room_number: Seq<char>,
}

/// One exam room, keyed by its number.
#[derive(Debug, PartialEq, Eq)]
pub struct Room {
    pub campus: String,
    pub room_capacity: i32,
    pub room_number: String,
}

impl DeepView for Room {
    type V = RoomView;

    open spec fn deep_view(&self) -> RoomView {
        RoomView {
            campus: self.campus@,
            room_capacity: self.room_capacity,
            room_number: self.room_number@,
        }
    }
}

impl View for Room {
    type V = RoomView;

    open spec fn view(&self) -> RoomView {
        self.deep_view()
    }
}

impl Clone for Room {
    fn clone(&self) -> (r: Self)
        ensures
            r == *self,
    {
        Room {
            campus: self.campus.clone(),
            room_capacity: self.room_capacity,
            room_number: self.room_number.clone(),
        }
    }
}

impl Keyed for RoomView {
    open spec fn key(self) -> Seq<char> {
        self.room_number
    }

    open spec fn absorb(self, old: Self) -> Self {
        self
    }

    proof fn absorb_keeps_key(self, old: Self) {
    }

    proof fn absorb_forgets(self, mid: Self, old: Self) {
    }

    proof fn absorb_self(self) {
    }
}

/// What an [`Enrollment`] is.
pub struct EnrollmentView {
    pub class_code: Seq<char>,
    pub nim: Seq<char>,
    pub subject_code: Seq<char>,
}

/// One student's registration in one class of one subject, keyed by the class code.
#[derive(Debug, PartialEq, Eq)]
pub struct Enrollment {
    pub class_code: String,
    pub nim: String,
    pub subject_code: String,
}

impl DeepView for Enrollment {
    type V = EnrollmentView;

    open spec fn deep_view(&self) -> EnrollmentView {
        EnrollmentView {
            class_code: self.class_code@,
            nim: self.nim@,
            subject_code: self.subject_code@,
        }
    }
}

impl View for Enrollment {
    type V = EnrollmentView;

    open spec fn view(&self) -> EnrollmentView {
        self.deep_view()
    }
}

impl Clone for Enrollment {
    fn clone(&self) -> (r: Self)
        ensures
            r == *self,
    {
        Enrollment {
            class_code: self.class_code.clone(),
            nim: self.nim.clone(),
            subject_code: self.subject_code.clone(),
        }
    }
}

impl Keyed for EnrollmentView {
    open spec fn key(self) -> Seq<char> {
        self.class_code
    }

    open spec fn absorb(self, old: Self) -> Self {
        self
    }

    proof fn absorb_keeps_key(self, old: Self) {
    }

    proof fn absorb_forgets(self, mid: Self, old: Self) {
    }

    proof fn absorb_self(self) {
    }
}

/// What a [`Shift`] is.
pub struct ShiftView {
    pub shift_code: Seq<char>,
    pub start_time: Seq<char>,
    pub end_time: Seq<char>,
}

/// One of the fixed time windows in which exams are held, keyed by its code.
#[derive(Debug, PartialEq, Eq)]
pub struct Shift {
    pub shift_code: String,
    pub start_time: String,
    pub end_time: String,
}

impl DeepView for Shift {
    type V = ShiftView;

    open spec fn deep_view(&self) -> ShiftView {
        ShiftView {
            shift_code: self.shift_code@,
            start_time: self.start_time@,
            end_time: self.end_time@,
        }
    }
}

impl View for Shift {
    type V = ShiftView;

    open spec fn view(&self) -> ShiftView {
        self.deep_view()
    }
}

impl Clone for Shift {
    fn clone(&self) -> (r: Self)
        ensures
            r == *self,
    {
        Shift {
            shift_code: self.shift_code.clone(),
            start_time: self.start_time.clone(),
            end_time: self.end_time.clone(),
        }
    }
}

impl Keyed for ShiftView {
    open spec fn key(self) -> Seq<char> {
        self.shift_code
    }

    open spec fn absorb(self, old: Self) -> Self {
        self
    }

    proof fn absorb_keeps_key(self, old: Self) {
    }

    proof fn absorb_forgets(self, mid: Self, old: Self) {
    }

    proof fn absorb_self(self) {
    }
}

/// What a [`ViewTransaction`] is.
pub struct ViewTransactionView {
    pub transaction_code: Seq<char>,
    pub subject_codes: Seq<char>,
    pub shift_code: Seq<char>,
    pub room_number: Seq<char>,
    pub date: Seq<char>,
    pub proctor: Option<Seq<char>>,
}

/// One scheduled exam sitting, keyed by its generated code.
#[derive(Debug, PartialEq, Eq)]
pub struct ViewTransaction {
    pub transaction_code: String,
    pub subject_codes: String,
    pub shift_code: String,
    pub room_number: String,
    pub date: String,
    pub proctor: Option<String>,
}

impl DeepView for ViewTransaction {
    type V = ViewTransactionView;

    open spec fn deep_view(&self) -> ViewTransactionView {
        ViewTransactionView {
            transaction_code: self.transaction_code@,
            subject_codes: self.subject_codes@,
            shift_code: self.shift_code@,
            room_number: self.room_number@,
            date: self.date@,
            proctor: self.proctor.deep_view(),
        }
    }
}

impl View for ViewTransaction {
    type V = ViewTransactionView;

    open spec fn view(&self) -> ViewTransactionView {
        self.deep_view()
    }
}

impl Clone for ViewTransaction {
    fn clone(&self) -> (r: Self)
        ensures
            r == *self,
    {
        ViewTransaction {
            transaction_code: self.transaction_code.clone(),
            subject_codes: self.subject_codes.clone(),
            shift_code: self.shift_code.clone(),
            room_number: self.room_number.clone(),
            date: self.date.clone(),
            proctor: clone_text_option(&self.proctor),
        }
    }
}

impl Keyed for ViewTransactionView {
    open spec fn key(self) -> Seq<char> {
        self.transaction_code
    }

    open spec fn absorb(self, old: Self) -> Self {
        self
    }

    proof fn absorb_keeps_key(self, old: Self) {
    }

    proof fn absorb_forgets(self, mid: Self, old: Self) {
    }

    proof fn absorb_self(self) {
    }
}

/// What a [`ScheduledRoom`] is.
pub struct ScheduledRoomView {
    pub room_number: Seq<char>,
    pub shift_code: Seq<char>,
}

/// A room taken in some shift of a given date.
#[derive(Debug, PartialEq, Eq)]
pub struct ScheduledRoom {
    pub room_number: String,
    pub shift_code: String,
}

impl DeepView for ScheduledRoom {
    type V = ScheduledRoomView;

    open spec fn deep_view(&self) -> ScheduledRoomView {
        ScheduledRoomView {
            room_number: self.room_number@,
            shift_code: self.shift_code@,
        }
    }
}

impl View for ScheduledRoom {
    type V = ScheduledRoomView;

    open spec fn view(&self) -> ScheduledRoomView {
        self.deep_view()
    }
}

impl Clone for ScheduledRoom {
    fn clone(&self) -> (r: Self)
        ensures
            r == *self,
    {
        ScheduledRoom {
            room_number: self.room_number.clone(),
            shift_code: self.shift_code.clone(),
        }
    }
}

/// What an [`EnrollmentsBySubject`] is.
pub struct EnrollmentsBySubjectView {
    pub class_code: Seq<char>,
    pub nim: Seq<char>,
    pub subject_code: Seq<char>,
}

/// One enrollment as listed for a single subject.
#[derive(Debug, PartialEq, Eq)]
pub struct EnrollmentsBySubject {
    pub class_code: String,
    pub nim: String,
    pub subject_code: String,
}

impl DeepView for EnrollmentsBySubject {
    type V = EnrollmentsBySubjectView;

    open spec fn deep_view(&self) -> EnrollmentsBySubjectView {
        EnrollmentsBySubjectView {
            class_code: self.class_code@,
            nim: self.nim@,
            subject_code: self.subject_code@,
        }
    }
}

impl View for EnrollmentsBySubject {
    type V = EnrollmentsBySubjectView;

    open spec fn view(&self) -> EnrollmentsBySubjectView {
        self.deep_view()
    }
}

impl Clone for EnrollmentsBySubject {
    fn clone(&self) -> (r: Self)
        ensures
            r == *self,
    {
        EnrollmentsBySubject {
            class_code: self.class_code.clone(),
            nim: self.nim.clone(),
            subject_code: self.subject_code.clone(),
        }
    }
}

/// What an [`AllocateExamResponse`] is.
pub struct AllocateExamResponseView {
    pub transaction_code: Seq<char>,
    pub message: Seq<char>,
}

/// What a successful allocation hands back.
#[derive(Debug, PartialEq, Eq)]
pub struct AllocateExamResponse {
    pub transaction_code: String,
    pub message: String,
}

impl DeepView for AllocateExamResponse {
    type V = AllocateExamResponseView;

    open spec fn deep_view(&self) -> AllocateExamResponseView {
        AllocateExamResponseView {
            transaction_code: self.transaction_code@,
            message: self.message@,
        }
    }
}

impl View for AllocateExamResponse {
    type V = AllocateExamResponseView;

    open spec fn view(&self) -> AllocateExamResponseView {
        self.deep_view()
    }
}

impl Clone for AllocateExamResponse {
    fn clone(&self) -> (r: Self)
        ensures
            r == *self,
    {
        AllocateExamResponse {
            transaction_code: self.transaction_code.clone(),
            message: self.message.clone(),
        }
    }
}

impl Row for Subject {
    type Model = SubjectView;

    type Listing = Subject;

    open spec fn model(&self) -> SubjectView {
        self.deep_view()
    }

    open spec fn listed(listing: &Subject) -> SubjectView {
        listing.deep_view()
    }

    fn key_text(&self) -> (k: &String) {
        &self.subject_code
    }

    fn copy(&self) -> (r: Self) {
        self.clone()
    }

    fn enrol(listing: &Subject) -> (r: Self) {
        listing.clone()
    }

    fn written_over(self, old: &Self) -> (r: Self) {
        self
    }
}

impl Row for Room {
    type Model = RoomView;

    type Listing = Room;

    open spec fn model(&self) -> RoomView {
        self.deep_view()
    }

    open spec fn listed(listing: &Room) -> RoomView {
        listing.deep_view()
    }

    fn key_text(&self) -> (k: &String) {
        &self.room_number
    }

    fn copy(&self) -> (r: Self) {
        self.clone()
    }

    fn enrol(listing: &Room) -> (r: Self) {
        listing.clone()
    }

    fn written_over(self, old: &Self) -> (r: Self) {
        self
    }
}

impl Row for Enrollment {
    type Model = EnrollmentView;

    type Listing = Enrollment;

    open spec fn model(&self) -> EnrollmentView {
        self.deep_view()
    }

    open spec fn listed(listing: &Enrollment) -> EnrollmentView {
        listing.deep_view()
    }

    fn key_text(&self) -> (k: &String) {
        &self.class_code
    }

    fn copy(&self) -> (r: Self) {
        self.clone()
    }

    fn enrol(listing: &Enrollment) -> (r: Self) {
        listing.clone()
    }

    fn written_over(self, old: &Self) -> (r: Self) {
        self
    }
}

impl Row for Shift {
    type Model = ShiftView;

    type Listing = Shift;

    open spec fn model(&self) -> ShiftView {
        self.deep_view()
    }

    open spec fn listed(listing: &Shift) -> ShiftView {
        listing.deep_view()
    }

    fn key_text(&self) -> (k: &String) {
        &self.shift_code
    }

    fn copy(&self) -> (r: Self) {
        self.clone()
    }

    fn enrol(listing: &Shift) -> (r: Self) {
        listing.clone()
    }

    fn written_over(self, old: &Self) -> (r: Self) {
        self
    }
}

impl Row for ViewTransaction {
    type Model = ViewTransactionView;

    type Listing = ViewTransaction;

    open spec fn model(&self) -> ViewTransactionView {
        self.deep_view()
    }

    open spec fn listed(listing: &ViewTransaction) -> ViewTransactionView {
        listing.deep_view()
    }

    fn key_text(&self) -> (k: &String) {
        &self.transaction_code
    }

    fn copy(&self) -> (r: Self) {
        self.clone()
    }

    fn enrol(listing: &ViewTransaction) -> (r: Self) {
        listing.clone()
    }

    fn written_over(self, old: &Self) -> (r: Self) {
        self
    }
}

} // verus!
