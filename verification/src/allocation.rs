//! Allocation of exam sessions: one session per shift and date, under a
//! generated code, written to the store whole or not at all.

use crate::chance::random_below;
use crate::records::{
    AllocateExamResponse, AllocateExamResponseView, ViewTransaction, ViewTransactionView,
};
use crate::store::{ConstraintError, Store, StoreView};
use vstd::prelude::*;

verus! {

/// The numbers from which a session code is made: zero up to, not
/// including, this.
pub const CODE_NUMBERS: u32 = 1000;

/// Why an allocation is refused.
pub enum Refusal {
    /// Some session is already held in that shift on that date.
    Conflict,
    /// The store turned the new row away.
    Store(ConstraintError),
}

/// Why an allocation failed.
#[derive(Debug, PartialEq, Eq)]
pub enum AllocationError {
    /// Some session is already held in that shift on that date, in whatever
    /// room.
    Conflict { shift_code: String, date: String },
    /// The store turned the new row away: the generated code is taken, or a
    /// reference does not resolve.
    Store(ConstraintError),
}

impl AllocationError {
    /// The failure in words.
    pub fn message(&self) -> (text: String)
        ensures
            self matches AllocationError::Conflict { shift_code, date } ==> text@
                == "A transaction with shift code "@ + shift_code@
                + " already exists for the date "@ + date@,
            self matches AllocationError::Store(e) ==> text@
                == "Failed to insert into transaction_header: "@ + e.words(),
    {
        match self {
            AllocationError::Conflict { shift_code, date } => {
                let mut text = String::from_str("A transaction with shift code ");
                text.append(shift_code.as_str());
                text.append(" already exists for the date ");
                text.append(date.as_str());
                text
            },
            AllocationError::Store(e) => {
                let mut text = String::from_str("Failed to insert into transaction_header: ");
                text.append(e.message());
                text
            },
        }
    }
}

/// The decimal digit `d` as a character.
pub open spec fn digit_char(d: int) -> char {
    if d == 0 {
        '0'
    } else if d == 1 {
        '1'
    } else if d == 2 {
        '2'
    } else if d == 3 {
        '3'
    } else if d == 4 {
        '4'
    } else if d == 5 {
        '5'
    } else if d == 6 {
        '6'
    } else if d == 7 {
        '7'
    } else if d == 8 {
        '8'
    } else {
        '9'
    }
}

/// The session code made from number `n`: `TH`, then `n` in three decimal
/// digits.
pub open spec fn code_text(n: int) -> Seq<char> {
    seq!['T', 'H', digit_char(n / 100), digit_char((n / 10) % 10), digit_char(n % 10)]
}

/// The session row that an allocation proposes: no proctor yet.
pub open spec fn proposed(
    code: Seq<char>,
    subject_code: Seq<char>,
    date: Seq<char>,
    shift_code: Seq<char>,
    room_number: Seq<char>,
) -> ViewTransactionView {
    ViewTransactionView {
        transaction_code: code,
        subject_codes: subject_code,
        shift_code: shift_code,
        room_number: room_number,
        date: date,
        proctor: None,
    }
}

/// Why the store `s` refuses the proposed row, if it does: first the shift
/// and date must be free, then the store must take the row.
pub open spec fn refusal(s: StoreView, row: ViewTransactionView) -> Option<Refusal> {
    if s.booked(row.date, row.shift_code) {
        Some(Refusal::Conflict)
    } else {
        match s.insert_violation(row) {
            Some(e) => Some(Refusal::Store(e)),
            None => None,
        }
    }
}

/// The store with one more session.
pub open spec fn with_session(s: StoreView, row: ViewTransactionView) -> StoreView {
    StoreView { sessions: s.sessions.push(row), ..s }
}

/// What an allocation that proposes `row` does: refused, it names the reason
/// and leaves the store as it was; accepted, it adds exactly `row` and hands
/// back its code.
pub open spec fn allocation_result(
    before: StoreView,
    after: StoreView,
    r: Result<AllocateExamResponse, AllocationError>,
    row: ViewTransactionView,
) -> bool {
    match refusal(before, row) {
        Some(Refusal::Conflict) => {
            &&& r matches Err(AllocationError::Conflict { shift_code, date })
            &&& shift_code@ == row.shift_code
            &&& date@ == row.date
            &&& after == before
        },
        Some(Refusal::Store(e)) => {
            &&& r matches Err(AllocationError::Store(given))
            &&& given == e
            &&& after == before
        },
        None => {
            &&& r matches Ok(response)
            &&& response@ == (AllocateExamResponseView {
                transaction_code: row.transaction_code,
                message: "Exam allocated successfully"@,
            })
            &&& after == with_session(before, row)
        },
    }
}

/// The decimal digit `d` as a text of one character.
fn digit_text(d: u32) -> (text: &'static str)
    requires
        d < 10,
    ensures
        text@ == seq![digit_char(d as int)],
{
    proof {
        reveal_strlit("0");
        reveal_strlit("1");
        reveal_strlit("2");
        reveal_strlit("3");
        reveal_strlit("4");
        reveal_strlit("5");
        reveal_strlit("6");
        reveal_strlit("7");
        reveal_strlit("8");
        reveal_strlit("9");
    }
    let text = if d == 0 {
        "0"
    } else if d == 1 {
        "1"
    } else if d == 2 {
        "2"
    } else if d == 3 {
        "3"
    } else if d == 4 {
        "4"
    } else if d == 5 {
        "5"
    } else if d == 6 {
        "6"
    } else if d == 7 {
        "7"
    } else if d == 8 {
        "8"
    } else {
        "9"
    };
    assert(text@ =~= seq![digit_char(d as int)]);
    text
}

/// The session code made from number `n`.
pub fn session_code(n: u32) -> (code: String)
    requires
        n < CODE_NUMBERS,
    ensures
        code@ == code_text(n as int),
{
    proof {
        reveal_strlit("TH");
    }
    let mut code = String::from_str("TH");
    code.append(digit_text(n / 100));
    code.append(digit_text((n / 10) % 10));
    code.append(digit_text(n % 10));
    assert(code@ =~= code_text(n as int));
    code
}

/// Allocates an exam session under the code made from number `n`. Refused
/// where some session is already held in that shift on that date, or where
/// the store turns the row away; a refused allocation changes nothing.
pub fn allocate_numbered(
    store: &mut Store,
    subject_code: &String,
    date: &String,
    shift_code: &String,
    room_number: &String,
    n: u32,
) -> (r: Result<AllocateExamResponse, AllocationError>)
    requires
        old(store).wf(),
        n < CODE_NUMBERS,
    ensures
        final(store).wf(),
        allocation_result(
            old(store)@,
            final(store)@,
            r,
            proposed(code_text(n as int), subject_code@, date@, shift_code@, room_number@),
        ),
{
    if store.has_session_at(date, shift_code) {
        return Err(
            AllocationError::Conflict { shift_code: shift_code.clone(), date: date.clone() },
        );
    }
    let code = session_code(n);
    let row = ViewTransaction {
        transaction_code: code.clone(),
        subject_codes: subject_code.clone(),
        shift_code: shift_code.clone(),
        room_number: room_number.clone(),
        date: date.clone(),
        proctor: None,
    };
    match store.insert_session(row) {
        Err(e) => Err(AllocationError::Store(e)),
        Ok(()) => Ok(
            AllocateExamResponse {
                transaction_code: code,
                message: String::from_str("Exam allocated successfully"),
            },
        ),
    }
}

/// Draws the number for a session code, each of them as likely as any other.
pub fn draw_code_number() -> (n: u32)
    ensures
        n < CODE_NUMBERS,
{
    random_below(CODE_NUMBERS)
}

/// Allocates an exam session for `subject_code` in `room_number`, in shift
/// `shift_code` of `date`, under a code made from a number drawn at random.
/// A shift and date that hold a session already refuse the allocation before
/// any number is drawn. The class codes are taken for the caller's record and
/// decide nothing.
pub fn allocate_exam(
    store: &mut Store,
    subject_code: &String,
    _class_codes: &Vec<String>,
    date: &String,
    shift_code: &String,
    room_number: &String,
) -> (r: Result<AllocateExamResponse, AllocationError>)
    requires
        old(store).wf(),
    ensures
        final(store).wf(),
        exists|n: int|
            0 <= n < CODE_NUMBERS && allocation_result(
                old(store)@,
                final(store)@,
                r,
                proposed(#[trigger] code_text(n), subject_code@, date@, shift_code@, room_number@),
            ),
{
    if store.has_session_at(date, shift_code) {
        let r = Err(
            AllocationError::Conflict { shift_code: shift_code.clone(), date: date.clone() },
        );
        assert(allocation_result(
            store@,
            store@,
            r,
            proposed(code_text(0), subject_code@, date@, shift_code@, room_number@),
        ));
        return r;
    }
    let n = draw_code_number();
    let r = allocate_numbered(store, subject_code, date, shift_code, room_number, n);
    assert(allocation_result(
        old(store)@,
        store@,
        r,
        proposed(code_text(n as int), subject_code@, date@, shift_code@, room_number@),
    ));
    r
}

/// Once a session is allocated, every further allocation for its shift and
/// date is refused as a conflict, whatever room, subject or code it proposes.
pub proof fn lemma_slot_taken_once(
    s: StoreView,
    first: ViewTransactionView,
    second: ViewTransactionView,
)
    requires
        second.date == first.date,
        second.shift_code == first.shift_code,
    ensures
        refusal(with_session(s, first), second) == Some(Refusal::Conflict),
{
    let t = with_session(s, first);
    assert(t.sessions[s.sessions.len() as int] == first);
}

/// Allocating a session takes no other shift or date: whether those are
/// booked is as it was.
pub proof fn lemma_other_slots_untouched(
    s: StoreView,
    first: ViewTransactionView,
    date: Seq<char>,
    shift_code: Seq<char>,
)
    requires
        date != first.date || shift_code != first.shift_code,
    ensures
        with_session(s, first).booked(date, shift_code) == s.booked(date, shift_code),
{
    let t = with_session(s, first);
    if s.booked(date, shift_code) {
        let i = choose|i: int|
            0 <= i < s.sessions.len() && (#[trigger] s.sessions[i]).date == date
                && s.sessions[i].shift_code == shift_code;
        assert(t.sessions[i] == s.sessions[i]);
    }
    if t.booked(date, shift_code) {
        let i = choose|i: int|
            0 <= i < t.sessions.len() && (#[trigger] t.sessions[i]).date == date
                && t.sessions[i].shift_code == shift_code;
        assert(i < s.sessions.len());
        assert(s.sessions[i] == t.sessions[i]);
    }
}

/// An allocation that fails leaves no session behind: the store is as it
/// was, and where the store turned the row away its shift and date are
/// still free.
pub proof fn lemma_failed_allocation_leaves_nothing(
    before: StoreView,
    after: StoreView,
    r: Result<AllocateExamResponse, AllocationError>,
    row: ViewTransactionView,
)
    requires
        allocation_result(before, after, r, row),
        r is Err,
    ensures
        after == before,
        r matches Err(AllocationError::Store(_)) ==> !after.booked(row.date, row.shift_code),
{
}

} // verus!
