//! What the remote catalog answers to its four queries.

use crate::records::{Enrollment, EnrollmentView, Room, Subject, User};
use crate::table::{collect, lemma_collect_step};
use vstd::prelude::*;

verus! {

/// The answer to the roster query.
#[derive(Debug)]
pub struct UsersQuery {
    pub get_all_user: Vec<User>,
}

/// The answer to the subject query.
#[derive(Debug)]
pub struct AllSubjectsQuery {
    pub get_all_subject: Vec<Subject>,
}

/// The answer to the room query.
#[derive(Debug)]
pub struct AllRoomsQuery {
    pub get_all_room: Vec<Room>,
}

/// The answer to the enrollment query: the list may be missing, and so may
/// any entry of it.
#[derive(Debug)]
pub struct AllEnrollmentQuery {
    pub get_all_enrollment: Option<Vec<Option<Enrollment>>>,
}

/// The entries that are there.
pub open spec fn present() -> spec_fn(Option<EnrollmentView>) -> bool {
    |e: Option<EnrollmentView>| e is Some
}

/// An entry that is there.
pub open spec fn entry() -> spec_fn(Option<EnrollmentView>) -> EnrollmentView {
    |e: Option<EnrollmentView>| e->0
}

/// The enrollments that an answer holds: its entries that are there, in
/// order; none where the list is missing.
pub open spec fn listed_enrollments(answer: Option<Seq<Option<EnrollmentView>>>) -> Seq<
    EnrollmentView,
> {
    match answer {
        Some(entries) => collect(entries, present(), entry()),
        None => Seq::empty(),
    }
}

impl AllEnrollmentQuery {
    /// The enrollments that the answer holds.
    pub fn enrollments(&self) -> (out: Vec<Enrollment>)
        ensures
            out.deep_view() == listed_enrollments(self.get_all_enrollment.deep_view()),
    {
        let mut out: Vec<Enrollment> = Vec::new();
        match &self.get_all_enrollment {
            None => {
                assert(out.deep_view() =~= Seq::empty());
            },
            Some(entries) => {
                let ghost all = entries.deep_view();
                let mut i: usize = 0;
                assert(all.take(0) =~= Seq::empty());
                while i < entries.len()
                    invariant
                        i <= entries.len(),
                        all == entries.deep_view(),
                        out.deep_view() =~= collect(all.take(i as int), present(), entry()),
                    decreases entries.len() - i,
                {
                    proof {
                        lemma_collect_step(all, present(), entry(), i as int);
                    }
                    match &entries[i] {
                        Some(e) => {
                            assert(all[i as int] == Some(e@));
                            let ghost prior = out.deep_view();
                            out.push(e.clone());
                            assert(out.deep_view() =~= prior.push(e@));
                        },
                        None => {
                            assert(all[i as int] is None);
                        },
                    }
                    i += 1;
                }
                assert(all.take(entries.len() as int) =~= all);
            },
        }
        out
    }
}

} // verus!
