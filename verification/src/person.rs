//! A roster row: the catalog's entry for a person, and how that person's
//! password is kept.

use crate::records::{User, UserView};
use crate::rows::Row;
use crate::table::Keyed;
use vstd::prelude::*;

verus! {

/// What a [`Credential`] is.
pub enum CredentialView {
    Implicit,
    Hashed(Seq<char>),
}

/// How a person's password is kept: not at all, so that a known field of the
/// row stands for it, or as a hash of a password the person once chose.
#[derive(Debug, PartialEq, Eq)]
pub enum Credential {
    Implicit,
    Hashed(String),
}

impl DeepView for Credential {
    type V = CredentialView;

    open spec fn deep_view(&self) -> CredentialView {
        match self {
            Credential::Implicit => CredentialView::Implicit,
            Credential::Hashed(h) => CredentialView::Hashed(h@),
        }
    }
}

impl View for Credential {
    type V = CredentialView;

    open spec fn view(&self) -> CredentialView {
        self.deep_view()
    }
}

impl Clone for Credential {
    fn clone(&self) -> (r: Self)
        ensures
            r == *self,
    {
        match self {
            Credential::Implicit => Credential::Implicit,
            Credential::Hashed(h) => Credential::Hashed(h.clone()),
        }
    }
}

/// What a [`Person`] is.
pub struct PersonView {
    pub user: UserView,
    pub credential: CredentialView,
}

/// One row of the roster table, keyed by `user.nim`.
#[derive(Debug, PartialEq, Eq)]
pub struct Person {
    pub user: User,
    pub credential: Credential,
}

impl DeepView for Person {
    type V = PersonView;

    open spec fn deep_view(&self) -> PersonView {
        PersonView { user: self.user@, credential: self.credential@ }
    }
}

impl View for Person {
    type V = PersonView;

    open spec fn view(&self) -> PersonView {
        self.deep_view()
    }
}

impl Clone for Person {
    fn clone(&self) -> (r: Self)
        ensures
            r == *self,
    {
        Person { user: self.user.clone(), credential: self.credential.clone() }
    }
}

/// The roster row that a catalog entry makes when the roster has none for it:
/// the entry itself, with no password set.
pub open spec fn enrolled(u: UserView) -> PersonView {
    PersonView { user: u, credential: CredentialView::Implicit }
}

/// The rows that a batch of catalog entries makes, one for one.
pub open spec fn enrolled_all(us: Seq<UserView>) -> Seq<PersonView> {
    Seq::new(us.len(), |i: int| enrolled(us[i]))
}

impl Keyed for PersonView {
    open spec fn key(self) -> Seq<char> {
        self.user.nim
    }

    /// A catalog entry written over a roster row replaces what the catalog
    /// knows and keeps the row's credential.
    open spec fn absorb(self, old: Self) -> Self {
        PersonView { user: self.user, credential: old.credential }
    }

    proof fn absorb_keeps_key(self, old: Self) {
    }

    proof fn absorb_forgets(self, mid: Self, old: Self) {
    }

    proof fn absorb_self(self) {
    }
}

impl Row for Person {
    type Model = PersonView;

    type Listing = User;

    open spec fn model(&self) -> PersonView {
        self.deep_view()
    }

    open spec fn listed(listing: &User) -> PersonView {
        enrolled(listing.deep_view())
    }

    fn key_text(&self) -> (k: &String) {
        &self.user.nim
    }

    fn copy(&self) -> (r: Self) {
        self.clone()
    }

    fn enrol(listing: &User) -> (r: Self) {
        Person { user: listing.clone(), credential: Credential::Implicit }
    }

    fn written_over(self, old: &Self) -> (r: Self) {
        Person { user: self.user, credential: old.credential.clone() }
    }
}

} // verus!
