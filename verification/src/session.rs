//! The identity that is logged in, if any.

use crate::person::PersonView;
use crate::records::clone_text_option;
use vstd::prelude::*;

verus! {

/// How a login named the account.
#[derive(Debug, Clone, Copy, PartialEq, Eq, Structural)]
pub enum LoginMode {
    /// By the account's `nim`: the name given was all numerals.
    ByIdentifier,
    /// By the account's initials.
    ByInitials,
}

impl LoginMode {
    /// The tag under which callers know the mode: `nim` or `initial`.
    pub fn as_str(&self) -> (tag: &'static str)
        ensures
            tag@ == match *self {
                LoginMode::ByIdentifier => "nim"@,
                LoginMode::ByInitials => "initial"@,
            },
    {
        match self {
            LoginMode::ByIdentifier => "nim",
            LoginMode::ByInitials => "initial",
        }
    }
}

/// What a [`CurrentUser`] is.
pub struct CurrentUserView {
    pub bn_number: Seq<char>,
    pub nim: Seq<char>,
    pub name: Seq<char>,
    pub major: Seq<char>,
    pub role: Seq<char>,
    pub initial: Option<Seq<char>>,
    pub login_type: LoginMode,
}

/// The public fields of the person who is logged in, and how they logged in.
#[derive(Debug, PartialEq, Eq)]
pub struct CurrentUser {
    pub bn_number: String,
    pub nim: String,
    pub name: String,
    pub major: String,
    pub role: String,
    pub initial: Option<String>,
    pub login_type: LoginMode,
}

impl DeepView for CurrentUser {
    type V = CurrentUserView;

    open spec fn deep_view(&self) -> CurrentUserView {
        CurrentUserView {
            bn_number: self.bn_number@,
            nim: self.nim@,
            name: self.name@,
            major: self.major@,
            role: self.role@,
            initial: self.initial.deep_view(),
            login_type: self.login_type,
        }
    }
}

impl View for CurrentUser {
    type V = CurrentUserView;

    open spec fn view(&self) -> CurrentUserView {
        self.deep_view()
    }
}

impl Clone for CurrentUser {
    fn clone(&self) -> (r: Self)
        ensures
            r == *self,
    {
        CurrentUser {
            bn_number: self.bn_number.clone(),
            nim: self.nim.clone(),
            name: self.name.clone(),
            major: self.major.clone(),
            role: self.role.clone(),
            initial: clone_text_option(&self.initial),
            login_type: self.login_type,
        }
    }
}

/// The identity that a roster row gives to a login made in mode `mode`.
pub open spec fn identity_of(p: PersonView, mode: LoginMode) -> CurrentUserView {
    CurrentUserView {
        bn_number: p.user.bn_number,
        nim: p.user.nim,
        name: p.user.name,
        major: p.user.major,
        role: p.user.role,
        initial: p.user.initial,
        login_type: mode,
    }
}

/// Holds the identity that is logged in, if any. Its view is that identity.
pub struct SessionManager {
    current: Option<CurrentUser>,
}

impl View for SessionManager {
    type V = Option<CurrentUserView>;

    closed spec fn view(&self) -> Option<CurrentUserView> {
        self.current.deep_view()
    }
}

impl SessionManager {
    /// A holder with nobody logged in.
    pub fn new() -> (s: SessionManager)
        ensures
            s@ is None,
    {
        SessionManager { current: None }
    }

    /// A copy of the identity that is logged in, if any.
    pub fn get(&self) -> (r: Option<CurrentUser>)
        ensures
            r.deep_view() == self@,
    {
        match &self.current {
            Some(u) => Some(u.clone()),
            None => None,
        }
    }

    /// Replaces whoever was logged in by `identity`.
    pub fn set(&mut self, identity: CurrentUser)
        ensures
            final(self)@ == Some(identity@),
    {
        self.current = Some(identity);
    }

    /// Leaves nobody logged in.
    pub fn clear(&mut self)
        ensures
            final(self)@ is None,
    {
        self.current = None;
    }
}

} // verus!
