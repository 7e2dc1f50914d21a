//! Login and password change: which name reaches which account, when a
//! password counts as correct, and how an account moves from an implicit
//! password to a hashed one.

use crate::hashing::{
    bcrypt_error_text, bcrypt_hash, bcrypt_verdict, bcrypt_verify, is_hash_text,
};
use crate::person::{Credential, CredentialView, Person, PersonView};
use crate::records::{clone_text_option, same_text};
use crate::session::{identity_of, CurrentUser, CurrentUserView, LoginMode, SessionManager};
use crate::store::{answering, with_hash, with_nim, Store, StoreView};
use crate::table::{first_match, lemma_first_position, lemma_first_position_alike};
use vstd::prelude::*;

verus! {

/// Whether `char::is_numeric` holds of a character: whether Unicode puts it
/// in one of its number categories.
pub uninterp spec fn is_numeric(c: char) -> bool;

/// One of the ten ASCII digits.
pub open spec fn is_ascii_digit(c: char) -> bool {
    '0' <= c <= '9'
}

/// Calls `char::is_numeric`. Trusted: the result is the value that
/// [`is_numeric`] names; among the ASCII characters, the digits are the
/// numeric ones.
#[verifier::external_body]
pub(crate) fn char_is_numeric(c: char) -> (b: bool)
    ensures
        b == is_numeric(c),
        is_ascii_digit(c) ==> b,
        c <= '\x7f' && !is_ascii_digit(c) ==> !b,
{
    c.is_numeric()
}

/// Every character is numeric; so of the empty text.
pub open spec fn all_numeric(s: Seq<char>) -> bool {
    forall|i: int| 0 <= i < s.len() ==> is_numeric(#[trigger] s[i])
}

/// The mode in which a login under `name` is made.
pub open spec fn mode_of(name: Seq<char>) -> LoginMode {
    if all_numeric(name) {
        LoginMode::ByIdentifier
    } else {
        LoginMode::ByInitials
    }
}

/// Whether `password` is the implicit password of a row in mode `mode`: the
/// row's `nim` by identifier, its initials by initials.
pub open spec fn implicit_password_is(p: PersonView, mode: LoginMode, password: Seq<char>) -> bool {
    match mode {
        LoginMode::ByIdentifier => password == p.user.nim,
        LoginMode::ByInitials => p.user.initial == Some(password),
    }
}

/// Whether `password` is correct for a row: by its hash where it has one,
/// else by the implicit rule. `None` where the hash cannot be checked.
pub open spec fn password_verdict(p: PersonView, mode: LoginMode, password: Seq<char>) -> Option<
    bool,
> {
    match p.credential {
        CredentialView::Hashed(h) => bcrypt_verdict(password, h),
        CredentialView::Implicit => Some(implicit_password_is(p, mode, password)),
    }
}

/// The row that a login under `name` is checked against.
pub open spec fn login_candidate(s: StoreView, name: Seq<char>) -> Option<PersonView> {
    first_match(s.roster, answering(name))
}

/// Whether a login under `name` with `password` is let in. `None` where the
/// stored hash cannot be checked.
pub open spec fn login_verdict(s: StoreView, name: Seq<char>, password: Seq<char>) -> Option<bool> {
    match login_candidate(s, name) {
        None => Some(false),
        Some(p) => password_verdict(p, mode_of(name), password),
    }
}

/// Who is logged in after a login attempt against row `p`: that row's
/// identity where the password was correct, else whoever was before.
pub open spec fn session_after(
    prior: Option<CurrentUserView>,
    correct: bool,
    p: PersonView,
    mode: LoginMode,
) -> Option<CurrentUserView> {
    if correct {
        Some(identity_of(p, mode))
    } else {
        prior
    }
}

/// Where a password change stands once the current password was looked at.
pub enum ChangeCheck {
    NotLoggedIn,
    UserNotFound,
    HashFailure,
    Incorrect,
    Accepted,
}

/// How far a password change gets before a new hash is computed.
pub open spec fn change_check(
    s: StoreView,
    session: Option<CurrentUserView>,
    current_password: Seq<char>,
) -> ChangeCheck {
    match session {
        None => ChangeCheck::NotLoggedIn,
        Some(who) => match first_match(s.roster, with_nim(who.nim)) {
            None => ChangeCheck::UserNotFound,
            Some(p) => match password_verdict(p, who.login_type, current_password) {
                None => ChangeCheck::HashFailure,
                Some(false) => ChangeCheck::Incorrect,
                Some(true) => ChangeCheck::Accepted,
            },
        },
    }
}

/// Why a login or a password change could not be judged.
#[derive(Debug, PartialEq, Eq)]
pub enum AuthError {
    /// Nobody is logged in.
    NotLoggedIn,
    /// The roster no longer holds the logged-in person.
    UserNotFound,
    /// The stored hash could not be checked; the text says why.
    HashVerification(String),
    /// No hash could be computed for the new password; the text says why.
    HashComputation(String),
}

impl AuthError {
    /// The failure in words.
    pub fn message(&self) -> (text: String)
        ensures
            self is NotLoggedIn ==> text@ == "No user logged in"@,
            self is UserNotFound ==> text@ == "User not found"@,
            self matches AuthError::HashVerification(why) ==> text@
                == "Failed to verify password: "@ + why@,
            self matches AuthError::HashComputation(why) ==> text@
                == "Failed to hash new password: "@ + why@,
    {
        match self {
            AuthError::NotLoggedIn => String::from_str("No user logged in"),
            AuthError::UserNotFound => String::from_str("User not found"),
            AuthError::HashVerification(why) => String::from_str(
                "Failed to verify password: ",
            ).concat(why.as_str()),
            AuthError::HashComputation(why) => String::from_str(
                "Failed to hash new password: ",
            ).concat(why.as_str()),
        }
    }
}

/// How a password change ended, where it could be judged.
#[derive(Debug, Clone, Copy, PartialEq, Eq, Structural)]
pub enum PasswordChange {
    /// The new password's hash is stored.
    Changed,
    /// The current password was wrong; nothing changed.
    IncorrectPassword,
}

impl PasswordChange {
    /// The outcome in words.
    pub fn message(&self) -> (text: &'static str)
        ensures
            text@ == match *self {
                PasswordChange::Changed => "Success"@,
                PasswordChange::IncorrectPassword => "Current password is incorrect"@,
            },
    {
        match self {
            PasswordChange::Changed => "Success",
            PasswordChange::IncorrectPassword => "Current password is incorrect",
        }
    }
}

/// The mode in which a login under `name` is made: by identifier where every
/// character is numeric, else by initials.
pub fn classify(name: &String) -> (mode: LoginMode)
    ensures
        mode == mode_of(name@),
{
    let text = name.as_str();
    let n = text.unicode_len();
    let mut i: usize = 0;
    while i < n
        invariant
            i <= n,
            n == name@.len(),
            text@ == name@,
            forall|j: int| 0 <= j < i ==> is_numeric(#[trigger] name@[j]),
        decreases n - i,
    {
        if !char_is_numeric(text.get_char(i)) {
            assert(!is_numeric(name@[i as int]));
            return LoginMode::ByInitials;
        }
        i += 1;
    }
    LoginMode::ByIdentifier
}

/// Whether `password` is the implicit password of `person` in mode `mode`.
pub fn implicit_password_matches(person: &Person, mode: LoginMode, password: &String) -> (ok: bool)
    ensures
        ok == implicit_password_is(person@, mode, password@),
{
    match mode {
        LoginMode::ByIdentifier => same_text(password, &person.user.nim),
        LoginMode::ByInitials => match &person.user.initial {
            Some(initial) => same_text(password, initial),
            None => false,
        },
    }
}

/// Whether `password` is correct for `person`: checked against the stored
/// hash where there is one, else by the implicit rule of `mode`.
pub fn check_password(person: &Person, mode: LoginMode, password: &String) -> (r: Result<
    bool,
    AuthError,
>)
    ensures
        match r {
            Ok(ok) => password_verdict(person@, mode, password@) == Some(ok),
            Err(e) => password_verdict(person@, mode, password@) is None && e
                is HashVerification,
        },
{
    match &person.credential {
        Credential::Hashed(stored) => match bcrypt_verify(password, stored) {
            Ok(ok) => Ok(ok),
            Err(e) => Err(AuthError::HashVerification(bcrypt_error_text(&e))),
        },
        Credential::Implicit => Ok(implicit_password_matches(person, mode, password)),
    }
}

/// Ends a login attempt against `person`: where the password was correct,
/// `person` is logged in and the mode is handed back; else nothing changes.
pub fn finish_login(
    session: &mut SessionManager,
    person: &Person,
    mode: LoginMode,
    correct: bool,
) -> (r: Option<LoginMode>)
    ensures
        r == if correct {
            Some(mode)
        } else {
            None
        },
        final(session)@ == session_after(old(session)@, correct, person@, mode),
{
    if correct {
        session.set(
            CurrentUser {
                bn_number: person.user.bn_number.clone(),
                nim: person.user.nim.clone(),
                name: person.user.name.clone(),
                major: person.user.major.clone(),
                role: person.user.role.clone(),
                initial: clone_text_option(&person.user.initial),
                login_type: mode,
            },
        );
        Some(mode)
    } else {
        None
    }
}

/// Logs in under `username`. The first roster row that `username` names, by
/// `nim` or by initials, is checked with `password`; where it is correct that
/// row's person is logged in and the login's mode is handed back. No such
/// row, or a wrong password, is `Ok(None)` and leaves the session alone; so
/// does a stored hash that cannot be checked, which is an error.
pub fn login(
    store: &Store,
    session: &mut SessionManager,
    username: &String,
    password: &String,
) -> (r: Result<Option<LoginMode>, AuthError>)
    ensures
        match r {
            Ok(Some(mode)) => {
                &&& login_verdict(store@, username@, password@) == Some(true)
                &&& mode == mode_of(username@)
                &&& final(session)@ == Some(
                    identity_of(login_candidate(store@, username@)->0, mode),
                )
            },
            Ok(None) => {
                &&& login_verdict(store@, username@, password@) == Some(false)
                &&& final(session)@ == old(session)@
            },
            Err(e) => {
                &&& login_verdict(store@, username@, password@) is None
                &&& e is HashVerification
                &&& final(session)@ == old(session)@
            },
        },
{
    match store.find_login_row(username) {
        None => Ok(None),
        Some(person) => {
            let mode = classify(username);
            match check_password(&person, mode, password) {
                Ok(correct) => Ok(finish_login(session, &person, mode, correct)),
                Err(e) => Err(e),
            }
        },
    }
}

/// Who is logged in, if anybody.
pub fn get_current_user(session: &SessionManager) -> (r: Option<CurrentUser>)
    ensures
        r.deep_view() == session@,
{
    session.get()
}

/// Logs out: afterwards nobody is logged in.
pub fn logout(session: &mut SessionManager)
    ensures
        final(session)@ is None,
{
    session.clear();
}

/// Ends a password change whose current password was accepted: a computed
/// hash is stored for the roster row with `nim` and for no other, a failure
/// to compute one is handed on and changes nothing.
pub fn keep_new_hash(
    store: &mut Store,
    nim: &String,
    hashed: Result<String, AuthError>,
) -> (r: Result<PasswordChange, AuthError>)
    requires
        old(store).wf(),
    ensures
        final(store).wf(),
        match hashed {
            Ok(h) => {
                &&& r == Ok::<PasswordChange, AuthError>(PasswordChange::Changed)
                &&& final(store)@ == old(store)@.password_set(nim@, h@)
            },
            Err(e) => {
                &&& r == Err::<PasswordChange, AuthError>(e)
                &&& final(store)@ == old(store)@
            },
        },
{
    match hashed {
        Ok(h) => {
            store.set_password_hash(nim, &h);
            Ok(PasswordChange::Changed)
        },
        Err(e) => Err(e),
    }
}

/// Changes the password of whoever is logged in. That person's own roster
/// row, the one with the session's `nim`, is checked with
/// `current_password`, by its hash or, without one, by the implicit rule of
/// the mode they logged in with. Where it is correct, a fresh hash of
/// `new_password` is stored for that row alone; where it is wrong, nothing
/// changes.
pub fn change_password(
    store: &mut Store,
    session: &SessionManager,
    current_password: &String,
    new_password: &String,
) -> (r: Result<PasswordChange, AuthError>)
    requires
        old(store).wf(),
    ensures
        final(store).wf(),
        match r {
            Ok(PasswordChange::Changed) => {
                &&& change_check(old(store)@, session@, current_password@) is Accepted
                &&& exists|h: Seq<char>|
                    bcrypt_verdict(new_password@, h) == Some(true) && is_hash_text(h)
                        && final(store)@ == #[trigger] old(store)@.password_set(
                        session@->0.nim,
                        h,
                    )
            },
            Ok(PasswordChange::IncorrectPassword) => {
                &&& change_check(old(store)@, session@, current_password@) is Incorrect
                &&& final(store)@ == old(store)@
            },
            Err(AuthError::NotLoggedIn) => {
                &&& change_check(old(store)@, session@, current_password@) is NotLoggedIn
                &&& final(store)@ == old(store)@
            },
            Err(AuthError::UserNotFound) => {
                &&& change_check(old(store)@, session@, current_password@) is UserNotFound
                &&& final(store)@ == old(store)@
            },
            Err(AuthError::HashVerification(_)) => {
                &&& change_check(old(store)@, session@, current_password@) is HashFailure
                &&& final(store)@ == old(store)@
            },
            Err(AuthError::HashComputation(_)) => {
                &&& change_check(old(store)@, session@, current_password@) is Accepted
                &&& final(store)@ == old(store)@
            },
        },
{
    let who = match session.get() {
        None => {
            return Err(AuthError::NotLoggedIn);
        },
        Some(who) => who,
    };
    let person = match store.find_by_nim(&who.nim) {
        None => {
            return Err(AuthError::UserNotFound);
        },
        Some(person) => person,
    };
    match check_password(&person, who.login_type, current_password) {
        Err(e) => Err(e),
        Ok(false) => Ok(PasswordChange::IncorrectPassword),
        Ok(true) => {
            let hashed = match bcrypt_hash(new_password) {
                Ok(h) => Ok(h),
                Err(e) => Err(AuthError::HashComputation(bcrypt_error_text(&e))),
            };
            keep_new_hash(store, &who.nim, hashed)
        },
    }
}

/// A password change touches one row and one field: the roster row with
/// `nim` keeps what the catalog knows of the person and gets the hash; every
/// other roster row, whoever shares a `bn_number` or anything else with it,
/// and every other table is as it was.
pub proof fn lemma_password_change_touches_one_row(s: StoreView, nim: Seq<char>, hash: Seq<char>)
    ensures
        s.password_set(nim, hash).roster.len() == s.roster.len(),
        forall|i: int|
            0 <= i < s.roster.len() && s.roster[i].user.nim != nim ==> #[trigger] s.password_set(
                nim,
                hash,
            ).roster[i] == s.roster[i],
        forall|i: int|
            0 <= i < s.roster.len() && s.roster[i].user.nim == nim ==> (#[trigger] s.password_set(
                nim,
                hash,
            ).roster[i]) == (PersonView {
                user: s.roster[i].user,
                credential: CredentialView::Hashed(hash),
            }),
        s.password_set(nim, hash).rooms == s.rooms,
        s.password_set(nim, hash).shifts == s.shifts,
        s.password_set(nim, hash).subjects == s.subjects,
        s.password_set(nim, hash).enrollments == s.enrollments,
        s.password_set(nim, hash).sessions == s.sessions,
{
}

/// What a password change stores is a hash: it begins as every bcrypt hash
/// of the default cost begins, and so differs from every password that does
/// not begin so itself.
pub proof fn lemma_stored_hash_is_not_the_password(password: Seq<char>, hash: Seq<char>)
    requires
        is_hash_text(hash),
        !is_hash_text(password),
    ensures
        hash != password,
{
}

/// Once a password change has stored a hash for the row with `nim`, a login
/// reaches the same row as before, and for the row with that `nim` the hash
/// alone decides: the password is let in exactly where `bcrypt::verify`
/// accepts it against the hash, whatever the implicit rule would have said.
pub proof fn lemma_hash_decides_login(
    s: StoreView,
    nim: Seq<char>,
    hash: Seq<char>,
    name: Seq<char>,
    password: Seq<char>,
)
    ensures
        login_candidate(s, name) is None ==> login_candidate(s.password_set(nim, hash), name)
            is None,
        login_candidate(s, name) is Some && login_candidate(s, name)->0.user.nim != nim
            ==> login_candidate(s.password_set(nim, hash), name) == login_candidate(s, name),
        login_candidate(s, name) is Some && login_candidate(s, name)->0.user.nim == nim
            ==> login_candidate(s.password_set(nim, hash), name) == Some(
            with_hash(login_candidate(s, name)->0, hash),
        ) && login_verdict(s.password_set(nim, hash), name, password) == bcrypt_verdict(
            password,
            hash,
        ),
{
    let t = s.password_set(nim, hash);
    let wanted = answering(name);
    lemma_first_position(s.roster, wanted);
    lemma_first_position(t.roster, wanted);
    lemma_first_position_alike(s.roster, t.roster, wanted);
}

/// After a password change, the next login under the new password is let
/// in: the hash that was stored is one that `bcrypt::verify` accepts the new
/// password against.
pub proof fn lemma_new_password_logs_in(
    s: StoreView,
    nim: Seq<char>,
    hash: Seq<char>,
    name: Seq<char>,
    new_password: Seq<char>,
)
    requires
        bcrypt_verdict(new_password, hash) == Some(true),
        login_candidate(s, name) is Some,
        login_candidate(s, name)->0.user.nim == nim,
    ensures
        login_verdict(s.password_set(nim, hash), name, new_password) == Some(true),
{
    lemma_hash_decides_login(s, nim, hash, name, new_password);
}

/// Who is logged in after a successful login depends on that login alone:
/// nothing of an earlier session is left in it. A failed login leaves the
/// session as it was.
pub proof fn lemma_sessions_do_not_leak(
    earlier: Option<CurrentUserView>,
    other: Option<CurrentUserView>,
    p: PersonView,
    mode: LoginMode,
)
    ensures
        session_after(earlier, true, p, mode) == Some(identity_of(p, mode)),
        session_after(earlier, true, p, mode) == session_after(other, true, p, mode),
        session_after(earlier, false, p, mode) == earlier,
{
}

} // verus!
