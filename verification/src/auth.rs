//! The registration and session workflows.
//!
//! Each handler is a decision function from the store and the submitted
//! form to a response: which cookie action to take and where to redirect.
//! The boundary layer performs the cookie write and the redirect.

use vstd::prelude::*;
use vstd::string::StringExecFns;

use crate::crypto::{hash_new, spec_hash, spec_verify, verify_password};
use crate::forms::{code_spec, is_reserved, spec_is_reserved, FormError};
use crate::guards::MaybeLoggedIn;
use crate::models::{AuditEntry, NewRelationGroupUser, NewUser, User};
use crate::store::{has_email, has_handle, has_mmost, unique_identity, IdentityStore};
use crate::strutil::{dec_digits, str_eq, trunc, truncate_chars, u32_to_dec};

verus! {

/// What to do with the session cookie alongside a redirect.
#[derive(Debug, Clone, Copy, PartialEq, Eq, Structural)]
pub enum CookieAction {
    /// Issue the session cookie for this identity.
    Issue(i32),
    /// Remove the session cookie.
    Clear,
    /// Leave the cookie as it is.
    Keep,
}

/// A handler's outcome: a cookie action and a redirect target.
#[derive(Debug)]
pub struct AuthResponse {
    pub cookie: CookieAction,
    pub location: String,
}

/// The data the signup page renders: the viewer, if identified, and an
/// error code to pre-populate the form with.
pub struct SignUpTemplate {
    pub logged_in: Option<User>,
    pub error: Option<FormError>,
}

/// The data the login page renders.
pub struct LogInTemplate {
    pub logged_in: Option<User>,
    pub error: Option<FormError>,
}

/// Assembles the signup page for the current viewer.
pub fn signup(l: MaybeLoggedIn, e: Option<FormError>) -> (r: SignUpTemplate)
    ensures
        r.logged_in == l.0,
        r.error == e,
{
    SignUpTemplate { logged_in: l.user(), error: e }
}

/// Assembles the login page for the current viewer.
pub fn login(l: MaybeLoggedIn, e: Option<FormError>) -> (r: LogInTemplate)
    ensures
        r.logged_in == l.0,
        r.error == e,
{
    LogInTemplate { logged_in: l.user(), error: e }
}

/// The information submitted at signup.
#[derive(Debug)]
pub struct SignUpForm {
    pub email: String,
    pub password: String,
    pub password_repeat: String,
    pub real_name: String,
    pub handle: String,
    pub mmost: String,
}

/// The credentials submitted at login.
#[derive(Debug)]
pub struct LogInForm {
    pub email: String,
    pub password: String,
}

impl Default for LogInForm {
    /// Empty credentials.
    fn default() -> (r: LogInForm)
        ensures
            r.email@ == Seq::<char>::empty(),
            r.password@ == Seq::<char>::empty(),
    {
        LogInForm { email: String::new(), password: String::new() }
    }
}

/// The redirect back to the signup page carrying an error code.
fn signup_err_url(e: FormError) -> (r: String)
    ensures
        r@ == "/signup?e="@ + code_spec(e),
{
    String::from_str("/signup?e=").concat(e.code().as_str())
}

/// The redirect back to the login page carrying the original target and an
/// error code.
fn login_err_url(to: &str, e: FormError) -> (r: String)
    ensures
        r@ == "/login?to="@ + to@ + "&e="@ + code_spec(e),
{
    let mut s = String::from_str("/login?to=");
    s.append(to);
    s.append("&e=");
    s.append(e.code().as_str());
    proof {
        assert(s@ =~= "/login?to="@ + to@ + "&e="@ + code_spec(e));
    }
    s
}

/// The profile page of an identity.
fn user_url(id: i32) -> (r: String)
    requires
        id >= 0,
    ensures
        r@ == "/users/"@ + dec_digits(id as nat),
{
    String::from_str("/users/").concat(u32_to_dec(id as u32).as_str())
}

impl NewUser {
    /// The record a signup form asks to create: tier 0, active, empty bio,
    /// the password hashed under a fresh salt and dropped.
    pub fn from_form(f: SignUpForm) -> (r: NewUser)
        ensures
            r.email@ == f.email@,
            r.real_name@ == f.real_name@,
            r.handle@ == f.handle@,
            r.mmost@ == f.mmost@,
            r.bio@ == Seq::<char>::empty(),
            r.tier == 0,
            r.active == true,
            r.salt@.len() == 32,
            r.password_hash@ == spec_hash(f.password@, r.salt@),
    {
        let (hash, salt) = hash_new(f.password.as_str());
        NewUser {
            real_name: f.real_name,
            handle: f.handle,
            password_hash: hash,
            salt: salt,
            bio: String::new(),
            email: f.email,
            tier: 0,
            active: true,
            mmost: f.mmost,
        }
    }
}

/// The first rule a registration violates, in the order the workflow
/// checks them, after the handle and external handle are cut to their
/// maximum lengths; `None` when the registration is admitted.
pub open spec fn signup_error(users: Seq<User>, f: SignUpForm) -> Option<FormError> {
    if f.password@ != f.password_repeat@ {
        Some(FormError::PasswordMismatch)
    } else if spec_is_reserved(trunc(f.handle@, 39)) {
        Some(FormError::ReservedName)
    } else if has_email(users, f.email@) {
        Some(FormError::EmailExists)
    } else if has_handle(users, trunc(f.handle@, 39)) {
        Some(FormError::GitExists)
    } else if has_mmost(users, trunc(f.mmost@, 22)) {
        Some(FormError::MmostExists)
    } else {
        None
    }
}

/// Handles a signup submission: validates the form against the store, and
/// either admits the identity — with its default group membership, an
/// audit entry, a session cookie and a redirect to the new profile — or
/// redirects back to the form with the first error found, leaving the
/// store as it was.
pub fn signup_post(store: &mut IdentityStore, form: SignUpForm, now: i64) -> (r: AuthResponse)
    requires
        old(store).wf(),
        old(store).next_id_spec() < i32::MAX,
    ensures
        final(store).wf(),
        match signup_error(old(store).users_seq(), form) {
            Some(e) => {
                &&& *final(store) == *old(store)
                &&& r.cookie == CookieAction::Keep
                &&& r.location@ == "/signup?e="@ + code_spec(e)
            },
            None => {
                let users = final(store).users_seq();
                let u = users.last();
                &&& users.len() == old(store).users_seq().len() + 1
                &&& users.take(users.len() - 1) == old(store).users_seq()
                &&& u.id as int == old(store).next_id_spec()
                &&& u.email@ == form.email@
                &&& u.real_name@ == form.real_name@
                &&& u.handle@ == trunc(form.handle@, 39)
                &&& u.mmost@ == trunc(form.mmost@, 22)
                &&& u.bio@ == Seq::<char>::empty()
                &&& u.tier == 0
                &&& u.active == true
                &&& u.joined_on == now
                &&& u.salt@.len() == 32
                &&& u.password_hash@ == spec_hash(form.password@, u.salt@)
                &&& final(store).next_id_spec() == old(store).next_id_spec() + 1
                &&& final(store).relations_seq() == old(store).relations_seq().push(
                    NewRelationGroupUser { group_id: 0, user_id: u.id },
                )
                &&& final(store).audit_seq().len() == old(store).audit_seq().len() + 1
                &&& final(store).audit_seq().take(final(store).audit_seq().len() - 1) == old(
                    store,
                ).audit_seq()
                &&& final(store).audit_seq().last().user_id == u.id
                &&& final(store).audit_seq().last().email@ == form.email@
                &&& final(store).audit_seq().last().at == now
                &&& r.cookie == CookieAction::Issue(u.id)
                &&& r.location@ == "/users/"@ + dec_digits(u.id as nat)
            },
        },
{
    let mut trimmed = form;
    trimmed.handle = truncate_chars(trimmed.handle.as_str(), 39);
    trimmed.mmost = truncate_chars(trimmed.mmost.as_str(), 22);
    if !str_eq(trimmed.password.as_str(), trimmed.password_repeat.as_str()) {
        return AuthResponse {
            cookie: CookieAction::Keep,
            location: signup_err_url(FormError::PasswordMismatch),
        };
    }
    if let Err(e) = is_reserved(trimmed.handle.as_str()) {
        return AuthResponse { cookie: CookieAction::Keep, location: signup_err_url(e) };
    }
    let email_copy = trimmed.email.clone();
    let nu = NewUser::from_form(trimmed);
    match store.insert(nu, now) {
        Err(e) => AuthResponse { cookie: CookieAction::Keep, location: signup_err_url(e) },
        Ok(id) => {
            store.insert_relation(0, id);
            store.push_audit(AuditEntry { user_id: id, email: email_copy, at: now });
            AuthResponse { cookie: CookieAction::Issue(id), location: user_url(id) }
        },
    }
}

/// Where a login attempt wanted to go: its explicit target, or the site
/// root when none was given.
pub open spec fn login_target(to: Option<String>) -> Seq<char> {
    match to {
        Some(t) => t@,
        None => "/"@,
    }
}

/// Handles a login submission: an unknown email fails with `Email`, a
/// known email with a wrong password fails with `Password` (both keep the
/// cookie and preserve the redirect target), and correct credentials set
/// the session cookie and redirect to the requested target verbatim.
pub fn login_post(store: &IdentityStore, creds: LogInForm, to: Option<String>) -> (r:
    AuthResponse)
    requires
        store.wf(),
    ensures
        !has_email(store.users_seq(), creds.email@) ==> r.cookie == CookieAction::Keep
            && r.location@ == "/login?to="@ + login_target(to) + "&e="@ + code_spec(
            FormError::Email,
        ),
        forall|i: int|
            0 <= i < store.users_seq().len() && (#[trigger] store.users_seq()[i]).email@
                == creds.email@ ==> {
                let u = store.users_seq()[i];
                &&& (spec_verify(creds.password@, u.password_hash@, u.salt@) ==> r.cookie
                    == CookieAction::Issue(u.id) && r.location@ == login_target(to))
                &&& (!spec_verify(creds.password@, u.password_hash@, u.salt@) ==> r.cookie
                    == CookieAction::Keep && r.location@ == "/login?to="@ + login_target(to)
                    + "&e="@ + code_spec(FormError::Password))
            },
{
    let target = match to {
        Some(t) => t,
        None => String::from_str("/"),
    };
    match store.find_by_email(creds.email.as_str()) {
        None => {
            let location = login_err_url(target.as_str(), FormError::Email);
            AuthResponse { cookie: CookieAction::Keep, location }
        },
        Some(i) => {
            let u = store.get(i);
            if verify_password(creds.password.as_str(), u.password_hash.as_str(), u.salt.as_str())
             {
                let id = u.id;
                proof {
                    assert forall|j: int|
                        0 <= j < store.users_seq().len() && (#[trigger] store.users_seq()[j]).email@
                            == creds.email@ implies store.users_seq()[j] == store.users_seq()[
                        i as int] by {
                        if j != i as int {
                            assert(unique_identity(store.users_seq()));
                        }
                    }
                }
                AuthResponse { cookie: CookieAction::Issue(id), location: target }
            } else {
                proof {
                    assert forall|j: int|
                        0 <= j < store.users_seq().len() && (#[trigger] store.users_seq()[j]).email@
                            == creds.email@ implies store.users_seq()[j] == store.users_seq()[
                        i as int] by {
                        if j != i as int {
                            assert(unique_identity(store.users_seq()));
                        }
                    }
                }
                let location = login_err_url(target.as_str(), FormError::Password);
                AuthResponse { cookie: CookieAction::Keep, location }
            }
        },
    }
}

/// Handles logout: unconditionally clears the session cookie and redirects
/// to the site root, whatever state the request arrived in.
pub fn logout() -> (r: AuthResponse)
    ensures
        r.cookie == CookieAction::Clear,
        r.location@ == "/"@,
{
    AuthResponse { cookie: CookieAction::Clear, location: String::from_str("/") }
}

/// A registration that passes every check is admitted, and afterwards each
/// of its three identity fields resolves to the new record alone.
pub proof fn lemma_signup_then_lookup(users: Seq<User>, u: User, f: SignUpForm)
    requires
        unique_identity(users),
        signup_error(users, f) is None,
        u.email@ == f.email@,
        u.handle@ == trunc(f.handle@, 39),
        u.mmost@ == trunc(f.mmost@, 22),
    ensures
        has_email(users.push(u), u.email@),
        has_handle(users.push(u), u.handle@),
        has_mmost(users.push(u), u.mmost@),
        forall|j: int|
            0 <= j < users.push(u).len() && (#[trigger] users.push(u)[j]).email@ == u.email@
                ==> users.push(u)[j] == u,
        forall|j: int|
            0 <= j < users.push(u).len() && (#[trigger] users.push(u)[j]).handle@ == u.handle@
                ==> users.push(u)[j] == u,
        forall|j: int|
            0 <= j < users.push(u).len() && (#[trigger] users.push(u)[j]).mmost@ == u.mmost@
                ==> users.push(u)[j] == u,
{
    assert(users.push(u)[users.len() as int] == u);
    assert(forall|j: int| 0 <= j < users.len() ==> users.push(u)[j] == users[j]);
}

/// A second registration with an already admitted email is refused with
/// `EmailExists`, whatever its other fields, as long as its passwords
/// match and its handle is admissible; the store serializes attempts, so
/// this holds in whichever order two attempts land.
pub proof fn lemma_signup_same_email_refused(users: Seq<User>, f2: SignUpForm)
    requires
        has_email(users, f2.email@),
        f2.password@ == f2.password_repeat@,
        !spec_is_reserved(trunc(f2.handle@, 39)),
    ensures
        signup_error(users, f2) == Some(FormError::EmailExists),
{
}

} // verus!
