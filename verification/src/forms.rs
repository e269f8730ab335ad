//! The closed vocabulary of form-validation errors and the reserved-name
//! rule applied to candidate handles.
//!
//! Each error has a stable short string token so that it can travel through
//! a redirect URL and be decoded again on the form page.

use vstd::prelude::*;

use crate::strutil::{lower, parses_as_usize, parses_as_integer, str_eq, str_eq_ci};

verus! {

/// An error in an HTML form, surfaced to the user on the originating page.
#[derive(Debug, Clone, Copy, PartialEq, Eq, Structural)]
pub enum FormError {
    /// The email was incorrect or missing.
    Email,
    /// The password was incorrect or missing.
    Password,
    /// Bad credentials without saying whether email or password was wrong.
    Credentials,
    /// The password and its repeat are not the same.
    PasswordMismatch,
    /// The email is already in use by another identity.
    EmailExists,
    /// The code-hosting handle is already in use by another identity.
    GitExists,
    /// The external-messaging handle is already in use by another identity.
    MmostExists,
    /// An attendance code does not exist or belongs to a non-affiliated member.
    InvalidCode,
    /// A date field was in the wrong format or invalid.
    InvalidDate,
    /// The chosen name is reserved and cannot be used.
    ReservedName,
    /// Some other unknown error.
    Other,
}

/// The wire token of each error code.
pub open spec fn code_spec(e: FormError) -> Seq<char> {
    match e {
        FormError::Email => "email"@,
        FormError::Password => "password"@,
        FormError::Credentials => "credentials"@,
        FormError::PasswordMismatch => "mismatch"@,
        FormError::EmailExists => "emailExists"@,
        FormError::GitExists => "gitExists"@,
        FormError::MmostExists => "mmostExists"@,
        FormError::InvalidCode => "code"@,
        FormError::InvalidDate => "date"@,
        FormError::ReservedName => "reserved"@,
        FormError::Other => "other"@,
    }
}

/// The error code a wire token decodes to; unrecognized tokens decode to
/// `Other`.
pub open spec fn decode_spec(s: Seq<char>) -> FormError {
    if s == "email"@ {
        FormError::Email
    } else if s == "password"@ {
        FormError::Password
    } else if s == "credentials"@ {
        FormError::Credentials
    } else if s == "mismatch"@ {
        FormError::PasswordMismatch
    } else if s == "emailExists"@ {
        FormError::EmailExists
    } else if s == "gitExists"@ {
        FormError::GitExists
    } else if s == "mmostExists"@ {
        FormError::MmostExists
    } else if s == "code"@ {
        FormError::InvalidCode
    } else if s == "date"@ {
        FormError::InvalidDate
    } else if s == "reserved"@ {
        FormError::ReservedName
    } else {
        FormError::Other
    }
}

impl FormError {
    /// The short string token this error is carried as in a redirect URL.
    pub fn code(&self) -> (r: String)
        ensures
            r@ == code_spec(*self),
    {
        match self {
            FormError::Email => String::from_str("email"),
            FormError::Password => String::from_str("password"),
            FormError::Credentials => String::from_str("credentials"),
            FormError::PasswordMismatch => String::from_str("mismatch"),
            FormError::EmailExists => String::from_str("emailExists"),
            FormError::GitExists => String::from_str("gitExists"),
            FormError::MmostExists => String::from_str("mmostExists"),
            FormError::InvalidCode => String::from_str("code"),
            FormError::InvalidDate => String::from_str("date"),
            FormError::ReservedName => String::from_str("reserved"),
            FormError::Other => String::from_str("other"),
        }
    }

    /// Decodes a wire token back to an error code; anything unrecognized
    /// becomes `Other`.
    pub fn from_code(s: &str) -> (r: FormError)
        ensures
            r == decode_spec(s@),
    {
        if str_eq(s, "email") {
            FormError::Email
        } else if str_eq(s, "password") {
            FormError::Password
        } else if str_eq(s, "credentials") {
            FormError::Credentials
        } else if str_eq(s, "mismatch") {
            FormError::PasswordMismatch
        } else if str_eq(s, "emailExists") {
            FormError::EmailExists
        } else if str_eq(s, "gitExists") {
            FormError::GitExists
        } else if str_eq(s, "mmostExists") {
            FormError::MmostExists
        } else if str_eq(s, "code") {
            FormError::InvalidCode
        } else if str_eq(s, "date") {
            FormError::InvalidDate
        } else if str_eq(s, "reserved") {
            FormError::ReservedName
        } else {
            FormError::Other
        }
    }
}

/// Every error code round-trips through its wire token.
pub proof fn lemma_code_round_trip(e: FormError)
    ensures
        decode_spec(code_spec(e)) == e,
{
    reveal_strlit("email");
    reveal_strlit("password");
    reveal_strlit("credentials");
    reveal_strlit("mismatch");
    reveal_strlit("emailExists");
    reveal_strlit("gitExists");
    reveal_strlit("mmostExists");
    reveal_strlit("code");
    reveal_strlit("date");
    reveal_strlit("reserved");
    reveal_strlit("other");
    assert("email"@.len() == 5);
    assert("password"@.len() == 8);
    assert("credentials"@.len() == 11);
    assert("mismatch"@.len() == 8);
    assert("emailExists"@.len() == 11);
    assert("gitExists"@.len() == 9);
    assert("mmostExists"@.len() == 11);
    assert("code"@.len() == 4);
    assert("date"@.len() == 4);
    assert("reserved"@.len() == 8);
    assert("other"@.len() == 5);
    assert("password"@[0] == 'p' && "mismatch"@[0] == 'm' && "reserved"@[0] == 'r');
    assert("email"@[0] == 'e' && "other"@[0] == 'o');
    assert("credentials"@[0] == 'c' && "emailExists"@[0] == 'e' && "mmostExists"@[0] == 'm');
    assert("code"@[0] == 'c' && "date"@[0] == 'd');
    assert("credentials"@[1] == 'r' && "emailExists"@[1] == 'm' && "mmostExists"@[1] == 'm');
}

/// A token outside the closed vocabulary decodes to `Other`.
pub proof fn lemma_decode_unknown(s: Seq<char>)
    requires
        forall|e: FormError| s != code_spec(e),
    ensures
        decode_spec(s) == FormError::Other,
{
    assert(s != code_spec(FormError::Email));
    assert(s != code_spec(FormError::Password));
    assert(s != code_spec(FormError::Credentials));
    assert(s != code_spec(FormError::PasswordMismatch));
    assert(s != code_spec(FormError::EmailExists));
    assert(s != code_spec(FormError::GitExists));
    assert(s != code_spec(FormError::MmostExists));
    assert(s != code_spec(FormError::InvalidCode));
    assert(s != code_spec(FormError::InvalidDate));
    assert(s != code_spec(FormError::ReservedName));
}

/// A handle may not be a reserved word (ignoring ASCII case) and may not
/// read as a plain integer, which would collide with numeric identity
/// lookups in URLs.
pub open spec fn spec_is_reserved(w: Seq<char>) -> bool {
    lower(w) == "new"@ || lower(w) == "start"@ || lower(w) == "rcos"@ || lower(w) == "edit"@
        || parses_as_usize(w)
}

/// Accepts a candidate handle, or rejects it with `ReservedName` when it is
/// a reserved word or reads as a plain integer.
pub fn is_reserved(word: &str) -> (r: Result<&str, FormError>)
    ensures
        spec_is_reserved(word@) ==> r == Err::<&str, FormError>(FormError::ReservedName),
        !spec_is_reserved(word@) ==> (r matches Ok(w) && w@ == word@),
{
    proof {
        reveal_strlit("new");
        reveal_strlit("start");
        reveal_strlit("rcos");
        reveal_strlit("edit");
        assert(lower("new"@) =~= "new"@);
        assert(lower("start"@) =~= "start"@);
        assert(lower("rcos"@) =~= "rcos"@);
        assert(lower("edit"@) =~= "edit"@);
    }
    if str_eq_ci(word, "new") || str_eq_ci(word, "start") || str_eq_ci(word, "rcos") || str_eq_ci(
        word,
        "edit",
    ) || parses_as_integer(word) {
        Err(FormError::ReservedName)
    } else {
        Ok(word)
    }
}

} // verus!
