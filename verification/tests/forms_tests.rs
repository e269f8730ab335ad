use observ::forms::FormError;

fn round_trip(e: FormError) -> FormError {
    FormError::from_code(e.code().as_str())
}

#[test]
fn every_code_round_trips() {
    let codes = [
        FormError::Email,
        FormError::Password,
        FormError::Credentials,
        FormError::PasswordMismatch,
        FormError::EmailExists,
        FormError::GitExists,
        FormError::MmostExists,
        FormError::InvalidCode,
        FormError::InvalidDate,
        FormError::ReservedName,
        FormError::Other,
    ];
    for e in codes {
        assert_eq!(round_trip(e), e);
    }
}

#[test]
fn wire_tokens_are_stable() {
    assert_eq!(FormError::Email.code(), "email");
    assert_eq!(FormError::Password.code(), "password");
    assert_eq!(FormError::Credentials.code(), "credentials");
    assert_eq!(FormError::PasswordMismatch.code(), "mismatch");
    assert_eq!(FormError::EmailExists.code(), "emailExists");
    assert_eq!(FormError::GitExists.code(), "gitExists");
    assert_eq!(FormError::MmostExists.code(), "mmostExists");
    assert_eq!(FormError::InvalidCode.code(), "code");
    assert_eq!(FormError::InvalidDate.code(), "date");
    assert_eq!(FormError::ReservedName.code(), "reserved");
    assert_eq!(FormError::Other.code(), "other");
}

#[test]
fn unknown_tokens_decode_to_other() {
    assert_eq!(FormError::from_code("unknown-string"), FormError::Other);
    assert_eq!(FormError::from_code(""), FormError::Other);
    assert_eq!(FormError::from_code("EMAIL"), FormError::Other);
    assert_eq!(FormError::from_code("emailexists"), FormError::Other);
}

#[test]
fn reserved_words_are_rejected_case_insensitively() {
    assert_eq!(
        observ::forms::is_reserved("new"),
        Err(FormError::ReservedName)
    );
    assert_eq!(
        observ::forms::is_reserved("NEW"),
        Err(FormError::ReservedName)
    );
    assert_eq!(
        observ::forms::is_reserved("Start"),
        Err(FormError::ReservedName)
    );
    assert_eq!(
        observ::forms::is_reserved("rCoS"),
        Err(FormError::ReservedName)
    );
    assert_eq!(
        observ::forms::is_reserved("edit"),
        Err(FormError::ReservedName)
    );
}

#[test]
fn numeric_handles_are_rejected() {
    assert_eq!(
        observ::forms::is_reserved("42"),
        Err(FormError::ReservedName)
    );
    assert_eq!(observ::forms::is_reserved("0"), Err(FormError::ReservedName));
    assert_eq!(
        observ::forms::is_reserved("+7"),
        Err(FormError::ReservedName)
    );
}

#[test]
fn ordinary_handles_are_accepted() {
    assert_eq!(observ::forms::is_reserved("new-guy"), Ok("new-guy"));
    assert_eq!(observ::forms::is_reserved("alice"), Ok("alice"));
    // Too large for a machine integer, so it does not parse as one.
    assert_eq!(
        observ::forms::is_reserved("99999999999999999999999999"),
        Ok("99999999999999999999999999")
    );
    // A plus sign alone carries no digits.
    assert_eq!(observ::forms::is_reserved("+"), Ok("+"));
    assert_eq!(observ::forms::is_reserved(""), Ok(""));
}
