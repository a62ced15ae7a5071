use sse_pubsub::credential::constant_time_eq;
use sse_pubsub::credential;
use sse_pubsub::credential::hash_password;
use sse_pubsub::credential::verify;
use sse_pubsub::credential::CredentialRecord;
use sse_pubsub::credential::DEFAULT_ITERATIONS;
use sse_pubsub::error::ErrorKind;
use sse_pubsub::error::SseError;

#[test]
fn it_works() {
    let var = hash_password("bobss", " fgdfgsalt").unwrap();
    println!("yo {}", var);
    let s: String = String::from("bob");
    if let Ok(something) = hash_password(s, "x".repeat(100)) {
        println!("was ok {}", something);
    } else {
        println!("yo error");
    }
}

#[test]
fn hash_password_gives_the_known_hash() {
    let hash = hash_password("bobss", " fgdfgsalt").unwrap();
    assert_eq!(hash, "3O3eiwtbKmNZKRUfHj+pTfLLRdnECKCEgYoZk3834ZU");
}

#[test]
fn hash_password_rejects_a_long_salt() {
    let r = hash_password(String::from("bob"), "x".repeat(100));
    assert!(matches!(r, Err(SseError::Pbkdf2Error { .. })));
}

#[test]
fn hash_password_uses_the_default_rounds_of_the_crate() {
    assert_eq!(DEFAULT_ITERATIONS, pbkdf2::Params::default().rounds);
    let by_default = hash_password("hunter42", "some salt").unwrap();
    let by_count = credential::derive("hunter42", "some salt", DEFAULT_ITERATIONS).unwrap();
    assert_eq!(by_default, by_count);
}

#[test]
fn derive_matches_the_reference_vectors() {
    assert_eq!(
        credential::derive("password", "salt", 1).unwrap(),
        "Eg+2z/z4syxD5yJSVsT4N6hlSMkszDVICAWYfLcL4Xs"
    );
    assert_eq!(
        credential::derive("password", "salt", 2).unwrap(),
        "rk0Mla9rRtMtCt/5KPBt0CowP47zwlHf1uLYWpVHTEM"
    );
    assert_eq!(
        credential::derive("hunter42", "abc", 4096).unwrap(),
        "H1jduqJbma8XBIhIGHgmW3dmzB+wWs8YG0NLMfmVzqQ"
    );
    assert_eq!(credential::derive("", "salt", 1).unwrap(), "8TXCeZO6+Ydzxc20ClcGzmo0XN5hsACmeFhlDNajJNc");
}

#[test]
fn derive_is_not_the_identity_on_its_arguments() {
    let hash = credential::derive("password", "salt", 1).unwrap();
    assert_ne!(hash, "password");
    assert_ne!(hash, "salt");
    assert_eq!(hash.len(), 43);
}

#[test]
fn derive_twice_gives_the_same_hash() {
    let first = credential::derive("s3cret", "pepper-and-salt", 100).unwrap();
    let second = credential::derive("s3cret", "pepper-and-salt", 100).unwrap();
    assert_eq!(first, second);
    assert_eq!(first, "PvbXvKBftV/yHom8lLThf6zymDg4vW2/2jj0Qe9G5YI");
}

#[test]
fn derive_depends_on_secret_salt_and_rounds() {
    let base = credential::derive("s3cret", "pepper-and-salt", 100).unwrap();
    assert_eq!(
        credential::derive("s3creu", "pepper-and-salt", 100).unwrap(),
        "C/jCDBtkhXPV7HHZNVOtB7VwDyWPwSXEsaHlM/EHYtY"
    );
    assert_ne!(base, credential::derive("s3cret", "pepper-and-salu", 100).unwrap());
    assert_ne!(base, credential::derive("s3cret", "pepper-and-salt", 101).unwrap());
}

#[test]
fn derive_rejects_zero_iterations() {
    let r = credential::derive("password", "salt", 0);
    assert!(matches!(r, Err(SseError::CredentialError)));
    assert_eq!(r.unwrap_err().kind(), ErrorKind::Credential);
}

#[test]
fn derive_accepts_salts_of_three_to_forty_eight_bytes() {
    assert!(matches!(credential::derive("password", "", 1), Err(SseError::Pbkdf2Error { .. })));
    assert!(matches!(credential::derive("password", "ab", 1), Err(SseError::Pbkdf2Error { .. })));
    assert!(credential::derive("password", "abc", 1).is_ok());
    assert_eq!(
        credential::derive("password", &"x".repeat(48), 1).unwrap(),
        "8bumoZcC0CIr/k2b689mPxjynKB+OstC1/Pcl58U0VU"
    );
    let too_long = credential::derive("password", &"x".repeat(49), 1);
    assert!(matches!(too_long, Err(SseError::Pbkdf2Error { .. })));
    assert_eq!(too_long.unwrap_err().kind(), ErrorKind::Credential);
}

#[test]
fn derive_counts_the_bytes_of_a_salt_not_its_characters() {
    // Two characters, four bytes.
    assert!(credential::derive("password", "éé", 1).is_ok());
    // Twenty-five characters, fifty bytes.
    assert!(credential::derive("password", &"é".repeat(25), 1).is_err());
}

#[test]
fn verify_accepts_the_secret_and_no_other() {
    let record = CredentialRecord::create("s3cret", "pepper-and-salt", 100).unwrap();
    assert_eq!(record.salt, "pepper-and-salt");
    assert_eq!(record.iterations, 100);
    assert_eq!(record.derived_hash, "PvbXvKBftV/yHom8lLThf6zymDg4vW2/2jj0Qe9G5YI");
    assert_eq!(verify("s3cret", &record).unwrap(), true);
    assert_eq!(verify("s3creu", &record).unwrap(), false);
    assert_eq!(verify("S3cret", &record).unwrap(), false);
    assert_eq!(verify("s3cret ", &record).unwrap(), false);
    assert_eq!(verify("", &record).unwrap(), false);
}

#[test]
fn verify_compares_with_the_stored_hash() {
    let mut record = CredentialRecord::create("s3cret", "pepper-and-salt", 100).unwrap();
    record.derived_hash.pop();
    assert_eq!(verify("s3cret", &record).unwrap(), false);
    record.derived_hash.push('J');
    assert_eq!(verify("s3cret", &record).unwrap(), false);
    record.derived_hash.pop();
    record.derived_hash.push('I');
    assert_eq!(verify("s3cret", &record).unwrap(), true);
    record.derived_hash.push('I');
    assert_eq!(verify("s3cret", &record).unwrap(), false);
}

#[test]
fn verify_reports_a_record_that_cannot_be_derived_with() {
    let no_rounds = CredentialRecord {
        salt: String::from("pepper-and-salt"),
        derived_hash: String::from("PvbXvKBftV/yHom8lLThf6zymDg4vW2/2jj0Qe9G5YI"),
        iterations: 0,
    };
    assert!(matches!(verify("s3cret", &no_rounds), Err(SseError::CredentialError)));
    let short_salt = CredentialRecord {
        salt: String::from("pe"),
        derived_hash: String::from("PvbXvKBftV/yHom8lLThf6zymDg4vW2/2jj0Qe9G5YI"),
        iterations: 100,
    };
    assert!(matches!(verify("s3cret", &short_salt), Err(SseError::Pbkdf2Error { .. })));
}

#[test]
fn create_fails_as_derive_does() {
    assert!(matches!(
        CredentialRecord::create("s3cret", "pepper-and-salt", 0),
        Err(SseError::CredentialError)
    ));
    assert!(matches!(
        CredentialRecord::create("s3cret", "p", 100),
        Err(SseError::Pbkdf2Error { .. })
    ));
}

#[test]
fn constant_time_eq_is_equality() {
    assert!(constant_time_eq(b"", b""));
    assert!(constant_time_eq(b"abc", b"abc"));
    assert!(!constant_time_eq(b"abc", b"abd"));
    assert!(!constant_time_eq(b"abc", b"bbc"));
    assert!(!constant_time_eq(b"abc", b"ab"));
    assert!(!constant_time_eq(b"ab", b"abc"));
    assert!(!constant_time_eq(b"", b"a"));
    assert!(!constant_time_eq(b"a", b""));
    assert!(!constant_time_eq(&[0u8, 1], &[0u8, 129]));
}

#[test]
fn errors_are_reported_under_their_kind() {
    assert_eq!(SseError::ParseError.kind(), ErrorKind::Validation);
    assert_eq!(SseError::PayloadTooLarge.kind(), ErrorKind::Validation);
    assert_eq!(SseError::CredentialError.kind(), ErrorKind::Credential);
    assert_eq!(SseError::ConnectionError.kind(), ErrorKind::Connection);
    assert_eq!(SseError::InternalError.kind(), ErrorKind::Internal);
    let from_crate = SseError::from(pbkdf2::password_hash::Error::Crypto);
    assert!(matches!(
        from_crate,
        SseError::Pbkdf2Error {
            source: sse_pubsub::error::DisplayError(pbkdf2::password_hash::Error::Crypto)
        }
    ));
    assert_eq!(from_crate.kind(), ErrorKind::Credential);
}
