use progigs::error::Status;
use progigs::middleware::auth::{
    account_decoder, account_encoder, account_from_bytes, check_password, hash_password,
    try_account_decoder, verify_password, AccountInfo, AuthStart, AuthenticatedUser,
};
use progigs::model::user::AuthInfo;

const OPE_HASH: &str = "$2b$12$ZcMgtsJVO8cIcI5zzkDKgOqsIBJBoQ.bor2GivRCELo2ptoMMZhfm";

#[test]
fn hash() {
    println!("{}", hash_password(&"Ope".to_string()).unwrap())
}

#[test]
fn testhasher() {
    assert_eq!(
        true,
        verify_password(&"Ope".to_string(), &OPE_HASH.to_string()),
    )
}

#[test]
fn code_test() {
    let result = account_encoder("Onoja:OPE".to_string());
    println!("{}", result)
}

#[test]
fn decode_test() {
    let r = account_decoder("T25vamE6T1BF".to_string()).unwrap();
    println!("{:?}", r)
}

#[test]
fn encoder_gives_standard_base64() {
    assert_eq!(account_encoder("Onoja:OPE".to_string()), "T25vamE6T1BF");
    assert_eq!(account_encoder("".to_string()), "");
    assert_eq!(account_encoder("a".to_string()), "YQ==");
    assert_eq!(account_encoder("ab".to_string()), "YWI=");
}

#[test]
fn decoder_splits_fields() {
    let r = account_decoder("T25vamE6T1BF".to_string()).unwrap();
    assert_eq!(r.email, "Onoja");
    assert_eq!(r.password, "OPE");
}

#[test]
fn decoder_takes_second_field_only() {
    let token = account_encoder("a@b.co:pw:extra".to_string());
    let r = account_decoder(token).unwrap();
    assert_eq!(r.email, "a@b.co");
    assert_eq!(r.password, "pw");
}

#[test]
fn decoder_empty_fields() {
    let r = account_decoder(account_encoder(":".to_string())).unwrap();
    assert_eq!(r.email, "");
    assert_eq!(r.password, "");
}

#[test]
fn decoder_refuses_bad_base64() {
    assert_eq!(account_decoder("!!!!".to_string()).unwrap_err(), "Token not decodeable");
    assert_eq!(account_decoder("T25vamE6T1B".to_string()).unwrap_err(), "Token not decodeable");
}

#[test]
fn decoder_refuses_non_utf8() {
    // "/zo=" is the encoding of the bytes 0xff 0x3a (0x3a is ':').
    assert_eq!(account_decoder("/zo=".to_string()).unwrap_err(), "Invalid Account");
}

#[test]
fn try_decoder_flags_text_without_colon() {
    let token = account_encoder("no-colon-here".to_string());
    assert!(try_account_decoder(token).is_none());
    assert!(matches!(try_account_decoder("!!!!".to_string()), Some(Err(_))));
    let ok = try_account_decoder("T25vamE6T1BF".to_string()).unwrap().unwrap();
    assert_eq!(ok.email, "Onoja");
}

#[test]
fn account_from_bytes_cases() {
    let a = account_from_bytes("x:y".as_bytes()).unwrap();
    assert_eq!((a.email.as_str(), a.password.as_str()), ("x", "y"));
    let b = account_from_bytes("é:ü:z".as_bytes()).unwrap();
    assert_eq!((b.email.as_str(), b.password.as_str()), ("é", "ü"));
    assert_eq!(account_from_bytes(&[0xc3, 0x28, b':']).unwrap_err(), "Invalid Account");
}

#[test]
fn token_roundtrip_law() {
    for (email, password) in [("sami@gmail.com", OPE_HASH), ("", ""), ("ünï", "p ass")] {
        let token = account_encoder(format!("{}:{}", email, password));
        let r = account_decoder(token).unwrap();
        assert_eq!(r.email, email);
        assert_eq!(r.password, password);
    }
}

#[test]
fn hashed_password_verifies_law() {
    let p = "correct horse".to_string();
    let h = hash_password(&p).unwrap();
    assert_eq!(h.len(), 60);
    assert!(h.starts_with("$2b$12$"));
    assert!(!h.contains(':'));
    assert!(verify_password(&p, &h));
    assert!(!verify_password(&"wrong horse".to_string(), &h));
}

#[test]
fn check_password_cases() {
    assert_eq!(check_password(&"Ope".to_string(), &OPE_HASH.to_string()), Some(true));
    assert_eq!(check_password(&"ope".to_string(), &OPE_HASH.to_string()), Some(false));
    assert_eq!(check_password(&"Ope".to_string(), &"not a hash".to_string()), None);
}

fn refused(s: AuthStart) -> (u16, String) {
    match s {
        AuthStart::Refused(e) => (e.status.code(), e.message),
        _ => panic!("expected a refusal"),
    }
}

#[test]
fn begin_authentication_cases() {
    assert_eq!(
        refused(AuthenticatedUser::begin_authentication(None)),
        (403, "No X-Token Token Provided".to_string())
    );
    assert_eq!(
        refused(AuthenticatedUser::begin_authentication(Some("%%%%".to_string()))),
        (403, "Forbidden X-Token Token".to_string())
    );
    assert_eq!(
        refused(AuthenticatedUser::begin_authentication(Some("/zo=".to_string()))),
        (403, "Forbidden X-Token Token".to_string())
    );
    let no_colon = account_encoder("abc".to_string());
    assert!(matches!(
        AuthenticatedUser::begin_authentication(Some(no_colon)),
        AuthStart::Aborted
    ));
    match AuthenticatedUser::begin_authentication(Some("T25vamE6T1BF".to_string())) {
        AuthStart::Lookup { token, claimed } => {
            assert_eq!(token, "T25vamE6T1BF");
            assert_eq!(claimed.email, "Onoja");
            assert_eq!(claimed.password, "OPE");
        }
        _ => panic!("expected a lookup"),
    }
}

#[test]
fn complete_authentication_cases() {
    let claimed = AccountInfo { email: "Onoja".to_string(), password: "OPE".to_string() };
    let e = AuthenticatedUser::complete_authentication("t".to_string(), &claimed, None)
        .err()
        .unwrap();
    assert_eq!(e.status, Status::NotFound);
    assert_eq!(e.message, "Account Does Not Exist");
    let other = AuthInfo { email: "Onoja".to_string(), password: "other".to_string() };
    let e = AuthenticatedUser::complete_authentication("t".to_string(), &claimed, Some(other))
        .err()
        .unwrap();
    assert_eq!(e.status.code(), 203);
    assert_eq!(e.message, "Unauthorized");
    let same = AuthInfo { email: "Onoja".to_string(), password: "OPE".to_string() };
    let u = AuthenticatedUser::complete_authentication("t".to_string(), &claimed, Some(same))
        .ok()
        .unwrap();
    assert_eq!(u.token, "t");
}

#[test]
fn token_shape() {
    for text in ["", "a", "ab", "abc", "Onoja:OPE", "é:ü"] {
        let token = account_encoder(text.to_string());
        assert_eq!(token.len(), (text.len() + 2) / 3 * 4);
        assert!(token
            .chars()
            .all(|c| c.is_ascii_alphanumeric() || c == '+' || c == '/' || c == '='));
    }
}

#[test]
fn encoder_output_decodes_back() {
    for (e, p) in [("a@b.co", "x"), ("", "pw"), ("ünï", "")] {
        let token = account_encoder(format!("{}:{}", e, p));
        let r = account_decoder(token).unwrap();
        assert_eq!((r.email.as_str(), r.password.as_str()), (e, p));
    }
}
