use progigs::error::{ErrorT, Status};
use progigs::middleware::auth::verify_password;
use progigs::model::user::{
    check_email_available, found_or_not_found, insert_outcome, prepare_registration,
    to_lowercase, Input,
};

fn input(email: &str, password: &str) -> Input {
    Input {
        username: "sami".to_string(),
        email: email.to_string(),
        age: 30,
        password: password.to_string(),
        country: "NG".to_string(),
    }
}

fn refusal(r: Option<Result<progigs::model::user::NewUser, ErrorT>>) -> (Status, String) {
    match r {
        Some(Err(e)) => (e.status, e.message),
        _ => panic!("expected a refusal"),
    }
}

#[test]
fn short_password_is_refused_first() {
    assert_eq!(
        refusal(prepare_registration(&input("not an address", "1234567"))),
        (Status::ExpectationFailed, "Password is too short".to_string())
    );
    // Length counts bytes: four two-byte characters make eight bytes.
    assert_eq!(
        refusal(prepare_registration(&input("bad", "éééé"))),
        (Status::ExpectationFailed, "Email not valid".to_string())
    );
}

#[test]
fn invalid_email_is_refused() {
    assert_eq!(
        refusal(prepare_registration(&input("Sami@gmail.com", "longenough"))),
        (Status::ExpectationFailed, "Email not valid".to_string())
    );
}

#[test]
fn registration_hashes_the_password() {
    let u = prepare_registration(&input("sami@gmail.com", "longenough")).unwrap().ok().unwrap();
    assert_eq!(u.email, "sami@gmail.com");
    assert_eq!(u.username, "sami");
    assert_eq!(u.age, 30);
    assert_eq!(u.country, "NG");
    assert_ne!(u.password, "longenough");
    assert!(verify_password(&"longenough".to_string(), &u.password));
}

#[test]
fn lowercase_of_addresses() {
    assert_eq!(to_lowercase(&"Sami@GMail.COM".to_string()), "sami@gmail.com");
    assert_eq!(to_lowercase(&"ÀÉ".to_string()), "àé");
}

#[test]
fn taken_addresses_are_refused_ignoring_case() {
    let existing = vec!["other@x.io".to_string(), "SAMI@gmail.com".to_string()];
    let e = check_email_available(&"sami@Gmail.com".to_string(), &existing).unwrap_err();
    assert_eq!(e.status, Status::NotFound);
    assert_eq!(e.message, "User found for email: sami@Gmail.com");
    assert!(check_email_available(&"new@x.io".to_string(), &existing).is_ok());
    assert!(check_email_available(&"new@x.io".to_string(), &vec![]).is_ok());
}

#[test]
fn storage_outcomes() {
    assert_eq!(insert_outcome::<u8, ()>(Ok(7)).ok(), Some(7));
    let e = insert_outcome::<u8, &str>(Err("boom")).unwrap_err();
    assert_eq!((e.status.code(), e.message.as_str()), (404, "Check field and try again"));
    assert_eq!(found_or_not_found(Some(3)).ok(), Some(3));
    let e = found_or_not_found::<u8>(None).unwrap_err();
    assert_eq!((e.status.code(), e.message.as_str()), (404, "No user found"));
}

#[test]
fn category_lookup_outcomes() {
    assert_eq!(progigs::model::category::category_lookup(Some(5u8)).unwrap(), vec![5u8]);
    assert_eq!(progigs::model::category::category_lookup::<u8>(None).unwrap_err(), "not found");
}

#[test]
fn record_of_registration() {
    let data = input("sami@gmail.com", "longenough");
    let u = progigs::model::user::new_user_record(&data, "HASH".to_string());
    assert_eq!(
        (u.username.as_str(), u.email.as_str(), u.age, u.password.as_str(), u.country.as_str()),
        ("sami", "sami@gmail.com", 30, "HASH", "NG")
    );
}

#[test]
fn any_password_is_answered_against_a_fresh_hash() {
    let h = progigs::middleware::auth::hash_password(&"first".to_string()).unwrap();
    assert!(!verify_password(&"second".to_string(), &h));
}

#[test]
fn accepted_address_keeps_addresses_unique() {
    let mut stored = vec!["a@x.io".to_string()];
    let new = "B@x.io".to_string();
    assert!(check_email_available(&new, &stored).is_ok());
    stored.push(new);
    assert!(check_email_available(&"b@X.io".to_string(), &stored).is_err());
}
