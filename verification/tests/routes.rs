use progigs::connection::MyError;
use progigs::error::{ErrorT, Status};
use progigs::middleware::auth::{account_decoder, AuthStart, AuthenticatedUser};
use progigs::model::user::AuthInfo;
use progigs::routes::category::Input;
use progigs::routes::user::{cookie_access, edit_permitted, login, not_found_message};

const OPE_HASH: &str = "$2b$12$ZcMgtsJVO8cIcI5zzkDKgOqsIBJBoQ.bor2GivRCELo2ptoMMZhfm";

fn auth(email: &str, password: &str) -> AuthInfo {
    AuthInfo { email: email.to_string(), password: password.to_string() }
}

#[test]
fn login_replies() {
    let r = login(&auth("a@b.co", "Ope"), None).unwrap();
    assert_eq!(r.reply, "No user found");
    assert!(r.session_email.is_none());

    let r = login(&auth("a@b.co", "wrong"), Some(auth("a@b.co", OPE_HASH))).unwrap();
    assert_eq!(r.reply, "Password does't match account");
    assert!(r.session_email.is_none());

    assert!(login(&auth("a@b.co", "Ope"), Some(auth("a@b.co", "no hash"))).is_none());

    let r = login(&auth("a@b.co", "Ope"), Some(auth("a@b.co", OPE_HASH))).unwrap();
    assert_eq!(r.session_email.as_deref(), Some("a@b.co"));
    let decoded = account_decoder(r.reply.clone()).unwrap();
    assert_eq!(decoded.email, "a@b.co");
    assert_eq!(decoded.password, OPE_HASH);
}

#[test]
fn login_token_is_accepted_law() {
    let stored = auth("sami@gmail.com", OPE_HASH);
    let r = login(&auth("sami@gmail.com", "Ope"), Some(stored.clone())).unwrap();
    let (token, claimed) = match AuthenticatedUser::begin_authentication(Some(r.reply)) {
        AuthStart::Lookup { token, claimed } => (token, claimed),
        _ => panic!("the issued token must decode"),
    };
    assert_eq!(claimed.email, "sami@gmail.com");
    let user = AuthenticatedUser::complete_authentication(token.clone(), &claimed, Some(stored))
        .ok()
        .unwrap();
    assert_eq!(user.token, token);
}

#[test]
fn cookie_access_cases() {
    let e = cookie_access(&"a@b.co".to_string(), None).unwrap_err();
    assert_eq!((e.status.code(), e.message.as_str()), (511, "Please authorize again"));
    let e = cookie_access(&"a@b.co".to_string(), Some("c@d.co".to_string())).unwrap_err();
    assert_eq!((e.status.code(), e.message.as_str()), (400, "Invalid user data"));
    assert!(cookie_access(&"a@b.co".to_string(), Some("a@b.co".to_string())).is_ok());
}

#[test]
fn edit_permission() {
    assert_eq!(edit_permitted("T25vamE6T1BF".to_string(), &"Onoja".to_string()), Some(true));
    assert_eq!(edit_permitted("T25vamE6T1BF".to_string(), &"onoja".to_string()), Some(false));
    assert_eq!(edit_permitted("!!!!".to_string(), &"Onoja".to_string()), None);
}

#[test]
fn not_found_text() {
    assert_eq!(not_found_message("/nope"), "Sorry, '/nope' is not a valid path.");
}

#[test]
fn error_bodies_and_codes() {
    let e = ErrorT { status: Status::Forbidden, message: "Forbidden X-Token Token".to_string() };
    assert_eq!(e.response_body(), "Bad: Forbidden X-Token Token");
    let codes: Vec<u16> = [
        Status::NonAuthoritativeInformation,
        Status::BadRequest,
        Status::Forbidden,
        Status::NotFound,
        Status::ExpectationFailed,
        Status::NetworkAuthenticationRequired,
    ]
    .iter()
    .map(|s| s.code())
    .collect();
    assert_eq!(codes, vec![203, 400, 403, 404, 417, 511]);
    assert_eq!(MyError::NotConnected, MyError::NotConnected);
    let i = Input { name: "books".to_string() };
    assert_eq!(i.name, "books");
}
