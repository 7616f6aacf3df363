use vstd::prelude::*;
use vstd::utf8::encode_utf8;

use crate::error::{is_error, ErrorT, Status};
use crate::middleware::auth::{
    base64_encoding, account_encoder, account_text, account_token, account_token_outcome, auth_start_is,
    authentication_result_is, base64_encoded_len, bcrypt_verify_outcome, check_password,
    colon_free, encoded_account_decodes, is_base64_token_of, token_decodable, try_account_decoder,
    AuthStart, AuthenticatedUser,
};
use crate::model::user::AuthInfo;

verus! {

/// The answer to a login request: the text sent back, and the address to
/// keep in the session cookie when the login succeeded.
pub struct LoginReply {
    pub reply: String,
    pub session_email: Option<String>,
}

/// Length of the base64 encoding of the token text of `account` fits in
/// memory.
pub open spec fn token_fits(account: AuthInfo) -> bool {
    base64_encoded_len(encode_utf8(account_text(account.email@, account.password@)).len() as int)
        <= usize::MAX
}

/// `r` answers the login of `input` against the stored `account`.
pub open spec fn login_reply_is(input: AuthInfo, account: Option<AuthInfo>, r: Option<LoginReply>) -> bool {
    match account {
        None => r matches Some(o) && o.reply@ == "No user found"@ && o.session_email is None,
        Some(a) => match bcrypt_verify_outcome(input.password@, a.password@) {
            None => r is None,
            Some(false) => r matches Some(o) && o.reply@ == "Password does't match account"@
                && o.session_email is None,
            Some(true) => if token_fits(a) {
                r matches Some(o) && o.reply@ == account_token(a.email@, a.password@)
                    && (o.session_email matches Some(s) && s@ == a.email@)
            } else {
                r is None
            },
        },
    }
}

/// `r` answers the login of `input` against `account`; a stored hash that
/// bcrypt could read holds no `:`, and a token handed out is the standard
/// base64 of the account text, which decodes back to it.
pub open spec fn login_result_is(input: AuthInfo, account: Option<AuthInfo>, r: Option<LoginReply>) -> bool {
    &&& login_reply_is(input, account, r)
    &&& account is Some && bcrypt_verify_outcome(input.password@, account->0.password@) is Some
        ==> colon_free(account->0.password@)
    &&& account is Some && r is Some && r->0.session_email is Some ==> is_base64_token_of(
        r->0.reply@,
        encode_utf8(account_text(account->0.email@, account->0.password@)),
    )
}

/// Logs `input` in against the account stored for its address: when the
/// password matches the stored hash, the reply is the account token (the
/// base64 of `email:hash`) and the address goes into the session. `None` where
/// the stored hash is no bcrypt hash or the token would not fit in memory
/// (inputs on which the login aborts).
pub fn login(input: &AuthInfo, account: Option<AuthInfo>) -> (r: Option<LoginReply>)
    ensures
        login_result_is(*input, account, r),
{
    match account {
        None => Some(LoginReply { reply: String::from_str("No user found"), session_email: None }),
        Some(t) => match check_password(&input.password, &t.password) {
            None => None,
            Some(false) => Some(
                LoginReply {
                    reply: String::from_str("Password does't match account"),
                    session_email: None,
                },
            ),
            Some(true) => {
                let mut details = t.email.clone();
                details.append(":");
                details.append(t.password.as_str());
                proof {
                    reveal_strlit(":");
                    assert(details@ =~= account_text(t.email@, t.password@));
                }
                let n = details.as_str().as_bytes().len();
                let encoded_len: u128 = if n % 3 == 0 {
                    (n / 3) as u128 * 4
                } else {
                    (n / 3) as u128 * 4 + 4
                };
                if encoded_len > usize::MAX as u128 {
                    return None;
                }
                let token = account_encoder(details);
                Some(LoginReply { reply: token, session_email: Some(t.email) })
            },
        },
    }
}

/// Lets a request read the account of `requested` only when the session
/// cookie holds that same address.
pub fn cookie_access(requested: &String, cookie_email: Option<String>) -> (r: Result<(), ErrorT>)
    ensures
        cookie_email is None ==> (r matches Err(e) && is_error(
            e,
            Status::NetworkAuthenticationRequired,
            "Please authorize again"@,
        )),
        cookie_email matches Some(c) ==> (c@ == requested@ ==> r is Ok),
        cookie_email matches Some(c) ==> (c@ != requested@ ==> (r matches Err(e) && is_error(
            e,
            Status::BadRequest,
            "Invalid user data"@,
        ))),
{
    match cookie_email {
        None => Err(ErrorT::new(Status::NetworkAuthenticationRequired, "Please authorize again")),
        Some(c) => {
            if c == *requested {
                Ok(())
            } else {
                Err(ErrorT::new(Status::BadRequest, "Invalid user data"))
            }
        },
    }
}

/// Whether the account token allows editing the account of `email`: its
/// address must be `email`. `None` where the token does not decode to an
/// account (inputs on which the edit aborts).
pub fn edit_permitted(token: String, email: &String) -> (r: Option<bool>)
    ensures
        r is Some <==> token_decodable(token@) && account_token_outcome(token@) is Ok,
        r matches Some(b) ==> (account_token_outcome(token@) matches Ok((e, p)) && b == (e == email@)),
{
    match try_account_decoder(token) {
        Some(Ok(decoded)) => Some(decoded.email == *email),
        _ => None,
    }
}

/// The text answered for a path that no route serves.
pub fn not_found_message(uri: &str) -> (message: String)
    ensures
        message@ == "Sorry, '"@ + uri@ + "' is not a valid path."@,
{
    let mut message = String::from_str("Sorry, '");
    message.append(uri);
    message.append("' is not a valid path.");
    message
}

/// A user logs in with the password whose hash is stored for the account:
/// the reply is the account's token and the address goes into the session.
pub proof fn stored_password_logs_in(input: AuthInfo, stored: AuthInfo, r: Option<LoginReply>)
    requires
        bcrypt_verify_outcome(input.password@, stored.password@) == Some(true),
        token_fits(stored),
        login_result_is(input, Some(stored), r),
    ensures
        r matches Some(o) && o.reply@ == account_token(stored.email@, stored.password@),
        r matches Some(o) && (o.session_email matches Some(s) && s@ == stored.email@),
{
}

/// The token that a login hands out authenticates later requests of the same
/// account, as long as its address holds no `:` (a stored hash that the login
/// accepted holds none).
pub proof fn issued_token_authenticates(
    input: AuthInfo,
    stored: AuthInfo,
    reply: LoginReply,
    header: Option<String>,
    start: AuthStart,
    r: Result<AuthenticatedUser, ErrorT>,
)
    requires
        colon_free(stored.email@),
        login_result_is(input, Some(stored), Some(reply)),
        reply.session_email is Some,
        header matches Some(t) && t@ == reply.reply@,
        reply.reply@.len() + 7 <= usize::MAX,
        auth_start_is(header, start),
        start matches AuthStart::Lookup { token, claimed } ==> authentication_result_is(
            token,
            claimed,
            Some(stored),
            r,
        ),
    ensures
        start matches AuthStart::Lookup { token, claimed } && claimed.email@ == stored.email@
            && claimed.password@ == stored.password@,
        r matches Ok(u) && u.token@ == reply.reply@,
{
    encoded_account_decodes(stored.email@, stored.password@, reply.reply@);
}

/// A login whose password matches the stored hash answers the base64 of
/// `email:hash` and puts the address into the session, whenever the length
/// of that base64 text fits in `usize`.
pub proof fn matching_password_gets_token(input: AuthInfo, stored: AuthInfo, r: Option<LoginReply>)
    requires
        call_ensures(login, (&input, Some(stored)), r),
        bcrypt_verify_outcome(input.password@, stored.password@) == Some(true),
        ({
            let n = encode_utf8(stored.email@ + seq![':'] + stored.password@).len();
            (if n % 3 == 0 { n / 3 * 4 } else { n / 3 * 4 + 4 }) <= usize::MAX
        }),
    ensures
        r matches Some(o) && o.reply@ == base64_encoding(
            encode_utf8(stored.email@ + seq![':'] + stored.password@),
        ),
        r matches Some(o) && (o.session_email matches Some(s) && s@ == stored.email@),
{
}

/// A login with a password that the stored hash refuses, or for an address
/// without an account, answers a fixed text and opens no session.
pub proof fn refused_login_opens_no_session(input: AuthInfo, account: Option<AuthInfo>, r: Option<LoginReply>)
    requires
        call_ensures(login, (&input, account), r),
        account is None || bcrypt_verify_outcome(input.password@, account->0.password@) == Some(false),
    ensures
        r matches Some(o) && o.session_email is None,
        account is None ==> (r matches Some(o) && o.reply@ == "No user found"@),
        account is Some ==> (r matches Some(o) && o.reply@ == "Password does't match account"@),
{
}

/// A login aborts only where the stored hash is no bcrypt hash, or the token
/// would be too long for `usize`.
pub proof fn login_aborts_only_on_bad_hash_or_size(input: AuthInfo, account: Option<AuthInfo>, r: Option<LoginReply>)
    requires
        call_ensures(login, (&input, account), r),
        r is None,
    ensures
        account is Some,
        bcrypt_verify_outcome(input.password@, account->0.password@) is None || ({
            let n = encode_utf8(account->0.email@ + seq![':'] + account->0.password@).len();
            (if n % 3 == 0 { n / 3 * 4 } else { n / 3 * 4 + 4 }) > usize::MAX
        }),
{
}

} // verus!
