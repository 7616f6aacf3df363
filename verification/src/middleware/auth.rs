use vstd::prelude::*;
use vstd::string::StringSliceAdditionalSpecFns;
use vstd::utf8::{
    decode_utf8, encode_utf8, encode_utf8_decode_utf8, encode_utf8_valid_utf8, is_ascii_chars,
    is_ascii_chars_encode_utf8, valid_utf8,
};

use crate::error::{is_error, ErrorT, Status};
use crate::model::user::AuthInfo;

verus! {

/// The text that `base64::encode` (standard alphabet, with padding) makes of
/// `bytes`.
pub uninterp spec fn base64_encoding(bytes: Seq<u8>) -> Seq<char>;

/// What `base64::decode` (standard alphabet, with padding) makes of `text`:
/// the bytes, or `None` where it reports an error.
pub uninterp spec fn base64_decoding(text: Seq<char>) -> Option<Seq<u8>>;

/// What `bcrypt::verify` answers for `password` and `hash`: whether the
/// password matches, or `None` where it reports an error (a hash that it
/// cannot parse).
pub uninterp spec fn bcrypt_verify_outcome(password: Seq<char>, hash: Seq<char>) -> Option<bool>;

/// Length of the padded base64 encoding of `n` bytes.
pub open spec fn base64_encoded_len(n: int) -> int {
    if n % 3 == 0 {
        n / 3 * 4
    } else {
        n / 3 * 4 + 4
    }
}

/// A character of standard padded base64 text: `A-Z`, `a-z`, `0-9`, `+`, `/`
/// and the padding `=`.
pub open spec fn is_base64_char(c: char) -> bool {
    ||| ('A' <= c && c <= 'Z')
    ||| ('a' <= c && c <= 'z')
    ||| ('0' <= c && c <= '9')
    ||| c == '+'
    ||| c == '/'
    ||| c == '='
}

/// A character of the alphabet in which bcrypt writes salts and digests.
pub open spec fn is_bcrypt_char(c: char) -> bool {
    ||| c == '.'
    ||| c == '/'
    ||| ('A' <= c && c <= 'Z')
    ||| ('a' <= c && c <= 'z')
    ||| ('0' <= c && c <= '9')
}

/// A bcrypt hash in the `$2b$` format with cost 12: the prefix, then 22
/// characters of salt and 31 of digest.
pub open spec fn is_default_cost_hash(h: Seq<char>) -> bool {
    &&& h.len() == 60
    &&& h.take(7) == "$2b$12$"@
    &&& forall|i: int| 7 <= i < 60 ==> is_bcrypt_char(#[trigger] h[i])
}

/// `base64::encode`: the standard padded encoding of `bytes`, four characters
/// of the standard alphabet (or `=`) for every started group of three bytes;
/// `base64::decode` gives the bytes back from it.
/// It panics only when the length of the encoding overflows `usize`.
#[verifier::external_body]
fn base64_encode(bytes: &[u8]) -> (text: String)
    requires
        base64_encoded_len(bytes@.len() as int) <= usize::MAX,
    ensures
        text@ == base64_encoding(bytes@),
        base64_decoding(text@) == Some(bytes@),
        text@.len() == base64_encoded_len(bytes@.len() as int),
        forall|i: int| 0 <= i < text@.len() ==> is_base64_char(#[trigger] text@[i]),
{
    base64::encode(bytes)
}

/// `base64::decode`: the bytes that `text` encodes, or `None` on a decoding
/// error. Decoding the encoding of some bytes gives those bytes back. It
/// panics only when the length of `text` plus 7 overflows `usize`.
#[verifier::external_body]
fn base64_decode(text: &str) -> (bytes: Option<Vec<u8>>)
    requires
        text.spec_bytes().len() + 7 <= usize::MAX,
    ensures
        bytes matches Some(v) ==> base64_decoding(text@) == Some(v@),
        bytes is None <==> base64_decoding(text@) is None,
        forall|b: Seq<u8>| #[trigger] base64_encoding(b) == text@ ==> bytes is Some && bytes->0@ == b,
{
    match base64::decode(text) {
        Ok(v) => Some(v),
        Err(_) => None,
    }
}

/// `std::str::from_utf8`: the same bytes read as text, or `None` where they
/// are not UTF-8.
#[verifier::external_body]
fn utf8_text(bytes: &[u8]) -> (text: Option<&str>)
    ensures
        text is Some <==> valid_utf8(bytes@),
        text matches Some(s) ==> s.spec_bytes() == bytes@,
{
    match std::str::from_utf8(bytes) {
        Ok(s) => Some(s),
        Err(_) => None,
    }
}

/// `bcrypt::hash` with `bcrypt::DEFAULT_COST`: a hash of `password` with a
/// random salt, or `None` where no random salt could be had. A hash it makes
/// is in the `$2b$12$` format, `bcrypt::verify` accepts the password against
/// it, and `bcrypt::verify` answers (without error) for any password against
/// it. Which salt it draws is left unsaid.
#[verifier::external_body]
fn bcrypt_hash(password: &str) -> (hash: Option<String>)
    ensures
        hash matches Some(h) ==> bcrypt_verify_outcome(password@, h@) == Some(true)
            && is_default_cost_hash(h@),
        hash matches Some(h) ==> forall|q: Seq<char>| #[trigger] bcrypt_verify_outcome(q, h@) is Some,
{
    match bcrypt::hash(password, bcrypt::DEFAULT_COST) {
        Ok(h) => Some(h),
        Err(_) => None,
    }
}

/// `bcrypt::verify`: whether `password` matches `hash`, or `None` where the
/// hash cannot be parsed. A hash that it answers for holds no `:`: it is made
/// of `$` separators, the version, a decimal cost, and salt and digest in the
/// bcrypt alphabet.
#[verifier::external_body]
fn bcrypt_verify(password: &str, hash: &str) -> (matches: Option<bool>)
    ensures
        matches == bcrypt_verify_outcome(password@, hash@),
        matches is Some ==> colon_free(hash@),
{
    match bcrypt::verify(password, hash) {
        Ok(b) => Some(b),
        Err(_) => None,
    }
}

/// A request that presented a valid account token.
#[derive(Debug)]
pub struct AuthenticatedUser {
    pub token: String,
}

/// A user name and password.
#[derive(Debug)]
pub struct Credentials {
    pub username: String,
    pub password: String,
}

/// The e-mail address and password hash carried by an account token.
#[derive(Debug)]
pub struct AccountInfo {
    pub email: String,
    pub password: String,
}

/// `s` holds no `:`.
pub open spec fn colon_free(s: Seq<char>) -> bool {
    forall|i: int| 0 <= i < s.len() ==> s[i] != ':'
}

/// Position of the first `:` of `s`, or its length when it has none.
pub open spec fn colon_index(s: Seq<char>) -> nat
    decreases s.len(),
{
    if s.len() == 0 {
        0
    } else if s[0] == ':' {
        0
    } else {
        1 + colon_index(s.drop_first())
    }
}

/// The text that an account token encodes: `email:password`.
pub open spec fn account_text(email: Seq<char>, password: Seq<char>) -> Seq<char> {
    email + seq![':'] + password
}

/// The token made for an account: the base64 encoding of its text.
pub open spec fn account_token(email: Seq<char>, password: Seq<char>) -> Seq<char> {
    base64_encoding(encode_utf8(account_text(email, password)))
}

/// The e-mail field of an account text: everything before the first `:`.
pub open spec fn account_email(text: Seq<char>) -> Seq<char> {
    text.take(colon_index(text) as int)
}

/// The password field of an account text: what lies between the first `:`
/// and the next one (or the end).
pub open spec fn account_password(text: Seq<char>) -> Seq<char> {
    let rest = text.skip(colon_index(text) as int + 1);
    rest.take(colon_index(rest) as int)
}

/// Decoded token bytes can be split into fields: they are not UTF-8, or their
/// text holds a `:`.
pub open spec fn splittable(bytes: Seq<u8>) -> bool {
    valid_utf8(bytes) ==> colon_index(decode_utf8(bytes)) < decode_utf8(bytes).len()
}

/// The fields that `bytes` give, or the message of the error.
pub open spec fn account_from_bytes_outcome(bytes: Seq<u8>) -> Result<(Seq<char>, Seq<char>), Seq<char>> {
    if valid_utf8(bytes) {
        let text = decode_utf8(bytes);
        Ok((account_email(text), account_password(text)))
    } else {
        Err("Invalid Account"@)
    }
}

/// What decoding `token` gives: the fields of the account, or the message of
/// the error.
pub open spec fn account_token_outcome(token: Seq<char>) -> Result<(Seq<char>, Seq<char>), Seq<char>> {
    match base64_decoding(token) {
        None => Err("Token not decodeable"@),
        Some(bytes) => account_from_bytes_outcome(bytes),
    }
}

/// `token` can be decoded without running past machine limits, and what it
/// decodes to can be split into fields.
pub open spec fn token_decodable(token: Seq<char>) -> bool {
    &&& encode_utf8(token).len() + 7 <= usize::MAX
    &&& match base64_decoding(token) {
        None => true,
        Some(bytes) => splittable(bytes),
    }
}

/// `r` is the account or error that `outcome` describes.
pub open spec fn account_result_is(
    r: Result<AccountInfo, String>,
    outcome: Result<(Seq<char>, Seq<char>), Seq<char>>,
) -> bool {
    match (r, outcome) {
        (Ok(a), Ok((email, password))) => a.email@ == email && a.password@ == password,
        (Err(m), Err(message)) => m@ == message,
        _ => false,
    }
}

/// The first `:` of `s` stands at `k` when `s` has none before `k`.
pub proof fn lemma_colon_index(s: Seq<char>, k: int)
    requires
        0 <= k <= s.len(),
        colon_free(s.take(k)),
        k == s.len() || s[k] == ':',
    ensures
        colon_index(s) == k,
    decreases k,
{
    if k > 0 {
        assert(s.take(k)[0] == s[0]);
        let rest = s.drop_first();
        assert forall|i: int| 0 <= i < rest.take(k - 1).len() implies #[trigger] rest.take(k - 1)[i] != ':' by {
            assert(rest.take(k - 1)[i] == s.take(k)[i + 1]);
        }
        lemma_colon_index(rest, k - 1);
    }
}

/// Splitting the text of an account whose fields hold no `:` gives the fields
/// back.
pub proof fn lemma_account_text_fields(email: Seq<char>, password: Seq<char>)
    requires
        colon_free(email),
        colon_free(password),
    ensures
        account_email(account_text(email, password)) == email,
        account_password(account_text(email, password)) == password,
        colon_index(account_text(email, password)) < account_text(email, password).len(),
{
    let text = account_text(email, password);
    assert(text.take(email.len() as int) =~= email);
    lemma_colon_index(text, email.len() as int);
    let rest = text.skip(email.len() as int + 1);
    assert(rest =~= password);
    assert(password.take(password.len() as int) =~= password);
    lemma_colon_index(password, password.len() as int);
}

/// Decoding the token of an account whose fields hold no `:` gives the fields
/// back.
pub proof fn lemma_account_token_fields(token: Seq<char>, email: Seq<char>, password: Seq<char>)
    requires
        colon_free(email),
        colon_free(password),
        base64_decoding(token) == Some(encode_utf8(account_text(email, password))),
    ensures
        account_token_outcome(token) == Ok::<(Seq<char>, Seq<char>), Seq<char>>((email, password)),
        splittable(encode_utf8(account_text(email, password))),
{
    let text = account_text(email, password);
    encode_utf8_valid_utf8(text);
    encode_utf8_decode_utf8(text);
    lemma_account_text_fields(email, password);
}

/// Position of the first `:` of `s` at or after `from`, or its length when
/// there is none.
fn colon_position(s: &str, from: usize) -> (k: usize)
    requires
        from <= s@.len(),
    ensures
        from <= k <= s@.len(),
        k - from == colon_index(s@.skip(from as int)),
{
    let n = s.unicode_len();
    let mut k = from;
    while k < n
        invariant
            n == s@.len(),
            from <= k <= n,
            forall|i: int| from <= i < k ==> s@[i] != ':',
        ensures
            from <= k <= n,
            forall|i: int| from <= i < k ==> s@[i] != ':',
            k < n ==> s@[k as int] == ':',
        decreases n - k,
    {
        if s.get_char(k) == ':' {
            break;
        }
        k = k + 1;
    }
    proof {
        let t = s@.skip(from as int);
        assert forall|i: int| 0 <= i < t.take(k - from).len() implies #[trigger] t.take(k - from)[i] != ':' by {
            assert(t.take(k - from)[i] == s@[from + i]);
        }
        lemma_colon_index(t, k - from);
    }
    k
}

/// `token` is the standard padded base64 encoding of `bytes`: it decodes to
/// them, and has their encoded length and only base64 characters.
pub open spec fn is_base64_token_of(token: Seq<char>, bytes: Seq<u8>) -> bool {
    &&& token == base64_encoding(bytes)
    &&& base64_decoding(token) == Some(bytes)
    &&& token.len() == base64_encoded_len(bytes.len() as int)
    &&& forall|i: int| 0 <= i < token.len() ==> is_base64_char(#[trigger] token[i])
}

/// Decoding the token that `account_encoder` makes of the text of an account
/// whose fields hold no `:` gives the fields back (the token's length plus 7
/// fitting in `usize`).
pub proof fn encoded_account_decodes(email: Seq<char>, password: Seq<char>, token: Seq<char>)
    requires
        colon_free(email),
        colon_free(password),
        is_base64_token_of(token, encode_utf8(account_text(email, password))),
        token.len() + 7 <= usize::MAX,
    ensures
        token_decodable(token),
        account_token_outcome(token) == Ok::<(Seq<char>, Seq<char>), Seq<char>>((email, password)),
{
    assert(is_ascii_chars(token)) by {
        assert forall|i: int| 0 <= i < token.len() implies '\0' <= #[trigger] token[i] <= '\u{7f}' by {
            assert(is_base64_char(token[i]));
        }
    }
    is_ascii_chars_encode_utf8(token);
    lemma_account_token_fields(token, email, password);
}

/// Encodes an account text as a token: the base64 encoding of its UTF-8
/// bytes.
pub fn account_encoder(info: String) -> (token: String)
    requires
        base64_encoded_len(encode_utf8(info@).len() as int) <= usize::MAX,
    ensures
        is_base64_token_of(token@, encode_utf8(info@)),
{
    base64_encode(info.as_str().as_bytes())
}

/// Splits decoded token bytes into an account: the text before the first `:`
/// is the e-mail address, the text after it up to the next `:` the password.
pub fn account_from_bytes(details: &[u8]) -> (r: Result<AccountInfo, String>)
    requires
        splittable(details@),
    ensures
        account_result_is(r, account_from_bytes_outcome(details@)),
{
    match utf8_text(details) {
        Some(d) => {
            proof {
                encode_utf8_decode_utf8(d@);
            }
            let ghost text = d@;
            assert(text == decode_utf8(details@));
            let n = d.unicode_len();
            let k = colon_position(d, 0);
            assert(text.skip(0) =~= text);
            assert(k < n);
            let k2 = colon_position(d, k + 1);
            let email = d.substring_char(0, k).to_owned();
            let password = d.substring_char(k + 1, k2).to_owned();
            proof {
                let rest = text.skip(k + 1);
                assert(password@ =~= rest.take(colon_index(rest) as int));
            }
            Ok(AccountInfo { email, password })
        },
        None => Err(String::from_str("Invalid Account")),
    }
}

/// Decodes an account token: the e-mail address and password that its base64
/// text carries, `Token not decodeable` where it is no base64, and
/// `Invalid Account` where the bytes are no UTF-8.
pub fn account_decoder(info: String) -> (r: Result<AccountInfo, String>)
    requires
        token_decodable(info@),
    ensures
        account_result_is(r, account_token_outcome(info@)),
        forall|email: Seq<char>, password: Seq<char>|
            colon_free(email) && colon_free(password) && info@ == #[trigger] account_token(email, password)
                ==> (r matches Ok(a) && a.email@ == email && a.password@ == password),
{
    let decoded = base64_decode(info.as_str());
    let r = match decoded {
        Some(details) => account_from_bytes(details.as_slice()),
        None => Err(String::from_str("Token not decodeable")),
    };
    proof {
        assert forall|email: Seq<char>, password: Seq<char>|
            colon_free(email) && colon_free(password) && info@ == #[trigger] account_token(email, password)
            implies (r matches Ok(a) && a.email@ == email && a.password@ == password) by {
            assert(base64_encoding(encode_utf8(account_text(email, password))) == info@);
            lemma_account_token_fields(info@, email, password);
        }
    }
    r
}

/// Decodes an account token after testing that `account_decoder` accepts it:
/// `None` where the token is too long to decode or decodes to text without a
/// `:` (inputs on which decoding aborts).
pub fn try_account_decoder(info: String) -> (r: Option<Result<AccountInfo, String>>)
    ensures
        r is None <==> !token_decodable(info@),
        r matches Some(res) ==> account_result_is(res, account_token_outcome(info@)),
        forall|email: Seq<char>, password: Seq<char>|
            colon_free(email) && colon_free(password) && info@ == #[trigger] account_token(email, password)
                && encode_utf8(info@).len() + 7 <= usize::MAX
                ==> (r matches Some(Ok(a)) && a.email@ == email && a.password@ == password),
{
    let byte_len = info.as_str().as_bytes().len();
    if byte_len > usize::MAX - 7 {
        return None;
    }
    let ok = match base64_decode(info.as_str()) {
        Some(details) => match utf8_text(details.as_slice()) {
            Some(d) => {
                proof {
                    encode_utf8_decode_utf8(d@);
                }
                let k = colon_position(d, 0);
                assert(d@.skip(0) =~= d@);
                k < d.unicode_len()
            },
            None => true,
        },
        None => true,
    };
    if ok {
        Some(account_decoder(info))
    } else {
        proof {
            assert forall|email: Seq<char>, password: Seq<char>|
                colon_free(email) && colon_free(password) && info@ == #[trigger] account_token(email, password)
                implies false by {
                assert(base64_encoding(encode_utf8(account_text(email, password))) == info@);
                lemma_account_token_fields(info@, email, password);
            }
        }
        None
    }
}

/// Hashes a password with bcrypt at the default cost and a random salt.
/// `None` where no random salt could be had.
pub fn hash_password(p: &String) -> (h: Option<String>)
    ensures
        h matches Some(hash) ==> bcrypt_verify_outcome(p@, hash@) == Some(true) && is_default_cost_hash(hash@),
        h matches Some(hash) ==> forall|q: Seq<char>| #[trigger] bcrypt_verify_outcome(q, hash@) is Some,
{
    bcrypt_hash(p.as_str())
}

/// Whether password `p` matches the bcrypt hash `h`.
pub fn verify_password(p: &String, h: &String) -> (matches: bool)
    requires
        bcrypt_verify_outcome(p@, h@) is Some,
    ensures
        Some(matches) == bcrypt_verify_outcome(p@, h@),
        colon_free(h@),
{
    bcrypt_verify(p.as_str(), h.as_str()).unwrap()
}

/// Whether password `p` matches `h`, or `None` where `h` is no bcrypt hash
/// (an input on which `verify_password` aborts).
pub fn check_password(p: &String, h: &String) -> (matches: Option<bool>)
    ensures
        matches == bcrypt_verify_outcome(p@, h@),
        matches is Some ==> colon_free(h@),
{
    match bcrypt_verify(p.as_str(), h.as_str()) {
        Some(_) => Some(verify_password(p, h)),
        None => None,
    }
}

/// The first step of checking a request's `X-Token` header.
pub enum AuthStart {
    /// The token decodes: the account of `claimed.email` is to be looked up.
    Lookup { token: String, claimed: AccountInfo },
    /// The request is refused.
    Refused(ErrorT),
    /// The token is too long to decode, or decodes to text without a `:`:
    /// the request is aborted.
    Aborted,
}

/// `s` is the first step for header `header`.
pub open spec fn auth_start_is(header: Option<String>, s: AuthStart) -> bool {
    match header {
        None => s matches AuthStart::Refused(e) && is_error(e, Status::Forbidden, "No X-Token Token Provided"@),
        Some(t) => if !token_decodable(t@) {
            s is Aborted
        } else {
            match account_token_outcome(t@) {
                Err(_) => s matches AuthStart::Refused(e) && is_error(e, Status::Forbidden, "Forbidden X-Token Token"@),
                Ok((email, password)) => s matches AuthStart::Lookup { token, claimed } && token@ == t@
                    && claimed.email@ == email && claimed.password@ == password,
            }
        },
    }
}

/// A header that carries the token of an account whose fields hold no `:`
/// names that account.
pub open spec fn token_roundtrip(header: Option<String>, s: AuthStart) -> bool {
    forall|email: Seq<char>, password: Seq<char>|
        header is Some && colon_free(email) && colon_free(password)
            && header->0@ == #[trigger] account_token(email, password)
            && encode_utf8(header->0@).len() + 7 <= usize::MAX
            ==> (s matches AuthStart::Lookup { token, claimed } && token@ == header->0@
            && claimed.email@ == email && claimed.password@ == password)
}

/// `r` is the outcome of comparing the token's account `claimed` with the
/// account `stored` for its address.
pub open spec fn authentication_result_is(
    token: String,
    claimed: AccountInfo,
    stored: Option<AuthInfo>,
    r: Result<AuthenticatedUser, ErrorT>,
) -> bool {
    match stored {
        None => r matches Err(e) && is_error(e, Status::NotFound, "Account Does Not Exist"@),
        Some(i) => if i.password@ == claimed.password@ {
            r matches Ok(u) && u.token@ == token@
        } else {
            r matches Err(e) && is_error(e, Status::NonAuthoritativeInformation, "Unauthorized"@)
        },
    }
}

impl AuthenticatedUser {
    /// Reads the `X-Token` header: a missing header and a token that does not
    /// decode are refused (403); a decoded token names the account to look
    /// up.
    pub fn begin_authentication(header: Option<String>) -> (s: AuthStart)
        ensures
            auth_start_is(header, s),
            token_roundtrip(header, s),
    {
        match header {
            None => AuthStart::Refused(ErrorT::new(Status::Forbidden, "No X-Token Token Provided")),
            Some(t) => {
                let ghost tv = t@;
                let token = t.clone();
                match try_account_decoder(t) {
                    None => AuthStart::Aborted,
                    Some(Err(_)) => AuthStart::Refused(ErrorT::new(Status::Forbidden, "Forbidden X-Token Token")),
                    Some(Ok(claimed)) => AuthStart::Lookup { token, claimed },
                }
            },
        }
    }

    /// Compares the password of the token with the one stored for its
    /// account: an unknown account is refused with 404, a different password
    /// with 203.
    pub fn complete_authentication(token: String, claimed: &AccountInfo, stored: Option<AuthInfo>) -> (r: Result<AuthenticatedUser, ErrorT>)
        ensures
            authentication_result_is(token, *claimed, stored, r),
    {
        match stored {
            Some(i) => {
                if i.password == claimed.password {
                    Ok(AuthenticatedUser { token })
                } else {
                    Err(ErrorT::new(Status::NonAuthoritativeInformation, "Unauthorized"))
                }
            },
            None => Err(ErrorT::new(Status::NotFound, "Account Does Not Exist")),
        }
    }
}

/// A bcrypt hash in the `$2b$12$` format holds no `:`, so an account token
/// made with it splits back into the right fields.
pub proof fn lemma_default_cost_hash_colon_free(h: Seq<char>)
    requires
        is_default_cost_hash(h),
    ensures
        colon_free(h),
{
    reveal_strlit("$2b$12$");
    assert forall|i: int| 0 <= i < h.len() implies h[i] != ':' by {
        if i < 7 {
            assert(h[i] == h.take(7)[i]);
        } else {
            assert(is_bcrypt_char(h[i]));
        }
    }
}

} // verus!
