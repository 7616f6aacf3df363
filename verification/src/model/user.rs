use vstd::prelude::*;
use vstd::utf8::encode_utf8;

use crate::error::{is_error, ErrorT, Status};
use crate::middleware::auth::{bcrypt_verify_outcome, hash_password, is_default_cost_hash};
use crate::middleware::validate::{email_pattern_matches, validate_email};

verus! {

/// The fields of a registration request.
#[derive(Debug, Clone)]
pub struct Input {
    pub username: String,
    pub email: String,
    pub age: i32,
    pub password: String,
    pub country: String,
}

/// An e-mail address with the password (hash) stored for it.
#[derive(Debug, Clone)]
pub struct AuthInfo {
    pub email: String,
    pub password: String,
}

/// The record stored for a new user: the password is kept as its bcrypt hash.
#[derive(Debug)]
pub struct NewUser {
    pub username: String,
    pub email: String,
    pub age: i32,
    pub password: String,
    pub country: String,
}

/// What `str::to_lowercase` makes of `s` (the Unicode lowercase mapping).
pub uninterp spec fn lowercase(s: Seq<char>) -> Seq<char>;

/// `str::to_lowercase`: the lowercase form of `s` by Unicode's rules.
#[verifier::external_body]
fn str_to_lowercase(s: &str) -> (lower: String)
    ensures
        lower@ == lowercase(s@),
{
    s.to_lowercase()
}

/// The lowercase form of an e-mail address.
pub fn to_lowercase(e: &String) -> (lower: String)
    ensures
        lower@ == lowercase(e@),
{
    str_to_lowercase(e.as_str())
}

/// Minimum length, in bytes, of a password.
pub open spec fn min_password_len() -> nat {
    8
}

/// Checks a registration request and hashes its password: too short a
/// password (under 8 bytes) and an address that fails the address pattern are
/// refused, in that order. `None` where no password hash could be made (no
/// random salt was available).
pub fn prepare_registration(data: &Input) -> (r: Option<Result<NewUser, ErrorT>>)
    ensures
        encode_utf8(data.password@).len() < min_password_len() ==> (r matches Some(Err(e))
            && is_error(e, Status::ExpectationFailed, "Password is too short"@)),
        encode_utf8(data.password@).len() >= min_password_len() && !email_pattern_matches(data.email@)
            ==> (r matches Some(Err(e)) && is_error(e, Status::ExpectationFailed, "Email not valid"@)),
        encode_utf8(data.password@).len() >= min_password_len() && email_pattern_matches(data.email@)
            ==> r is None || (r matches Some(Ok(u)) && is_record_of(u, *data, u.password@)
            && bcrypt_verify_outcome(data.password@, u.password@) == Some(true)
            && is_default_cost_hash(u.password@)
            && forall|q: Seq<char>| #[trigger] bcrypt_verify_outcome(q, u.password@) is Some),
{
    if data.password.as_str().as_bytes().len() < 8 {
        return Some(Err(ErrorT::new(Status::ExpectationFailed, "Password is too short")));
    }
    if validate_email(&data.email).is_err() {
        return Some(Err(ErrorT::new(Status::ExpectationFailed, "Email not valid")));
    }
    match hash_password(&data.password) {
        Some(hash) => Some(Ok(new_user_record(data, hash))),
        None => None,
    }
}

/// `u` is the record stored for registration `data` with password hash
/// `password_hash`.
pub open spec fn is_record_of(u: NewUser, data: Input, password_hash: Seq<char>) -> bool {
    &&& u.username@ == data.username@
    &&& u.email@ == data.email@
    &&& u.age == data.age
    &&& u.password@ == password_hash
    &&& u.country@ == data.country@
}

/// The record stored for registration `data`, with its password replaced by
/// `password_hash`.
pub fn new_user_record(data: &Input, password_hash: String) -> (u: NewUser)
    ensures
        is_record_of(u, *data, password_hash@),
{
    NewUser {
        username: data.username.clone(),
        email: data.email.clone(),
        age: data.age,
        password: password_hash,
        country: data.country.clone(),
    }
}

/// No two addresses of `emails` are equal once lowercased.
pub open spec fn emails_unique(emails: Seq<String>) -> bool {
    forall|i: int, j: int|
        0 <= i < emails.len() && 0 <= j < emails.len() && i != j ==> lowercase(#[trigger] emails[i]@)
            != lowercase(#[trigger] emails[j]@)
}

/// Registering an address that `check_email_available` accepts keeps the
/// stored addresses distinct ignoring case.
pub proof fn accepted_email_keeps_emails_unique(existing: Seq<String>, email: String)
    requires
        emails_unique(existing),
        !email_taken(email@, existing),
    ensures
        emails_unique(existing.push(email)),
{
    let all = existing.push(email);
    assert forall|i: int, j: int|
        0 <= i < all.len() && 0 <= j < all.len() && i != j implies lowercase(#[trigger] all[i]@)
        != lowercase(#[trigger] all[j]@) by {
        if i == existing.len() {
            assert(all[j] == existing[j]);
        } else if j == existing.len() {
            assert(all[i] == existing[i]);
        } else {
            assert(all[i] == existing[i]);
            assert(all[j] == existing[j]);
        }
    }
}

/// Some address of `existing` equals `email` once both are lowercased.
pub open spec fn email_taken(email: Seq<char>, existing: Seq<String>) -> bool {
    exists|i: int| 0 <= i < existing.len() && lowercase(#[trigger] existing[i]@) == lowercase(email)
}

/// Refuses an address that an existing account already uses, ignoring case.
pub fn check_email_available(email: &String, existing: &Vec<String>) -> (r: Result<(), ErrorT>)
    ensures
        r is Err <==> exists|i: int|
            0 <= i < existing@.len() && lowercase(#[trigger] existing@[i]@) == lowercase(email@),
        r is Err <==> email_taken(email@, existing@),
        r matches Err(e) ==> is_error(e, Status::NotFound, "User found for email: "@ + email@),
{
    let wanted = to_lowercase(email);
    let mut i: usize = 0;
    while i < existing.len()
        invariant
            i <= existing.len(),
            wanted@ == lowercase(email@),
            forall|j: int| 0 <= j < i ==> lowercase(#[trigger] existing@[j]@) != lowercase(email@),
        decreases existing.len() - i,
    {
        let candidate = to_lowercase(&existing[i]);
        if candidate == wanted {
            let mut message = String::from_str("User found for email: ");
            message.append(email.as_str());
            return Err(ErrorT { status: Status::NotFound, message });
        }
        i = i + 1;
    }
    Ok(())
}

/// Maps the outcome of storing a new user: a storage error becomes
/// `Check field and try again`.
pub fn insert_outcome<T, E>(inserted: Result<T, E>) -> (r: Result<T, ErrorT>)
    ensures
        inserted matches Ok(t) ==> (r matches Ok(t2) && t2 == t),
        inserted is Err ==> (r matches Err(e) && is_error(e, Status::NotFound, "Check field and try again"@)),
{
    match inserted {
        Ok(t) => Ok(t),
        Err(_) => Err(ErrorT::new(Status::NotFound, "Check field and try again")),
    }
}

/// Maps the outcome of looking a user up: no user becomes `No user found`.
pub fn found_or_not_found<T>(found: Option<T>) -> (r: Result<T, ErrorT>)
    ensures
        found matches Some(t) ==> (r matches Ok(t2) && t2 == t),
        found is None ==> (r matches Err(e) && is_error(e, Status::NotFound, "No user found"@)),
{
    match found {
        Some(t) => Ok(t),
        None => Err(ErrorT::new(Status::NotFound, "No user found")),
    }
}

/// A registration is refused as a duplicate exactly when an existing address
/// equals the new one once both are lowercased; the refusal answers 404 with
/// `User found for email: ` and the address.
pub proof fn duplicate_address_law(email: String, existing: Vec<String>, r: Result<(), ErrorT>)
    requires
        call_ensures(check_email_available, (&email, &existing), r),
    ensures
        r is Err <==> exists|i: int|
            0 <= i < existing@.len() && lowercase(#[trigger] existing@[i]@) == lowercase(email@),
        r matches Err(e) ==> e.status == Status::NotFound && e.message@ == "User found for email: "@
            + email@,
{
}

/// Adding an address that the duplicate check accepts to addresses that are
/// distinct ignoring case keeps them distinct ignoring case.
pub proof fn accepted_address_keeps_addresses_distinct(
    email: String,
    existing: Vec<String>,
    r: Result<(), ErrorT>,
)
    requires
        call_ensures(check_email_available, (&email, &existing), r),
        r is Ok,
        forall|i: int, j: int|
            0 <= i < existing@.len() && 0 <= j < existing@.len() && i != j ==> lowercase(
                #[trigger] existing@[i]@,
            ) != lowercase(#[trigger] existing@[j]@),
    ensures
        forall|i: int, j: int|
            0 <= i < existing@.len() + 1 && 0 <= j < existing@.len() + 1 && i != j ==> lowercase(
                #[trigger] existing@.push(email)[i]@,
            ) != lowercase(#[trigger] existing@.push(email)[j]@),
{
    accepted_email_keeps_emails_unique(existing@, email);
}

} // verus!
