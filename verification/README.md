# progigs

A user and category service: Rocket routes over MongoDB, with the account
rules in a Verus-verified library.

- `src/` — the library. `middleware/validate.rs` checks e-mail addresses
  against the address grammar; `middleware/auth.rs` makes and reads account
  tokens (base64 of `email:hash`), hashes and checks passwords with bcrypt, and
  decides the two steps of authenticating a request; `model/user.rs` checks
  registrations; `routes/user.rs` decides logins and access checks; `error/`
  holds the error answers.
- `app/` — the HTTP server, the database access and the JSON types.
- `tests/` — tests of the library against the real outside crates.
