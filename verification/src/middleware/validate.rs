use vstd::prelude::*;

verus! {

/// `[a-z]`
pub open spec fn is_lower(c: char) -> bool {
    'a' <= c && c <= 'z'
}

/// `[0-9]`
pub open spec fn is_digit(c: char) -> bool {
    '0' <= c && c <= '9'
}

/// `[a-z0-9]`
pub open spec fn is_alnum(c: char) -> bool {
    is_lower(c) || is_digit(c)
}

/// `[a-z0-9_+]`
pub open spec fn is_local_char(c: char) -> bool {
    is_alnum(c) || c == '_' || c == '+'
}

/// `[\-\.]`
pub open spec fn is_separator(c: char) -> bool {
    c == '-' || c == '.'
}

/// `s` matches `[a-z0-9_+]([a-z0-9_+.]*[a-z0-9_+])?`: a non-empty run of
/// `[a-z0-9_+.]` that neither starts nor ends with a dot.
pub open spec fn is_local_part(s: Seq<char>) -> bool {
    &&& s.len() >= 1
    &&& is_local_char(s[0])
    &&& is_local_char(s[s.len() - 1])
    &&& forall|i: int| 0 <= i < s.len() ==> is_local_char(#[trigger] s[i]) || s[i] == '.'
}

/// `s` matches `[a-z0-9]+([\-\.]{1}[a-z0-9]+)*`: labels of `[a-z0-9]` joined by
/// single `-` or `.` separators.
pub open spec fn is_label_chain(s: Seq<char>) -> bool {
    &&& s.len() >= 1
    &&& is_alnum(s[0])
    &&& is_alnum(s[s.len() - 1])
    &&& forall|i: int| 0 <= i < s.len() ==> is_alnum(#[trigger] s[i]) || is_separator(s[i])
    &&& forall|i: int, j: int|
        #![trigger s[i], s[j]]
        0 <= i && j == i + 1 && j < s.len() ==> !(is_separator(s[i]) && is_separator(s[j]))
}

/// The domain pattern `[a-z0-9]+([\-\.]{1}[a-z0-9]+)*\.[a-z]{2,6}` matches a
/// prefix of `t` whose last dot stands at `j`. (A match with more than two
/// final letters contains one with exactly two.)
pub open spec fn domain_match_at(t: Seq<char>, j: int) -> bool {
    &&& 1 <= j && j + 2 < t.len()
    &&& is_label_chain(t.take(j))
    &&& t[j] == '.'
    &&& is_lower(t[j + 1])
    &&& is_lower(t[j + 2])
}

/// Some prefix of `t` matches the domain pattern.
pub open spec fn domain_prefix_matches(t: Seq<char>) -> bool {
    exists|j: int| #[trigger] domain_match_at(t, j)
}

/// `s` starts with a local part, an `@` at position `k`, and a domain.
pub open spec fn email_match_at(s: Seq<char>, k: int) -> bool {
    &&& 0 <= k < s.len()
    &&& s[k] == '@'
    &&& is_local_part(s.take(k))
    &&& domain_prefix_matches(s.skip(k + 1))
}

/// The address pattern
/// `^([a-z0-9_+]([a-z0-9_+.]*[a-z0-9_+])?)@([a-z0-9]+([\-\.]{1}[a-z0-9]+)*\.[a-z]{2,6})`
/// finds a match in `s`. The pattern is anchored at the start only, so anything
/// may follow the matched text.
pub open spec fn email_pattern_matches(s: Seq<char>) -> bool {
    exists|k: int| #[trigger] email_match_at(s, k)
}

/// The message of a refused address.
pub open spec fn invalid_email_message() -> Seq<char> {
    "Email is invalid, try again please"@
}

fn lower(c: char) -> (b: bool)
    ensures
        b == is_lower(c),
{
    'a' <= c && c <= 'z'
}

fn alnum(c: char) -> (b: bool)
    ensures
        b == is_alnum(c),
{
    ('a' <= c && c <= 'z') || ('0' <= c && c <= '9')
}

fn local_char(c: char) -> (b: bool)
    ensures
        b == is_local_char(c),
{
    alnum(c) || c == '_' || c == '+'
}

fn separator(c: char) -> (b: bool)
    ensures
        b == is_separator(c),
{
    c == '-' || c == '.'
}

/// Position of the first `@` of `s`, or its length when it has none.
fn first_at_sign(s: &str) -> (k: usize)
    ensures
        k <= s@.len(),
        forall|i: int| 0 <= i < k ==> s@[i] != '@',
        k < s@.len() ==> s@[k as int] == '@',
{
    let n = s.unicode_len();
    let mut k: usize = 0;
    while k < n
        invariant
            n == s@.len(),
            k <= n,
            forall|i: int| 0 <= i < k ==> s@[i] != '@',
        decreases n - k,
    {
        if s.get_char(k) == '@' {
            return k;
        }
        k = k + 1;
    }
    k
}

/// Whether the first `k` characters of `s` form a local part.
fn local_part_ok(s: &str, k: usize) -> (b: bool)
    requires
        k <= s@.len(),
    ensures
        b == is_local_part(s@.take(k as int)),
{
    let ghost u = s@.take(k as int);
    if k == 0 {
        return false;
    }
    if !local_char(s.get_char(0)) || !local_char(s.get_char(k - 1)) {
        return false;
    }
    let mut i: usize = 0;
    while i < k
        invariant
            k <= s@.len(),
            u == s@.take(k as int),
            i <= k,
            forall|j: int| 0 <= j < i ==> is_local_char(#[trigger] u[j]) || u[j] == '.',
        decreases k - i,
    {
        let c = s.get_char(i);
        if !(local_char(c) || c == '.') {
            assert(u[i as int] == c);
            return false;
        }
        i = i + 1;
    }
    true
}

/// Whether some prefix of `s` from position `start` on matches the domain
/// pattern.
fn domain_matches_from(s: &str, start: usize) -> (b: bool)
    requires
        start <= s@.len(),
    ensures
        b == domain_prefix_matches(s@.skip(start as int)),
{
    let n = s.unicode_len();
    let ghost t = s@.skip(start as int);
    if start >= n {
        return false;
    }
    if !alnum(s.get_char(start)) {
        assert forall|jj: int| !domain_match_at(t, jj) by {
            if 1 <= jj && jj + 2 < t.len() {
                assert(t.take(jj)[0] == t[0]);
            }
        }
        return false;
    }
    let m = n - start;
    let mut j: usize = 1;
    while j < m
        invariant
            n == s@.len(),
            start < n,
            m == n - start,
            t == s@.skip(start as int),
            t.len() == m,
            1 <= j <= m,
            is_alnum(t[0]),
            forall|i: int| 0 <= i < j ==> is_alnum(#[trigger] t[i]) || is_separator(t[i]),
            forall|i: int, i2: int|
                #![trigger t[i], t[i2]]
                0 <= i && i2 == i + 1 && i2 < j ==> !(is_separator(t[i]) && is_separator(t[i2])),
            forall|jj: int| jj < j ==> !#[trigger] domain_match_at(t, jj),
        decreases m - j,
    {
        let c = s.get_char(start + j);
        let prev = s.get_char(start + j - 1);
        assert(t[j as int] == c);
        assert(t[j - 1] == prev);
        if alnum(prev) && c == '.' && m - j > 2 {
            let c1 = s.get_char(start + j + 1);
            let c2 = s.get_char(start + j + 2);
            if lower(c1) && lower(c2) {
                proof {
                    let u = t.take(j as int);
                    assert(t[j + 1] == c1);
                    assert(t[j + 2] == c2);
                    assert(is_label_chain(u)) by {
                        assert forall|i: int| 0 <= i < u.len() implies is_alnum(#[trigger] u[i])
                            || is_separator(u[i]) by {
                            assert(u[i] == t[i]);
                        }
                        assert forall|i: int, i2: int|
                            #![trigger u[i], u[i2]]
                            0 <= i && i2 == i + 1 && i2 < u.len() implies !(is_separator(u[i])
                            && is_separator(u[i2])) by {
                            assert(u[i] == t[i]);
                            assert(u[i2] == t[i2]);
                        }
                    }
                    assert(domain_match_at(t, j as int));
                }
                return true;
            }
        }
        assert(!domain_match_at(t, j as int)) by {
            if domain_match_at(t, j as int) {
                assert(t.take(j as int)[j - 1] == t[j - 1]);
            }
        }
        if !(alnum(c) || separator(c)) || (separator(c) && separator(prev)) {
            assert forall|jj: int| !#[trigger] domain_match_at(t, jj) by {
                if jj > j && domain_match_at(t, jj) {
                    let u = t.take(jj);
                    assert(u[j as int] == t[j as int]);
                    assert(u[j - 1] == t[j - 1]);
                }
            }
            return false;
        }
        j = j + 1;
    }
    false
}

/// Checks an e-mail address against the address pattern and hands back a copy
/// of it when it matches.
pub fn validate_email(email: &String) -> (r: Result<String, String>)
    ensures
        email_pattern_matches(email@) ==> (r matches Ok(copy) && copy@ == email@),
        !email_pattern_matches(email@) ==> (r matches Err(m) && m@ == invalid_email_message()),
{
    let s = email.as_str();
    let n = s.unicode_len();
    let k = first_at_sign(s);
    let error_message = String::from_str("Email is invalid, try again please");
    if k == n {
        assert forall|kk: int| !#[trigger] email_match_at(email@, kk) by {}
        return Err(error_message);
    }
    if !local_part_ok(s, k) {
        assert forall|kk: int| !#[trigger] email_match_at(email@, kk) by {
            if email_match_at(email@, kk) && kk > k {
                assert(email@.take(kk)[k as int] == '@');
            }
        }
        return Err(error_message);
    }
    if domain_matches_from(s, k + 1) {
        assert(email_match_at(email@, k as int));
        Ok(email.clone())
    } else {
        assert forall|kk: int| !#[trigger] email_match_at(email@, kk) by {
            if email_match_at(email@, kk) && kk > k {
                assert(email@.take(kk)[k as int] == '@');
            }
        }
        Err(error_message)
    }
}

/// Every address `local@domain.tld` is accepted, unchanged, when `local` is a
/// non-empty run of `a-z`, `0-9`, `_`, `+` and `.` that neither starts nor
/// ends with `.`; `domain` is a non-empty run of `a-z`, `0-9`, `-` and `.`
/// that starts and ends with a letter or digit and has no two separators in
/// a row; and `tld` is at least two letters `a-z`. Anything may follow.
pub proof fn well_formed_addresses_are_accepted(
    local: Seq<char>,
    domain: Seq<char>,
    tld: Seq<char>,
    rest: Seq<char>,
    email: String,
    r: Result<String, String>,
)
    requires
        call_ensures(validate_email, (&email,), r),
        email@ == local + seq!['@'] + domain + seq!['.'] + tld + rest,
        local.len() >= 1,
        forall|i: int|
            0 <= i < local.len() ==> ('a' <= #[trigger] local[i] <= 'z') || ('0' <= local[i] <= '9')
                || local[i] == '_' || local[i] == '+' || local[i] == '.',
        local[0] != '.',
        local[local.len() - 1] != '.',
        domain.len() >= 1,
        forall|i: int|
            0 <= i < domain.len() ==> ('a' <= #[trigger] domain[i] <= 'z') || ('0' <= domain[i] <= '9')
                || domain[i] == '-' || domain[i] == '.',
        ('a' <= domain[0] <= 'z') || ('0' <= domain[0] <= '9'),
        ('a' <= domain[domain.len() - 1] <= 'z') || ('0' <= domain[domain.len() - 1] <= '9'),
        forall|i: int, j: int|
            #![trigger domain[i], domain[j]]
            0 <= i && j == i + 1 && j < domain.len() ==> !((domain[i] == '-' || domain[i] == '.')
                && (domain[j] == '-' || domain[j] == '.')),
        tld.len() >= 2,
        forall|i: int| 0 <= i < tld.len() ==> 'a' <= #[trigger] tld[i] <= 'z',
    ensures
        r matches Ok(copy) && copy@ == email@,
{
    let s = email@;
    let k = local.len() as int;
    assert(s.take(k) =~= local);
    let t = s.skip(k + 1);
    let j = domain.len() as int;
    assert(t.take(j) =~= domain);
    assert(t[j] == '.');
    assert(t[j + 1] == tld[0]);
    assert(t[j + 2] == tld[1]);
    assert(is_label_chain(t.take(j)));
    assert(domain_match_at(t, j));
    assert(email_match_at(s, k));
}

/// An address is refused when it has no `@`, or does not start with a
/// letter `a-z`, a digit, `_` or `+`.
pub proof fn malformed_addresses_are_refused(email: String, r: Result<String, String>)
    requires
        call_ensures(validate_email, (&email,), r),
        (forall|i: int| 0 <= i < email@.len() ==> #[trigger] email@[i] != '@') || email@.len() == 0
            || !(('a' <= email@[0] <= 'z') || ('0' <= email@[0] <= '9') || email@[0] == '_'
            || email@[0] == '+'),
    ensures
        r matches Err(m) && m@ == "Email is invalid, try again please"@,
{
    assert forall|k: int| !#[trigger] email_match_at(email@, k) by {
        if email_match_at(email@, k) {
            assert(email@.take(k)[0] == email@[0]);
        }
    }
}

} // verus!
