//! Account creation: credential validation and the preparation of the salted
//! password hash that the persistence collaborator stores.
//!
//! The email check implements the address grammar directly over the bytes of
//! the candidate: a non-empty local part of permitted characters, an `@`,
//! and dot-separated domain labels of at most 63 characters that start and
//! end alphanumerically.

use vstd::prelude::*;
use vstd::string::StringSliceAdditionalSpecFns;
use vstd::string::StringExecFns;

use crate::auth::sha256_pwd;
use crate::preferences::Preferences;
use crate::rng::random_salt;

verus! {

/// A sign-up request.
#[derive(Debug)]
pub struct SignUpParams {
    pub username: String,
    pub email: String,
    pub password: String,
    pub preferences: Preferences,
}

/// The reply to a successful sign-up.
#[derive(Debug)]
pub struct SignUpResponse {
    pub username: String,
    pub email: String,
}

/// Why a sign-up was rejected.
#[derive(Debug, Clone, Copy)]
pub enum SignUpError {
    InvalidUsername(&'static str),
    InvalidEmail,
    InvalidPassword(&'static str),
    UsernameTaken,
    EmailTaken,
    Other,
}

/// An ASCII letter or digit.
pub open spec fn is_alnum_byte(b: u8) -> bool {
    (97 <= b <= 122) || (65 <= b <= 90) || (48 <= b <= 57)
}

/// A byte a username may contain: letters, digits, underscores and periods.
pub open spec fn is_username_byte(b: u8) -> bool {
    is_alnum_byte(b) || b == 95 || b == 46
}

/// A valid username: between 6 and 30 bytes of permitted characters.
pub open spec fn valid_username(s: Seq<u8>) -> bool {
    &&& 6 <= s.len() <= 30
    &&& forall|i: int| 0 <= i < s.len() ==> is_username_byte(#[trigger] s[i])
}

fn is_alnum_byte_exec(b: u8) -> (r: bool)
    ensures
        r == is_alnum_byte(b),
{
    (97 <= b && b <= 122) || (65 <= b && b <= 90) || (48 <= b && b <= 57)
}

/// Checks a candidate username, reporting the first violated rule.
pub fn validate_username(username: &str) -> (r: Result<(), SignUpError>)
    ensures
        ({
            let bs = username.spec_bytes();
            if bs.len() < 6 {
                r matches Err(SignUpError::InvalidUsername(m)) && m@
                    == "Username must be at least 6 characters long"@
            } else if bs.len() > 30 {
                r matches Err(SignUpError::InvalidUsername(m)) && m@
                    == "Username must be at most 30 characters long"@
            } else if exists|i: int| 0 <= i < bs.len() && !is_username_byte(#[trigger] bs[i]) {
                r matches Err(SignUpError::InvalidUsername(m)) && m@
                    == "Username must consist of only letters, digits, underscores and periods"@
            } else {
                r == Ok::<(), SignUpError>(())
            }
        }),
        r is Ok <==> valid_username(username.spec_bytes()),
{
    let bs = username.as_bytes();
    let n = bs.len();
    if n < 6 {
        return Err(SignUpError::InvalidUsername("Username must be at least 6 characters long"));
    }
    if n > 30 {
        return Err(SignUpError::InvalidUsername("Username must be at most 30 characters long"));
    }
    let mut i: usize = 0;
    while i < n
        invariant
            n == bs@.len(),
            bs@ == username.spec_bytes(),
            6 <= n <= 30,
            i <= n,
            forall|q: int| 0 <= q < i ==> is_username_byte(#[trigger] bs@[q]),
        decreases n - i,
    {
        let b = bs[i];
        if !(is_alnum_byte_exec(b) || b == 95 || b == 46) {
            proof {
                assert(!is_username_byte(bs@[i as int]));
            }
            return Err(
                SignUpError::InvalidUsername(
                    "Username must consist of only letters, digits, underscores and periods",
                ),
            );
        }
        i += 1;
    }
    Ok(())
}

/// A special character a password may satisfy its symbol requirement with:
/// the ASCII punctuation blocks.
pub open spec fn is_password_special(b: u8) -> bool {
    (32 <= b <= 47) || (58 <= b <= 64) || (91 <= b <= 96) || (123 <= b <= 126)
}

/// A valid password: at least 8 bytes with at least one uppercase letter,
/// one lowercase letter, one digit and one special character.
pub open spec fn valid_password(s: Seq<u8>) -> bool {
    &&& s.len() >= 8
    &&& exists|i: int| 0 <= i < s.len() && 65 <= #[trigger] s[i] <= 90
    &&& exists|i: int| 0 <= i < s.len() && 97 <= #[trigger] s[i] <= 122
    &&& exists|i: int| 0 <= i < s.len() && 48 <= #[trigger] s[i] <= 57
    &&& exists|i: int| 0 <= i < s.len() && is_password_special(#[trigger] s[i])
}

/// Checks a candidate password, reporting the first violated rule.
pub fn validate_password(password: &str) -> (r: Result<(), SignUpError>)
    ensures
        ({
            let bs = password.spec_bytes();
            if bs.len() < 8 {
                r matches Err(SignUpError::InvalidPassword(m)) && m@
                    == "Password must be at least 8 characters long"@
            } else if !valid_password(bs) {
                r matches Err(SignUpError::InvalidPassword(m)) && m@
                    == "Password must have at least one uppercase letter, one lowercase letter, one digit and one special character"@
            } else {
                r == Ok::<(), SignUpError>(())
            }
        }),
        r is Ok <==> valid_password(password.spec_bytes()),
{
    let bs = password.as_bytes();
    let n = bs.len();
    let mut has_upper = false;
    let mut has_lower = false;
    let mut has_digit = false;
    let mut has_special = false;
    let mut i: usize = 0;
    while i < n
        invariant
            n == bs@.len(),
            i <= n,
            has_upper <==> exists|q: int| 0 <= q < i && 65 <= #[trigger] bs@[q] <= 90,
            has_lower <==> exists|q: int| 0 <= q < i && 97 <= #[trigger] bs@[q] <= 122,
            has_digit <==> exists|q: int| 0 <= q < i && 48 <= #[trigger] bs@[q] <= 57,
            has_special <==> exists|q: int| 0 <= q < i && is_password_special(#[trigger] bs@[q]),
        decreases n - i,
    {
        let b = bs[i];
        proof {
            assert(bs@[i as int] == b);
        }
        if 65 <= b && b <= 90 {
            has_upper = true;
        }
        if 97 <= b && b <= 122 {
            has_lower = true;
        }
        if 48 <= b && b <= 57 {
            has_digit = true;
        }
        if (32 <= b && b <= 47) || (58 <= b && b <= 64) || (91 <= b && b <= 96) || (123 <= b && b
            <= 126) {
            has_special = true;
        }
        i += 1;
    }
    if n < 8 {
        return Err(SignUpError::InvalidPassword("Password must be at least 8 characters long"));
    }
    if !(has_upper && has_lower && has_digit && has_special) {
        return Err(
            SignUpError::InvalidPassword(
                "Password must have at least one uppercase letter, one lowercase letter, one digit and one special character",
            ),
        );
    }
    Ok(())
}

/// A byte the local part of an address may contain.
pub open spec fn is_local_byte(b: u8) -> bool {
    ||| is_alnum_byte(b)
    ||| b == 46  // .
    ||| b == 33  // !
    ||| (35 <= b <= 39)  // # $ % & '
    ||| b == 42  // *
    ||| b == 43  // +
    ||| b == 47  // /
    ||| b == 61  // =
    ||| b == 63  // ?
    ||| (94 <= b <= 96)  // ^ _ `
    ||| (123 <= b <= 126)  // { | } ~
    ||| b == 45  // -
}

/// A byte a domain label may contain.
pub open spec fn is_label_byte(b: u8) -> bool {
    is_alnum_byte(b) || b == 45
}

/// A valid domain label: 1 to 63 permitted bytes, alphanumeric at both ends.
pub open spec fn valid_label(s: Seq<u8>) -> bool {
    &&& 1 <= s.len() <= 63
    &&& is_alnum_byte(s[0])
    &&& is_alnum_byte(s[s.len() - 1])
    &&& forall|i: int| 0 <= i < s.len() ==> is_label_byte(#[trigger] s[i])
}

/// A valid domain: one or more valid labels separated by dots.
pub open spec fn valid_domain(d: Seq<u8>) -> bool
    decreases d.len(),
{
    exists|i: int|
        0 < i <= d.len() && #[trigger] valid_label(d.take(i)) && (i == d.len() || (d[i] == 46
            && valid_domain(d.skip(i + 1))))
}

/// A valid address: a non-empty local part of permitted bytes, one `@`, and
/// a valid domain.
pub open spec fn valid_email(s: Seq<u8>) -> bool {
    exists|a: int|
        0 < a < s.len() && (#[trigger] s[a]) == 64 && (forall|i: int|
            0 <= i < a ==> is_local_byte(#[trigger] s[i])) && valid_domain(s.skip(a + 1))
}

/// A domain splits at its first dot (or its end): labels cannot contain
/// dots, so the split point of the recursive definition is forced.
proof fn lemma_domain_split(d: Seq<u8>, e: int)
    requires
        0 <= e <= d.len(),
        forall|j: int| 0 <= j < e ==> d[j] != 46,
        e < d.len() ==> d[e] == 46,
    ensures
        valid_domain(d) <==> (valid_label(d.take(e)) && (e == d.len() || valid_domain(
            d.skip(e + 1),
        ))),
{
    if valid_label(d.take(e)) && (e == d.len() || valid_domain(d.skip(e + 1))) {
        assert(0 < e);
        assert(valid_domain(d)) by {
            assert(0 < e <= d.len() && valid_label(d.take(e)) && (e == d.len() || (d[e] == 46
                && valid_domain(d.skip(e + 1)))));
        }
    }
    if valid_domain(d) {
        let i = choose|i: int|
            0 < i <= d.len() && #[trigger] valid_label(d.take(i)) && (i == d.len() || (d[i] == 46
                && valid_domain(d.skip(i + 1))));
        assert(i == e) by {
            if i < e {
                assert(i < d.len());
                assert(d[i] != 46);
                assert(i == d.len() || d[i] == 46);
                assert(false);
            }
            if i > e {
                assert(e < d.len());
                assert(d[e] == 46);
                assert(valid_label(d.take(i)));
                assert(d.take(i)[e] == d[e]);
                assert(is_label_byte(d[e]));
                assert(false);
            }
        }
    }
}

/// Finds the first `@`, if any.
fn find_at(bs: &[u8]) -> (r: Option<usize>)
    ensures
        match r {
            Some(a) => a < bs@.len() && bs@[a as int] == 64 && forall|q: int|
                0 <= q < a ==> bs@[q] != 64,
            None => forall|q: int| 0 <= q < bs@.len() ==> bs@[q] != 64,
        },
{
    let n = bs.len();
    let mut i: usize = 0;
    while i < n
        invariant
            n == bs@.len(),
            i <= n,
            forall|q: int| 0 <= q < i ==> bs@[q] != 64,
        decreases n - i,
    {
        if bs[i] == 64 {
            return Some(i);
        }
        i += 1;
    }
    None
}

/// Whether every byte before `a` is a permitted local-part byte.
fn all_local(bs: &[u8], a: usize) -> (r: bool)
    requires
        a <= bs@.len(),
    ensures
        r <==> forall|q: int| 0 <= q < a ==> is_local_byte(#[trigger] bs@[q]),
{
    let mut i: usize = 0;
    while i < a
        invariant
            a <= bs@.len(),
            i <= a,
            forall|q: int| 0 <= q < i ==> is_local_byte(#[trigger] bs@[q]),
        decreases a - i,
    {
        let b = bs[i];
        let ok = is_alnum_byte_exec(b) || b == 46 || b == 33 || (35 <= b && b <= 39) || b == 42
            || b == 43 || b == 47 || b == 61 || b == 63 || (94 <= b && b <= 96) || (123 <= b && b
            <= 126) || b == 45;
        if !ok {
            proof {
                assert(!is_local_byte(bs@[i as int]));
            }
            return false;
        }
        i += 1;
    }
    true
}

/// Whether `bs` from `start` on is a valid dot-separated label sequence.
fn check_domain(bs: &[u8], start: usize) -> (ok: bool)
    requires
        start <= bs@.len(),
    ensures
        ok == valid_domain(bs@.skip(start as int)),
{
    let n = bs.len();
    let mut pos = start;
    loop
        invariant
            n == bs@.len(),
            start <= pos <= n,
            valid_domain(bs@.skip(start as int)) == valid_domain(bs@.skip(pos as int)),
        decreases n - pos,
    {
        let ghost d = bs@.skip(pos as int);
        if pos == n {
            proof {
                assert(d.len() == 0);
                assert(!valid_domain(d));
            }
            return false;
        }
        if !is_alnum_byte_exec(bs[pos]) {
            proof {
                assert(d[0] == bs@[pos as int]);
                assert(!valid_domain(d)) by {
                    assert forall|i: int|
                        0 < i <= d.len() implies !(#[trigger] valid_label(d.take(i)) && (i
                        == d.len() || (d[i] == 46 && valid_domain(d.skip(i + 1))))) by {
                        if valid_label(d.take(i)) {
                            assert(d.take(i)[0] == d[0]);
                            assert(is_alnum_byte(d[0]));
                        }
                    }
                }
            }
            return false;
        }
        let lab_start = pos;
        pos += 1;
        while pos < n && bs[pos] != 46
            invariant
                n == bs@.len(),
                lab_start < pos <= n,
                lab_start < n,
                start <= lab_start,
                valid_domain(bs@.skip(start as int)) == valid_domain(bs@.skip(lab_start as int)),
                bs@[lab_start as int] == bs@.skip(lab_start as int)[0],
                is_alnum_byte(bs@[lab_start as int]),
                forall|q: int| lab_start < q < pos ==> is_label_byte(#[trigger] bs@[q]) && bs@[q] != 46,
            decreases n - pos,
        {
            let b = bs[pos];
            let ok = is_alnum_byte_exec(b) || b == 45;
            if !ok {
                proof {
                    let dd = bs@.skip(lab_start as int);
                    let m = pos - lab_start;
                    assert(forall|q: int| 0 <= q < dd.len() ==> dd[q] == bs@[lab_start + q]);
                    assert(!is_label_byte(dd[m as int]));
                    assert(dd[m as int] != 46);
                    assert(!valid_domain(dd)) by {
                        assert forall|i: int|
                            0 < i <= dd.len() implies !(#[trigger] valid_label(dd.take(i)) && (i
                            == dd.len() || (dd[i] == 46 && valid_domain(dd.skip(i + 1))))) by {
                            if i > m {
                                if valid_label(dd.take(i)) {
                                    assert(dd.take(i)[m as int] == dd[m as int]);
                                    assert(is_label_byte(dd[m as int]));
                                }
                            } else {
                                assert(i <= m);
                                assert(i < dd.len());
                                if i == m {
                                    assert(dd[i] != 46);
                                } else {
                                    assert(0 < i < m);
                                    assert(dd[i] == bs@[lab_start + i]);
                                    assert(is_label_byte(bs@[lab_start + i]) && bs@[lab_start + i]
                                        != 46);
                                }
                            }
                        }
                    }
                    assert(bs@.skip(pos as int) == bs@.skip(pos as int));
                    assert(valid_domain(bs@.skip(start as int)) == valid_domain(dd));
                }
                return false;
            }
            pos += 1;
        }
        // the label runs from lab_start to pos: its bytes are permitted and
        // dot-free, and bs[pos] is a dot or the end
        proof {
            let dd = bs@.skip(lab_start as int);
            let e = pos - lab_start;
            assert(forall|q: int| 0 <= q < dd.len() ==> dd[q] == bs@[lab_start + q]);
            assert(forall|j: int| 0 <= j < e ==> dd[j] != 46);
            assert(e < dd.len() ==> dd[e as int] == 46);
            lemma_domain_split(dd, e as int);
        }
        if pos - lab_start > 63 {
            proof {
                let dd = bs@.skip(lab_start as int);
                let e = pos - lab_start;
                assert(dd.take(e as int).len() == e);
                assert(!valid_label(dd.take(e as int)));
                assert(!valid_domain(dd));
            }
            return false;
        }
        if !is_alnum_byte_exec(bs[pos - 1]) {
            proof {
                let dd = bs@.skip(lab_start as int);
                let e = pos - lab_start;
                assert(dd.take(e as int)[e - 1] == bs@[pos - 1]);
                assert(!valid_label(dd.take(e as int)));
                assert(!valid_domain(dd));
            }
            return false;
        }
        proof {
            let dd = bs@.skip(lab_start as int);
            let e = pos - lab_start;
            assert(valid_label(dd.take(e as int))) by {
                assert(dd.take(e as int).len() == e);
                assert(dd.take(e as int)[0] == bs@[lab_start as int]);
                assert(dd.take(e as int)[e - 1] == bs@[pos - 1]);
                assert(forall|q: int|
                    0 <= q < e ==> (#[trigger] dd.take(e as int)[q]) == bs@[lab_start + q]);
                assert(forall|q: int|
                    0 < q < e ==> is_label_byte(#[trigger] bs@[lab_start + q]));
                assert(is_label_byte(bs@[lab_start as int]));
            }
        }
        if pos == n {
            proof {
                let dd = bs@.skip(lab_start as int);
                let e = pos - lab_start;
                assert(e == dd.len());
                assert(valid_domain(dd));
            }
            return true;
        }
        // bs[pos] is a dot: step past it to the next label
        proof {
            let dd = bs@.skip(lab_start as int);
            let e = pos - lab_start;
            assert(dd[e as int] == 46);
            assert(dd.skip(e + 1) =~= bs@.skip(pos + 1));
            assert(valid_domain(dd) == valid_domain(bs@.skip(pos + 1)));
        }
        pos += 1;
    }
}

/// Checks a candidate address against the address grammar.
pub fn validate_email(email: &str) -> (r: Result<(), SignUpError>)
    ensures
        r == (if valid_email(email.spec_bytes()) {
            Ok::<(), SignUpError>(())
        } else {
            Err::<(), SignUpError>(SignUpError::InvalidEmail)
        }),
{
    let bs = email.as_bytes();
    let a = match find_at(bs) {
        Some(a) => a,
        None => {
            proof {
                assert(!valid_email(bs@)) by {
                    assert(forall|w: int| 0 <= w < bs@.len() ==> bs@[w] != 64);
                }
            }
            return Err(SignUpError::InvalidEmail);
        },
    };
    if a == 0 {
        proof {
            assert(!valid_email(bs@)) by {
                assert forall|w: int|
                    0 < w < bs@.len() && (#[trigger] bs@[w]) == 64 implies !(forall|i: int|
                    0 <= i < w ==> is_local_byte(#[trigger] bs@[i])) by {
                    assert(bs@[0] == 64);
                    assert(!is_local_byte(bs@[0]));
                }
            }
        }
        return Err(SignUpError::InvalidEmail);
    }
    if !all_local(bs, a) {
        proof {
            assert(!valid_email(bs@)) by {
                let j = choose|q: int| 0 <= q < a && !is_local_byte(#[trigger] bs@[q]);
                assert forall|w: int|
                    0 < w < bs@.len() && (#[trigger] bs@[w]) == 64 implies !(forall|i: int|
                    0 <= i < w ==> is_local_byte(#[trigger] bs@[i])) by {
                    assert(w >= a);
                    assert(!is_local_byte(bs@[j]));
                    assert(0 <= j < w);
                }
            }
        }
        return Err(SignUpError::InvalidEmail);
    }
    let total = bs.len();
    proof {
        assert(a < total);
    }
    if !check_domain(bs, a + 1) {
        proof {
            assert(!valid_email(bs@)) by {
                assert forall|w: int|
                    0 < w < bs@.len() && (#[trigger] bs@[w]) == 64 && (forall|i: int|
                        0 <= i < w ==> is_local_byte(#[trigger] bs@[i])) implies !valid_domain(
                    bs@.skip(w + 1),
                ) by {
                    if w > a {
                        assert(bs@[a as int] == 64);
                        assert(is_local_byte(bs@[a as int]));
                        assert(false);
                    }
                    assert(w == a);
                }
            }
        }
        return Err(SignUpError::InvalidEmail);
    }
    proof {
        assert(valid_email(bs@)) by {
            assert(0 < a < bs@.len() && (bs@[a as int]) == 64 && (forall|i: int|
                0 <= i < a ==> is_local_byte(#[trigger] bs@[i])) && valid_domain(
                bs@.skip(a + 1),
            ));
        }
    }
    Ok(())
}

/// Validates a whole sign-up request, in the order the rules are reported:
/// username, then email, then password.
pub fn validate_sign_up(username: &str, email: &str, password: &str) -> (r: Result<
    (),
    SignUpError,
>)
    ensures
        r is Ok <==> (valid_username(username.spec_bytes()) && valid_email(email.spec_bytes())
            && valid_password(password.spec_bytes())),
        !valid_username(username.spec_bytes()) ==> r matches Err(SignUpError::InvalidUsername(_)),
        valid_username(username.spec_bytes()) && !valid_email(email.spec_bytes()) ==> r == Err::<
            (),
            SignUpError,
        >(SignUpError::InvalidEmail),
        valid_username(username.spec_bytes()) && valid_email(email.spec_bytes()) && !valid_password(
            password.spec_bytes(),
        ) ==> r matches Err(SignUpError::InvalidPassword(_)),
{
    validate_username(username)?;
    validate_email(email)?;
    validate_password(password)?;
    Ok(())
}

/// The salted hash material for a new account: a fresh 32-byte salt and the
/// hash of the validated password under it.  Invalid credentials are
/// rejected exactly as [`validate_sign_up`] reports them.
pub fn sign_up_credentials(username: &str, email: &str, password: &str, pepper: &str) -> (r: Result<
    (Vec<u8>, Vec<u8>),
    SignUpError,
>)
    ensures
        r is Ok <==> (valid_username(username.spec_bytes()) && valid_email(email.spec_bytes())
            && valid_password(password.spec_bytes())),
        r matches Ok((salt, hash)) ==> salt@.len() == 32 && hash@ == sha256_pwd(
            password.spec_bytes(),
            salt@,
            pepper.spec_bytes(),
        ),
{
    validate_sign_up(username, email, password)?;
    let salt = random_salt();
    let hash = crate::auth::password_hash(password, &salt, pepper);
    Ok((salt, hash))
}

/// Whether `p` is a prefix of `s`.
pub open spec fn has_prefix(s: Seq<u8>, p: Seq<u8>) -> bool {
    p.len() <= s.len() && s.take(p.len() as int) == p
}

/// Whether `p` is a suffix of `s`.
pub open spec fn has_suffix(s: Seq<u8>, p: Seq<u8>) -> bool {
    p.len() <= s.len() && s.skip(s.len() - p.len()) == p
}

/// Byte-level prefix test.
pub(crate) fn starts_with(s: &[u8], p: &[u8]) -> (r: bool)
    ensures
        r == has_prefix(s@, p@),
{
    let k = p.len();
    if k > s.len() {
        proof {
            assert(!has_prefix(s@, p@));
        }
        return false;
    }
    let mut i: usize = 0;
    while i < k
        invariant
            k == p@.len(),
            k <= s@.len(),
            i <= k,
            forall|q: int| 0 <= q < i ==> s@[q] == p@[q],
        decreases k - i,
    {
        if s[i] != p[i] {
            proof {
                assert(s@.take(k as int)[i as int] == s@[i as int]);
                assert(!has_prefix(s@, p@));
            }
            return false;
        }
        i += 1;
    }
    proof {
        assert(s@.take(k as int) =~= p@);
    }
    true
}

/// Byte-level suffix test.
pub(crate) fn ends_with(s: &[u8], p: &[u8]) -> (r: bool)
    ensures
        r == has_suffix(s@, p@),
{
    let k = p.len();
    let n = s.len();
    if k > n {
        proof {
            assert(!has_suffix(s@, p@));
        }
        return false;
    }
    let off = n - k;
    let mut i: usize = 0;
    while i < k
        invariant
            k == p@.len(),
            n == s@.len(),
            k <= n,
            off == n - k,
            i <= k,
            forall|q: int| 0 <= q < i ==> s@[off + q] == p@[q],
        decreases k - i,
    {
        if s[off + i] != p[i] {
            proof {
                assert(s@.skip(off as int)[i as int] == s@[off + i]);
                assert(!has_suffix(s@, p@));
            }
            return false;
        }
        i += 1;
    }
    proof {
        assert(s@.skip(off as int) =~= p@);
    }
    true
}

/// Classifies the message of a database error raised while inserting a new
/// account: a duplicate-key violation on the username or email column maps
/// to the matching rejection, anything else is internal.
pub fn classify_sign_up_db_error(message: &str) -> (r: SignUpError)
    ensures
        r == ({
            let m = message.spec_bytes();
            if !has_prefix(m, "Duplicate entry".spec_bytes()) {
                SignUpError::Other
            } else if has_suffix(m, "for key 'username'".spec_bytes()) {
                SignUpError::UsernameTaken
            } else if has_suffix(m, "for key 'email'".spec_bytes()) {
                SignUpError::EmailTaken
            } else {
                SignUpError::Other
            }
        }),
{
    let m = message.as_bytes();
    if !starts_with(m, "Duplicate entry".as_bytes()) {
        return SignUpError::Other;
    }
    if ends_with(m, "for key 'username'".as_bytes()) {
        SignUpError::UsernameTaken
    } else if ends_with(m, "for key 'email'".as_bytes()) {
        SignUpError::EmailTaken
    } else {
        SignUpError::Other
    }
}

impl SignUpError {
    /// The HTTP status code reported for this rejection.
    pub fn status_code(&self) -> (c: u16)
        ensures
            c == match self {
                SignUpError::Other => 500u16,
                _ => 422u16,
            },
    {
        match self {
            SignUpError::Other => 500,
            _ => 422,
        }
    }

    /// The response body reported for this rejection.
    pub fn message(&self) -> (m: String)
        ensures
            m@ == match self {
                SignUpError::InvalidUsername(reason) => "Invalid username: "@ + reason@,
                SignUpError::InvalidEmail => "Invalid email"@,
                SignUpError::InvalidPassword(reason) => "Invalid password: "@ + reason@,
                SignUpError::UsernameTaken => "Username already taken"@,
                SignUpError::EmailTaken => "Email already in use"@,
                SignUpError::Other => "Internal server error"@,
            },
    {
        match self {
            SignUpError::InvalidUsername(reason) => {
                let mut m = "Invalid username: ".to_owned();
                m.append(reason);
                m
            },
            SignUpError::InvalidEmail => "Invalid email".to_owned(),
            SignUpError::InvalidPassword(reason) => {
                let mut m = "Invalid password: ".to_owned();
                m.append(reason);
                m
            },
            SignUpError::UsernameTaken => "Username already taken".to_owned(),
            SignUpError::EmailTaken => "Email already in use".to_owned(),
            SignUpError::Other => "Internal server error".to_owned(),
        }
    }
}

} // verus!
