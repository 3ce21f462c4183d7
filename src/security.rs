//! Cookie authentication: a token `value.signature` is accepted when
//! `signature` is the hex HMAC-SHA256 of the secret value under the secret
//! key and `value` is the secret value.
use hmac::{Hmac, Mac};
use sha2::Sha256;
use vstd::prelude::*;
use vstd::utf8::encode_utf8;

verus! {

/// Characters with the Unicode `White_Space` property.
pub open spec fn is_unicode_whitespace(c: char) -> bool {
    let u = c as u32;
    (0x09 <= u <= 0x0d) || u == 0x20 || u == 0x85 || u == 0xa0 || u == 0x1680 || (0x2000 <= u
        <= 0x200a) || u == 0x2028 || u == 0x2029 || u == 0x202f || u == 0x205f || u == 0x3000
}

/// `s` without its leading whitespace.
pub open spec fn trim_start_of(s: Seq<char>) -> Seq<char>
    decreases s.len(),
{
    if s.len() > 0 && is_unicode_whitespace(s[0]) {
        trim_start_of(s.drop_first())
    } else {
        s
    }
}

/// `s` without its trailing whitespace.
pub open spec fn trim_end_of(s: Seq<char>) -> Seq<char>
    decreases s.len(),
{
    if s.len() > 0 && is_unicode_whitespace(s.last()) {
        trim_end_of(s.drop_last())
    } else {
        s
    }
}

/// `s` without leading and trailing whitespace.
pub open spec fn trimmed(s: Seq<char>) -> Seq<char> {
    trim_end_of(trim_start_of(s))
}

/// Relies on `str::trim`: removes leading and trailing characters with the
/// Unicode `White_Space` property.
#[verifier::external_body]
fn trim(s: &str) -> (r: &str)
    ensures
        r@ == trimmed(s@),
{
    s.trim()
}

/// Lower-case hexadecimal digit for a nibble.
pub open spec fn hex_digit(n: int) -> char {
    if n < 10 {
        (n + 48) as char
    } else {
        (n + 87) as char
    }
}

/// Lower-case hexadecimal text of `b`, two digits per byte, high nibble first.
pub open spec fn hex_of(b: Seq<u8>) -> Seq<char> {
    Seq::new(
        2 * b.len(),
        |i: int|
            if i % 2 == 0 {
                hex_digit(b[i / 2] as int / 16)
            } else {
                hex_digit(b[i / 2] as int % 16)
            },
    )
}

/// Relies on `hex::encode`: two lower-case hex digits per byte, in order.
#[verifier::external_body]
fn hex_encode(b: &[u8]) -> (r: String)
    ensures
        r@ == hex_of(b@),
{
    hex::encode(b)
}

/// HMAC-SHA256 of `msg` under `key`.
pub uninterp spec fn hmac_sha256_of(key: Seq<u8>, msg: Seq<u8>) -> Seq<u8>;

/// Relies on `hmac::Hmac<sha2::Sha256>`: `new_from_slice` accepts a key of
/// any length, and the finalized tag is 32 bytes.
#[verifier::external_body]
fn hmac_sha256(key: &[u8], msg: &[u8]) -> (r: Vec<u8>)
    ensures
        r@ == hmac_sha256_of(key@, msg@),
        r@.len() == 32,
{
    let mut mac = Hmac::<Sha256>::new_from_slice(key).expect("HMAC takes a key of any length");
    mac.update(msg);
    mac.finalize().into_bytes().to_vec()
}

/// `i` is the position of the only `.` in `t`.
pub open spec fn is_sole_dot(t: Seq<char>, i: int) -> bool {
    &&& 0 <= i < t.len()
    &&& t[i] == '.'
    &&& forall|j: int| 0 <= j < t.len() && j != i ==> t[j] != '.'
}

/// The two parts of a token around its only `.`; `None` when the token does
/// not hold exactly one `.`.
pub open spec fn token_parts(t: Seq<char>) -> Option<(Seq<char>, Seq<char>)> {
    if exists|i: int| is_sole_dot(t, i) {
        let i = choose|i: int| is_sole_dot(t, i);
        Some((t.take(i), t.skip(i + 1)))
    } else {
        None
    }
}

/// Splits `t` around its only `.`.
pub fn split_token(t: &str) -> (r: Option<(&str, &str)>)
    ensures
        r is None <==> token_parts(t@) is None,
        r matches Some((v, s)) ==> token_parts(t@) == Some((v@, s@)),
{
    let n = t.unicode_len();
    let mut first: Option<usize> = None;
    let mut more = false;
    let mut i: usize = 0;
    for c in it: t.chars()
        invariant
            i == it.index(),
            it.seq() == t@,
            n == t@.len(),
            first is None ==> forall|k: int| 0 <= k < i ==> t@[k] != '.',
            first matches Some(f) ==> f < i && t@[f as int] == '.' && forall|k: int|
                0 <= k < f ==> t@[k] != '.',
            !more ==> (first matches Some(f) ==> forall|k: int|
                0 <= k < i && k != f ==> t@[k] != '.'),
            more ==> (first matches Some(f) && exists|k: int| f < k < i && t@[k] == '.'),
    {
        if c == '.' {
            if first.is_none() {
                first = Some(i);
            } else {
                more = true;
            }
        }
        i = i + 1;
    }
    match first {
        None => {
            assert(!exists|k: int| is_sole_dot(t@, k));
            None
        },
        Some(f) => {
            if more {
                assert(!exists|k: int| is_sole_dot(t@, k));
                None
            } else {
                assert(is_sole_dot(t@, f as int));
                let v = t.substring_char(0, f);
                let s = t.substring_char(f + 1, n);
                proof {
                    let k = choose|k: int| is_sole_dot(t@, k);
                    assert(k == f);
                }
                Some((v, s))
            }
        },
    }
}

/// Whether two texts are equal.
fn same_text(a: &str, b: &str) -> (r: bool)
    ensures
        r == (a@ == b@),
{
    a.to_owned() == b.to_owned()
}

/// Acceptance of token `t`: it holds exactly one `.`, the part after it,
/// trimmed, equals `expected_signature`, and the part before it, trimmed,
/// equals `secret_value`.
pub open spec fn token_accepted(
    t: Seq<char>,
    expected_signature: Seq<char>,
    secret_value: Seq<char>,
) -> bool {
    match token_parts(t) {
        Some((value, signature)) => trimmed(signature) == expected_signature && trimmed(value)
            == secret_value,
        None => false,
    }
}

/// Checks `token` against an already computed signature and the (trimmed)
/// secret value.
pub fn check_token(token: &str, expected_signature: &str, secret_value: &str) -> (r: bool)
    ensures
        r == token_accepted(token@, expected_signature@, secret_value@),
{
    match split_token(token) {
        None => false,
        Some((value, signature)) => {
            if !same_text(trim(signature), expected_signature) {
                return false;
            }
            same_text(trim(value), secret_value)
        },
    }
}

/// The two process-wide secrets: the HMAC key and the value it signs.
pub struct CookieSecrets {
    pub secret_key: String,
    pub secret_value: String,
}

impl CookieSecrets {
    pub fn new(secret_key: String, secret_value: String) -> (r: CookieSecrets)
        ensures
            r.secret_key@ == secret_key@,
            r.secret_value@ == secret_value@,
    {
        CookieSecrets { secret_key, secret_value }
    }
}

/// The signature a valid token carries: hex of the HMAC-SHA256 of the
/// trimmed secret value under the trimmed secret key (both UTF-8 encoded).
pub open spec fn expected_signature(secret_key: Seq<char>, secret_value: Seq<char>) -> Seq<char> {
    hex_of(hmac_sha256_of(encode_utf8(trimmed(secret_key)), encode_utf8(trimmed(secret_value))))
}

/// Whether `cookie_value` is accepted under `secrets`.
pub open spec fn cookie_accepted(cookie_value: Seq<char>, secret_key: Seq<char>, secret_value: Seq<char>) -> bool {
    token_accepted(cookie_value, expected_signature(secret_key, secret_value), trimmed(secret_value))
}

/// Computes the signature that a valid token carries.
pub fn compute_signature(secrets: &CookieSecrets) -> (r: String)
    ensures
        r@ == expected_signature(secrets.secret_key@, secrets.secret_value@),
{
    let key = trim(secrets.secret_key.as_str());
    let value = trim(secrets.secret_value.as_str());
    let tag = hmac_sha256(key.as_bytes(), value.as_bytes());
    hex_encode(tag.as_slice())
}

/// Validates a cookie value against the secrets.
pub fn is_valid_cookie(cookie_value: &str, secrets: &CookieSecrets) -> (r: bool)
    ensures
        r == cookie_accepted(cookie_value@, secrets.secret_key@, secrets.secret_value@),
{
    let signature = compute_signature(secrets);
    let value = trim(secrets.secret_value.as_str());
    check_token(cookie_value, signature.as_str(), value)
}

/// Validates an optional cookie; a missing cookie or missing secrets reject
/// the request.
pub fn verify_cookie(cookie_value: Option<&str>, secrets: Option<&CookieSecrets>) -> (r: bool)
    ensures
        r == (cookie_value matches Some(c) && secrets matches Some(k) && cookie_accepted(
            c@,
            k.secret_key@,
            k.secret_value@,
        )),
{
    match (cookie_value, secrets) {
        (Some(c), Some(k)) => is_valid_cookie(c, k),
        _ => false,
    }
}

proof fn lemma_trim_start_shrinks(s: Seq<char>)
    ensures
        trim_start_of(s).len() <= s.len(),
        trim_start_of(s).len() == s.len() ==> trim_start_of(s) == s,
    decreases s.len(),
{
    if s.len() > 0 && is_unicode_whitespace(s[0]) {
        lemma_trim_start_shrinks(s.drop_first());
    }
}

proof fn lemma_trim_end_shrinks(s: Seq<char>)
    ensures
        trim_end_of(s).len() <= s.len(),
        trim_end_of(s).len() == s.len() ==> trim_end_of(s) == s,
    decreases s.len(),
{
    if s.len() > 0 && is_unicode_whitespace(s.last()) {
        lemma_trim_end_shrinks(s.drop_last());
    }
}

/// Trimming never lengthens a text, and a trim that keeps the length keeps
/// the text.
pub proof fn lemma_trimmed_shrinks(s: Seq<char>)
    ensures
        trimmed(s).len() <= s.len(),
        trimmed(s).len() == s.len() ==> trimmed(s) == s,
{
    lemma_trim_start_shrinks(s);
    lemma_trim_end_shrinks(trim_start_of(s));
}

/// Hex text holds no whitespace and no `.`.
pub proof fn lemma_hex_plain(b: Seq<u8>)
    ensures
        forall|i: int|
            0 <= i < hex_of(b).len() ==> !is_unicode_whitespace(#[trigger] hex_of(b)[i])
                && hex_of(b)[i] != '.',
        trimmed(hex_of(b)) == hex_of(b),
{
    let h = hex_of(b);
    assert forall|i: int| 0 <= i < h.len() implies !is_unicode_whitespace(#[trigger] h[i]) && h[i]
        != '.' by {
        let n = if i % 2 == 0 {
            b[i / 2] as int / 16
        } else {
            b[i / 2] as int % 16
        };
        assert(0 <= n < 16);
        assert(h[i] == hex_digit(n));
    }
    if h.len() > 0 {
        assert(trim_start_of(h) == h);
        assert(trim_end_of(h) == h);
    }
}

proof fn lemma_sole_dot_at(t: Seq<char>, i: int)
    requires
        0 <= i < t.len(),
        t[i] == '.',
        token_parts(t) is Some,
    ensures
        is_sole_dot(t, i),
        token_parts(t) == Some((t.take(i), t.skip(i + 1))),
{
    let k = choose|k: int| is_sole_dot(t, k);
    assert(k == i);
}

/// An empty token is rejected.
pub proof fn lemma_empty_token_rejected(expected_signature: Seq<char>, secret_value: Seq<char>)
    ensures
        !token_accepted(Seq::empty(), expected_signature, secret_value),
{
}

/// A token with two or more `.` is rejected.
pub proof fn lemma_extra_dot_rejected(
    t: Seq<char>,
    i: int,
    j: int,
    expected_signature: Seq<char>,
    secret_value: Seq<char>,
)
    requires
        0 <= i < j < t.len(),
        t[i] == '.',
        t[j] == '.',
    ensures
        !token_accepted(t, expected_signature, secret_value),
{
    if token_parts(t) is Some {
        lemma_sole_dot_at(t, i);
    }
}

/// A token `v.sig` where `sig` is the signature of `v` itself is accepted
/// exactly when `v` is the (trimmed) secret value; `v` holds no `.` and no
/// surrounding whitespace.
pub proof fn lemma_signed_value_accepted(secret_key: Seq<char>, secret_value: Seq<char>, v: Seq<char>)
    requires
        forall|k: int| 0 <= k < v.len() ==> v[k] != '.',
        trimmed(v) == v,
    ensures
        cookie_accepted(
            v + seq!['.'] + hex_of(hmac_sha256_of(encode_utf8(trimmed(secret_key)), encode_utf8(v))),
            secret_key,
            secret_value,
        ) <==> v == trimmed(secret_value),
{
    let sig = hex_of(hmac_sha256_of(encode_utf8(trimmed(secret_key)), encode_utf8(v)));
    let t = v + seq!['.'] + sig;
    lemma_hex_plain(hmac_sha256_of(encode_utf8(trimmed(secret_key)), encode_utf8(v)));
    assert(is_sole_dot(t, v.len() as int)) by {
        assert forall|j: int| 0 <= j < t.len() && j != v.len() implies t[j] != '.' by {
            if j < v.len() {
                assert(t[j] == v[j]);
            } else {
                assert(t[j] == sig[j - v.len() - 1]);
            }
        }
    }
    lemma_sole_dot_at(t, v.len() as int);
    assert(t.take(v.len() as int) =~= v);
    assert(t.skip(v.len() as int + 1) =~= sig);
}

/// Changing one character of the signature of an accepted token `v.sig`,
/// whose signature is exactly the expected one, makes it rejected.
pub proof fn lemma_signature_mutation_rejected(
    v: Seq<char>,
    expected_signature: Seq<char>,
    secret_value: Seq<char>,
    p: int,
    c: char,
)
    requires
        token_accepted(v + seq!['.'] + expected_signature, expected_signature, secret_value),
        0 <= p < expected_signature.len(),
        c != expected_signature[p],
    ensures
        !token_accepted(v + seq!['.'] + expected_signature.update(p, c), expected_signature, secret_value),
{
    let e = expected_signature;
    let e2 = e.update(p, c);
    let t1 = v + seq!['.'] + e;
    let t2 = v + seq!['.'] + e2;
    assert(t1[v.len() as int] == '.');
    lemma_sole_dot_at(t1, v.len() as int);
    if token_accepted(t2, e, secret_value) {
        assert(t2[v.len() as int] == '.');
        lemma_sole_dot_at(t2, v.len() as int);
        assert(t2.skip(v.len() as int + 1) =~= e2);
        lemma_trimmed_shrinks(e2);
        assert(trimmed(e2) == e2);
        assert(e2[p] != e[p]);
    }
}

} // verus!
