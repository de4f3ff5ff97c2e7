//! Secret digests: SHA-512 of the secret's UTF-8 bytes, written as lower-case hex.
use vstd::prelude::*;
use sha2::Digest;

verus! {

/// The SHA-512 digest of the UTF-8 encoding of `s`.
pub uninterp spec fn sha512_of(s: Seq<char>) -> Seq<u8>;

/// Relies on `sha2::Sha512::digest`: the digest depends on the input bytes alone.
#[verifier::external_body]
fn sha512(s: &str) -> (r: Vec<u8>)
    ensures
        r@ == sha512_of(s@),
{
    sha2::Sha512::digest(s.as_bytes()).to_vec()
}

/// The lower-case hex digit for a value below 16.
pub open spec fn hex_digit(n: u8) -> char
    recommends
        n < 16,
{
    if n < 10 {
        (48 + n) as char
    } else {
        (87 + n) as char
    }
}

/// Two lower-case hex digits per byte, high nibble first.
pub open spec fn hex_of(b: Seq<u8>) -> Seq<char>
    decreases b.len(),
{
    if b.len() == 0 {
        Seq::empty()
    } else {
        let last = b.last();
        hex_of(b.drop_last()) + seq![hex_digit(last / 16), hex_digit(last % 16)]
    }
}

/// The text under which a secret's digest is stored.
pub open spec fn secret_digest_text(secret: Seq<char>) -> Seq<char> {
    hex_of(sha512_of(secret))
}

fn hex_char(n: u8) -> (c: char)
    requires
        n < 16,
    ensures
        c == hex_digit(n),
{
    if n < 10 {
        (48 + n) as char
    } else {
        (87 + n) as char
    }
}

/// Writes `b` as lower-case hex, two digits per byte.
pub fn to_lower_hex(b: &Vec<u8>) -> (r: Vec<char>)
    ensures
        r@ == hex_of(b@),
{
    let mut out: Vec<char> = Vec::new();
    let mut i: usize = 0;
    while i < b.len()
        invariant
            i <= b@.len(),
            out@ == hex_of(b@.subrange(0, i as int)),
        decreases b@.len() - i,
    {
        let byte = b[i];
        out.push(hex_char(byte / 16));
        out.push(hex_char(byte % 16));
        proof {
            let next = b@.subrange(0, i + 1);
            assert(next.drop_last() =~= b@.subrange(0, i as int));
            assert(next.last() == byte);
        }
        i = i + 1;
    }
    assert(b@.subrange(0, b@.len() as int) =~= b@);
    out
}

/// Whether the characters of `a` are exactly those of `b`.
pub fn same_text(a: &Vec<char>, b: &str) -> (r: bool)
    ensures
        r == (a@ == b@),
{
    let n = b.unicode_len();
    if a.len() != n {
        return false;
    }
    let mut i: usize = 0;
    while i < n
        invariant
            n == b@.len(),
            a@.len() == n,
            i <= n,
            forall|j: int| 0 <= j < i ==> a@[j] == b@[j],
        decreases n - i,
    {
        if a[i] != b.get_char(i) {
            return false;
        }
        i = i + 1;
    }
    assert(a@ =~= b@);
    true
}

/// The digest text of `secret`, as it is kept in a credential record.
pub fn secret_digest(secret: &str) -> (r: Vec<char>)
    ensures
        r@ == secret_digest_text(secret@),
{
    let bytes = sha512(secret);
    to_lower_hex(&bytes)
}

} // verus!
