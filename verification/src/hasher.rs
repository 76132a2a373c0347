//! Salted one-way password hashing and constant-shape verification.
//!
//! A digest is the salt, a `&` separator, and the lowercase-hex SHA-256 of
//! the salt followed by the password, stored as one self-contained string.
//! Verification splits the stored string on the separator and recomputes the
//! hash; a digest with zero or more than one separator fails closed.

use vstd::prelude::*;

use crate::trusted::{all_alnum, is_alnum_char, is_hex_char, random_alphanumeric, sha256_hex,
    sha256_hex_of};

verus! {

/// Length of the random salt drawn for each new digest.
pub const SALT_LEN: usize = 12;

/// Separates the salt from the hash inside a stored digest.
pub const SEPARATOR: char = '&';

/// How often `c` occurs in `s`.
pub open spec fn count_char(s: Seq<char>, c: char) -> nat
    decreases s.len(),
{
    if s.len() == 0 {
        0
    } else {
        count_char(s.drop_last(), c) + (if s.last() == c {
            1nat
        } else {
            0nat
        })
    }
}

/// Index of the first occurrence of `c` in `s`; `s.len()` if there is none.
pub open spec fn first_index_of(s: Seq<char>, c: char) -> int
    decreases s.len(),
{
    if s.len() == 0 {
        0
    } else if s.first() == c {
        0
    } else {
        1 + first_index_of(s.drop_first(), c)
    }
}

/// The digest stored for `password` under `salt`.
pub open spec fn spec_hash_password(salt: Seq<char>, password: Seq<char>) -> Seq<char> {
    salt + seq![SEPARATOR] + sha256_hex_of(salt + password)
}

/// Whether `input` verifies against the stored `digest`: the digest holds
/// exactly one separator, and recomputing the hash with the salt read off
/// the digest reproduces the digest in full.
pub open spec fn spec_verify_password(input: Seq<char>, digest: Seq<char>) -> bool {
    &&& count_char(digest, SEPARATOR) == 1
    &&& digest == spec_hash_password(digest.take(first_index_of(digest, SEPARATOR)), input)
}

/// Occurrence counts add up over concatenation.
pub proof fn lemma_count_char_concat(a: Seq<char>, b: Seq<char>, c: char)
    ensures
        count_char(a + b, c) == count_char(a, c) + count_char(b, c),
    decreases b.len(),
{
    if b.len() == 0 {
        assert(a + b =~= a);
    } else {
        assert((a + b).drop_last() =~= a + b.drop_last());
        lemma_count_char_concat(a, b.drop_last(), c);
    }
}

/// A sequence without any occurrence of `c` counts zero of them.
pub proof fn lemma_count_char_zero(s: Seq<char>, c: char)
    requires
        forall|i: int| 0 <= i < s.len() ==> s[i] != c,
    ensures
        count_char(s, c) == 0,
    decreases s.len(),
{
    if s.len() > 0 {
        lemma_count_char_zero(s.drop_last(), c);
    }
}

/// The first occurrence is pinned by being an occurrence with none before it.
pub proof fn lemma_first_index_of_at(s: Seq<char>, c: char, i: int)
    requires
        0 <= i < s.len(),
        s[i] == c,
        forall|j: int| 0 <= j < i ==> s[j] != c,
    ensures
        first_index_of(s, c) == i,
    decreases i,
{
    if i == 0 {
    } else {
        assert(s.first() != c);
        assert(forall|j: int| 0 <= j < i - 1 ==> s.drop_first()[j] == s[j + 1]);
        lemma_first_index_of_at(s.drop_first(), c, i - 1);
    }
}

/// A malformed digest — zero separators, or more than one — never verifies.
pub proof fn lemma_malformed_digest_fails(input: Seq<char>, digest: Seq<char>)
    requires
        count_char(digest, SEPARATOR) != 1,
    ensures
        !spec_verify_password(input, digest),
{
}

/// Hash `password` under the given `salt`.
///
/// Whenever the salt is free of the separator — as every generated salt is —
/// the password verifies against the returned digest.
pub fn hash_password(salt: String, password: String) -> (r: String)
    ensures
        r@ == spec_hash_password(salt@, password@),
        !salt@.contains(SEPARATOR) ==> spec_verify_password(password@, r@),
{
    let mut salted: String = salt.clone();
    salted.append(password.as_str());
    let hex = sha256_hex(salted.as_str());
    let mut out = salt;
    out.append("&");
    out.append(hex.as_str());
    proof {
        reveal_strlit("&");
        assert(out@ =~= spec_hash_password(salt@, password@));
        if !salt@.contains(SEPARATOR) {
            lemma_generated_digest_verifies(salt@, password@, hex@, out@);
        }
    }
    out
}

/// A digest assembled from a separator-free salt and a hex-digit hash body
/// verifies against the password that produced it.
proof fn lemma_generated_digest_verifies(
    salt: Seq<char>,
    password: Seq<char>,
    hex: Seq<char>,
    digest: Seq<char>,
)
    requires
        !salt.contains(SEPARATOR),
        hex == sha256_hex_of(salt + password),
        forall|i: int| 0 <= i < hex.len() ==> is_hex_char(#[trigger] hex[i]),
        digest == salt + seq![SEPARATOR] + hex,
    ensures
        spec_verify_password(password, digest),
{
    assert(forall|i: int| 0 <= i < salt.len() ==> salt[i] != SEPARATOR);
    lemma_count_char_zero(salt, SEPARATOR);
    lemma_count_char_zero(hex, SEPARATOR);
    assert(count_char(seq![SEPARATOR], SEPARATOR) == 1) by {
        assert(seq![SEPARATOR].drop_last() =~= Seq::<char>::empty());
        assert(count_char(Seq::<char>::empty(), SEPARATOR) == 0);
    }
    lemma_count_char_concat(salt, seq![SEPARATOR], SEPARATOR);
    lemma_count_char_concat(salt + seq![SEPARATOR], hex, SEPARATOR);
    assert(count_char(digest, SEPARATOR) == 1);
    assert(digest[salt.len() as int] == SEPARATOR);
    lemma_first_index_of_at(digest, SEPARATOR, salt.len() as int);
    assert(digest.take(salt.len() as int) =~= salt);
}

/// Hash `password` under a fresh random alphanumeric salt.
pub fn new_hash_password(password: String) -> (r: String)
    ensures
        exists|salt: Seq<char>|
            all_alnum(salt) && salt.len() == SALT_LEN && r@ == spec_hash_password(
                salt,
                password@,
            ),
        spec_verify_password(password@, r@),
{
    let salt = random_alphanumeric(SALT_LEN);
    proof {
        assert(!salt@.contains(SEPARATOR)) by {
            assert(forall|i: int|
                0 <= i < salt@.len() ==> is_alnum_char(#[trigger] salt@[i]) && salt@[i]
                    != SEPARATOR);
        }
    }
    let ghost gsalt = salt@;
    let r = hash_password(salt, password);
    proof {
        assert(all_alnum(gsalt) && gsalt.len() == SALT_LEN && r@ == spec_hash_password(
            gsalt,
            password@,
        ));
    }
    r
}

/// Does `input` verify against the stored digest `password`?
///
/// Splits the digest on the separator; anything but exactly two parts fails
/// closed, otherwise the hash is recomputed with the extracted salt and the
/// whole digest is compared with the recomputation.
pub fn verify_password(input: String, password: String) -> (r: bool)
    ensures
        r == spec_verify_password(input@, password@),
{
    let digest = password.as_str();
    let n = digest.unicode_len();
    let mut i: usize = 0;
    let mut count: usize = 0;
    let mut sep: usize = 0;
    while i < n
        invariant
            i <= n,
            digest@ == password@,
            n == password@.len(),
            count <= i,
            count as nat == count_char(password@.take(i as int), SEPARATOR),
            count > 0 ==> sep < i && password@[sep as int] == SEPARATOR && (forall|j: int|
                0 <= j < sep ==> password@[j] != SEPARATOR),
            count == 0 ==> forall|j: int| 0 <= j < i ==> password@[j] != SEPARATOR,
        decreases n - i,
    {
        let c = digest.get_char(i);
        if c == SEPARATOR {
            if count == 0 {
                sep = i;
            }
            count = count + 1;
        }
        proof {
            assert(password@.take(i + 1).drop_last() =~= password@.take(i as int));
        }
        i = i + 1;
    }
    proof {
        assert(password@.take(n as int) =~= password@);
    }
    if count != 1 {
        return false;
    }
    proof {
        lemma_first_index_of_at(password@, SEPARATOR, sep as int);
        assert(password@.subrange(0, sep as int) =~= password@.take(sep as int));
    }
    let salt = digest.substring_char(0, sep);
    let recomputed = hash_password(String::from_str(salt), input);
    password == recomputed
}

} // verus!
