//! Device-fingerprint derivation.
//!
//! A fingerprint is a UUID-v4-shaped string stamped into upstream
//! user-agent headers. It is taken verbatim from the credential when a
//! well-formed one is configured, and otherwise derived deterministically:
//! SHA-256 of a seed built from the profile ARN or the refresh token, first
//! 16 bytes, rendered as lowercase hex in the 8-4-4-4-12 grouping. The
//! derivation does not force the RFC 4122 version and variant bits — the
//! upstream only parses the string shape — and changing that would change
//! every previously derived fingerprint.

use sha2::Digest;
use vstd::prelude::*;
use vstd::string::{StrSliceExecFns, StringExecFns};

use crate::credentials::{CredModel, KiroCredentials};

verus! {

/// An ASCII hexadecimal digit (either case).
pub open spec fn is_hex_digit_char(c: char) -> bool {
    (48 <= c as u32 <= 57) || (97 <= c as u32 <= 102) || (65 <= c as u32 <= 70)
}

/// What the character at position `i` of a UUID-shaped string must be: a
/// hyphen at the four group boundaries, a hex digit everywhere else.
pub open spec fn machine_id_char_ok(s: Seq<char>, i: int) -> bool {
    if i == 8 || i == 13 || i == 18 || i == 23 {
        s[i] == '-'
    } else {
        is_hex_digit_char(s[i])
    }
}

/// The UUID-v4 syntactic form: 36 characters, hex digits in the
/// 8-4-4-4-12 grouping separated by hyphens.
pub open spec fn is_valid_machine_id_chars(s: Seq<char>) -> bool {
    s.len() == 36 && forall|i: int| 0 <= i < 36 ==> machine_id_char_ok(s, i)
}

fn is_hex_digit(c: char) -> (r: bool)
    ensures
        r == is_hex_digit_char(c),
{
    let u = c as u32;
    (48 <= u && u <= 57) || (97 <= u && u <= 102) || (65 <= u && u <= 70)
}

/// Whether the string has the UUID-v4 syntactic form (36 characters,
/// hex groups of 8-4-4-4-12 separated by hyphens).
pub fn is_valid_machine_id(machine_id: &str) -> (r: bool)
    ensures
        r == is_valid_machine_id_chars(machine_id@),
{
    let n = machine_id.unicode_len();
    if n != 36 {
        return false;
    }
    let mut i: usize = 0;
    while i < 36
        invariant
            machine_id@.len() == 36,
            i <= 36,
            forall|k: int| 0 <= k < i ==> machine_id_char_ok(machine_id@, k),
        decreases 36 - i,
    {
        let c = machine_id.get_char(i);
        let ok = if i == 8 || i == 13 || i == 18 || i == 23 {
            c == '-'
        } else {
            is_hex_digit(c)
        };
        if !ok {
            proof {
                assert(!machine_id_char_ok(machine_id@, i as int));
            }
            return false;
        }
        i += 1;
    }
    true
}

/// The string starts with `arn:aws`.
pub open spec fn starts_with_arn_aws(s: Seq<char>) -> bool {
    s.len() >= 7 && s[0] == 'a' && s[1] == 'r' && s[2] == 'n' && s[3] == ':' && s[4] == 'a'
        && s[5] == 'w' && s[6] == 's'
}

/// The eight characters `profile/` stand at position `i`.
pub open spec fn profile_segment_at(s: Seq<char>, i: int) -> bool {
    &&& 0 <= i
    &&& i + 8 <= s.len()
    &&& s[i] == 'p'
    &&& s[i + 1] == 'r'
    &&& s[i + 2] == 'o'
    &&& s[i + 3] == 'f'
    &&& s[i + 4] == 'i'
    &&& s[i + 5] == 'l'
    &&& s[i + 6] == 'e'
    &&& s[i + 7] == '/'
}

/// A profile ARN usable as a fingerprint seed: non-empty, starts with
/// `arn:aws`, and contains a `profile/` segment.
pub open spec fn is_valid_profile_arn_chars(s: Seq<char>) -> bool {
    s.len() > 0 && starts_with_arn_aws(s) && exists|i: int| profile_segment_at(s, i)
}

fn profile_segment_matches(s: &str, i: usize) -> (r: bool)
    requires
        i + 8 <= s@.len(),
        i <= usize::MAX - 8,
    ensures
        r == profile_segment_at(s@, i as int),
{
    s.get_char(i) == 'p' && s.get_char(i + 1) == 'r' && s.get_char(i + 2) == 'o' && s.get_char(
        i + 3,
    ) == 'f' && s.get_char(i + 4) == 'i' && s.get_char(i + 5) == 'l' && s.get_char(i + 6) == 'e'
        && s.get_char(i + 7) == '/'
}

/// Whether the string is a profile ARN usable as a fingerprint seed.
pub fn is_valid_profile_arn(profile_arn: &str) -> (r: bool)
    ensures
        r == is_valid_profile_arn_chars(profile_arn@),
{
    let n = profile_arn.unicode_len();
    if n < 8 {
        return false;
    }
    let prefix_ok = profile_arn.get_char(0) == 'a' && profile_arn.get_char(1) == 'r'
        && profile_arn.get_char(2) == 'n' && profile_arn.get_char(3) == ':'
        && profile_arn.get_char(4) == 'a' && profile_arn.get_char(5) == 'w'
        && profile_arn.get_char(6) == 's';
    if !prefix_ok {
        return false;
    }
    let mut i: usize = 0;
    while i <= n - 8
        invariant
            profile_arn@.len() == n,
            starts_with_arn_aws(profile_arn@),
            n >= 8,
            i <= n - 8 + 1,
            forall|k: int| 0 <= k < i ==> !profile_segment_at(profile_arn@, k),
        decreases n - i,
    {
        if profile_segment_matches(profile_arn, i) {
            proof {
                assert(starts_with_arn_aws(profile_arn@));
                assert(profile_segment_at(profile_arn@, i as int));
            }
            return true;
        }
        i += 1;
    }
    proof {
        assert forall|k: int| !profile_segment_at(profile_arn@, k) by {
            if profile_segment_at(profile_arn@, k) {
                assert(0 <= k < i);
            }
        }
    }
    false
}

/// The SHA-256 digest of a string's UTF-8 encoding. This names the result
/// of the `sha2` crate's hasher; the digest depends on the characters
/// alone.
pub uninterp spec fn sha256_of_str(s: Seq<char>) -> Seq<u8>;

/// Relies on `sha2::Sha256`: hashes the string's UTF-8 bytes; SHA-256
/// digests are 32 bytes long.
#[verifier::external_body]
fn sha256_str(s: &str) -> (r: Vec<u8>)
    ensures
        r@ == sha256_of_str(s@),
        r@.len() == 32,
{
    sha2::Sha256::digest(s.as_bytes()).to_vec()
}

/// The lowercase hex character for a value below 16.
pub open spec fn hex_digit_char(n: u8) -> char {
    if n == 0 {
        '0'
    } else if n == 1 {
        '1'
    } else if n == 2 {
        '2'
    } else if n == 3 {
        '3'
    } else if n == 4 {
        '4'
    } else if n == 5 {
        '5'
    } else if n == 6 {
        '6'
    } else if n == 7 {
        '7'
    } else if n == 8 {
        '8'
    } else if n == 9 {
        '9'
    } else if n == 10 {
        'a'
    } else if n == 11 {
        'b'
    } else if n == 12 {
        'c'
    } else if n == 13 {
        'd'
    } else if n == 14 {
        'e'
    } else {
        'f'
    }
}

/// Two lowercase hex characters for a byte.
pub open spec fn byte_hex(b: u8) -> Seq<char> {
    seq![hex_digit_char(b / 16), hex_digit_char(b % 16)]
}

/// The bytes rendered as lowercase hex, two characters each.
pub open spec fn bytes_hex(s: Seq<u8>) -> Seq<char>
    decreases s.len(),
{
    if s.len() == 0 {
        Seq::empty()
    } else {
        bytes_hex(s.drop_last()) + byte_hex(s.last())
    }
}

/// Sixteen bytes rendered as a UUID-shaped string: lowercase hex in the
/// 8-4-4-4-12 grouping.
pub open spec fn spec_uuid_hex(b: Seq<u8>) -> Seq<char> {
    bytes_hex(b.subrange(0, 4)) + seq!['-'] + bytes_hex(b.subrange(4, 6)) + seq!['-'] + bytes_hex(
        b.subrange(6, 8),
    ) + seq!['-'] + bytes_hex(b.subrange(8, 10)) + seq!['-'] + bytes_hex(b.subrange(10, 16))
}

/// The deterministic fingerprint a seed yields: SHA-256 of the seed, first
/// 16 bytes, UUID-shaped hex.
pub open spec fn spec_uuid_from_seed(seed: Seq<char>) -> Seq<char> {
    spec_uuid_hex(sha256_of_str(seed).subrange(0, 16))
}

fn hex_str(nibble: u8) -> (r: &'static str)
    requires
        nibble < 16,
    ensures
        r@ =~= seq![hex_digit_char(nibble)],
{
    proof {
        reveal_strlit("0");
        reveal_strlit("1");
        reveal_strlit("2");
        reveal_strlit("3");
        reveal_strlit("4");
        reveal_strlit("5");
        reveal_strlit("6");
        reveal_strlit("7");
        reveal_strlit("8");
        reveal_strlit("9");
        reveal_strlit("a");
        reveal_strlit("b");
        reveal_strlit("c");
        reveal_strlit("d");
        reveal_strlit("e");
        reveal_strlit("f");
    }
    match nibble {
        0 => "0",
        1 => "1",
        2 => "2",
        3 => "3",
        4 => "4",
        5 => "5",
        6 => "6",
        7 => "7",
        8 => "8",
        9 => "9",
        10 => "a",
        11 => "b",
        12 => "c",
        13 => "d",
        14 => "e",
        _ => "f",
    }
}

/// Appends the hex rendering of `bytes[from..to]` to the string.
fn append_hex(s: String, bytes: &Vec<u8>, from: usize, to: usize) -> (r: String)
    requires
        from <= to <= bytes@.len(),
    ensures
        r@ == s@ + bytes_hex(bytes@.subrange(from as int, to as int)),
{
    let mut out = s;
    let ghost base = out@;
    let mut i = from;
    while i < to
        invariant
            from <= i <= to <= bytes@.len(),
            out@ == base + bytes_hex(bytes@.subrange(from as int, i as int)),
        decreases to - i,
    {
        let b = bytes[i];
        let hi = b / 16;
        let lo = b % 16;
        let ghost before = out@;
        out.append(hex_str(hi));
        out.append(hex_str(lo));
        proof {
            assert(out@ =~= before + byte_hex(b));
            let sub1 = bytes@.subrange(from as int, i as int);
            let sub2 = bytes@.subrange(from as int, i + 1 as int);
            assert(sub2.drop_last() =~= sub1);
            assert(sub2.last() == b);
            assert(bytes_hex(sub2) == bytes_hex(sub1) + byte_hex(b));
            assert(out@ =~= base + bytes_hex(sub2));
        }
        i += 1;
    }
    out
}

/// Derives the deterministic UUID-shaped fingerprint of a seed: SHA-256 of
/// the seed's UTF-8 bytes, first 16 bytes as lowercase hex in the
/// 8-4-4-4-12 grouping. Equal seeds yield equal fingerprints, and the
/// result always passes [`is_valid_machine_id`].
pub fn generate_uuid_from_seed(seed: &str) -> (r: String)
    ensures
        r@ == spec_uuid_from_seed(seed@),
        is_valid_machine_id_chars(r@),
{
    let digest = sha256_str(seed);
    let ghost d16 = digest@.subrange(0, 16);
    let s = String::new();
    let s = append_hex(s, &digest, 0, 4);
    let s = s.concat("-");
    let s = append_hex(s, &digest, 4, 6);
    let s = s.concat("-");
    let s = append_hex(s, &digest, 6, 8);
    let s = s.concat("-");
    let s = append_hex(s, &digest, 8, 10);
    let s = s.concat("-");
    let s = append_hex(s, &digest, 10, 16);
    proof {
        reveal_strlit("-");
        assert(digest@.subrange(0, 4) =~= d16.subrange(0, 4));
        assert(digest@.subrange(4, 6) =~= d16.subrange(4, 6));
        assert(digest@.subrange(6, 8) =~= d16.subrange(6, 8));
        assert(digest@.subrange(8, 10) =~= d16.subrange(8, 10));
        assert(digest@.subrange(10, 16) =~= d16.subrange(10, 16));
        assert(s@ =~= spec_uuid_hex(d16));
        lemma_uuid_hex_valid(d16);
    }
    s
}

/// A hex rendering is twice as long as its bytes and holds hex digits
/// alone.
proof fn lemma_bytes_hex_shape(s: Seq<u8>)
    ensures
        bytes_hex(s).len() == 2 * s.len(),
        forall|i: int| 0 <= i < 2 * s.len() ==> is_hex_digit_char(#[trigger] bytes_hex(s)[i]),
    decreases s.len(),
{
    if s.len() > 0 {
        lemma_bytes_hex_shape(s.drop_last());
        let b = s.last();
        assert(is_hex_digit_char(hex_digit_char(b / 16)));
        assert(is_hex_digit_char(hex_digit_char(b % 16)));
    }
}

/// Sixteen bytes rendered in the UUID shape pass the UUID-v4 syntactic
/// validator: the derived fingerprint is always syntactically acceptable.
pub proof fn lemma_uuid_hex_valid(b: Seq<u8>)
    requires
        b.len() == 16,
    ensures
        is_valid_machine_id_chars(spec_uuid_hex(b)),
{
    let s = spec_uuid_hex(b);
    lemma_bytes_hex_shape(b.subrange(0, 4));
    lemma_bytes_hex_shape(b.subrange(4, 6));
    lemma_bytes_hex_shape(b.subrange(6, 8));
    lemma_bytes_hex_shape(b.subrange(8, 10));
    lemma_bytes_hex_shape(b.subrange(10, 16));
    assert(s.len() == 36);
    assert forall|i: int| 0 <= i < 36 implies machine_id_char_ok(s, i) by {
        assert(s[i] == spec_uuid_hex(b)[i]);
    }
}

/// Derives the fingerprint for a credential. A well-formed configured
/// machine id wins; else a valid profile ARN seeds the derivation; else a
/// non-empty refresh token does; else there is no fingerprint.
pub fn generate_from_credentials(credentials: &KiroCredentials) -> (r: Option<String>)
    ensures
        r.deep_view() == spec_generate_from_credentials(credentials@),
        r matches Some(m) ==> is_valid_machine_id_chars(m@),
{
    match &credentials.machine_id {
        Some(m) => {
            if is_valid_machine_id(m.as_str()) {
                return Some(m.clone());
            }
        },
        None => {},
    }
    match &credentials.profile_arn {
        Some(arn) => {
            if is_valid_profile_arn(arn.as_str()) {
                let seed = String::from_str("KotlinNativeAPI/").concat(arn.as_str());
                return Some(generate_uuid_from_seed(seed.as_str()));
            }
        },
        None => {},
    }
    match &credentials.refresh_token {
        Some(token) => {
            if !token.as_str().is_empty() {
                let seed = String::from_str("KotlinNativeAPI/").concat(token.as_str());
                return Some(generate_uuid_from_seed(seed.as_str()));
            }
        },
        None => {},
    }
    None
}

/// The seed a fingerprint is derived from: a fixed prefix and the
/// credential datum.
pub open spec fn kotlin_seed(x: Seq<char>) -> Seq<char> {
    "KotlinNativeAPI/"@ + x
}

/// The fingerprint a credential yields, if any.
pub open spec fn spec_generate_from_credentials(c: CredModel) -> Option<Seq<char>> {
    if c.machine_id is Some && is_valid_machine_id_chars(c.machine_id.unwrap()) {
        c.machine_id
    } else if c.profile_arn is Some && is_valid_profile_arn_chars(c.profile_arn.unwrap()) {
        Some(spec_uuid_from_seed(kotlin_seed(c.profile_arn.unwrap())))
    } else if c.refresh_token is Some && c.refresh_token.unwrap().len() > 0 {
        Some(spec_uuid_from_seed(kotlin_seed(c.refresh_token.unwrap())))
    } else {
        None
    }
}

} // verus!
