//! Identifier and cache-key generation: fresh ids for records and groups,
//! and the content hash used to derive thumbnail cache names.

use vstd::prelude::*;
use vstd::std_specs::hash::DefaultHasherAdditionalSpecFns;
use vstd::string::StringExecFns;
use std::collections::hash_map::DefaultHasher;
use std::hash::Hasher;

verus! {

/// Relies on uuid::Uuid::new_v4 and its Display impl: a random version-4
/// UUID rendered in the hyphenated form, which is always 36 characters.
/// The value is random, so nothing more is promised of it.
#[verifier::external_body]
pub fn new_id() -> (id: String)
    ensures
        id@.len() == 36,
{
    uuid::Uuid::new_v4().to_string()
}

/// Hashes a byte string to a 64-bit value, deterministically: the same
/// bytes always map to the same value. Used to derive unique thumbnail
/// cache names from file paths.
pub fn md5_hash(data: &[u8]) -> (h: u64)
    ensures
        h == DefaultHasher::spec_finish(seq![data@]),
{
    let mut hasher = DefaultHasher::new();
    hasher.write(data);
    hasher.finish()
}

/// The lowercase hexadecimal digit for a value below 16.
pub open spec fn hex_digit(d: u64) -> char {
    match d {
        0u64 => '0',
        1u64 => '1',
        2u64 => '2',
        3u64 => '3',
        4u64 => '4',
        5u64 => '5',
        6u64 => '6',
        7u64 => '7',
        8u64 => '8',
        9u64 => '9',
        10u64 => 'a',
        11u64 => 'b',
        12u64 => 'c',
        13u64 => 'd',
        14u64 => 'e',
        _ => 'f',
    }
}

/// The hexadecimal rendering of `n`, most significant digit first, with
/// no leading zeroes (a single `0` for zero itself).
pub open spec fn hex_chars(n: u64) -> Seq<char>
    decreases n,
{
    if n < 16 {
        seq![hex_digit(n)]
    } else {
        hex_chars(n / 16).push(hex_digit(n % 16))
    }
}

/// One lowercase hexadecimal digit as a string slice.
fn hex_digit_str(d: u64) -> (s: &'static str)
    requires
        d < 16,
    ensures
        s@ == seq![hex_digit(d)],
{
    proof {
        reveal_strlit("0");
        reveal_strlit("1");
        reveal_strlit("2");
        reveal_strlit("3");
        reveal_strlit("4");
        reveal_strlit("5");
        reveal_strlit("6");
        reveal_strlit("7");
        reveal_strlit("8");
        reveal_strlit("9");
        reveal_strlit("a");
        reveal_strlit("b");
        reveal_strlit("c");
        reveal_strlit("d");
        reveal_strlit("e");
        reveal_strlit("f");
    }
    let s = match d {
        0u64 => "0",
        1u64 => "1",
        2u64 => "2",
        3u64 => "3",
        4u64 => "4",
        5u64 => "5",
        6u64 => "6",
        7u64 => "7",
        8u64 => "8",
        9u64 => "9",
        10u64 => "a",
        11u64 => "b",
        12u64 => "c",
        13u64 => "d",
        14u64 => "e",
        _ => "f",
    };
    proof {
        assert(s@ =~= seq![hex_digit(d)]);
    }
    s
}

/// Renders `n` in lowercase hexadecimal.
pub fn hex_string(n: u64) -> (s: String)
    ensures
        s@ == hex_chars(n),
    decreases n,
{
    if n < 16 {
        String::from_str(hex_digit_str(n))
    } else {
        let mut s = hex_string(n / 16);
        s.append(hex_digit_str(n % 16));
        proof {
            assert(s@ =~= hex_chars(n));
        }
        s
    }
}

/// The cache file name a thumbnail is stored under: the hexadecimal
/// content hash of the photo's path, with the fixed image suffix.
pub fn thumbnail_file_name(path_hash: u64) -> (name: String)
    ensures
        name@ == hex_chars(path_hash) + ".jpg"@,
{
    let mut name = hex_string(path_hash);
    name.append(".jpg");
    name
}

} // verus!
