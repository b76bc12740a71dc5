//! Collision-free identifiers: random plugin ids and unique temporary file
//! names for one execution each.

use vstd::prelude::*;

use crate::ID_LEN;

verus! {

pub assume_specification<T>[ rand::random::<T> ]() -> (r: T)
    where
        rand::distributions::Standard: rand::distributions::Distribution<T>,
;

/// Relies on `uuid::Uuid::new_v4` and its hyphenated textual form, which is
/// always 36 characters long; the value is random, so nothing else is
/// promised of it.
#[verifier::external_body]
fn new_v4_string() -> (r: String)
    ensures
        r@.len() == 36,
{
    uuid::Uuid::new_v4().to_string()
}

/// The lower-case hexadecimal digit for `d`.
pub open spec fn hex_char_spec(d: u8) -> char {
    if d == 0 {
        '0'
    } else if d == 1 {
        '1'
    } else if d == 2 {
        '2'
    } else if d == 3 {
        '3'
    } else if d == 4 {
        '4'
    } else if d == 5 {
        '5'
    } else if d == 6 {
        '6'
    } else if d == 7 {
        '7'
    } else if d == 8 {
        '8'
    } else if d == 9 {
        '9'
    } else if d == 10 {
        'a'
    } else if d == 11 {
        'b'
    } else if d == 12 {
        'c'
    } else if d == 13 {
        'd'
    } else if d == 14 {
        'e'
    } else {
        'f'
    }
}

/// Whether `c` is a lower-case hexadecimal digit.
pub open spec fn is_hex_char(c: char) -> bool {
    exists|d: u8| d < 16 && c == hex_char_spec(d)
}

fn hex_char_of(d: u8) -> (r: char)
    requires
        d < 16,
    ensures
        r == hex_char_spec(d),
        is_hex_char(r),
{
    let r = if d == 0 {
        '0'
    } else if d == 1 {
        '1'
    } else if d == 2 {
        '2'
    } else if d == 3 {
        '3'
    } else if d == 4 {
        '4'
    } else if d == 5 {
        '5'
    } else if d == 6 {
        '6'
    } else if d == 7 {
        '7'
    } else if d == 8 {
        '8'
    } else if d == 9 {
        '9'
    } else if d == 10 {
        'a'
    } else if d == 11 {
        'b'
    } else if d == 12 {
        'c'
    } else if d == 13 {
        'd'
    } else if d == 14 {
        'e'
    } else {
        'f'
    };
    proof {
        assert(is_hex_char(r)) by {
            assert(r == hex_char_spec(d));
        }
    }
    r
}

/// Writes `seed` as exactly `ID_LEN` hexadecimal characters.
pub fn id_from_seed(seed: u64) -> (r: String)
    ensures
        r@.len() == ID_LEN,
        forall|i: int| 0 <= i < r@.len() ==> is_hex_char(#[trigger] r@[i]),
{
    let mut out: Vec<char> = Vec::new();
    let mut i: usize = 0;
    let mut rest: u64 = seed;
    while i < ID_LEN
        invariant
            i <= ID_LEN,
            out@.len() == i,
            forall|j: int| 0 <= j < out@.len() ==> is_hex_char(#[trigger] out@[j]),
        decreases ID_LEN - i,
    {
        let d: u64 = rest % 16;
        assert(d < 16) by {
            assert(rest % 16 < 16) by (nonlinear_arith);
        };
        out.push(hex_char_of(d as u8));
        rest = rest / 16;
        i = i + 1;
    }
    let r = crate::text::collect_string(&out);
    r
}

/// A fresh opaque identifier for a newly imported plugin: `ID_LEN`
/// hexadecimal characters drawn from a random seed.
pub fn generate_id() -> (r: String)
    ensures
        r@.len() == ID_LEN,
        forall|i: int| 0 <= i < r@.len() ==> is_hex_char(#[trigger] r@[i]),
{
    let seed: u64 = rand::random::<u64>();
    id_from_seed(seed)
}

/// A unique path for one execution's temporary script file:
/// `dir` + `/temp_` + a fresh 36-character identifier + `.` + `ext`.
pub fn fresh_temp_path(dir: &str, ext: &str) -> (r: String)
    ensures
        exists|u: Seq<char>|
            u.len() == 36 && r@ == dir@ + "/temp_"@ + u + "."@ + ext@,
{
    let tag = new_v4_string();
    let mut s = String::new();
    s.append(dir);
    s.append("/temp_");
    s.append(tag.as_str());
    s.append(".");
    s.append(ext);
    proof {
        assert(s@ == dir@ + "/temp_"@ + tag@ + "."@ + ext@);
    }
    s
}

} // verus!
