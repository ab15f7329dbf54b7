//! The proof-of-work admission predicate: a hash is acceptable at difficulty
//! `d` when its hexadecimal spelling starts with `d` literal `'0'` digits.
use vstd::prelude::*;
use vstd::string::StrSliceExecFns;

verus! {

/// The sixteen lower-case hexadecimal digits, in order of value.
pub open spec fn hex_alphabet() -> Seq<char> {
    seq!['0', '1', '2', '3', '4', '5', '6', '7', '8', '9', 'a', 'b', 'c', 'd', 'e', 'f']
}

/// The digit for a value below sixteen.
pub open spec fn hex_digit(v: u8) -> char {
    hex_alphabet()[v as int]
}

/// Two lower-case digits per byte, high nibble first.
pub open spec fn hex_of(b: Seq<u8>) -> Seq<char>
    decreases b.len(),
{
    if b.len() == 0 {
        Seq::empty()
    } else {
        hex_of(b.drop_last()) + seq![hex_digit(b.last() / 16), hex_digit(b.last() % 16)]
    }
}

/// `s` starts with `n` literal `'0'` characters.
pub open spec fn zero_prefix(s: Seq<char>, n: nat) -> bool {
    &&& n <= s.len()
    &&& forall|i: int| 0 <= i < n ==> s[i] == '0'
}

/// A digest meets difficulty `d` when its hex spelling starts with `d` zeros.
pub open spec fn meets(digest: Seq<u8>, d: nat) -> bool {
    zero_prefix(hex_of(digest), d)
}

/// Relies on hex::encode: two lower-case hexadecimal digits for each byte,
/// high nibble first.
#[verifier::external_body]
fn hex_encode(bytes: &[u8]) -> (r: String)
    ensures
        r@ == hex_of(bytes@),
{
    hex::encode(bytes)
}

/// Whether `s` starts with `n` literal `'0'` characters.
pub fn has_zero_prefix(s: &String, n: usize) -> (r: bool)
    ensures
        r == zero_prefix(s@, n as nat),
{
    let text = s.as_str();
    let len = text.unicode_len();
    if n > len {
        return false;
    }
    let mut i: usize = 0;
    while i < n
        invariant
            text@ == s@,
            i <= n <= s@.len(),
            forall|j: int| 0 <= j < i ==> s@[j] == '0',
        decreases n - i,
    {
        if text.get_char(i) != '0' {
            return false;
        }
        i = i + 1;
    }
    true
}

/// Whether `digest`, hex-encoded, starts with `difficulty` zeros.
pub fn meets_difficulty(digest: &[u8], difficulty: usize) -> (r: bool)
    ensures
        r == meets(digest@, difficulty as nat),
{
    let spelled = hex_encode(digest);
    has_zero_prefix(&spelled, difficulty)
}

} // verus!
