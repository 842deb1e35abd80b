//! Small string helpers shared across the crate: trusted declarations for the
//! few std character and string operations that vstd leaves unspecified, an
//! identifier-to-hex renderer, and conversions between `&str` and `Vec<char>`.

use vstd::prelude::*;

verus! {

/// What `str::to_lowercase` returns for a given character sequence.
pub uninterp spec fn lower_of(s: Seq<char>) -> Seq<char>;

/// Relies on str::to_lowercase: the result depends on the characters alone,
/// and an empty string stays empty.
#[verifier::external_body]
pub fn lowercase(s: &str) -> (r: String)
    ensures
        r@ == lower_of(s@),
        s@.len() == 0 ==> r@.len() == 0,
{
    s.to_lowercase()
}

/// What `char::is_alphanumeric` returns.
pub uninterp spec fn char_is_alphanumeric(c: char) -> bool;

/// Relies on char::is_alphanumeric: the answer depends on the character
/// alone.
pub assume_specification[ char::is_alphanumeric ](c: char) -> (b: bool)
    ensures
        b == char_is_alphanumeric(c),
;

/// What `char::is_whitespace` returns.
pub uninterp spec fn char_is_whitespace(c: char) -> bool;

/// Relies on char::is_whitespace: the answer depends on the character alone.
pub assume_specification[ char::is_whitespace ](c: char) -> (b: bool)
    ensures
        b == char_is_whitespace(c),
;

/// Relies on String::push: it appends exactly the one character.
pub assume_specification[ String::push ](s: &mut String, c: char)
    ensures
        final(s)@ == old(s)@.push(c),
;

/// Equality of two strings, by their character sequences.
pub fn str_eq(a: &String, b: &String) -> (r: bool)
    ensures
        r == (a@ == b@),
{
    a.eq(b)
}

/// The characters of `s` as a vector, for index-based processing.
pub fn chars_of(s: &str) -> (r: Vec<char>)
    ensures
        r@ == s@,
{
    let n = s.unicode_len();
    let mut r: Vec<char> = Vec::new();
    let mut i: usize = 0;
    while i < n
        invariant
            n == s@.len(),
            i <= n,
            r@ == s@.subrange(0, i as int),
        decreases n - i,
    {
        r.push(s.get_char(i));
        i = i + 1;
        proof {
            assert(r@ =~= s@.subrange(0, i as int));
        }
    }
    proof {
        assert(r@ =~= s@);
    }
    r
}

/// The hexadecimal digit for a value below sixteen.
pub open spec fn hex_digit(n: int) -> char {
    if n == 0 {
        '0'
    } else if n == 1 {
        '1'
    } else if n == 2 {
        '2'
    } else if n == 3 {
        '3'
    } else if n == 4 {
        '4'
    } else if n == 5 {
        '5'
    } else if n == 6 {
        '6'
    } else if n == 7 {
        '7'
    } else if n == 8 {
        '8'
    } else if n == 9 {
        '9'
    } else if n == 10 {
        'a'
    } else if n == 11 {
        'b'
    } else if n == 12 {
        'c'
    } else if n == 13 {
        'd'
    } else if n == 14 {
        'e'
    } else {
        'f'
    }
}

/// A 64-bit identifier written as sixteen lowercase hex digits, most
/// significant first.
pub open spec fn hex16_of(n: u64) -> Seq<char> {
    Seq::new(16, |i: int| hex_digit(((n >> (((15 - i) * 4) as u64)) & 0xf) as int))
}

fn hex_digit_exec(n: u64) -> (c: char)
    requires
        n < 16,
    ensures
        c == hex_digit(n as int),
{
    if n == 0 {
        '0'
    } else if n == 1 {
        '1'
    } else if n == 2 {
        '2'
    } else if n == 3 {
        '3'
    } else if n == 4 {
        '4'
    } else if n == 5 {
        '5'
    } else if n == 6 {
        '6'
    } else if n == 7 {
        '7'
    } else if n == 8 {
        '8'
    } else if n == 9 {
        '9'
    } else if n == 10 {
        'a'
    } else if n == 11 {
        'b'
    } else if n == 12 {
        'c'
    } else if n == 13 {
        'd'
    } else if n == 14 {
        'e'
    } else {
        'f'
    }
}

/// Renders an identifier as its sixteen-digit hex form.
pub fn id_hex(n: u64) -> (r: String)
    ensures
        r@ == hex16_of(n),
{
    let mut r = String::new();
    let mut j: usize = 0;
    while j < 16
        invariant
            j <= 16,
            r@ == hex16_of(n).subrange(0, j as int),
        decreases 16 - j,
    {
        let shift: u64 = ((15 - j) * 4) as u64;
        assert(((n >> shift) & 0xf) < 16) by (bit_vector);
        let nib: u64 = (n >> shift) & 0xf;
        r.push(hex_digit_exec(nib));
        j = j + 1;
        proof {
            assert(r@ =~= hex16_of(n).subrange(0, j as int));
        }
    }
    proof {
        assert(r@ =~= hex16_of(n));
    }
    r
}

} // verus!
