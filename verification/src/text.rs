//! Character-level string utilities: conversions between `String` and
//! `Vec<char>`, string equality, case folding, title normalization and
//! decimal rendering of integers.

use vstd::prelude::*;
use vstd::string::StrSliceExecFns;
use vstd::string::StringExecFns;

verus! {

/// Appends one character to a string.
///
/// Relies on `String::push`, which appends the given `char` to the end of
/// the `String`.
#[verifier::external_body]
pub fn push_char(s: &mut String, c: char)
    ensures
        final(s)@ == old(s)@.push(c),
{
    s.push(c);
}

/// The characters of `s`, in order, as a vector.
pub fn chars_of(s: &str) -> (r: Vec<char>)
    ensures
        r@ == s@,
{
    let n = s.unicode_len();
    let mut out: Vec<char> = Vec::new();
    let mut i: usize = 0;
    while i < n
        invariant
            n == s@.len(),
            i <= n,
            out@ == s@.take(i as int),
        decreases n - i,
    {
        out.push(s.get_char(i));
        i = i + 1;
        proof {
            assert(out@ =~= s@.take(i as int));
        }
    }
    proof {
        assert(s@.take(n as int) =~= s@);
    }
    out
}

/// A string holding exactly the characters of `v`.
pub fn string_from_chars(v: &Vec<char>) -> (r: String)
    ensures
        r@ == v@,
{
    let mut out = String::new();
    let mut i: usize = 0;
    while i < v.len()
        invariant
            i <= v.len(),
            out@ == v@.take(i as int),
        decreases v.len() - i,
    {
        push_char(&mut out, v[i]);
        i = i + 1;
        proof {
            assert(out@ =~= v@.take(i as int));
        }
    }
    proof {
        assert(v@.take(v@.len() as int) =~= v@);
    }
    out
}

/// Character-for-character equality of two string slices.
pub fn str_eq(a: &str, b: &str) -> (r: bool)
    ensures
        r == (a@ == b@),
{
    let la = a.unicode_len();
    let lb = b.unicode_len();
    if la != lb {
        return false;
    }
    let mut i: usize = 0;
    while i < la
        invariant
            la == a@.len(),
            lb == b@.len(),
            la == lb,
            i <= la,
            forall|k: int| 0 <= k < i ==> a@[k] == b@[k],
        decreases la - i,
    {
        if a.get_char(i) != b.get_char(i) {
            return false;
        }
        i = i + 1;
    }
    proof {
        assert(a@ =~= b@);
    }
    true
}

/// The case folding that `str::to_lowercase` computes; it depends on the
/// characters of its argument alone.
pub uninterp spec fn lower_of(s: Seq<char>) -> Seq<char>;

/// Lowercases a string for case-insensitive title comparison.
///
/// Relies on `str::to_lowercase`, whose result is determined by the
/// characters of the input string.
#[verifier::external_body]
pub fn lowercase(s: &str) -> (r: String)
    ensures
        r@ == lower_of(s@),
{
    s.to_lowercase()
}

/// Request paths spell spaces in channel titles as hyphens; lookup maps
/// them back.
pub open spec fn spec_normalize_title(s: Seq<char>) -> Seq<char> {
    s.map_values(|c: char| if c == '-' { ' ' } else { c })
}

/// Replaces every hyphen with a space.
pub fn normalize_title(s: &str) -> (r: String)
    ensures
        r@ == spec_normalize_title(s@),
{
    let cs = chars_of(s);
    let mut out = String::new();
    let mut i: usize = 0;
    while i < cs.len()
        invariant
            cs@ == s@,
            i <= cs.len(),
            out@.len() == i,
            forall|k: int| 0 <= k < i ==> out@[k] == (if s@[k] == '-' { ' ' } else { s@[k] }),
        decreases cs.len() - i,
    {
        let c = cs[i];
        if c == '-' {
            push_char(&mut out, ' ');
        } else {
            push_char(&mut out, c);
        }
        i = i + 1;
    }
    proof {
        assert(out@ =~= spec_normalize_title(s@));
    }
    out
}

/// The decimal digit character for `d`.
pub open spec fn dec_digit(d: int) -> char {
    if d == 0 {
        '0'
    } else if d == 1 {
        '1'
    } else if d == 2 {
        '2'
    } else if d == 3 {
        '3'
    } else if d == 4 {
        '4'
    } else if d == 5 {
        '5'
    } else if d == 6 {
        '6'
    } else if d == 7 {
        '7'
    } else if d == 8 {
        '8'
    } else {
        '9'
    }
}

/// The decimal rendering of a natural number, most significant digit first.
pub open spec fn dec_seq(n: nat) -> Seq<char>
    decreases n,
{
    if n < 10 {
        seq![dec_digit(n as int)]
    } else {
        dec_seq(n / 10).push(dec_digit((n % 10) as int))
    }
}

/// The decimal rendering of an integer, with a leading minus sign when
/// negative.
pub open spec fn int_seq(v: int) -> Seq<char> {
    if v < 0 {
        seq!['-'] + dec_seq((-v) as nat)
    } else {
        dec_seq(v as nat)
    }
}

fn digit_char(d: u64) -> (r: char)
    requires
        d < 10,
    ensures
        r == dec_digit(d as int),
{
    if d == 0 {
        '0'
    } else if d == 1 {
        '1'
    } else if d == 2 {
        '2'
    } else if d == 3 {
        '3'
    } else if d == 4 {
        '4'
    } else if d == 5 {
        '5'
    } else if d == 6 {
        '6'
    } else if d == 7 {
        '7'
    } else if d == 8 {
        '8'
    } else {
        '9'
    }
}

/// Renders `n` in decimal.
pub fn u64_to_string(n: u64) -> (r: String)
    ensures
        r@ == dec_seq(n as nat),
{
    let mut digits: Vec<char> = Vec::new();
    let first = digit_char(n % 10);
    digits.push(first);
    let mut m: u64 = n / 10;
    proof {
        if n < 10 {
            assert(dec_seq(n as nat) =~= digits@.reverse());
        } else {
            assert(dec_seq(n as nat) == dec_seq((n / 10) as nat).push(dec_digit((n % 10) as int)));
            assert(dec_seq(n as nat) =~= dec_seq(m as nat) + digits@.reverse());
        }
    }
    while m > 0
        invariant
            m > 0 ==> dec_seq(n as nat) == dec_seq(m as nat) + digits@.reverse(),
            m == 0 ==> dec_seq(n as nat) == digits@.reverse(),
        decreases m,
    {
        let d = digit_char(m % 10);
        let ghost old_digits = digits@;
        let ghost old_m = m as nat;
        digits.push(d);
        proof {
            assert(digits@.reverse() =~= seq![d] + old_digits.reverse());
        }
        m = m / 10;
        proof {
            if old_m < 10 {
                assert(dec_seq(old_m) =~= seq![d]);
                assert(dec_seq(n as nat) =~= seq![d] + old_digits.reverse());
            } else {
                assert(dec_seq(old_m) == dec_seq(old_m / 10).push(dec_digit((old_m % 10) as int)));
                assert(dec_seq(old_m) =~= dec_seq(old_m / 10) + seq![d]);
                assert(dec_seq(n as nat) =~= dec_seq(m as nat) + (seq![d] + old_digits.reverse()));
            }
        }
    }
    let mut out = String::new();
    let n_digits = digits.len();
    let mut i: usize = 0;
    while i < n_digits
        invariant
            n_digits == digits@.len(),
            dec_seq(n as nat) == digits@.reverse(),
            i <= n_digits,
            out@.len() == i,
            forall|k: int| 0 <= k < i ==> out@[k] == digits@.reverse()[k],
        decreases n_digits - i,
    {
        push_char(&mut out, digits[n_digits - 1 - i]);
        i = i + 1;
    }
    proof {
        assert(out@ =~= digits@.reverse());
    }
    out
}

/// Renders `n` in decimal, with a minus sign when negative.
pub fn i32_to_string(n: i32) -> (r: String)
    ensures
        r@ == int_seq(n as int),
{
    let wide: i64 = n as i64;
    if wide < 0 {
        let mag: u64 = (-wide) as u64;
        let mut out = String::new();
        push_char(&mut out, '-');
        let rest = u64_to_string(mag);
        out.append(rest.as_str());
        proof {
            assert(out@ =~= int_seq(n as int));
        }
        out
    } else {
        u64_to_string(wide as u64)
    }
}

/// The text form of a flag: `true` or `false`.
pub open spec fn spec_bool_str(b: bool) -> Seq<char> {
    if b {
        "true"@
    } else {
        "false"@
    }
}

/// Renders a flag as `true` or `false`.
pub fn bool_to_string(b: bool) -> (r: String)
    ensures
        r@ == spec_bool_str(b),
{
    if b {
        String::from_str("true")
    } else {
        String::from_str("false")
    }
}

} // verus!
