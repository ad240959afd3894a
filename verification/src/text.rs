//! Small verified text utilities: string equality, decimal parsing for
//! check-run identifiers, and decimal rendering for request URLs.

use vstd::prelude::*;

verus! {

/// Character-wise string equality.
pub fn str_eq(a: &str, b: &str) -> (r: bool)
    ensures
        r == (a@ == b@),
{
    let a_len = a.unicode_len();
    let b_len = b.unicode_len();
    if a_len != b_len {
        return false;
    }
    let mut i: usize = 0;
    while i < a_len
        invariant
            i <= a_len,
            a_len == a@.len(),
            a_len == b@.len(),
            forall|j: int| 0 <= j < i ==> a@[j] == b@[j],
        decreases a_len - i,
    {
        if a.get_char(i) != b.get_char(i) {
            return false;
        }
        i = i + 1;
    }
    proof {
        assert(a@ =~= b@);
    }
    true
}

/// Whether `c` is a decimal digit.
pub open spec fn is_dec_digit(c: char) -> bool {
    48 <= c as int && c as int <= 57
}

/// The numeric value of a digit character.
pub open spec fn digit_val(c: char) -> int {
    c as int - 48
}

/// The value of a digit string read in base ten.
pub open spec fn digits_val(s: Seq<char>) -> int
    decreases s.len(),
{
    if s.len() == 0 {
        0
    } else {
        digits_val(s.drop_last()) * 10 + digit_val(s.last())
    }
}

/// Whether every character of `s` is a decimal digit.
pub open spec fn all_dec_digits(s: Seq<char>) -> bool {
    forall|i: int| 0 <= i < s.len() ==> is_dec_digit(s[i])
}

/// What parsing `s` as a signed 32-bit decimal integer yields: an optional
/// single leading minus sign, then one or more digits, and the value must
/// fit; anything else fails.
pub open spec fn parse_i32_spec(s: Seq<char>) -> Option<int> {
    let neg = s.len() > 0 && s[0] == '-';
    let body = if neg { s.drop_first() } else { s };
    if body.len() == 0 || !all_dec_digits(body) {
        None
    } else {
        let v = if neg { -digits_val(body) } else { digits_val(body) };
        if i32::MIN <= v <= i32::MAX {
            Some(v)
        } else {
            None
        }
    }
}

/// The value of a digit string is never negative.
proof fn lemma_digits_val_nonneg(s: Seq<char>)
    requires
        all_dec_digits(s),
    ensures
        digits_val(s) >= 0,
    decreases s.len(),
{
    if s.len() > 0 {
        assert(all_dec_digits(s.drop_last())) by {
            assert(forall|i: int| 0 <= i < s.len() - 1 ==> s.drop_last()[i] == s[i]);
        }
        lemma_digits_val_nonneg(s.drop_last());
    }
}

/// Extending a digit string can only grow its value.
proof fn lemma_digits_val_prefix_le(s: Seq<char>, i: int)
    requires
        all_dec_digits(s),
        0 <= i <= s.len(),
    ensures
        digits_val(s.subrange(0, i)) <= digits_val(s),
    decreases s.len() - i,
{
    if i < s.len() {
        let t = s.subrange(0, i + 1);
        assert(t.drop_last() =~= s.subrange(0, i));
        assert(all_dec_digits(t));
        lemma_digits_val_nonneg(t.drop_last());
        assert(digits_val(t) == digits_val(s.subrange(0, i)) * 10 + digit_val(t.last()));
        assert(digit_val(t.last()) >= 0);
        assert(digits_val(s.subrange(0, i)) <= digits_val(t)) by {
            lemma_digits_val_nonneg(s.subrange(0, i));
        }
        lemma_digits_val_prefix_le(s, i + 1);
        assert(s.subrange(0, s.len() as int) =~= s);
    } else {
        assert(s.subrange(0, i) =~= s);
    }
}

/// Parse a decimal string as an `i32`, per [`parse_i32_spec`].
pub fn parse_i32(s: &str) -> (r: Option<i32>)
    ensures
        match parse_i32_spec(s@) {
            Some(v) => r == Some(v as i32) && v == r->0 as int,
            None => r is None,
        },
{
    let len = s.unicode_len();
    if len == 0 {
        return None;
    }
    let neg = s.get_char(0) == '-';
    let start: usize = if neg { 1 } else { 0 };
    if start == len {
        return None;
    }
    let ghost body = if neg { s@.drop_first() } else { s@ };
    proof {
        assert(body =~= s@.subrange(start as int, len as int));
    }
    let mut acc: u64 = 0;
    let mut i: usize = start;
    while i < len
        invariant
            start <= i <= len,
            len == s@.len(),
            neg == (s@.len() > 0 && s@[0] == '-'),
            start == if neg { 1int } else { 0int },
            body == s@.subrange(start as int, len as int),
            all_dec_digits(s@.subrange(start as int, i as int)),
            acc == digits_val(s@.subrange(start as int, i as int)),
            acc <= 0x8000_0000,
        decreases len - i,
    {
        let c = s.get_char(i);
        let u = c as u32;
        if u < 48 || u > 57 {
            proof {
                assert(u as int == c as int);
                assert(!is_dec_digit(c));
                assert(body[i - start] == s@[i as int]);
                assert(!all_dec_digits(body));
            }
            return None;
        }
        let d: u64 = (u - 48) as u64;
        let wide: u64 = acc * 10 + d;
        proof {
            let pre = s@.subrange(start as int, i as int);
            let post = s@.subrange(start as int, i + 1 as int);
            assert(post.drop_last() =~= pre);
            assert(post.last() == s@[i as int]);
            assert(wide == digits_val(post));
            assert(all_dec_digits(post));
        }
        if wide > 0x8000_0000 {
            proof {
                if neg {
                    assert(s@.drop_first() =~= s@.subrange(1int, len as int));
                }
                let spec_body = if s@.len() > 0 && s@[0] == '-' {
                    s@.drop_first()
                } else {
                    s@
                };
                assert(spec_body == body);
                if all_dec_digits(body) {
                    lemma_digits_val_prefix_le(body, i + 1 - start);
                    assert(body.subrange(0, i + 1 - start) =~= s@.subrange(
                        start as int,
                        i + 1 as int,
                    ));
                    assert(digits_val(body) > 0x8000_0000);
                    assert(digits_val(body) > i32::MAX);
                    assert(-digits_val(body) < i32::MIN);
                }
                assert(parse_i32_spec(s@) is None);
            }
            return None;
        }
        acc = wide;
        i = i + 1;
    }
    proof {
        assert(s@.subrange(start as int, len as int) =~= body);
    }
    if neg {
        let v: i64 = 0i64 - (acc as i64);
        Some(v as i32)
    } else {
        if acc > 0x7fff_ffff {
            proof {
                assert(digits_val(body) > i32::MAX);
            }
            return None;
        }
        Some(acc as i32)
    }
}

/// The digit character for a value below ten.
pub open spec fn digit_char(d: int) -> char {
    if d == 0 {
        '0'
    } else if d == 1 {
        '1'
    } else if d == 2 {
        '2'
    } else if d == 3 {
        '3'
    } else if d == 4 {
        '4'
    } else if d == 5 {
        '5'
    } else if d == 6 {
        '6'
    } else if d == 7 {
        '7'
    } else if d == 8 {
        '8'
    } else {
        '9'
    }
}

/// The decimal digits of `n`, most significant first; empty when `n` is
/// not positive.
pub open spec fn dec_digits(n: int) -> Seq<char>
    decreases n,
{
    if n <= 0 {
        Seq::empty()
    } else {
        dec_digits(n / 10).push(digit_char(n % 10))
    }
}

/// The decimal rendering of a non-negative number: its digits, or "0".
pub open spec fn dec_str(n: int) -> Seq<char> {
    if n == 0 {
        seq!['0']
    } else {
        dec_digits(n)
    }
}

/// The digit characters of `ds` read back to front.
spec fn digit_chars_rev(ds: Seq<u32>) -> Seq<char>
    decreases ds.len(),
{
    if ds.len() == 0 {
        Seq::empty()
    } else {
        seq![digit_char(ds.last() as int)] + digit_chars_rev(ds.drop_last())
    }
}

proof fn lemma_digit_chars_rev_index(ds: Seq<u32>)
    ensures
        digit_chars_rev(ds).len() == ds.len(),
        forall|k: int|
            0 <= k < ds.len() ==> digit_chars_rev(ds)[k] == digit_char(
                ds[ds.len() - 1 - k] as int,
            ),
    decreases ds.len(),
{
    if ds.len() > 0 {
        lemma_digit_chars_rev_index(ds.drop_last());
        let r = digit_chars_rev(ds);
        assert forall|k: int| 0 <= k < ds.len() implies r[k] == digit_char(
            ds[ds.len() - 1 - k] as int,
        ) by {
            if k == 0 {
            } else {
                assert(r[k] == digit_chars_rev(ds.drop_last())[k - 1]);
                assert(ds.drop_last()[ds.len() - 1 - k] == ds[ds.len() - 1 - k]);
            }
        }
    }
}

/// The one-character string for a digit.
fn digit_str(d: u32) -> (r: &'static str)
    requires
        d < 10,
    ensures
        r@ == seq![digit_char(d as int)],
{
    proof {
        reveal_strlit("0");
        reveal_strlit("1");
        reveal_strlit("2");
        reveal_strlit("3");
        reveal_strlit("4");
        reveal_strlit("5");
        reveal_strlit("6");
        reveal_strlit("7");
        reveal_strlit("8");
        reveal_strlit("9");
        assert("0"@ =~= seq!['0']);
        assert("1"@ =~= seq!['1']);
        assert("2"@ =~= seq!['2']);
        assert("3"@ =~= seq!['3']);
        assert("4"@ =~= seq!['4']);
        assert("5"@ =~= seq!['5']);
        assert("6"@ =~= seq!['6']);
        assert("7"@ =~= seq!['7']);
        assert("8"@ =~= seq!['8']);
        assert("9"@ =~= seq!['9']);
    }
    match d {
        0 => "0",
        1 => "1",
        2 => "2",
        3 => "3",
        4 => "4",
        5 => "5",
        6 => "6",
        7 => "7",
        8 => "8",
        _ => "9",
    }
}

/// Render a number in decimal.
pub fn u32_to_dec(n: u32) -> (s: String)
    ensures
        s@ == dec_str(n as int),
{
    if n == 0 {
        let s = String::from_str("0");
        proof {
            reveal_strlit("0");
            assert(s@ =~= seq!['0']);
        }
        return s;
    }
    let mut digits: Vec<u32> = Vec::new();
    let mut m = n;
    proof {
        assert(digit_chars_rev(digits@) =~= Seq::<char>::empty());
        assert(dec_digits(n as int) =~= dec_digits(m as int) + digit_chars_rev(digits@));
    }
    while m > 0
        invariant
            forall|k: int| 0 <= k < digits@.len() ==> digits@[k] < 10,
            dec_digits(n as int) == dec_digits(m as int) + digit_chars_rev(digits@),
        decreases m,
    {
        let d = m % 10;
        let ghost old_digits = digits@;
        let ghost old_m = m as int;
        digits.push(d);
        m = m / 10;
        proof {
            assert(digits@.last() == d);
            assert(digits@.drop_last() =~= old_digits);
            assert(digit_chars_rev(digits@) == seq![digit_char(d as int)] + digit_chars_rev(
                old_digits,
            ));
            assert(dec_digits(old_m) == dec_digits(old_m / 10).push(digit_char(old_m % 10)));
            assert(dec_digits(old_m / 10) + (seq![digit_char(d as int)] + digit_chars_rev(
                old_digits,
            )) =~= (dec_digits(old_m / 10) + seq![digit_char(d as int)]) + digit_chars_rev(
                old_digits,
            ));
            assert(dec_digits(old_m / 10) + seq![digit_char(d as int)] =~= dec_digits(
                old_m / 10,
            ).push(digit_char(d as int)));
        }
    }
    proof {
        assert(dec_digits(0int) =~= Seq::<char>::empty());
        assert(Seq::<char>::empty() + digit_chars_rev(digits@) =~= digit_chars_rev(digits@));
        lemma_digit_chars_rev_index(digits@);
    }
    let len = digits.len();
    let mut out = String::new();
    let mut i: usize = len;
    while i > 0
        invariant
            i <= len,
            len == digits@.len(),
            forall|k: int| 0 <= k < digits@.len() ==> digits@[k] < 10,
            out@.len() == len - i,
            forall|k: int|
                0 <= k < len - i ==> out@[k] == digit_char(digits@[len - 1 - k] as int),
        decreases i,
    {
        i = i - 1;
        let piece = digit_str(digits[i]);
        out.append(piece);
    }
    proof {
        lemma_digit_chars_rev_index(digits@);
        assert(out@ =~= digit_chars_rev(digits@));
    }
    out
}

} // verus!
