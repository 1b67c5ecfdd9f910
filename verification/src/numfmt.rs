use vstd::prelude::*;

use vstd::string::StrSliceExecFns;
use vstd::string::StringExecFns;

verus! {

/// The decimal digit character for a value below ten.
pub open spec fn spec_digit(d: nat) -> char {
    if d == 0 {
        '0'
    } else if d == 1 {
        '1'
    } else if d == 2 {
        '2'
    } else if d == 3 {
        '3'
    } else if d == 4 {
        '4'
    } else if d == 5 {
        '5'
    } else if d == 6 {
        '6'
    } else if d == 7 {
        '7'
    } else if d == 8 {
        '8'
    } else {
        '9'
    }
}

/// The usual decimal rendering of a natural number, without leading zeros
/// (except for the number zero itself).
pub open spec fn spec_dec(n: nat) -> Seq<char>
    decreases n,
{
    if n < 10 {
        seq![spec_digit(n)]
    } else {
        spec_dec(n / 10).push(spec_digit(n % 10))
    }
}

fn digit_str(d: u128) -> (r: &'static str)
    requires
        d < 10,
    ensures
        r@ == seq![spec_digit(d as nat)],
{
    proof {
        reveal_strlit("0");
        reveal_strlit("1");
        reveal_strlit("2");
        reveal_strlit("3");
        reveal_strlit("4");
        reveal_strlit("5");
        reveal_strlit("6");
        reveal_strlit("7");
        reveal_strlit("8");
        reveal_strlit("9");
    }
    let r: &'static str = match d {
        0 => "0",
        1 => "1",
        2 => "2",
        3 => "3",
        4 => "4",
        5 => "5",
        6 => "6",
        7 => "7",
        8 => "8",
        _ => "9",
    };
    proof {
        assert(r@ =~= seq![spec_digit(d as nat)]);
    }
    r
}

/// Renders a number in decimal.
pub fn dec_u128(n: u128) -> (r: String)
    ensures
        r@ == spec_dec(n as nat),
    decreases n,
{
    if n < 10 {
        digit_str(n).to_owned()
    } else {
        let mut r = dec_u128(n / 10);
        r.append(digit_str(n % 10));
        proof {
            assert(spec_dec(n as nat) =~= spec_dec(n as nat / 10) + seq![
                spec_digit(n as nat % 10),
            ]);
        }
        r
    }
}

/// Renders a machine word in decimal.
pub fn dec_usize(n: usize) -> (r: String)
    ensures
        r@ == spec_dec(n as nat),
{
    dec_u128(n as u128)
}

/// Whether a character is a decimal digit.
pub open spec fn is_digit(c: char) -> bool {
    48 <= c as u32 <= 57
}

/// Whether a string is one or more decimal digits and nothing else.
pub open spec fn all_digits(s: Seq<char>) -> bool {
    forall|i: int| 0 <= i < s.len() ==> is_digit(#[trigger] s[i])
}

/// The numeric value of a digit string.
pub open spec fn spec_dec_val(s: Seq<char>) -> nat
    decreases s.len(),
{
    if s.len() == 0 {
        0
    } else {
        spec_dec_val(s.drop_last()) * 10 + (s.last() as u32 - 48) as nat
    }
}

/// Parses a message index: one or more decimal digits whose value fits a
/// machine word.  Anything else — an empty string, a sign, other characters,
/// a value out of range — is rejected.
pub fn parse_index(s: &str) -> (r: Option<usize>)
    ensures
        r is Some <==> s@.len() > 0 && all_digits(s@) && spec_dec_val(s@) <= usize::MAX,
        r matches Some(v) ==> v == spec_dec_val(s@),
{
    let n = s.unicode_len();
    if n == 0 {
        return None;
    }
    let mut i: usize = 0;
    let mut v: usize = 0;
    while i < n
        invariant
            0 < n == s@.len(),
            0 <= i <= n,
            all_digits(s@.subrange(0, i as int)),
            v == spec_dec_val(s@.subrange(0, i as int)),
        decreases n - i,
    {
        let c = s.get_char(i);
        let cu = c as u32;
        if cu < 48 || cu > 57 {
            proof {
                assert(!is_digit(s@[i as int]));
            }
            return None;
        }
        let d = (cu - 48) as usize;
        let shifted = match v.checked_mul(10) {
            Some(x) => x,
            None => {
                proof {
                    lemma_dec_val_next(s@, i as int);
                    lemma_dec_val_monotone(s@, i + 1);
                }
                return None;
            },
        };
        let next = match shifted.checked_add(d) {
            Some(x) => x,
            None => {
                proof {
                    lemma_dec_val_next(s@, i as int);
                    lemma_dec_val_monotone(s@, i + 1);
                }
                return None;
            },
        };
        proof {
            lemma_dec_val_next(s@, i as int);
        }
        v = next;
        i = i + 1;
    }
    proof {
        assert(s@.subrange(0, n as int) =~= s@);
    }
    Some(v)
}

/// Appending one more digit: the value of the longer prefix.
proof fn lemma_dec_val_next(s: Seq<char>, i: int)
    requires
        0 <= i < s.len(),
    ensures
        spec_dec_val(s.subrange(0, i + 1)) == spec_dec_val(s.subrange(0, i)) * 10 + ((s[i] as u32
            - 48) as nat),
{
    assert(s.subrange(0, i + 1).drop_last() =~= s.subrange(0, i));
    assert(s.subrange(0, i + 1).last() == s[i]);
}

/// The value of a digit-string prefix never exceeds the value of the whole.
proof fn lemma_dec_val_monotone(s: Seq<char>, i: int)
    requires
        0 <= i <= s.len(),
    ensures
        spec_dec_val(s.subrange(0, i)) <= spec_dec_val(s),
    decreases s.len() - i,
{
    if i == s.len() {
        assert(s.subrange(0, i) =~= s);
    } else {
        lemma_dec_val_next(s, i);
        lemma_dec_val_monotone(s, i + 1);
    }
}


/// A decimal rendering is never empty and holds digits only.
pub proof fn lemma_dec_digits(n: nat)
    ensures
        all_digits(spec_dec(n)),
        spec_dec(n).len() > 0,
    decreases n,
{
    if n < 10 {
        assert(is_digit(spec_dec(n)[0]));
    } else {
        lemma_dec_digits(n / 10);
        let prefix = spec_dec(n / 10);
        assert forall|i: int| 0 <= i < spec_dec(n).len() implies is_digit(
            #[trigger] spec_dec(n)[i],
        ) by {
            if i < prefix.len() {
                assert(spec_dec(n)[i] == prefix[i]);
            } else {
                assert(spec_dec(n)[i] == spec_digit(n % 10));
            }
        }
    }
}

/// Rendering a number and parsing the digits back gives the number.
pub proof fn lemma_dec_roundtrip(n: nat)
    ensures
        spec_dec_val(spec_dec(n)) == n,
    decreases n,
{
    if n < 10 {
        let s = spec_dec(n);
        assert(s.drop_last() =~= Seq::<char>::empty());
        assert(spec_dec_val(Seq::<char>::empty()) == 0);
        assert(spec_digit(n) as u32 - 48 == n);
    } else {
        lemma_dec_roundtrip(n / 10);
        let s = spec_dec(n);
        assert(s.drop_last() =~= spec_dec(n / 10));
        assert(s.last() == spec_digit(n % 10));
        assert(spec_digit(n % 10) as u32 - 48 == n % 10);
        vstd::arithmetic::div_mod::lemma_fundamental_div_mod(n as int, 10);
    }
}

/// Digits are not whitespace.
pub proof fn lemma_digits_not_space(s: Seq<char>)
    requires
        all_digits(s),
    ensures
        forall|i: int| 0 <= i < s.len() ==> !crate::strutil::is_space(s[i]),
{
    assert forall|i: int| 0 <= i < s.len() implies !crate::strutil::is_space(s[i]) by {
        assert(is_digit(s[i]));
    }
}

} // verus!

