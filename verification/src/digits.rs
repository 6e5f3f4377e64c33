//! Decimal reading and writing of `u32` values, the numeric components of a
//! version.

use vstd::prelude::*;
use vstd::string::StrSliceExecFns;
use vstd::string::StringExecFns;

verus! {

/// The decimal digit character for a value below ten.
pub open spec fn digit_char(d: nat) -> char {
    if d == 0 {
        '0'
    } else if d == 1 {
        '1'
    } else if d == 2 {
        '2'
    } else if d == 3 {
        '3'
    } else if d == 4 {
        '4'
    } else if d == 5 {
        '5'
    } else if d == 6 {
        '6'
    } else if d == 7 {
        '7'
    } else if d == 8 {
        '8'
    } else {
        '9'
    }
}

/// Whether `c` is a decimal digit character.
pub open spec fn is_digit_char(c: char) -> bool {
    '0' as int <= c as int && c as int <= '9' as int
}

/// The numeric value of a digit character (zero for any other character).
pub open spec fn digit_val(c: char) -> nat {
    if is_digit_char(c) {
        (c as int - '0' as int) as nat
    } else {
        0
    }
}

/// The canonical decimal representation of `n`: most significant digit
/// first, no leading zeros, a single `'0'` for zero.
pub open spec fn dec_digits(n: nat) -> Seq<char>
    decreases n,
{
    if n < 10 {
        seq![digit_char(n)]
    } else {
        dec_digits(n / 10) + seq![digit_char(n % 10)]
    }
}

/// The value of `s` read as a decimal numeral.
pub open spec fn dec_value(s: Seq<char>) -> nat
    decreases s.len(),
{
    if s.len() == 0 {
        0
    } else {
        dec_value(s.drop_last()) * 10 + digit_val(s.last())
    }
}

/// Whether every character of `s` is a decimal digit.
pub open spec fn all_digits(s: Seq<char>) -> bool {
    forall|i: int| 0 <= i < s.len() ==> #[trigger] is_digit_char(s[i])
}

/// Reading one numeric version component, as `u32::from_str` does: an
/// optional leading `'+'`, then one or more decimal digits, with a value
/// that fits in a `u32`.
pub open spec fn parse_u32_field(s: Seq<char>) -> Option<u32> {
    let t = if s.len() > 0 && s[0] == '+' {
        s.drop_first()
    } else {
        s
    };
    if t.len() > 0 && all_digits(t) && dec_value(t) <= u32::MAX {
        Some(dec_value(t) as u32)
    } else {
        None
    }
}

/// Every canonical decimal representation is a nonempty run of digits.
pub proof fn lemma_dec_digits_are_digits(n: nat)
    ensures
        dec_digits(n).len() >= 1,
        all_digits(dec_digits(n)),
        is_digit_char(dec_digits(n)[0]),
    decreases n,
{
    if n >= 10 {
        lemma_dec_digits_are_digits(n / 10);
        assert forall|i: int| 0 <= i < dec_digits(n).len() implies #[trigger] is_digit_char(
            dec_digits(n)[i],
        ) by {
            if i < dec_digits(n / 10).len() {
                assert(dec_digits(n)[i] == dec_digits(n / 10)[i]);
            } else {
                assert(dec_digits(n)[i] == digit_char(n % 10));
            }
        }
    }
}

/// Reading back the canonical representation gives the value itself.
pub proof fn lemma_dec_value_of_dec_digits(n: nat)
    ensures
        dec_value(dec_digits(n)) == n,
    decreases n,
{
    if n < 10 {
        assert(dec_digits(n) =~= seq![digit_char(n)]);
        assert(dec_value(seq![digit_char(n)].drop_last()) == 0) by {
            assert(seq![digit_char(n)].drop_last() =~= Seq::<char>::empty());
        }
    } else {
        lemma_dec_value_of_dec_digits(n / 10);
        let s = dec_digits(n / 10) + seq![digit_char(n % 10)];
        assert(s.drop_last() =~= dec_digits(n / 10));
        assert(s.last() == digit_char(n % 10));
    }
}

/// A decimal numeral is at least as large as any of its prefixes.
pub proof fn lemma_dec_value_prefix(s: Seq<char>, i: int)
    requires
        0 <= i <= s.len(),
    ensures
        dec_value(s.subrange(0, i)) <= dec_value(s),
    decreases s.len() - i,
{
    if i < s.len() {
        lemma_dec_value_prefix(s, i + 1);
        let p = s.subrange(0, i);
        let q = s.subrange(0, i + 1);
        assert(q.drop_last() =~= p);
        assert(dec_value(q) == dec_value(p) * 10 + digit_val(q.last()));
        assert(dec_value(p) * 10 >= dec_value(p) * 1) by (nonlinear_arith);
    } else {
        assert(s.subrange(0, i) =~= s);
    }
}

/// A one-character string slice for each decimal digit.
fn digit_str(d: u32) -> (r: &'static str)
    requires
        d < 10,
    ensures
        r@ =~= seq![digit_char(d as nat)],
{
    proof {
        reveal_strlit("0");
        reveal_strlit("1");
        reveal_strlit("2");
        reveal_strlit("3");
        reveal_strlit("4");
        reveal_strlit("5");
        reveal_strlit("6");
        reveal_strlit("7");
        reveal_strlit("8");
        reveal_strlit("9");
    }
    if d == 0 {
        "0"
    } else if d == 1 {
        "1"
    } else if d == 2 {
        "2"
    } else if d == 3 {
        "3"
    } else if d == 4 {
        "4"
    } else if d == 5 {
        "5"
    } else if d == 6 {
        "6"
    } else if d == 7 {
        "7"
    } else if d == 8 {
        "8"
    } else {
        "9"
    }
}

/// Appends the canonical decimal representation of `x` to `out`.
pub fn push_u32_digits(x: u32, out: &mut String)
    ensures
        final(out)@ == old(out)@ + dec_digits(x as nat),
    decreases x,
{
    if x < 10 {
        out.append(digit_str(x));
    } else {
        proof {
            assert(x / 10 < x) by (nonlinear_arith)
                requires
                    x >= 10,
            ;
        }
        push_u32_digits(x / 10, out);
        out.append(digit_str(x % 10));
        proof {
            assert(old(out)@ + dec_digits((x / 10) as nat) + seq![digit_char((x % 10) as nat)]
                =~= old(out)@ + dec_digits(x as nat));
        }
    }
}

/// Reads the characters of `s` from `from` up to `to` as one numeric version
/// component.
pub fn parse_u32_range(s: &str, from: usize, to: usize) -> (r: Option<u32>)
    requires
        from <= to <= s@.len(),
    ensures
        r == parse_u32_field(s@.subrange(from as int, to as int)),
{
    let ghost seg = s@.subrange(from as int, to as int);
    let mut i = from;
    if i < to && s.get_char(i) == '+' {
        i = i + 1;
    }
    let ghost t = if seg.len() > 0 && seg[0] == '+' {
        seg.drop_first()
    } else {
        seg
    };
    proof {
        assert(t =~= s@.subrange(i as int, to as int));
    }
    if i == to {
        return None;
    }
    let start = i;
    let mut acc: u32 = 0;
    while i < to
        invariant
            from <= start <= i <= to <= s@.len(),
            seg =~= s@.subrange(from as int, to as int),
            t == (if seg.len() > 0 && seg[0] == '+' {
                seg.drop_first()
            } else {
                seg
            }),
            t =~= s@.subrange(start as int, to as int),
            t.len() > 0,
            acc == dec_value(t.subrange(0, i - start)),
            all_digits(t.subrange(0, i - start)),
        decreases to - i,
    {
        let c = s.get_char(i);
        let cu = c as u32;
        let ghost p = t.subrange(0, i - start);
        let ghost q = t.subrange(0, i + 1 - start);
        proof {
            assert(q.drop_last() =~= p);
            assert(q.last() == t[i - start]);
            assert(t[i - start] == s@[i as int]);
        }
        if cu < 48 || cu > 57 {
            proof {
                assert(!is_digit_char(t[i - start]));
            }
            return None;
        }
        let d = cu - 48;
        proof {
            assert(is_digit_char(t[i - start]));
            assert(digit_val(t[i - start]) == d);
        }
        if acc > (u32::MAX - d) / 10 {
            proof {
                assert(acc * 10 + d > u32::MAX) by (nonlinear_arith)
                    requires
                        acc > (u32::MAX - d) / 10,
                        d < 10,
                ;
                assert(dec_value(q) == acc * 10 + d);
                if all_digits(t) {
                    lemma_dec_value_prefix(t, i + 1 - start);
                    assert(dec_value(t) >= dec_value(q));
                }
            }
            return None;
        }
        proof {
            assert(acc * 10 + d <= u32::MAX) by (nonlinear_arith)
                requires
                    acc <= (u32::MAX - d) / 10,
                    d < 10,
            ;
            assert(dec_value(q) == acc * 10 + d);
        }
        acc = acc * 10 + d;
        i = i + 1;
    }
    proof {
        assert(t.subrange(0, to - start) =~= t);
    }
    Some(acc)
}

} // verus!
