//! Decimal text for 64-bit signed integers, with the grammar that std's
//! `i64::from_str` accepts and the canonical form that `i64`'s `Display` writes.
use vstd::prelude::*;
use vstd::string::*;

verus! {

pub open spec fn is_digit(c: char) -> bool {
    '0' <= c && c <= '9'
}

pub open spec fn digit_value(c: char) -> int {
    c as int - '0' as int
}

pub open spec fn all_digits(d: Seq<char>) -> bool {
    forall|i: int| 0 <= i < d.len() ==> #[trigger] is_digit(d[i])
}

/// Value of a run of decimal digits, most significant first.
pub open spec fn digits_value(d: Seq<char>) -> int
    decreases d.len(),
{
    if d.len() == 0 {
        0
    } else {
        digits_value(d.drop_last()) * 10 + digit_value(d.last())
    }
}

/// The integer a text denotes: an optional `+` or `-`, then one or more digits.
pub open spec fn decimal_value(s: Seq<char>) -> Option<int> {
    if s.len() > 0 && (s[0] == '-' || s[0] == '+') {
        let d = s.subrange(1, s.len() as int);
        if d.len() > 0 && all_digits(d) {
            if s[0] == '-' {
                Some(-digits_value(d))
            } else {
                Some(digits_value(d))
            }
        } else {
            None
        }
    } else if s.len() > 0 && all_digits(s) {
        Some(digits_value(s))
    } else {
        None
    }
}

/// What `i64::from_str` returns on `s`: the denoted value if it fits.
pub open spec fn parse_i64_spec(s: Seq<char>) -> Option<i64> {
    match decimal_value(s) {
        Some(v) => if i64::MIN <= v <= i64::MAX {
            Some(v as i64)
        } else {
            None
        },
        None => None,
    }
}

pub open spec fn digit_char(n: int) -> char {
    (n + '0' as int) as char
}

/// Digits of a natural number without leading zeros.
pub open spec fn digits_of(n: nat) -> Seq<char>
    decreases n,
{
    if n < 10 {
        seq![digit_char(n as int)]
    } else {
        digits_of(n / 10).push(digit_char((n % 10) as int))
    }
}

/// Canonical decimal text of an integer, as `Display` writes it.
pub open spec fn decimal_of(n: int) -> Seq<char> {
    if n < 0 {
        seq!['-'] + digits_of((-n) as nat)
    } else {
        digits_of(n as nat)
    }
}

/// Digits without a leading zero, unless the whole run is `0`.
pub open spec fn is_canonical_digits(d: Seq<char>) -> bool {
    d.len() > 0 && all_digits(d) && (d.len() == 1 || d[0] != '0')
}

/// Decimal text with no `+`, no leading zero and no `-0`.
pub open spec fn is_canonical_decimal(s: Seq<char>) -> bool {
    if s.len() > 0 && s[0] == '-' {
        let d = s.subrange(1, s.len() as int);
        is_canonical_digits(d) && d[0] != '0'
    } else {
        is_canonical_digits(s)
    }
}

proof fn lemma_leading_nonzero(d: Seq<char>)
    requires
        d.len() > 0,
        all_digits(d),
        d[0] != '0',
    ensures
        digits_value(d) >= 1,
    decreases d.len(),
{
    assert(is_digit(d[0]));
    if d.len() == 1 {
        assert(d.drop_last() =~= Seq::<char>::empty());
        assert(d.last() == d[0]);
        assert(digits_value(d) == digits_value(d.drop_last()) * 10 + digit_value(d.last()));
    } else {
        let e = d.drop_last();
        assert(e[0] == d[0]);
        assert(all_digits(e)) by {
            assert forall|i: int| 0 <= i < e.len() implies #[trigger] is_digit(e[i]) by {
                assert(is_digit(d[i]));
            }
        }
        lemma_leading_nonzero(e);
        assert(is_digit(d.last()));
        assert(digits_value(d) == digits_value(e) * 10 + digit_value(d.last()));
    }
}

proof fn lemma_canonical_digits(d: Seq<char>)
    requires
        is_canonical_digits(d),
    ensures
        digits_of(digits_value(d) as nat) == d,
        digits_value(d) >= 0,
    decreases d.len(),
{
    lemma_digits_value_nonneg(d);
    let c = d.last();
    assert(is_digit(c));
    assert(digit_char(digit_value(c)) == c);
    let v = digits_value(d);
    if d.len() == 1 {
        assert(d.drop_last() =~= Seq::<char>::empty());
        assert(v == digits_value(d.drop_last()) * 10 + digit_value(c));
        assert(v == digit_value(c));
        assert(d =~= seq![c]);
        assert(digits_of(v as nat) =~= d);
    } else {
        let e = d.drop_last();
        assert(all_digits(e)) by {
            assert forall|i: int| 0 <= i < e.len() implies #[trigger] is_digit(e[i]) by {
                assert(is_digit(d[i]));
            }
        }
        assert(e[0] == d[0]);
        lemma_leading_nonzero(e);
        lemma_canonical_digits(e);
        let w = digits_value(e);
        assert(v == w * 10 + digit_value(c));
        assert(v / 10 == w);
        assert(v % 10 == digit_value(c));
        assert(digits_of(v as nat) =~= e.push(c));
        assert(e.push(c) =~= d);
    }
}

/// Canonical decimal text is exactly what `decimal_of` writes for its value.
pub proof fn lemma_canonical_decimal(s: Seq<char>)
    requires
        is_canonical_decimal(s),
    ensures
        decimal_value(s) matches Some(v) && decimal_of(v) == s,
{
    if s.len() > 0 && s[0] == '-' {
        let d = s.subrange(1, s.len() as int);
        lemma_canonical_digits(d);
        lemma_leading_nonzero(d);
        assert(seq!['-'] + d =~= s);
        assert(decimal_value(s) == Some(-digits_value(d)));
    } else {
        lemma_canonical_digits(s);
        assert(is_digit(s[0]));
        assert(decimal_value(s) == Some(digits_value(s)));
    }
}

proof fn lemma_digits_of_shape(n: nat)
    ensures
        digits_of(n).len() > 0,
        all_digits(digits_of(n)),
        digits_value(digits_of(n)) == n,
    decreases n,
{
    let k = (n % 10) as int;
    assert(digit_value(digit_char(k)) == k);
    if n >= 10 {
        lemma_digits_of_shape(n / 10);
        let d = digits_of(n);
        assert(d.drop_last() =~= digits_of(n / 10));
        assert(d.last() == digit_char(k));
        assert(n == (n / 10) * 10 + k);
        assert(digits_value(d) == digits_value(d.drop_last()) * 10 + digit_value(d.last()));
        assert(digits_value(d) == n);
        assert forall|i: int| 0 <= i < d.len() implies #[trigger] is_digit(d[i]) by {
            if i < d.len() - 1 {
                assert(d[i] == digits_of(n / 10)[i]);
            }
        }
    } else {
        let d = digits_of(n);
        assert(d.drop_last() =~= Seq::<char>::empty());
        assert(digits_value(d) == digits_value(d.drop_last()) * 10 + digit_value(d.last()));
        assert(digits_value(d) == n);
    }
}

/// Reading back the canonical text of any `i64` gives the same `i64`.
pub proof fn lemma_decimal_round_trip(n: i64)
    ensures
        parse_i64_spec(decimal_of(n as int)) == Some(n),
{
    if n < 0 {
        let m = (-(n as int)) as nat;
        lemma_digits_of_shape(m);
        let s = decimal_of(n as int);
        assert(s.subrange(1, s.len() as int) =~= digits_of(m));
    } else {
        lemma_digits_of_shape(n as nat);
        let d = digits_of(n as nat);
        assert(is_digit(d[0]));
    }
}

fn digit_text(d: u64) -> (r: &'static str)
    requires
        d < 10,
    ensures
        r@ == seq![digit_char(d as int)],
{
    proof {
        reveal_strlit("0");
        reveal_strlit("1");
        reveal_strlit("2");
        reveal_strlit("3");
        reveal_strlit("4");
        reveal_strlit("5");
        reveal_strlit("6");
        reveal_strlit("7");
        reveal_strlit("8");
        reveal_strlit("9");
    }
    let r = if d == 0 {
        "0"
    } else if d == 1 {
        "1"
    } else if d == 2 {
        "2"
    } else if d == 3 {
        "3"
    } else if d == 4 {
        "4"
    } else if d == 5 {
        "5"
    } else if d == 6 {
        "6"
    } else if d == 7 {
        "7"
    } else if d == 8 {
        "8"
    } else {
        "9"
    };
    assert(r@ =~= seq![digit_char(d as int)]);
    r
}

fn push_digits(out: &mut String, n: u64)
    ensures
        final(out)@ == old(out)@ + digits_of(n as nat),
    decreases n,
{
    if n >= 10 {
        push_digits(out, n / 10);
    }
    out.append(digit_text(n % 10));
    proof {
        if n >= 10 {
            assert(old(out)@ + digits_of(n as nat) =~= old(out)@ + digits_of((n / 10) as nat)
                + seq![digit_char((n % 10) as int)]);
        } else {
            assert(n % 10 == n);
        }
    }
}

/// Saturation bound of the reader's accumulator: one past the magnitude of `i64::MIN`.
pub const SATURATION: u128 = 9223372036854775809;

pub open spec fn capped(v: int) -> int {
    if v < SATURATION as int {
        v
    } else {
        SATURATION as int
    }
}

proof fn lemma_digits_value_nonneg(d: Seq<char>)
    requires
        all_digits(d),
    ensures
        digits_value(d) >= 0,
    decreases d.len(),
{
    if d.len() > 0 {
        assert(all_digits(d.drop_last())) by {
            assert forall|i: int| 0 <= i < d.drop_last().len() implies #[trigger] is_digit(
                d.drop_last()[i],
            ) by {
                assert(is_digit(d[i]));
            }
        }
        lemma_digits_value_nonneg(d.drop_last());
        assert(is_digit(d.last()));
    }
}

/// Reads `s` as `i64::from_str` does: an optional sign, then digits, within range.
pub fn parse_i64(s: &str) -> (r: Option<i64>)
    ensures
        r == parse_i64_spec(s@),
{
    let n = s.unicode_len();
    if n == 0 {
        return None;
    }
    let first = s.get_char(0);
    let negative = first == '-';
    let start: usize = if first == '-' || first == '+' {
        1
    } else {
        0
    };
    if start == n {
        return None;
    }
    let ghost d = s@.subrange(start as int, n as int);
    let mut acc: u128 = 0;
    let mut i: usize = start;
    while i < n
        invariant
            start <= i <= n,
            n == s@.len(),
            start <= 1,
            first == s@[0],
            negative == (first == '-'),
            start == 1 <==> (first == '-' || first == '+'),
            d == s@.subrange(start as int, n as int),
            all_digits(s@.subrange(start as int, i as int)),
            acc as int == capped(digits_value(s@.subrange(start as int, i as int))),
        decreases n - i,
    {
        let c = s.get_char(i);
        if !('0' <= c && c <= '9') {
            proof {
                assert(d[i - start] == c);
                assert(!is_digit(d[i - start]));
                assert(!all_digits(d));
                assert(first == s@[0]);
                if start == 0 {
                    assert(d =~= s@);
                    assert(!all_digits(s@));
                }
            }
            return None;
        }
        let dv: u128 = ((c as u32) - ('0' as u32)) as u128;
        let ghost before = s@.subrange(start as int, i as int);
        let ghost after = s@.subrange(start as int, i + 1);
        proof {
            assert(after.drop_last() =~= before);
            assert(after.last() == c);
            assert forall|j: int| 0 <= j < after.len() implies #[trigger] is_digit(after[j]) by {
                if j < before.len() {
                    assert(after[j] == before[j]);
                }
            }
            lemma_digits_value_nonneg(before);
            assert(digits_value(after) == digits_value(before) * 10 + dv);
        }
        if acc >= SATURATION {
            proof {
                assert(digits_value(before) * 10 >= digits_value(before)) by (nonlinear_arith)
                    requires
                        digits_value(before) >= 0,
                ;
            }
            acc = SATURATION;
        } else {
            let t = acc * 10 + dv;
            acc = if t > SATURATION {
                SATURATION
            } else {
                t
            };
        }
        i = i + 1;
    }
    proof {
        assert(s@.subrange(start as int, n as int) =~= d);
        if start == 0 {
            assert(d =~= s@);
        }
    }
    if negative {
        if acc > 9223372036854775808 {
            None
        } else {
            Some((-(acc as i128)) as i64)
        }
    } else {
        if acc > 9223372036854775807 {
            None
        } else {
            Some(acc as i64)
        }
    }
}

/// Appends the canonical decimal text of `n` to `out`.
pub fn write_i64(out: &mut String, n: i64)
    ensures
        final(out)@ == old(out)@ + decimal_of(n as int),
{
    if n < 0 {
        proof {
            reveal_strlit("-");
        }
        out.append("-");
        let m: u64 = (-(n as i128)) as u64;
        push_digits(out, m);
        proof {
            assert(old(out)@ + decimal_of(n as int) =~= old(out)@ + seq!['-'] + digits_of(
                m as nat,
            ));
        }
    } else {
        push_digits(out, n as u64);
    }
}

} // verus!
