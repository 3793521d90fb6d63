//! Reading the attributes dialog's inputs: decimal text for the canvas
//! width and height, parsed exactly as `str::parse::<i32>` does — an
//! optional sign, then at least one ASCII digit, rejected when the value
//! leaves the `i32` range.

use vstd::prelude::*;

verus! {

/// ASCII decimal digit.
pub open spec fn is_ascii_digit(c: u8) -> bool {
    48 <= c <= 57
}

/// Every byte of `s` is a decimal digit.
pub open spec fn all_digits(s: Seq<u8>) -> bool {
    forall|i: int| 0 <= i < s.len() ==> is_ascii_digit(#[trigger] s[i])
}

/// Value of a string of decimal digits.
pub open spec fn digits_value(s: Seq<u8>) -> int
    decreases s.len(),
{
    if s.len() == 0 {
        0
    } else {
        digits_value(s.drop_last()) * 10 + (s.last() - 48)
    }
}

/// The digits of an integer literal: what follows the sign, if one is
/// there.
pub open spec fn digits_part(s: Seq<u8>) -> Seq<u8> {
    if s.len() > 0 && (s[0] == 43 || s[0] == 45) {
        s.skip(1)
    } else {
        s
    }
}

/// The byte strings an integer parse accepts: an optional `+` or `-`
/// sign followed by at least one decimal digit.
pub open spec fn is_int_text(s: Seq<u8>) -> bool {
    digits_part(s).len() > 0 && all_digits(digits_part(s))
}

/// The integer such a string denotes.
pub open spec fn int_text_value(s: Seq<u8>) -> int {
    if s.len() > 0 && s[0] == 45 {
        -digits_value(digits_part(s))
    } else {
        digits_value(digits_part(s))
    }
}

/// A string of digits has a value of at least zero.
proof fn lemma_digits_value_nonneg(s: Seq<u8>)
    requires
        all_digits(s),
    ensures
        digits_value(s) >= 0,
    decreases s.len(),
{
    if s.len() > 0 {
        assert(all_digits(s.drop_last()));
        lemma_digits_value_nonneg(s.drop_last());
    }
}

/// Extending a string of digits on the right cannot shrink its value.
proof fn lemma_digits_value_prefix_le(s: Seq<u8>, m: int)
    requires
        all_digits(s),
        0 <= m <= s.len(),
    ensures
        digits_value(s.subrange(0, m)) <= digits_value(s),
    decreases s.len() - m,
{
    if m == s.len() {
        assert(s.subrange(0, m) =~= s);
    } else {
        let longer = s.subrange(0, m + 1);
        assert(longer.drop_last() =~= s.subrange(0, m));
        assert(all_digits(s.subrange(0, m)));
        lemma_digits_value_nonneg(s.subrange(0, m));
        assert(digits_value(longer) == digits_value(s.subrange(0, m)) * 10 + (longer.last() - 48));
        lemma_digits_value_prefix_le(s, m + 1);
    }
}

/// Ten to the `e`.
pub open spec fn pow10(e: nat) -> int
    decreases e,
{
    if e == 0 {
        1
    } else {
        10 * pow10((e - 1) as nat)
    }
}

/// Value of a string of digits stored least-significant first, read from
/// index `i` on.
spec fn lsd_value(s: Seq<u8>, i: int) -> int
    decreases s.len() - i,
{
    if i < 0 || i >= s.len() {
        0
    } else {
        10 * lsd_value(s, i + 1) + (s[i] - 48)
    }
}

/// Appending a digit on the most-significant side adds its weighted value.
proof fn lemma_lsd_push(s: Seq<u8>, d: u8, i: int)
    requires
        0 <= i <= s.len(),
    ensures
        lsd_value(s.push(d), i) == lsd_value(s, i) + (d - 48) * pow10((s.len() - i) as nat),
    decreases s.len() - i,
{
    if i == s.len() {
        assert(lsd_value(s.push(d), i + 1) == 0);
    } else {
        lemma_lsd_push(s, d, i + 1);
        assert(10 * ((d - 48) * pow10((s.len() - i - 1) as nat)) == (d - 48) * (10 * pow10(
            (s.len() - i - 1) as nat,
        ))) by (nonlinear_arith);
    }
}

/// Writes `v` as canonical decimal text: a `-` exactly on a negative
/// value, then the digits without a spurious leading zero. This is the
/// text an integer display shows and `parse_i32` reads back.
#[verifier::loop_isolation(false)]
pub fn format_i32(v: i32) -> (r: Vec<u8>)
    ensures
        is_int_text(r@),
        int_text_value(r@) == v as int,
        r@[0] == 45 <==> v < 0,
        v != 0 ==> digits_part(r@)[0] != 48,
{
    if v == 0 {
        let mut r: Vec<u8> = Vec::new();
        r.push(48);
        proof {
            assert(r@ =~= seq![48u8]);
            assert(r@.drop_last() =~= Seq::<u8>::empty());
            assert(digits_value(Seq::<u8>::empty()) == 0);
            assert(digits_value(r@) == digits_value(r@.drop_last()) * 10 + (r@.last() - 48));
            assert(digits_part(r@) =~= r@);
        }
        return r;
    }
    let neg = v < 0;
    let m: u32 = if v < 0 {
        (-(v as i64)) as u32
    } else {
        v as u32
    };
    let mut tmp: Vec<u8> = Vec::new();
    let mut rem: u32 = m;
    while rem > 0
        invariant
            m as int == (rem as int) * pow10(tmp@.len()) + lsd_value(tmp@, 0),
            all_digits(tmp@),
            rem > 0 || (tmp@.len() > 0 && 49 <= tmp@.last() <= 57),
        decreases rem,
    {
        let d: u8 = (rem % 10) as u8 + 48;
        let rem2: u32 = rem / 10;
        proof {
            lemma_lsd_push(tmp@, d, 0);
            assert((rem as int) * pow10(tmp@.len()) == (rem2 as int) * (10 * pow10(tmp@.len()))
                + ((rem % 10) as int) * pow10(tmp@.len())) by (nonlinear_arith)
                requires
                    rem == rem2 * 10 + (rem % 10),
            ;
        }
        tmp.push(d);
        rem = rem2;
    }
    proof {
        assert((0 as int) * pow10(tmp@.len()) == 0) by (nonlinear_arith);
    }
    let mut r: Vec<u8> = Vec::new();
    if neg {
        r.push(45);
    }
    let ghost sign: Seq<u8> = if neg {
        seq![45u8]
    } else {
        Seq::<u8>::empty()
    };
    let mut i: usize = tmp.len();
    while i > 0
        invariant
            i <= tmp@.len(),
            r@.len() == sign.len() + (tmp@.len() - i),
            r@ =~= sign + r@.skip(sign.len() as int),
            all_digits(r@.skip(sign.len() as int)),
            digits_value(r@.skip(sign.len() as int)) == lsd_value(tmp@, i as int),
            i < tmp@.len() ==> r@[sign.len() as int] == tmp@.last(),
        decreases i,
    {
        i = i - 1;
        let d = tmp[i];
        proof {
            let ds = r@.skip(sign.len() as int);
            assert((r@.push(d)).skip(sign.len() as int) =~= ds.push(d));
            assert((ds.push(d)).drop_last() =~= ds);
        }
        r.push(d);
    }
    proof {
        assert(digits_part(r@) =~= r@.skip(sign.len() as int));
    }
    r
}

/// Parses decimal text as `str::parse::<i32>` would: `Some` exactly on an
/// optionally signed digit string whose value fits in an `i32`.
#[verifier::loop_isolation(false)]
pub fn parse_i32(text: &[u8]) -> (r: Option<i32>)
    ensures
        r == if is_int_text(text@) && i32::MIN <= int_text_value(text@) <= i32::MAX {
            Some(int_text_value(text@) as i32)
        } else {
            Option::<i32>::None
        },
{
    let n: usize = text.len();
    if n == 0 {
        return None;
    }
    let first = text[0];
    let neg = first == 45;
    let start: usize = if first == 45 || first == 43 {
        1
    } else {
        0
    };
    proof {
        assert(digits_part(text@) =~= text@.skip(start as int));
    }
    if n == start {
        return None;
    }
    let mut i: usize = start;
    let mut acc: i64 = 0;
    while i < n
        invariant
            start <= i <= n,
            0 <= acc <= 2147483648,
            acc == digits_value(text@.subrange(start as int, i as int)),
            forall|j: int| start <= j < i ==> is_ascii_digit(#[trigger] text@[j]),
        decreases n - i,
    {
        let d = text[i];
        if d < 48 || d > 57 {
            proof {
                assert(text@.skip(start as int)[i - start] == text@[i as int]);
                assert(!is_ascii_digit(text@.skip(start as int)[i - start]));
            }
            return None;
        }
        let acc2: i64 = acc * 10 + ((d - 48) as i64);
        proof {
            let sub = text@.subrange(start as int, i + 1);
            assert(sub.drop_last() =~= text@.subrange(start as int, i as int));
            assert(sub.last() == text@[i as int]);
            assert(acc2 == digits_value(sub));
        }
        if acc2 > 2147483648 {
            proof {
                let whole = text@.skip(start as int);
                if all_digits(whole) {
                    assert forall|j: int| start <= j < n implies is_ascii_digit(
                        #[trigger] text@[j],
                    ) by {
                        assert(whole[j - start] == text@[j]);
                    }
                    assert(all_digits(text@.subrange(start as int, n as int))) by {
                        assert(forall|j: int|
                            0 <= j < n - start ==> #[trigger] text@.subrange(
                                start as int,
                                n as int,
                            )[j] == text@[j + start]);
                    }
                    assert(text@.subrange(start as int, i + 1) =~= text@.subrange(
                        start as int,
                        n as int,
                    ).subrange(0, i + 1 - start));
                    lemma_digits_value_prefix_le(
                        text@.subrange(start as int, n as int),
                        i + 1 - start,
                    );
                    assert(whole =~= text@.subrange(start as int, n as int));
                    assert(digits_value(digits_part(text@)) > 2147483648);
                }
            }
            return None;
        }
        acc = acc2;
        i = i + 1;
    }
    proof {
        let whole = text@.skip(start as int);
        assert(whole =~= text@.subrange(start as int, n as int));
        assert(text@.subrange(start as int, i as int) =~= whole);
        assert forall|j: int| 0 <= j < whole.len() implies is_ascii_digit(#[trigger] whole[j]) by {
            assert(whole[j] == text@[j + start]);
        }
        assert(is_int_text(text@));
        assert(digits_value(digits_part(text@)) == acc);
    }
    if neg {
        Some((-acc) as i32)
    } else if acc > 2147483647 {
        None
    } else {
        Some(acc as i32)
    }
}

} // verus!
