//! Decimal rendering of the integers that appear in emitted C text:
//! array sizes, local-value numbering and integer literals.

use vstd::prelude::*;
use vstd::string::*;

verus! {

/// The character for one decimal digit.
pub open spec fn digit_char(d: nat) -> char {
    if d == 0 {
        '0'
    } else if d == 1 {
        '1'
    } else if d == 2 {
        '2'
    } else if d == 3 {
        '3'
    } else if d == 4 {
        '4'
    } else if d == 5 {
        '5'
    } else if d == 6 {
        '6'
    } else if d == 7 {
        '7'
    } else if d == 8 {
        '8'
    } else {
        '9'
    }
}

/// The usual decimal spelling of a natural number, without leading zeros.
pub open spec fn dec_rep(n: nat) -> Seq<char>
    decreases n,
{
    if n < 10 {
        seq![digit_char(n)]
    } else {
        dec_rep(n / 10) + seq![digit_char(n % 10)]
    }
}

/// The decimal spelling of an integer: a minus sign for negatives.
pub open spec fn int_rep(n: int) -> Seq<char> {
    if n >= 0 {
        dec_rep(n as nat)
    } else {
        seq!['-'] + dec_rep((-n) as nat)
    }
}

/// Digits collected least-significant first, read back most-significant first.
pub open spec fn digits_text(s: Seq<u64>) -> Seq<char>
    decreases s.len(),
{
    if s.len() == 0 {
        Seq::empty()
    } else {
        seq![digit_char(s.last() as nat)] + digits_text(s.drop_last())
    }
}

proof fn lemma_digits_text_first(s: Seq<u64>)
    requires
        s.len() > 0,
    ensures
        digits_text(s) == digits_text(s.drop_first()) + seq![digit_char(s[0] as nat)],
    decreases s.len(),
{
    if s.len() == 1 {
        assert(s.drop_last() =~= s.drop_first());
        assert(digits_text(s) =~= digits_text(s.drop_first()) + seq![digit_char(s[0] as nat)]);
    } else {
        lemma_digits_text_first(s.drop_last());
        assert(s.drop_last().drop_first() =~= s.drop_first().drop_last());
        assert(s.drop_last()[0] == s[0]);
        assert(s.drop_first().last() == s.last());
        assert(digits_text(s) == seq![digit_char(s.last() as nat)] + digits_text(s.drop_last()));
        assert(digits_text(s.drop_last()) == digits_text(s.drop_first().drop_last()) + seq![
            digit_char(s[0] as nat),
        ]);
        assert(digits_text(s.drop_first()) == seq![digit_char(s.last() as nat)] + digits_text(
            s.drop_first().drop_last(),
        ));
        assert(digits_text(s) =~= digits_text(s.drop_first()) + seq![digit_char(s[0] as nat)]);
    }
}

/// Append the single digit `d` to `out`.
fn push_digit(out: &mut String, d: u64)
    requires
        d < 10,
    ensures
        final(out)@ == old(out)@ + seq![digit_char(d as nat)],
{
    if d == 0 {
        out.append("0");
        proof {
            reveal_strlit("0");
            assert(out@ =~= old(out)@ + seq![digit_char(d as nat)]);
        }
    } else if d == 1 {
        out.append("1");
        proof {
            reveal_strlit("1");
            assert(out@ =~= old(out)@ + seq![digit_char(d as nat)]);
        }
    } else if d == 2 {
        out.append("2");
        proof {
            reveal_strlit("2");
            assert(out@ =~= old(out)@ + seq![digit_char(d as nat)]);
        }
    } else if d == 3 {
        out.append("3");
        proof {
            reveal_strlit("3");
            assert(out@ =~= old(out)@ + seq![digit_char(d as nat)]);
        }
    } else if d == 4 {
        out.append("4");
        proof {
            reveal_strlit("4");
            assert(out@ =~= old(out)@ + seq![digit_char(d as nat)]);
        }
    } else if d == 5 {
        out.append("5");
        proof {
            reveal_strlit("5");
            assert(out@ =~= old(out)@ + seq![digit_char(d as nat)]);
        }
    } else if d == 6 {
        out.append("6");
        proof {
            reveal_strlit("6");
            assert(out@ =~= old(out)@ + seq![digit_char(d as nat)]);
        }
    } else if d == 7 {
        out.append("7");
        proof {
            reveal_strlit("7");
            assert(out@ =~= old(out)@ + seq![digit_char(d as nat)]);
        }
    } else if d == 8 {
        out.append("8");
        proof {
            reveal_strlit("8");
            assert(out@ =~= old(out)@ + seq![digit_char(d as nat)]);
        }
    } else {
        out.append("9");
        proof {
            reveal_strlit("9");
            assert(out@ =~= old(out)@ + seq![digit_char(d as nat)]);
        }
    }
}

/// Render a natural number in decimal.
pub fn u64_dec(n: u64) -> (r: String)
    ensures
        r@ == dec_rep(n as nat),
{
    let mut digits: Vec<u64> = Vec::new();
    let mut m: u64 = n;
    while m >= 10
        invariant
            dec_rep(n as nat) == dec_rep(m as nat) + digits_text(digits@),
            forall|k: int| 0 <= k < digits@.len() ==> digits@[k] < 10,
        decreases m,
    {
        let d: u64 = m % 10;
        proof {
            let ds = digits@;
            assert(ds.push(d).drop_last() =~= ds);
            assert(digits_text(ds.push(d)) == seq![digit_char(d as nat)] + digits_text(ds));
            assert(dec_rep(m as nat) == dec_rep((m as nat) / 10) + seq![
                digit_char((m as nat) % 10),
            ]);
            assert(dec_rep(m as nat) + digits_text(ds) =~= dec_rep((m as nat) / 10) + (seq![
                digit_char(d as nat),
            ] + digits_text(ds)));
            assert((m / 10) as nat == (m as nat) / 10);
        }
        digits.push(d);
        m = m / 10;
    }
    proof {
        let ds = digits@;
        assert(ds.push(m).drop_last() =~= ds);
        assert(digits_text(ds.push(m)) == seq![digit_char(m as nat)] + digits_text(ds));
        assert(dec_rep(m as nat) == seq![digit_char(m as nat)]);
        assert(dec_rep(n as nat) =~= digits_text(ds.push(m)));
    }
    digits.push(m);
    let mut r = String::new();
    let ghost full: Seq<u64> = digits@;
    proof {
        assert(full.skip(full.len() as int) =~= Seq::<u64>::empty());
    }
    let mut j: usize = digits.len();
    while j > 0
        invariant
            digits@ == full,
            j <= full.len(),
            forall|k: int| 0 <= k < full.len() ==> full[k] < 10,
            dec_rep(n as nat) == digits_text(full),
            r@ == digits_text(full.skip(j as int)),
        decreases j,
    {
        j = j - 1;
        let d: u64 = digits[j];
        proof {
            let rest = full.skip(j as int);
            lemma_digits_text_first(rest);
            assert(rest.drop_first() =~= full.skip(j as int + 1));
            assert(rest[0] == full[j as int]);
        }
        push_digit(&mut r, d);
    }
    proof {
        assert(full.skip(0) =~= full);
        assert(r@ =~= dec_rep(n as nat));
    }
    r
}

/// Render a signed integer in decimal.
pub fn i64_dec(n: i64) -> (r: String)
    ensures
        r@ == int_rep(n as int),
{
    if n >= 0 {
        u64_dec(n as u64)
    } else {
        let wide: i128 = n as i128;
        let mag: u64 = (-wide) as u64;
        let mut r = String::new();
        r.append("-");
        proof {
            reveal_strlit("-");
            assert(r@ =~= seq!['-']);
        }
        let tail = u64_dec(mag);
        r.append(tail.as_str());
        r
    }
}

} // verus!
