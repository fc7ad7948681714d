//! ASCII text as bytes: literals and decimal numbers.
use vstd::prelude::*;

verus! {

/// The bytes of an ASCII character sequence.
pub open spec fn ascii(s: Seq<char>) -> Seq<u8> {
    s.map_values(|c: char| c as u8)
}

/// The ASCII digit of a number below 10.
pub open spec fn digit(d: nat) -> u8 {
    (48 + d) as u8
}

/// The decimal digits of `n`, most significant first, without leading zeros
/// (zero is the single digit `0`).
pub open spec fn decimal(n: nat) -> Seq<u8>
    decreases n,
{
    if n < 10 {
        seq![digit(n)]
    } else {
        decimal(n / 10).push(digit(n % 10))
    }
}

/// `n` in decimal, padded on the left with zeros to at least `width` digits.
pub open spec fn decimal_padded(n: nat, width: nat) -> Seq<u8> {
    let d = decimal(n);
    if d.len() < width {
        Seq::new((width - d.len()) as nat, |i: int| 48u8) + d
    } else {
        d
    }
}

/// The value of a sequence of decimal digits.
pub open spec fn decimal_value(s: Seq<u8>) -> nat
    decreases s.len(),
{
    if s.len() == 0 {
        0
    } else {
        decimal_value(s.drop_last()) * 10 + (s.last() - 48) as nat
    }
}

/// True when every byte is an ASCII decimal digit.
pub open spec fn all_digits(s: Seq<u8>) -> bool {
    forall|i: int| 0 <= i < s.len() ==> 48 <= #[trigger] s[i] <= 57
}

/// True when every byte is ASCII.
pub open spec fn is_ascii_bytes(s: Seq<u8>) -> bool {
    forall|i: int| 0 <= i < s.len() ==> #[trigger] s[i] < 128
}

/// Joining ASCII texts gives ASCII text.
pub proof fn lemma_ascii_concat(a: Seq<u8>, b: Seq<u8>)
    requires
        is_ascii_bytes(a),
        is_ascii_bytes(b),
    ensures
        is_ascii_bytes(a + b),
{
    assert forall|i: int| 0 <= i < (a + b).len() implies #[trigger] (a + b)[i] < 128 by {
        if i < a.len() {
            assert((a + b)[i] == a[i]);
        } else {
            assert((a + b)[i] == b[i - a.len()]);
        }
    }
}

/// The bytes of an ASCII string literal.
pub fn literal_bytes(s: &str) -> (b: &[u8])
    requires
        vstd::string::is_ascii(s),
    ensures
        b@ == ascii(s@),
{
    proof {
        vstd::string::is_ascii_spec_bytes(s);
    }
    let b = s.as_bytes();
    assert(b@ =~= ascii(s@));
    b
}

/// Appends the bytes of an ASCII string literal.
pub fn push_literal(out: &mut Vec<u8>, s: &str)
    requires
        vstd::string::is_ascii(s),
    ensures
        final(out)@ == old(out)@ + ascii(s@),
{
    let b = literal_bytes(s);
    out.extend_from_slice(b);
}

/// Every number has at least one digit, a single one exactly below 10, and
/// they are all decimal digits.
pub proof fn lemma_decimal_shape(n: nat)
    ensures
        1 <= decimal(n).len(),
        all_digits(decimal(n)),
        n < 10 <==> decimal(n).len() == 1,
        n >= 10 ==> decimal(n).len() >= 2,
        n >= 10 ==> decimal(n)[0] != 48,
    decreases n,
{
    if n >= 10 {
        lemma_decimal_shape(n / 10);
        if n / 10 < 10 {
            assert(decimal(n / 10)[0] == digit(n / 10));
        }
        assert(decimal(n)[0] == decimal(n / 10)[0]);
    }
}

/// Reading back the digits of `n` gives `n`.
pub proof fn lemma_decimal_value(n: nat)
    ensures
        decimal_value(decimal(n)) == n,
    decreases n,
{
    if n >= 10 {
        lemma_decimal_value(n / 10);
        assert(decimal(n).drop_last() =~= decimal(n / 10));
        assert(decimal(n).last() == digit(n % 10));
        assert((digit(n % 10) - 48) as nat == n % 10);
        assert(decimal_value(decimal(n)) == decimal_value(decimal(n / 10)) * 10 + n % 10);
        assert(n == (n / 10) * 10 + n % 10);
    } else {
        assert(decimal(n).drop_last() =~= Seq::<u8>::empty());
        assert(decimal(n).last() == digit(n));
        assert(decimal_value(decimal(n)) == decimal_value(Seq::<u8>::empty()) * 10 + n);
    }
}

proof fn lemma_zeros_value(k: nat)
    ensures
        decimal_value(Seq::new(k, |i: int| 48u8)) == 0,
    decreases k,
{
    if k > 0 {
        assert(Seq::new(k, |i: int| 48u8).drop_last() =~= Seq::new((k - 1) as nat, |i: int| 48u8));
        lemma_zeros_value((k - 1) as nat);
    }
}

proof fn lemma_leading_zeros_value(k: nat, d: Seq<u8>)
    ensures
        decimal_value(Seq::new(k, |i: int| 48u8) + d) == decimal_value(d),
    decreases d.len(),
{
    let z = Seq::new(k, |i: int| 48u8);
    if d.len() == 0 {
        assert(z + d =~= z);
        lemma_zeros_value(k);
    } else {
        assert((z + d).drop_last() =~= z + d.drop_last());
        assert((z + d).last() == d.last());
        lemma_leading_zeros_value(k, d.drop_last());
    }
}

/// Padding with zeros does not change the value: the padded digits of `n`
/// read back as `n`, and they are digits.
pub proof fn lemma_decimal_padded_value(n: nat, width: nat)
    ensures
        is_ascii_bytes(decimal_padded(n, width)),
        decimal_value(decimal_padded(n, width)) == n,
        all_digits(decimal_padded(n, width)),
        decimal_padded(n, width).len() >= width,
        decimal_padded(n, width).len() == (if decimal(n).len() < width {
            width
        } else {
            decimal(n).len()
        }),
        n < 100 && width == 2 ==> decimal_padded(n, width).len() == 2,
{
    lemma_decimal_value(n);
    lemma_decimal_shape(n);
    let d = decimal(n);
    if d.len() < width {
        lemma_leading_zeros_value((width - d.len()) as nat, d);
        let p = decimal_padded(n, width);
        assert forall|i: int| 0 <= i < p.len() implies 48 <= #[trigger] p[i] <= 57 by {
            if i >= width - d.len() {
                assert(p[i] == d[i - (width - d.len())]);
            }
        }
    }
    if n < 100 && width == 2 && n >= 10 {
        assert(decimal(n / 10).len() == 1);
    }
}

/// Appends `n` in decimal.
pub fn push_decimal(out: &mut Vec<u8>, n: u64)
    ensures
        final(out)@ == old(out)@ + decimal(n as nat),
    decreases n,
{
    let ghost start = out@;
    if n >= 10 {
        push_decimal(out, n / 10);
    }
    let d = (n % 10) as u8;
    out.push(48 + d);
    proof {
        if n >= 10 {
            assert(out@ =~= start + decimal(n as nat));
        } else {
            assert(out@ =~= start + decimal(n as nat));
        }
    }
}

/// Appends `n` in decimal, padded on the left with zeros to at least two
/// digits.
pub fn push_decimal_2(out: &mut Vec<u8>, n: u64)
    ensures
        final(out)@ == old(out)@ + decimal_padded(n as nat, 2),
{
    let ghost start = out@;
    proof { lemma_decimal_shape(n as nat); }
    if n < 10 {
        out.push(48u8);
    }
    push_decimal(out, n);
    proof {
        if n < 10 {
            assert(Seq::new((2 - decimal(n as nat).len()) as nat, |i: int| 48u8) =~= seq![48u8]);
        }
        assert(out@ =~= start + decimal_padded(n as nat, 2));
    }
}

} // verus!
