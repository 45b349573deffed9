//! Conversion of a big-endian byte string (an X.509 serial number) into its
//! decimal string representation, without a big-integer library.

use vstd::prelude::*;
use vstd::arithmetic::div_mod::lemma_fundamental_div_mod_converse;

verus! {

/// The unsigned integer that a big-endian byte string encodes.
pub open spec fn be_bytes_val(s: Seq<u8>) -> nat
    decreases s.len(),
{
    if s.len() == 0 {
        0
    } else {
        be_bytes_val(s.drop_last()) * 256 + s.last() as nat
    }
}

/// The character for one decimal digit.
pub open spec fn digit_char(d: int) -> char {
    if d == 0 { '0' }
    else if d == 1 { '1' }
    else if d == 2 { '2' }
    else if d == 3 { '3' }
    else if d == 4 { '4' }
    else if d == 5 { '5' }
    else if d == 6 { '6' }
    else if d == 7 { '7' }
    else if d == 8 { '8' }
    else { '9' }
}

/// The decimal digit characters of `n`, most significant first, with no
/// leading zero (`0` itself is the single character `'0'`).
pub open spec fn dec_digits(n: nat) -> Seq<char>
    decreases n,
{
    if n < 10 {
        seq![digit_char(n as int)]
    } else {
        dec_digits(n / 10) + seq![digit_char((n % 10) as int)]
    }
}

/// The value of a little-endian sequence of base-10 digits.
spec fn le_digits_val(d: Seq<u8>) -> nat
    decreases d.len(),
{
    if d.len() == 0 {
        0
    } else {
        d.first() as nat + 10 * le_digits_val(d.drop_first())
    }
}

spec fn all_digits(d: Seq<u8>) -> bool {
    forall|i: int| 0 <= i < d.len() ==> d[i] < 10
}

spec fn pow10(k: nat) -> nat
    decreases k,
{
    if k == 0 {
        1
    } else {
        10 * pow10((k - 1) as nat)
    }
}

/// The digit characters of a little-endian digit sequence, read from the
/// most significant end down.
spec fn rev_chars(d: Seq<u8>) -> Seq<char>
    decreases d.len(),
{
    if d.len() == 0 {
        Seq::empty()
    } else {
        rev_chars(d.drop_first()) + seq![digit_char(d.first() as int)]
    }
}

proof fn lemma_le_val_pos(d: Seq<u8>)
    requires
        d.len() >= 1,
        d.last() != 0,
    ensures
        le_digits_val(d) >= 1,
    decreases d.len(),
{
    if d.len() == 1 {
        assert(le_digits_val(d) == d.first() + 10 * le_digits_val(d.drop_first()));
        assert(d.first() == d.last());
    } else {
        let t = d.drop_first();
        assert(t.last() == d.last());
        lemma_le_val_pos(t);
    }
}

/// On canonical digits (no zero in the top place unless the number is 0
/// itself), reading the digits from the top down gives exactly the decimal
/// representation of the value.
proof fn lemma_rev_chars_is_dec_digits(d: Seq<u8>)
    requires
        d.len() >= 1,
        all_digits(d),
        d.len() > 1 ==> d.last() != 0,
    ensures
        rev_chars(d) == dec_digits(le_digits_val(d)),
    decreases d.len(),
{
    let v = le_digits_val(d);
    if d.len() == 1 {
        assert(le_digits_val(d.drop_first()) == 0);
        assert(v == d.first());
        assert(rev_chars(d.drop_first()) == Seq::<char>::empty());
        assert(rev_chars(d) =~= seq![digit_char(d.first() as int)]);
    } else {
        let t = d.drop_first();
        assert(t.last() == d.last());
        lemma_le_val_pos(t);
        let w = le_digits_val(t);
        assert(v == d.first() + 10 * w);
        assert(d.first() < 10);
        lemma_fundamental_div_mod_converse(v as int, 10, w as int, d.first() as int);
        assert(v % 10 == d.first());
        assert(v / 10 == w);
        assert(w >= 1);
        assert(v >= 10) by {
            assert(10 * w >= 10) by (nonlinear_arith)
                requires w >= 1;
        };
        assert(dec_digits(v) == dec_digits(w) + seq![digit_char(d.first() as int)]);
        lemma_rev_chars_is_dec_digits(t);
    }
}

/// Appending a high digit to a little-endian digit string adds
/// `x * pow10(len)` to its value.
proof fn lemma_le_val_push(d: Seq<u8>, x: u8)
    ensures
        le_digits_val(d.push(x)) == le_digits_val(d) + x * pow10(d.len()),
    decreases d.len(),
{
    if d.len() == 0 {
        assert(d.push(x).drop_first() =~= Seq::<u8>::empty());
        assert(d.push(x).first() == x);
        assert(le_digits_val(d.push(x)) == x as nat + 10 * le_digits_val(d.push(x).drop_first()));
        assert(x * pow10(0) == x) by (nonlinear_arith);
    } else {
        let e = d.push(x);
        assert(e.first() == d.first());
        assert(e.drop_first() =~= d.drop_first().push(x));
        lemma_le_val_push(d.drop_first(), x);
        assert(le_digits_val(e) == d.first() + 10 * (le_digits_val(d.drop_first()) + x * pow10(
            (d.len() - 1) as nat,
        )));
        assert(10 * (le_digits_val(d.drop_first()) + x * pow10((d.len() - 1) as nat))
            == 10 * le_digits_val(d.drop_first()) + x * (10 * pow10((d.len() - 1) as nat)))
            by (nonlinear_arith);
        assert(pow10(d.len()) == 10 * pow10((d.len() - 1) as nat));
    }
}

/// A zero in the top place does not change the value.
proof fn lemma_le_val_drop_zero(d: Seq<u8>)
    requires
        d.len() >= 1,
        d.last() == 0,
    ensures
        le_digits_val(d.drop_last()) == le_digits_val(d),
    decreases d.len(),
{
    if d.len() == 1 {
        assert(d.drop_last() =~= Seq::<u8>::empty());
        assert(le_digits_val(d) == d.first() + 10 * le_digits_val(d.drop_first()));
        assert(d.first() == d.last());
    } else {
        let t = d.drop_first();
        assert(t.last() == d.last());
        lemma_le_val_drop_zero(t);
        assert(d.drop_last().drop_first() =~= t.drop_last());
        assert(d.drop_last().first() == d.first());
        assert(d.drop_last().len() >= 1);
    }
}

/// One character of a decimal number.
fn digit_str(d: u8) -> (r: &'static str)
    requires
        d < 10,
    ensures
        r@ =~= seq![digit_char(d as int)],
{
    proof {
        reveal_strlit("0");
        reveal_strlit("1");
        reveal_strlit("2");
        reveal_strlit("3");
        reveal_strlit("4");
        reveal_strlit("5");
        reveal_strlit("6");
        reveal_strlit("7");
        reveal_strlit("8");
        reveal_strlit("9");
    }
    match d {
        0 => "0",
        1 => "1",
        2 => "2",
        3 => "3",
        4 => "4",
        5 => "5",
        6 => "6",
        7 => "7",
        8 => "8",
        _ => "9",
    }
}

/// Renders a little-endian digit string, most significant digit first.
fn render_digits(digits: &Vec<u8>) -> (r: String)
    requires
        digits@.len() >= 1,
        all_digits(digits@),
        digits@.len() > 1 ==> digits@.last() != 0,
    ensures
        r@ == dec_digits(le_digits_val(digits@)),
{
    let mut s = String::new();
    let mut j: usize = digits.len();
    while j > 0
        invariant
            j <= digits@.len(),
            all_digits(digits@),
            s@ == rev_chars(digits@.skip(j as int)),
        decreases j,
    {
        j = j - 1;
        let c = digit_str(digits[j]);
        s.append(c);
        proof {
            let tail = digits@.skip(j as int);
            assert(tail.first() == digits@[j as int]);
            assert(tail.drop_first() =~= digits@.skip(j as int + 1));
            assert(rev_chars(tail) == rev_chars(tail.drop_first()) + seq![digit_char(
                tail.first() as int,
            )]);
        }
    }
    proof {
        assert(digits@.skip(0) =~= digits@);
        lemma_rev_chars_is_dec_digits(digits@);
    }
    s
}

/// Converts a big-endian byte string, read as an unsigned integer, into its
/// decimal string representation. An empty input denotes the value zero.
///
/// Works by repeatedly multiplying a little-endian base-10 digit string by
/// 256 and adding the next byte.
pub fn big_endian_bytes_to_decimal(bytes: &[u8]) -> (r: String)
    ensures
        r@ == dec_digits(be_bytes_val(bytes@)),
{
    let mut digits: Vec<u8> = Vec::new();
    digits.push(0);
    proof {
        assert(digits@ =~= seq![0u8]);
        assert(digits@.drop_first() =~= Seq::<u8>::empty());
        assert(le_digits_val(Seq::<u8>::empty()) == 0);
        assert(le_digits_val(digits@) == 0);
        assert(bytes@.take(0) =~= Seq::<u8>::empty());
    }
    let mut i: usize = 0;
    while i < bytes.len()
        invariant
            i <= bytes@.len(),
            digits@.len() >= 1,
            all_digits(digits@),
            le_digits_val(digits@) == be_bytes_val(bytes@.take(i as int)),
        decreases bytes@.len() - i,
    {
        let b = bytes[i];
        let ghost old_digits = digits@;
        let mut carry: u16 = b as u16;
        let mut j: usize = 0;
        proof {
            assert(digits@.take(0) =~= Seq::<u8>::empty());
            assert(old_digits.take(0) =~= Seq::<u8>::empty());
            assert(le_digits_val(Seq::<u8>::empty()) == 0);
            assert(pow10(0) == 1);
        }
        while j < digits.len()
            invariant
                j <= digits@.len(),
                digits@.len() == old_digits.len(),
                carry <= 255,
                all_digits(old_digits),
                all_digits(digits@.take(j as int)),
                digits@.skip(j as int) =~= old_digits.skip(j as int),
                le_digits_val(digits@.take(j as int)) + carry * pow10(j as nat) == 256
                    * le_digits_val(old_digits.take(j as int)) + b,
            decreases digits@.len() - j,
        {
            let ghost pre = digits@;
            let d = digits[j];
            proof {
                assert(old_digits.skip(j as int)[0] == old_digits[j as int]);
                assert(d == old_digits[j as int]);
                assert(d < 10);
            }
            let v: u16 = (d as u16) * 256 + carry;
            digits.set(j, (v % 10) as u8);
            let new_carry = v / 10;
            proof {
                let jj = j as int;
                assert(digits@.take(jj) =~= pre.take(jj));
                assert(digits@.skip(jj + 1) =~= pre.skip(jj + 1));
                assert(pre.skip(jj + 1) =~= old_digits.skip(jj + 1)) by {
                    assert forall|k: int| 0 <= k < pre.len() - jj - 1 implies #[trigger] pre.skip(
                        jj + 1,
                    )[k] == old_digits.skip(jj + 1)[k] by {
                        assert(pre.skip(jj)[k + 1] == old_digits.skip(jj)[k + 1]);
                    }
                };
                let lo_new = le_digits_val(digits@.take(jj));
                let lo_old = le_digits_val(old_digits.take(jj));
                lemma_le_val_push(digits@.take(jj), (v % 10) as u8);
                assert(digits@.take(jj + 1) =~= digits@.take(jj).push((v % 10) as u8));
                assert(old_digits.take(jj + 1) =~= old_digits.take(jj).push(d));
                lemma_le_val_push(old_digits.take(jj), d);
                // value accounting for one multiply-add step
                assert(v == d * 256 + carry);
                assert(v % 10 + 10 * (v / 10) == v) by (nonlinear_arith);
                assert(le_digits_val(digits@.take(jj + 1)) == lo_new + (v % 10) * pow10(j as nat));
                assert(pow10((j + 1) as nat) == 10 * pow10(j as nat));
                assert(lo_new + (v % 10) * pow10(j as nat) + (v / 10) * (10 * pow10(j as nat))
                    == lo_new + v * pow10(j as nat)) by (nonlinear_arith)
                    requires
                        v % 10 + 10 * (v / 10) == v,
                ;
                assert(v * pow10(j as nat) == (d * 256) * pow10(j as nat) + carry * pow10(j as nat))
                    by (nonlinear_arith)
                    requires
                        v == d * 256 + carry,
                ;
                assert(lo_new + carry * pow10(j as nat) == 256 * lo_old + b);
                assert((d * 256) * pow10(j as nat) == 256 * (d * pow10(j as nat)))
                    by (nonlinear_arith);
                assert(256 * lo_old + 256 * (d * pow10(j as nat)) == 256 * (lo_old + d * pow10(
                    j as nat,
                ))) by (nonlinear_arith);
                assert(le_digits_val(digits@.take(jj + 1)) + (v / 10) * pow10((j + 1) as nat) == 256
                    * le_digits_val(old_digits.take(jj + 1)) + b);
                // every entry written so far is a base-10 digit
                assert(all_digits(digits@.take(jj + 1))) by {
                    assert forall|k: int| 0 <= k < jj + 1 implies #[trigger] digits@.take(
                        jj + 1,
                    )[k] < 10 by {
                        if k < jj {
                            assert(digits@.take(jj)[k] < 10);
                        }
                    }
                };
            }
            carry = new_carry;
            j = j + 1;
        }
        proof {
            assert(digits@.take(digits@.len() as int) =~= digits@);
            assert(old_digits.take(old_digits.len() as int) =~= old_digits);
        }
        while carry > 0
            invariant
                digits@.len() >= 1,
                all_digits(digits@),
                le_digits_val(digits@) + carry * pow10(digits@.len() as nat) == 256 * le_digits_val(
                    old_digits,
                ) + b,
            decreases carry,
        {
            let ghost before = digits@;
            digits.push((carry % 10) as u8);
            proof {
                lemma_le_val_push(before, (carry % 10) as u8);
                assert(carry % 10 + 10 * (carry / 10) == carry) by (nonlinear_arith);
                assert((carry % 10) * pow10(before.len()) + (carry / 10) * (10 * pow10(
                    before.len(),
                )) == carry * pow10(before.len())) by (nonlinear_arith)
                    requires
                        carry % 10 + 10 * (carry / 10) == carry,
                ;
                assert(pow10(digits@.len() as nat) == 10 * pow10(before.len()));
                assert(all_digits(digits@)) by {
                    assert forall|k: int| 0 <= k < digits@.len() implies digits@[k] < 10 by {
                        if k < before.len() {
                            assert(digits@[k] == before[k]);
                        }
                    }
                };
            }
            carry = carry / 10;
        }
        proof {
            assert(le_digits_val(digits@) == 256 * be_bytes_val(bytes@.take(i as int)) + b)
                by (nonlinear_arith)
                requires
                    le_digits_val(digits@) + 0 * pow10(digits@.len() as nat) == 256
                        * le_digits_val(old_digits) + b,
                    le_digits_val(old_digits) == be_bytes_val(bytes@.take(i as int)),
            ;
            let p = bytes@.take(i as int + 1);
            assert(p.drop_last() =~= bytes@.take(i as int));
            assert(p.last() == bytes@[i as int]);
            assert(be_bytes_val(p) == be_bytes_val(bytes@.take(i as int)) * 256 + b);
        }
        i = i + 1;
    }
    proof {
        assert(bytes@.take(bytes@.len() as int) =~= bytes@);
    }
    trim_digits(&mut digits);
    render_digits(&digits)
}

/// Drops zeros from the top place, keeping at least one digit, so that the
/// digit string becomes the canonical representation of its value.
fn trim_digits(digits: &mut Vec<u8>)
    requires
        old(digits)@.len() >= 1,
        all_digits(old(digits)@),
    ensures
        final(digits)@.len() >= 1,
        all_digits(final(digits)@),
        final(digits)@.len() > 1 ==> final(digits)@.last() != 0,
        le_digits_val(final(digits)@) == le_digits_val(old(digits)@),
{
    while digits.len() > 1 && digits[digits.len() - 1] == 0
        invariant
            digits@.len() >= 1,
            all_digits(digits@),
            le_digits_val(digits@) == le_digits_val(old(digits)@),
        decreases digits@.len(),
    {
        proof {
            lemma_le_val_drop_zero(digits@);
        }
        digits.pop();
    }
}

/// Converts an unsigned machine integer into its decimal string
/// representation.
pub fn u64_to_decimal(n: u64) -> (r: String)
    ensures
        r@ == dec_digits(n as nat),
{
    let mut digits: Vec<u8> = Vec::new();
    let mut x: u64 = n;
    proof {
        assert(le_digits_val(Seq::<u8>::empty()) == 0);
        assert(pow10(0) == 1);
        assert(x * 1 == x) by (nonlinear_arith);
    }
    while x > 0
        invariant
            all_digits(digits@),
            le_digits_val(digits@) + x * pow10(digits@.len() as nat) == n,
        decreases x,
    {
        let ghost before = digits@;
        digits.push((x % 10) as u8);
        proof {
            lemma_le_val_push(before, (x % 10) as u8);
            assert(x % 10 + 10 * (x / 10) == x) by (nonlinear_arith);
            assert((x % 10) * pow10(before.len()) + (x / 10) * (10 * pow10(before.len())) == x
                * pow10(before.len())) by (nonlinear_arith)
                requires
                    x % 10 + 10 * (x / 10) == x,
            ;
            assert(pow10(digits@.len() as nat) == 10 * pow10(before.len()));
            assert(all_digits(digits@)) by {
                assert forall|k: int| 0 <= k < digits@.len() implies digits@[k] < 10 by {
                    if k < before.len() {
                        assert(digits@[k] == before[k]);
                    }
                }
            };
            assert(x / 10 < x) by (nonlinear_arith)
                requires
                    x >= 1,
            ;
        }
        x = x / 10;
    }
    proof {
        assert(0 * pow10(digits@.len() as nat) == 0) by (nonlinear_arith);
        assert(le_digits_val(digits@) == n);
    }
    if digits.len() == 0 {
        digits.push(0);
        proof {
            assert(digits@ =~= seq![0u8]);
            assert(digits@.drop_first() =~= Seq::<u8>::empty());
            assert(le_digits_val(Seq::<u8>::empty()) == 0);
        }
    }
    trim_digits(&mut digits);
    render_digits(&digits)
}

} // verus!
