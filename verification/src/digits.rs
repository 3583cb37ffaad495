//! Decimal digit strings over ASCII bytes.
//!
//! `dec_digits` is the canonical decimal form of a number (no leading
//! zeros, at least one digit); `digits_val` is the value of a digit
//! string. The lemmas here show that the two are mutually inverse on
//! canonical strings, which is what makes the record format unambiguous.

use vstd::prelude::*;

verus! {

/// ASCII code of the digit zero.
pub open spec fn zero_byte() -> u8 {
    48
}

/// Is `b` the ASCII code of a decimal digit?
pub open spec fn is_digit(b: u8) -> bool {
    48 <= b && b <= 57
}

/// Every byte of `s` is an ASCII decimal digit.
pub open spec fn all_digits(s: Seq<u8>) -> bool {
    forall|k: int| 0 <= k < s.len() ==> is_digit(s[k])
}

/// The canonical decimal form of `n`: most significant digit first,
/// no leading zeros, one digit at least (`0` is written `"0"`).
pub open spec fn dec_digits(n: nat) -> Seq<u8>
    decreases n,
{
    if n < 10 {
        seq![(48 + n) as u8]
    } else {
        dec_digits(n / 10).push((48 + n % 10) as u8)
    }
}

/// The numeric value of a digit string, most significant digit first.
pub open spec fn digits_val(s: Seq<u8>) -> nat
    recommends
        all_digits(s),
    decreases s.len(),
{
    if s.len() == 0 {
        0
    } else {
        digits_val(s.drop_last()) * 10 + ((s.last() - 48) as nat)
    }
}

/// A digit string is canonical when it is nonempty and has no leading
/// zero, except for the single digit `"0"` itself.
pub open spec fn canonical_digits(s: Seq<u8>) -> bool {
    &&& s.len() >= 1
    &&& all_digits(s)
    &&& (s.len() > 1 ==> s[0] != 48)
}

/// The canonical form of a number is made of digits, is nonempty, and
/// has no leading zero unless the number is zero itself.
pub proof fn lemma_dec_digits_form(n: nat)
    ensures
        dec_digits(n).len() >= 1,
        all_digits(dec_digits(n)),
        n >= 1 ==> dec_digits(n)[0] != 48,
        n == 0 ==> dec_digits(n) =~= seq![48u8],
        canonical_digits(dec_digits(n)),
    decreases n,
{
    if n < 10 {
    } else {
        lemma_dec_digits_form(n / 10);
    }
}

/// Reading back the canonical form of `n` yields `n`.
pub proof fn lemma_val_of_dec(n: nat)
    ensures
        digits_val(dec_digits(n)) == n,
    decreases n,
{
    if n < 10 {
        let s = seq![(48 + n) as u8];
        assert(s.drop_last() =~= Seq::<u8>::empty());
        assert(digits_val(Seq::<u8>::empty()) == 0);
        assert(s.last() == (48 + n) as u8);
        assert(digits_val(s) == digits_val(s.drop_last()) * 10 + ((s.last() - 48) as nat));
        assert(digits_val(s) == n);
    } else {
        lemma_val_of_dec(n / 10);
        let d = (48 + n % 10) as u8;
        let s = dec_digits(n / 10).push(d);
        assert(s.drop_last() =~= dec_digits(n / 10));
        assert(s.last() == d);
    }
}

/// A nonempty digit string without a leading zero has a positive value.
pub proof fn lemma_val_positive(s: Seq<u8>)
    requires
        s.len() >= 1,
        all_digits(s),
        s[0] != 48,
    ensures
        digits_val(s) >= 1,
    decreases s.len(),
{
    if s.len() == 1 {
        assert(digits_val(s) == ((s.last() - 48) as nat));
    } else {
        let t = s.drop_last();
        assert(t[0] == s[0]);
        lemma_val_positive(t);
    }
}

/// Writing out the value of a canonical digit string yields the string
/// itself: the canonical form is the unique such spelling of a number.
pub proof fn lemma_dec_of_val(s: Seq<u8>)
    requires
        canonical_digits(s),
    ensures
        dec_digits(digits_val(s)) =~= s,
    decreases s.len(),
{
    if s.len() == 1 {
        let dv = (s.last() - 48) as nat;
        assert(s.drop_last() =~= Seq::<u8>::empty());
        assert(digits_val(Seq::<u8>::empty()) == 0);
        assert(digits_val(s) == digits_val(s.drop_last()) * 10 + dv);
        assert(dec_digits(dv) =~= seq![(48 + dv) as u8]);
        assert((48 + dv) as u8 == s[0]);
    } else {
        let t = s.drop_last();
        let dv = (s.last() - 48) as nat;
        assert(t[0] == s[0]);
        lemma_val_positive(t);
        lemma_dec_of_val(t);
        let vt = digits_val(t);
        assert(digits_val(s) == vt * 10 + dv);
        assert(vt * 10 + dv >= 10);
        assert((vt * 10 + dv) / 10 == vt) by (nonlinear_arith)
            requires dv < 10,
        ;
        assert((vt * 10 + dv) % 10 == dv) by (nonlinear_arith)
            requires dv < 10,
        ;
        assert(dec_digits(vt * 10 + dv) =~= dec_digits(vt).push((48 + dv) as u8));
        assert(s =~= t.push(s.last()));
    }
}

/// The value of a prefix of a digit string never exceeds the value of
/// the whole string.
pub proof fn lemma_val_prefix_le(s: Seq<u8>, k: int)
    requires
        all_digits(s),
        0 <= k <= s.len(),
    ensures
        digits_val(s.subrange(0, k)) <= digits_val(s),
    decreases s.len(),
{
    if k == s.len() {
        assert(s.subrange(0, k) =~= s);
    } else {
        let t = s.drop_last();
        assert(t =~= s.subrange(0, s.len() - 1));
        assert(s.subrange(0, k) =~= t.subrange(0, k));
        lemma_val_prefix_le(t, k);
        assert(digits_val(t) * 10 >= digits_val(t));
    }
}

} // verus!
