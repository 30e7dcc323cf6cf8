//! Exact rational values of numeric literals, kept as a canonical decimal:
//! a digit string times a power of ten. Every literal's value has the form
//! `mantissa * 10^exponent`, and exactly one such form with a mantissa that
//! neither starts nor ends in a zero digit.

use vstd::prelude::*;

verus! {

/// `10^n`.
pub open spec fn pow10(n: nat) -> nat
    decreases n,
{
    if n == 0 {
        1
    } else {
        10 * pow10((n - 1) as nat)
    }
}

/// The number a big-endian digit string denotes.
pub open spec fn digits_to_nat(s: Seq<u8>) -> nat
    decreases s.len(),
{
    if s.len() == 0 {
        0
    } else {
        (digits_to_nat(s.drop_last()) * 10 + s.last()) as nat
    }
}

/// Whether every element is a decimal digit value.
pub open spec fn all_digits(s: Seq<u8>) -> bool {
    forall|i: int| 0 <= i < s.len() ==> #[trigger] s[i] <= 9
}

/// Whether `m1 * 10^e1` and `m2 * 10^e2` denote the same rational.
pub open spec fn value_eq(m1: nat, e1: int, m2: nat, e2: int) -> bool {
    if e1 >= e2 {
        m1 * pow10((e1 - e2) as nat) == m2
    } else {
        m1 == m2 * pow10((e2 - e1) as nat)
    }
}

/// The digit string without its leading zeros.
pub open spec fn trim_leading_zeros(s: Seq<u8>) -> Seq<u8>
    decreases s.len(),
{
    if s.len() > 0 && s[0] == 0 {
        trim_leading_zeros(s.skip(1))
    } else {
        s
    }
}

/// The digit string without its trailing zeros, each one moved into the
/// exponent.
pub open spec fn trim_trailing_zeros(s: Seq<u8>, e: int) -> (Seq<u8>, int)
    decreases s.len(),
{
    if s.len() > 0 && s.last() == 0 {
        trim_trailing_zeros(s.drop_last(), e + 1)
    } else {
        (s, e)
    }
}

/// The digit string without its trailing zeros.
pub open spec fn trim_trailing_zeros_digits(s: Seq<u8>) -> Seq<u8>
    decreases s.len(),
{
    if s.len() > 0 && s.last() == 0 {
        trim_trailing_zeros_digits(s.drop_last())
    } else {
        s
    }
}

/// The canonical form of `s * 10^e`: no leading zeros, no trailing zeros,
/// and the zero value always written with an empty mantissa and exponent 0.
pub open spec fn spec_canon(s: Seq<u8>, e: int) -> (Seq<u8>, int) {
    let t = trim_trailing_zeros(trim_leading_zeros(s), e);
    if t.0.len() == 0 {
        (t.0, 0)
    } else {
        t
    }
}

/// Powers of ten that the machine bounds of literals lean on.
pub proof fn lemma_pow10_values()
    ensures
        pow10(0) == 1,
        pow10(1) == 10,
        pow10(9) == 0x3B9ACA00,
        pow10(10) == 0x2_540B_E400,
        pow10(20) == 0x5_6BC7_5E2D_6310_0000,
        pow10(21) == 0x36_35C9_ADC5_DEA0_0000,
{
    reveal_with_fuel(pow10, 22);
}

/// `10^n` is positive.
pub proof fn lemma_pow10_positive(n: nat)
    ensures
        pow10(n) >= 1,
    decreases n,
{
    if n > 0 {
        lemma_pow10_positive((n - 1) as nat);
    }
}

/// `pow10` grows with its argument.
pub proof fn lemma_pow10_increases(a: nat, b: nat)
    ensures
        a <= b ==> pow10(a) <= pow10(b),
    decreases b,
{
    if a < b && b > 0 {
        lemma_pow10_increases(a, (b - 1) as nat);
        lemma_pow10_positive((b - 1) as nat);
        assert(pow10((b - 1) as nat) <= 10 * pow10((b - 1) as nat)) by (nonlinear_arith)
            requires
                pow10((b - 1) as nat) >= 1,
        ;
    }
}

/// `pow10` turns addition into multiplication.
pub proof fn lemma_pow10_adds(a: nat, b: nat)
    ensures
        pow10(a + b) == pow10(a) * pow10(b),
    decreases a,
{
    if a == 0 {
        assert(pow10(b) == 1 * pow10(b)) by (nonlinear_arith);
    } else {
        lemma_pow10_adds((a - 1) as nat, b);
        assert((a + b - 1) as nat == (a - 1) as nat + b);
        assert(10 * (pow10((a - 1) as nat) * pow10(b)) == (10 * pow10((a - 1) as nat)) * pow10(b))
            by (nonlinear_arith);
    }
}

/// A digit string denotes a value below `10^len`.
pub proof fn lemma_digits_upper(s: Seq<u8>)
    requires
        all_digits(s),
    ensures
        digits_to_nat(s) < pow10(s.len()),
    decreases s.len(),
{
    if s.len() > 0 {
        assert(all_digits(s.drop_last()));
        lemma_digits_upper(s.drop_last());
        assert(digits_to_nat(s.drop_last()) * 10 + 9 < pow10((s.len() - 1) as nat) * 10)
            by (nonlinear_arith)
            requires
                digits_to_nat(s.drop_last()) < pow10((s.len() - 1) as nat),
        ;
        assert(pow10((s.len() - 1) as nat) * 10 == 10 * pow10((s.len() - 1) as nat))
            by (nonlinear_arith);
    }
}

/// A digit string that does not start with zero denotes at least
/// `10^(len-1)`.
pub proof fn lemma_digits_lower(s: Seq<u8>)
    requires
        all_digits(s),
        s.len() > 0,
        s[0] != 0,
    ensures
        digits_to_nat(s) >= pow10((s.len() - 1) as nat),
    decreases s.len(),
{
    if s.len() == 1 {
        assert(digits_to_nat(s) == digits_to_nat(s.drop_last()) * 10 + s.last());
        assert(digits_to_nat(s.drop_last()) == 0);
    } else {
        assert(all_digits(s.drop_last()));
        assert(s.drop_last()[0] == s[0]);
        lemma_digits_lower(s.drop_last());
        assert(digits_to_nat(s.drop_last()) * 10 >= pow10((s.len() - 2) as nat) * 10)
            by (nonlinear_arith)
            requires
                digits_to_nat(s.drop_last()) >= pow10((s.len() - 2) as nat),
        ;
        assert(pow10((s.len() - 2) as nat) * 10 == 10 * pow10((s.len() - 2) as nat))
            by (nonlinear_arith);
        assert(pow10((s.len() - 1) as nat) == 10 * pow10((s.len() - 2) as nat));
    }
}

/// A leading zero does not change the denoted value.
pub proof fn lemma_digits_skip_leading_zero(s: Seq<u8>)
    requires
        s.len() > 0,
        s[0] == 0,
    ensures
        digits_to_nat(s.skip(1)) == digits_to_nat(s),
    decreases s.len(),
{
    if s.len() == 1 {
        assert(s.skip(1) =~= Seq::<u8>::empty());
        assert(digits_to_nat(s) == digits_to_nat(s.drop_last()) * 10 + s.last());
        assert(s.drop_last() =~= Seq::<u8>::empty());
    } else {
        assert(s.drop_last()[0] == s[0]);
        lemma_digits_skip_leading_zero(s.drop_last());
        assert(s.skip(1).drop_last() =~= s.drop_last().skip(1));
        assert(digits_to_nat(s.skip(1)) == digits_to_nat(s.skip(1).drop_last()) * 10 + s.skip(
            1,
        ).last());
        assert(s.skip(1).last() == s.last());
    }
}

/// Trimming every leading zero does not change the denoted value, and the
/// result is a digit string that does not start with zero (or is empty).
pub proof fn lemma_trim_leading(s: Seq<u8>)
    requires
        all_digits(s),
    ensures
        digits_to_nat(trim_leading_zeros(s)) == digits_to_nat(s),
        all_digits(trim_leading_zeros(s)),
        trim_leading_zeros(s).len() == 0 || trim_leading_zeros(s)[0] != 0,
        trim_leading_zeros(s).len() <= s.len(),
    decreases s.len(),
{
    if s.len() > 0 && s[0] == 0 {
        lemma_digits_skip_leading_zero(s);
        assert(all_digits(s.skip(1)));
        lemma_trim_leading(s.skip(1));
    }
}

/// Concatenating digit strings multiplies the left part by `10^len` of the
/// right part.
pub proof fn lemma_digits_concat(a: Seq<u8>, b: Seq<u8>)
    ensures
        digits_to_nat(a + b) == digits_to_nat(a) * pow10(b.len()) + digits_to_nat(b),
    decreases b.len(),
{
    if b.len() == 0 {
        assert(a + b =~= a);
        assert(digits_to_nat(a) * 1 == digits_to_nat(a)) by (nonlinear_arith);
    } else {
        assert((a + b).drop_last() =~= a + b.drop_last());
        lemma_digits_concat(a, b.drop_last());
        assert((a + b).last() == b.last());
        assert(digits_to_nat(a + b) == (digits_to_nat(a) * pow10((b.len() - 1) as nat)
            + digits_to_nat(b.drop_last())) * 10 + b.last());
        assert((digits_to_nat(a) * pow10((b.len() - 1) as nat) + digits_to_nat(b.drop_last())) * 10
            == digits_to_nat(a) * (10 * pow10((b.len() - 1) as nat)) + digits_to_nat(b.drop_last())
            * 10) by (nonlinear_arith);
        assert(pow10(b.len()) == 10 * pow10((b.len() - 1) as nat));
    }
}

/// An exact rational in canonical decimal form: `mantissa * 10^exponent`,
/// where the mantissa digits neither start nor end with zero, and the zero
/// value is the empty mantissa with exponent 0.
#[derive(Debug, Clone)]
pub struct Rational {
    pub digits: Vec<u8>,
    pub exponent: i128,
}

impl Rational {
    /// The canonical-form invariant.
    pub open spec fn inv(&self) -> bool {
        &&& all_digits(self.digits@)
        &&& (self.digits@.len() == 0 ==> self.exponent == 0)
        &&& (self.digits@.len() > 0 ==> self.digits@[0] != 0 && self.digits@.last() != 0)
    }

    /// The mantissa as a number.
    pub open spec fn mantissa(&self) -> nat {
        digits_to_nat(self.digits@)
    }

    /// Whether this value and `m * 10^e` denote the same rational.
    pub open spec fn denotes(&self, m: nat, e: int) -> bool {
        value_eq(self.mantissa(), self.exponent as int, m, e)
    }

    /// Builds the canonical form of `digits * 10^exponent`.
    pub fn new(digits: Vec<u8>, exponent: i128) -> (r: Rational)
        requires
            all_digits(digits@),
            -0x4000_0000_0000_0000_0000_0000_0000_0000i128 <= exponent,
            exponent + digits@.len() <= 0x4000_0000_0000_0000_0000_0000_0000_0000i128,
        ensures
            r.inv(),
            (r.digits@, r.exponent as int) == spec_canon(digits@, exponent as int),
            r.denotes(digits_to_nat(digits@), exponent as int),
    {
        let ghost orig = digits@;
        let ghost e0 = exponent as int;
        let mut digits = digits;
        let mut exponent = exponent;

        let mut lead: usize = 0;
        proof {
            assert(digits@.skip(0) =~= digits@);
        }
        while lead < digits.len() && digits[lead] == 0
            invariant
                all_digits(digits@),
                digits@ == orig,
                lead <= digits@.len(),
                trim_leading_zeros(digits@.skip(lead as int)) == trim_leading_zeros(digits@),
            decreases digits@.len() - lead,
        {
            proof {
                assert(digits@.skip(lead as int).skip(1) =~= digits@.skip(lead + 1));
            }
            lead = lead + 1;
        }
        let trimmed = digits.split_off(lead);
        proof {
            assert(trimmed@ == orig.skip(lead as int));
            if trimmed@.len() > 0 {
                assert(trim_leading_zeros(trimmed@) =~= trimmed@);
            } else {
                assert(trim_leading_zeros(trimmed@) =~= trimmed@);
            }
            lemma_trim_leading(orig);
        }
        let mut digits = trimmed;

        let ghost led = digits@;
        proof {
            assert(led == trim_leading_zeros(orig));
            assert(digits_to_nat(led) * pow10(0) == digits_to_nat(led)) by (nonlinear_arith);
        }
        while digits.len() > 0 && digits[digits.len() - 1] == 0
            invariant
                all_digits(digits@),
                all_digits(led),
                led == trim_leading_zeros(orig),
                digits@.len() <= led.len(),
                led.len() <= orig.len(),
                digits@.len() == 0 || digits@[0] != 0,
                -0x4000_0000_0000_0000_0000_0000_0000_0000i128 <= e0,
                e0 + orig.len() <= 0x4000_0000_0000_0000_0000_0000_0000_0000i128,
                exponent as int == e0 + (led.len() - digits@.len()),
                trim_trailing_zeros(digits@, exponent as int) == trim_trailing_zeros(led, e0),
                digits_to_nat(led) == digits_to_nat(digits@) * pow10((exponent - e0) as nat),
            decreases digits@.len(),
        {
            let ghost before = digits@;
            digits.pop();
            proof {
                assert(digits@ =~= before.drop_last());
                assert(digits_to_nat(before) == digits_to_nat(digits@) * 10);
                assert(digits_to_nat(digits@) * 10 * pow10((exponent - e0) as nat)
                    == digits_to_nat(digits@) * (10 * pow10((exponent - e0) as nat)))
                    by (nonlinear_arith);
            }
            exponent = exponent + 1;
        }

        proof {
            assert(trim_trailing_zeros(digits@, exponent as int) == (digits@, exponent as int));
            lemma_trim_leading(orig);
            if digits@.len() == 0 {
                assert(digits_to_nat(digits@) * pow10((exponent - e0) as nat) == 0)
                    by (nonlinear_arith)
                    requires
                        digits_to_nat(digits@) == 0,
                ;
                assert(value_eq(0, 0, digits_to_nat(orig), e0)) by {
                    lemma_pow10_positive((e0 - 0) as nat);
                    if 0 >= e0 {
                        assert(0 * pow10((0 - e0) as nat) == 0) by (nonlinear_arith);
                    } else {
                        assert(0 * pow10((e0 - 0) as nat) == 0) by (nonlinear_arith);
                    }
                }
            }
        }
        if digits.len() == 0 {
            exponent = 0;
        }
        Rational { digits, exponent }
    }

    /// Whether two values have the same canonical representation. On
    /// canonical values this is exactly equality of the denoted rationals.
    fn eq_parts(&self, other: &Rational) -> (r: bool)
        ensures
            r == (self.digits@ == other.digits@ && self.exponent == other.exponent),
    {
        if self.exponent != other.exponent {
            return false;
        }
        let n = self.digits.len();
        if n != other.digits.len() {
            proof {
                assert(self.digits@ != other.digits@);
            }
            return false;
        }
        let mut i: usize = 0;
        while i < n
            invariant
                n == self.digits@.len() == other.digits@.len(),
                i <= n,
                forall|k: int| 0 <= k < i ==> self.digits@[k] == other.digits@[k],
            decreases n - i,
        {
            if self.digits[i] != other.digits[i] {
                return false;
            }
            i = i + 1;
        }
        proof {
            assert(self.digits@ =~= other.digits@);
        }
        true
    }

    /// The digit values of the mantissa, most significant first.
    pub fn digits(&self) -> (r: &Vec<u8>)
        ensures
            r == self.digits,
    {
        &self.digits
    }

    /// The exponent of ten the mantissa is scaled by.
    pub fn exponent(&self) -> (r: i128)
        ensures
            r == self.exponent,
    {
        self.exponent
    }
}


/// The last digit and the rest of a digit string are its value modulo ten
/// and its value divided by ten.
pub proof fn lemma_digits_mod10(s: Seq<u8>)
    requires
        all_digits(s),
        s.len() > 0,
    ensures
        digits_to_nat(s) % 10 == s.last(),
        digits_to_nat(s) / 10 == digits_to_nat(s.drop_last()),
{
    assert(s.last() <= 9);
    vstd::arithmetic::div_mod::lemma_fundamental_div_mod_converse(
        digits_to_nat(s) as int,
        10,
        digits_to_nat(s.drop_last()) as int,
        s.last() as int,
    );
}

/// Digit strings of one length denote distinct values: the value determines
/// the digits.
pub proof fn lemma_digits_injective(a: Seq<u8>, b: Seq<u8>)
    requires
        all_digits(a),
        all_digits(b),
        a.len() == b.len(),
        digits_to_nat(a) == digits_to_nat(b),
    ensures
        a =~= b,
    decreases a.len(),
{
    if a.len() > 0 {
        lemma_digits_mod10(a);
        lemma_digits_mod10(b);
        assert(all_digits(a.drop_last()));
        assert(all_digits(b.drop_last()));
        lemma_digits_injective(a.drop_last(), b.drop_last());
        assert(forall|i: int| 0 <= i < a.len() - 1 ==> #[trigger] a[i] == a.drop_last()[i]);
        assert(forall|i: int| 0 <= i < b.len() - 1 ==> #[trigger] b[i] == b.drop_last()[i]);
    }
}

/// A canonical mantissa has as many digits as its value asks for: equal
/// values have equally many digits.
proof fn lemma_canonical_same_len(a: Seq<u8>, b: Seq<u8>)
    requires
        all_digits(a),
        all_digits(b),
        a.len() == 0 || a[0] != 0,
        b.len() == 0 || b[0] != 0,
        digits_to_nat(a) == digits_to_nat(b),
    ensures
        a.len() == b.len(),
{
    if a.len() == 0 || b.len() == 0 {
        if a.len() > 0 {
            lemma_digits_lower(a);
            lemma_pow10_positive((a.len() - 1) as nat);
        }
        if b.len() > 0 {
            lemma_digits_lower(b);
            lemma_pow10_positive((b.len() - 1) as nat);
        }
    } else if a.len() < b.len() {
        lemma_digits_upper(a);
        lemma_digits_lower(b);
        lemma_pow10_increases(a.len(), (b.len() - 1) as nat);
    } else if b.len() < a.len() {
        lemma_digits_upper(b);
        lemma_digits_lower(a);
        lemma_pow10_increases(b.len(), (a.len() - 1) as nat);
    }
}

impl Rational {
    /// The canonical form is unique: two canonical values that denote the
    /// same rational are one and the same representation. Together with
    /// [`Rational::eq`] this says that `==` on values decides equality of
    /// the rationals they denote.
    pub proof fn law_canonical_value_unique(a: &Rational, b: &Rational)
        requires
            a.inv(),
            b.inv(),
            value_eq(a.mantissa(), a.exponent as int, b.mantissa(), b.exponent as int),
        ensures
            a.digits@ == b.digits@,
            a.exponent == b.exponent,
    {
        if a.exponent >= b.exponent {
            Self::lemma_canonical_value_unique_ordered(a, b);
        } else {
            assert(value_eq(b.mantissa(), b.exponent as int, a.mantissa(), a.exponent as int));
            Self::lemma_canonical_value_unique_ordered(b, a);
        }
    }

    /// The ordered half of the uniqueness argument: the value with the
    /// larger exponent cannot have a mantissa that a factor of ten divides.
    proof fn lemma_canonical_value_unique_ordered(a: &Rational, b: &Rational)
        requires
            a.inv(),
            b.inv(),
            a.exponent >= b.exponent,
            a.mantissa() * pow10((a.exponent - b.exponent) as nat) == b.mantissa(),
        ensures
            a.digits@ == b.digits@,
            a.exponent == b.exponent,
    {
        let k = (a.exponent - b.exponent) as nat;
        if a.digits@.len() == 0 {
            // The zero value: the other mantissa is zero too, and both
            // exponents are zero by canonicity.
            assert(a.mantissa() == 0);
            assert(0 * pow10(k) == 0) by (nonlinear_arith);
            assert(b.mantissa() == 0);
            if b.digits@.len() > 0 {
                lemma_digits_lower(b.digits@);
                lemma_pow10_positive((b.digits@.len() - 1) as nat);
            }
            assert(b.digits@ =~= a.digits@);
        } else if k == 0 {
            assert(a.mantissa() * 1 == a.mantissa()) by (nonlinear_arith);
            lemma_canonical_same_len(a.digits@, b.digits@);
            lemma_digits_injective(a.digits@, b.digits@);
        } else {
            // A positive factor of ten would leave a trailing zero on the
            // larger mantissa, which canonicity forbids.
            lemma_digits_lower(a.digits@);
            lemma_pow10_positive((a.digits@.len() - 1) as nat);
            lemma_pow10_positive((k - 1) as nat);
            assert(pow10(k) == 10 * pow10((k - 1) as nat));
            assert(b.mantissa() == (a.mantissa() * pow10((k - 1) as nat)) * 10)
                by (nonlinear_arith)
                requires
                    a.mantissa() * pow10(k) == b.mantissa(),
                    pow10(k) == 10 * pow10((k - 1) as nat),
            ;
            assert(b.mantissa() >= 1) by (nonlinear_arith)
                requires
                    a.mantissa() >= 1,
                    pow10(k) >= 1,
                    a.mantissa() * pow10(k) == b.mantissa(),
            ;
            assert(b.digits@.len() > 0);
            lemma_digits_mod10(b.digits@);
            vstd::arithmetic::div_mod::lemma_mod_multiples_basic(
                (a.mantissa() * pow10((k - 1) as nat)) as int,
                10,
            );
            assert(b.digits@.last() == 0);
            assert(false);
        }
    }
}

impl PartialEq for Rational {
    /// Canonical values are equal exactly when their representations are.
    fn eq(&self, other: &Rational) -> (r: bool) {
        self.eq_parts(other)
    }
}

impl vstd::std_specs::cmp::PartialEqSpecImpl for Rational {
    open spec fn obeys_eq_spec() -> bool {
        true
    }

    open spec fn eq_spec(&self, other: &Rational) -> bool {
        self.digits@ == other.digits@ && self.exponent == other.exponent
    }
}

} // verus!
