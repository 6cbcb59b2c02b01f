//! Exact rationals of arbitrary size as plain data.

use vstd::prelude::*;

verus! {

/// An exact rational number of arbitrary size, held as plain data.
///
/// The magnitudes of numerator and denominator are stored as bytes, least
/// significant first. Whoever produces a value keeps it in canonical form
/// (lowest terms, no most-significant zero byte, zero as `+0/1`), so that equal
/// numbers have equal fields.
#[derive(Clone, Debug)]
pub struct Rational {
    pub negative: bool,
    pub numer: Vec<u8>,
    pub denom: Vec<u8>,
}

/// The mathematical content of a [`Rational`]: sign and the two digit strings.
pub struct RationalModel {
    pub negative: bool,
    pub numer: Seq<u8>,
    pub denom: Seq<u8>,
}

/// The natural number that a little-endian byte string denotes.
pub open spec fn bytes_value(digits: Seq<u8>) -> nat
    decreases digits.len(),
{
    if digits.len() == 0 {
        0
    } else {
        digits[0] as nat + 256 * bytes_value(digits.subrange(1, digits.len() as int))
    }
}

impl RationalModel {
    /// The numerator with its sign.
    pub open spec fn signed_numer(self) -> int {
        if self.negative {
            -(bytes_value(self.numer) as int)
        } else {
            bytes_value(self.numer) as int
        }
    }

    /// The denominator.
    pub open spec fn denominator(self) -> nat {
        bytes_value(self.denom)
    }
}

impl View for Rational {
    type V = RationalModel;

    open spec fn view(&self) -> RationalModel {
        RationalModel { negative: self.negative, numer: self.numer@, denom: self.denom@ }
    }
}

/// The content of an optional rational.
pub open spec fn exact_model(r: Option<Rational>) -> Option<RationalModel> {
    match r {
        Some(q) => Some(q@),
        None => None,
    }
}

/// Whether two byte strings hold the same bytes.
pub fn same_bytes(a: &Vec<u8>, b: &Vec<u8>) -> (r: bool)
    ensures
        r == (a@ == b@),
{
    if a.len() != b.len() {
        return false;
    }
    let mut i: usize = 0;
    while i < a.len()
        invariant
            a.len() == b.len(),
            0 <= i <= a.len(),
            forall|j: int| 0 <= j < i ==> a@[j] == b@[j],
        decreases a.len() - i,
    {
        if a[i] != b[i] {
            return false;
        }
        i += 1;
    }
    assert(a@ =~= b@);
    true
}

/// A copy of a byte string.
pub fn copy_bytes(a: &Vec<u8>) -> (r: Vec<u8>)
    ensures
        r@ == a@,
{
    let mut out: Vec<u8> = Vec::new();
    let mut i: usize = 0;
    while i < a.len()
        invariant
            0 <= i <= a.len(),
            out@ == a@.subrange(0, i as int),
        decreases a.len() - i,
    {
        out.push(a[i]);
        assert(out@ =~= a@.subrange(0, i + 1));
        i += 1;
    }
    assert(out@ =~= a@);
    out
}

/// The bytes of `n`, least significant first, without a most-significant
/// zero: none for zero.
pub open spec fn bytes_of(n: nat) -> Seq<u8>
    decreases n,
{
    if n == 0 {
        Seq::empty()
    } else {
        seq![(n % 256) as u8] + bytes_of(n / 256)
    }
}

/// The bytes of a number denote it.
pub proof fn lemma_bytes_of(n: nat)
    ensures
        bytes_value(bytes_of(n)) == n,
    decreases n,
{
    if n != 0 {
        lemma_bytes_of(n / 256);
        let digits = bytes_of(n);
        assert(digits.subrange(1, digits.len() as int) =~= bytes_of(n / 256));
    }
}

impl Rational {
    /// The rational `±numer/denom` for magnitudes that fit in 64 bits, each
    /// written least significant byte first without a most-significant zero.
    pub fn from_parts(negative: bool, numer: u64, denom: u64) -> (r: Rational)
        ensures
            r@ == (RationalModel {
                negative,
                numer: bytes_of(numer as nat),
                denom: bytes_of(denom as nat),
            }),
            r@.signed_numer() == (if negative { -(numer as int) } else { numer as int }),
            r@.denominator() == denom,
    {
        proof {
            lemma_bytes_of(numer as nat);
            lemma_bytes_of(denom as nat);
        }
        Rational { negative, numer: to_bytes(numer), denom: to_bytes(denom) }
    }

    /// Whether two rationals have the same fields.
    pub fn same(&self, other: &Rational) -> (r: bool)
        ensures
            r == (self@ == other@),
    {
        self.negative == other.negative && same_bytes(&self.numer, &other.numer) && same_bytes(
            &self.denom,
            &other.denom,
        )
    }

    /// A copy with the same fields.
    pub fn duplicate(&self) -> (r: Rational)
        ensures
            r@ == self@,
    {
        Rational {
            negative: self.negative,
            numer: copy_bytes(&self.numer),
            denom: copy_bytes(&self.denom),
        }
    }
}

/// The bytes of `n`, least significant first, without a most-significant zero.
pub fn to_bytes(n: u64) -> (r: Vec<u8>)
    ensures
        r@ == bytes_of(n as nat),
    decreases n,
{
    if n == 0 {
        Vec::new()
    } else {
        let rest = to_bytes(n / 256);
        let mut out: Vec<u8> = Vec::new();
        out.push((n % 256) as u8);
        let mut i: usize = 0;
        while i < rest.len()
            invariant
                0 <= i <= rest.len(),
                out@ == seq![(n % 256) as u8] + rest@.subrange(0, i as int),
            decreases rest.len() - i,
        {
            out.push(rest[i]);
            assert(out@ =~= seq![(n % 256) as u8] + rest@.subrange(0, i + 1));
            i += 1;
        }
        assert(rest@.subrange(0, rest.len() as int) =~= rest@);
        out
    }
}

} // verus!
