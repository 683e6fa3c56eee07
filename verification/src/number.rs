//! Numbers as they stand in an EBML file.

use vstd::prelude::*;

verus! {

/// The unsigned number that the octets give, most significant octet first.
pub open spec fn be_value(octets: Seq<u8>) -> nat
    decreases octets.len(),
{
    if octets.len() == 0 {
        0
    } else {
        be_value(octets.drop_last()) * 256 + octets.last() as nat
    }
}

/// How many numbers so many octets can give.
pub open spec fn be_count(length: nat) -> nat
    decreases length,
{
    if length == 0 {
        1
    } else {
        be_count((length - 1) as nat) * 256
    }
}

/// Octets give a number below the count of their length.
pub proof fn lemma_be_value_bound(octets: Seq<u8>)
    ensures
        be_value(octets) < be_count(octets.len()),
    decreases octets.len(),
{
    if octets.len() > 0 {
        lemma_be_value_bound(octets.drop_last());
    }
}

/// The counts of up to eight octets.
pub proof fn lemma_be_counts(length: nat)
    requires
        length <= 8,
    ensures
        be_count(length) <= 0x1_0000_0000_0000_0000,
        length <= 4 ==> be_count(length) <= 0x1_0000_0000,
{
    reveal_with_fuel(be_count, 9);
}

/// The first octet counts for as much as its place says.
pub proof fn lemma_be_value_first(octets: Seq<u8>)
    requires
        octets.len() > 0,
    ensures
        be_value(octets) == octets[0] * be_count((octets.len() - 1) as nat) + be_value(
            octets.drop_first(),
        ),
    decreases octets.len(),
{
    if octets.len() == 1 {
        assert(octets.drop_last() =~= Seq::empty());
        assert(octets.drop_first() =~= Seq::empty());
        let place = be_count(0);
        assert(octets[0] * place == octets[0]) by (nonlinear_arith)
            requires
                place == 1,
        ;
    } else {
        let shorter = octets.drop_last();
        lemma_be_value_first(shorter);
        assert(octets.drop_first().drop_last() =~= shorter.drop_first());
        let place = be_count((shorter.len() - 1) as nat);
        assert(be_count((octets.len() - 1) as nat) == place * 256);
        assert((octets[0] * place) * 256 == octets[0] * (place * 256)) by (nonlinear_arith);
    }
}

/// Reads up to eight octets as an unsigned number, most significant octet first.
pub fn be_number(octets: &Vec<u8>) -> (number: u64)
    requires
        octets@.len() <= 8,
    ensures
        number == be_value(octets@),
{
    let mut number: u64 = 0;
    let mut next: usize = 0;
    while next < octets.len()
        invariant
            next <= octets@.len() <= 8,
            number == be_value(octets@.take(next as int)),
        decreases octets@.len() - next,
    {
        proof {
            let longer = octets@.take(next + 1);
            assert(longer.drop_last() =~= octets@.take(next as int));
            lemma_be_value_bound(longer);
            lemma_be_counts(longer.len());
        }
        number = number * 256 + octets[next] as u64;
        next = next + 1;
    }
    assert(octets@.take(next as int) =~= octets@);
    number
}

/// An unsigned number that is not zero.
#[derive(Clone, Copy, Debug)]
pub struct NonZeroU64 {
    value: u64,
}

impl View for NonZeroU64 {
    type V = u64;

    closed spec fn view(&self) -> u64 {
        self.value
    }
}

impl NonZeroU64 {
    #[verifier::type_invariant]
    spec fn not_zero(self) -> bool {
        self.value != 0
    }

    /// Makes a number of `value`, unless it is zero.
    pub fn new(value: u64) -> (result: Option<NonZeroU64>)
        ensures
            match result {
                Some(number) => value != 0 && number@ == value,
                None => value == 0,
            },
    {
        if value == 0 {
            None
        } else {
            Some(NonZeroU64 { value })
        }
    }

    /// Returns the number as an ordinary integer.
    pub fn get(self) -> (value: u64)
        ensures
            value == self@,
            value != 0,
    {
        proof {
            use_type_invariant(&self);
        }
        self.value
    }
}

/// A floating point number, by the bits of its IEEE 754 representation.
#[derive(Clone, Copy, Debug, PartialEq, Eq, Structural)]
pub enum Float {
    /// A number of 32 bits.
    Single(u32),
    /// A number of 64 bits.
    Double(u64),
}

impl Float {
    /// Whether the number is less than zero: its sign bit is set, and the other bits stand for
    /// something from the smallest positive number up to infinity. Negative zero is not less than
    /// zero, nor is anything that is not a number.
    pub open spec fn below_zero(self) -> bool {
        match self {
            Float::Single(bits) => 0x8000_0000 < bits <= 0xFF80_0000,
            Float::Double(bits) => 0x8000_0000_0000_0000 < bits <= 0xFFF0_0000_0000_0000,
        }
    }

    /// Tells whether the number is less than zero.
    pub fn is_below_zero(self) -> (below: bool)
        ensures
            below == self.below_zero(),
    {
        match self {
            Float::Single(bits) => 0x8000_0000 < bits && bits <= 0xFF80_0000,
            Float::Double(bits) => 0x8000_0000_0000_0000 < bits && bits <= 0xFFF0_0000_0000_0000,
        }
    }
}

} // verus!
