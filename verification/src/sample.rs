//! Normalized audio samples held as IEEE 754 binary32 bit patterns.
//!
//! A sample is kept as the bits of its single-precision value, so range checks and the conversions
//! to and from signed 16-bit PCM are exact integer computations.

use vstd::prelude::*;
use vstd::arithmetic::power2::*;

verus! {

/// Bits below the sign bit.
pub const MAGNITUDE_MODULUS: u32 = 0x8000_0000;
/// Bits of the value one.
pub const ONE_BITS: u32 = 0x3f80_0000;
/// Bits of the smallest infinity; finite values lie strictly below.
pub const INFINITY_BITS: u32 = 0x7f80_0000;
/// Weight of the exponent field's lowest bit.
pub const HIDDEN_BIT: u32 = 0x0080_0000;

/// One single-precision sample.
#[derive(Debug, Clone, Copy)]
pub struct Sample {
    /// IEEE 754 binary32 bit pattern.
    pub bits: u32,
}

impl PartialEq for Sample {
    fn eq(&self, other: &Sample) -> (r: bool) {
        let left: u32 = self.bits % MAGNITUDE_MODULUS;
        let right: u32 = other.bits % MAGNITUDE_MODULUS;
        left <= INFINITY_BITS && right <= INFINITY_BITS && (self.bits == other.bits || (left == 0
            && right == 0))
    }
}

impl vstd::std_specs::cmp::PartialEqSpecImpl for Sample {
    open spec fn obeys_eq_spec() -> bool {
        true
    }

    /// Equality of the numbers: both zeros are equal, and what is not a number equals nothing.
    open spec fn eq_spec(&self, other: &Sample) -> bool {
        &&& self.magnitude() <= INFINITY_BITS
        &&& other.magnitude() <= INFINITY_BITS
        &&& self.bits == other.bits || (self.magnitude() == 0 && other.magnitude() == 0)
    }
}

impl Sample {
    /// Whether the sign bit is set.
    pub open spec fn negative(self) -> bool {
        self.bits >= MAGNITUDE_MODULUS
    }

    /// The bits of the absolute value.
    pub open spec fn magnitude(self) -> nat {
        (self.bits as nat) % (MAGNITUDE_MODULUS as nat)
    }

    /// Neither infinite nor not-a-number.
    pub open spec fn finite(self) -> bool {
        self.magnitude() < INFINITY_BITS
    }

    /// Between minus one and one, both included.
    pub open spec fn normalized(self) -> bool {
        self.magnitude() <= ONE_BITS
    }

    /// The biased exponent field.
    pub open spec fn exponent(self) -> nat {
        self.magnitude() / (HIDDEN_BIT as nat)
    }

    /// The integer significand, with the hidden bit of a normal value.
    pub open spec fn significand(self) -> nat {
        let fraction = self.magnitude() % (HIDDEN_BIT as nat);
        if self.exponent() == 0 {
            fraction
        } else {
            fraction + HIDDEN_BIT as nat
        }
    }

    /// In units of one PCM16 step (1/32768) the absolute value is `significand` divided by two to
    /// this power; the power is not negative for every normalized sample.
    pub open spec fn pcm_shift(self) -> nat {
        (135 - if self.exponent() == 0 {
            1
        } else {
            self.exponent() as int
        }) as nat
    }

    /// The absolute value in PCM16 steps, rounded to the nearest integer with halves away from zero.
    pub open spec fn pcm_steps(self) -> nat {
        (2 * self.significand() + pow2(self.pcm_shift())) / (2 * pow2(self.pcm_shift()))
    }

    /// The nearest PCM16 value, clamped to its range.
    pub open spec fn pcm16(self) -> i16 {
        if self.negative() {
            (-(self.pcm_steps() as int)) as i16
        } else if self.pcm_steps() > 32767 {
            32767i16
        } else {
            self.pcm_steps() as i16
        }
    }

    /// Whether this is the exact value of a PCM16 sample divided by 32768, in its normal form.
    pub open spec fn is_pcm16(self, value: i16) -> bool {
        if value == 0 {
            self.bits == 0
        } else {
            &&& self.negative() == (value < 0)
            &&& self.normalized()
            &&& self.exponent() >= 1
            &&& self.significand() == (if value < 0 {
                -(value as int)
            } else {
                value as int
            }) * pow2(self.pcm_shift())
        }
    }

    /// The sample of a PCM16 value: the value divided by 32768.
    pub open spec fn of_pcm16(value: i16) -> Sample {
        choose|sample: Sample| #[trigger] sample.is_pcm16(value)
    }

    /// Whether the sample is neither infinite nor not-a-number.
    pub fn is_finite(self) -> (r: bool)
        ensures
            r == self.finite(),
    {
        self.bits % MAGNITUDE_MODULUS < INFINITY_BITS
    }

    /// Whether the sample lies between minus one and one.
    pub fn is_normalized(self) -> (r: bool)
        ensures
            r == self.normalized(),
    {
        self.bits % MAGNITUDE_MODULUS <= ONE_BITS
    }

    /// The exact sample of a signed 16-bit value: the value divided by 32768.
    pub fn from_pcm16(value: i16) -> (sample: Sample)
        ensures
            sample == Sample::of_pcm16(value),
            sample.is_pcm16(value),
            sample.normalized(),
    {
        if value == 0 {
            let sample = Sample { bits: 0 };
            proof {
                Sample::of_pcm16_is(sample, value);
            }
            return sample;
        }
        let size: u32 = if value < 0 {
            (-(value as i32)) as u32
        } else {
            value as u32
        };
        let mut significand: u32 = size;
        let mut shift: u32 = 0;
        proof {
            lemma2_to64();
        }
        while significand < HIDDEN_BIT
            invariant
                1 <= size <= 32768,
                significand == size * pow2(shift as nat),
                significand < 2 * HIDDEN_BIT,
                shift <= 23,
                significand >= pow2(shift as nat),
                significand >= 1,
                pow2(23) == HIDDEN_BIT,
            decreases 2 * HIDDEN_BIT - significand,
        {
            proof {
                lemma_pow2_unfold((shift + 1) as nat);
                assert(size * (2 * pow2(shift as nat)) == 2 * (size * pow2(shift as nat)))
                    by (nonlinear_arith);
                if shift >= 23 {
                    assert(false);
                }
            }
            significand = 2 * significand;
            shift += 1;
        }
        let exponent: u32 = 135 - shift;
        proof {
            if shift < 8 {
                lemma_pow2_strictly_increases(shift as nat, 8);
                lemma2_to64();
                assert(size * pow2(shift as nat) <= 32768 * 128) by (nonlinear_arith)
                    requires
                        size <= 32768,
                        pow2(shift as nat) <= 128,
                ;
            }
            if shift == 8 {
                lemma2_to64();
                assert(significand == size * 256);
            }
        }
        let magnitude: u32 = exponent * HIDDEN_BIT + (significand - HIDDEN_BIT);
        let bits: u32 = if value < 0 {
            MAGNITUDE_MODULUS + magnitude
        } else {
            magnitude
        };
        let sample = Sample { bits };
        proof {
            assert(sample.magnitude() == magnitude);
            assert(sample.exponent() == exponent);
            assert(sample.significand() == significand);
            assert(sample.pcm_shift() == shift);
            Sample::of_pcm16_is(sample, value);
        }
        sample
    }

    /// The nearest signed 16-bit value of a normalized sample.
    pub fn to_pcm16(self) -> (value: i16)
        requires
            self.normalized(),
        ensures
            value == self.pcm16(),
    {
        let magnitude: u32 = self.bits % MAGNITUDE_MODULUS;
        let exponent: u32 = magnitude / HIDDEN_BIT;
        let fraction: u32 = magnitude % HIDDEN_BIT;
        let significand: u32 = if exponent == 0 {
            fraction
        } else {
            fraction + HIDDEN_BIT
        };
        let shift: u32 = 135 - if exponent == 0 {
            1
        } else {
            exponent
        };
        proof {
            assert(self.exponent() == exponent);
            assert(self.significand() == significand);
            assert(self.pcm_shift() == shift);
            assert(exponent <= 127);
            assert(significand < 2 * HIDDEN_BIT);
        }
        let steps: u32 = if shift > 25 {
            proof {
                lemma2_to64();
                if shift > 26 {
                    lemma_pow2_strictly_increases(26, shift as nat);
                }
                let unit = pow2(shift as nat) as int;
                assert((2 * significand + unit) / (2 * unit) == 0) by (nonlinear_arith)
                    requires
                        0 <= 2 * significand < unit,
                ;
            }
            0
        } else {
            let unit: u64 = power_of_two(shift);
            proof {
                lemma2_to64();
                lemma_pow2_strictly_increases(7, shift as nat);
                assert(unit >= 256) by {
                    if shift > 8 {
                        lemma_pow2_strictly_increases(8, shift as nat);
                    }
                }
            }
            let steps: u64 = (2 * (significand as u64) + unit) / (2 * unit);
            proof {
                // one has exponent 127, hence shift 8 and significand 2^23
                if exponent == 127 {
                    assert(fraction == 0);
                    assert(shift == 8);
                } else {
                    assert(shift >= 9);
                    if shift > 9 {
                        lemma_pow2_strictly_increases(9, shift as nat);
                    }
                    assert(unit >= 512);
                }
                assert(steps <= 32768) by (nonlinear_arith)
                    requires
                        steps == (2 * significand + unit) / (2 * unit as int),
                        unit >= 512 && significand < 0x0100_0000 || unit == 256 && significand
                            == 0x0080_0000,
                ;
            }
            steps as u32
        };
        assert(steps == self.pcm_steps());
        if self.bits >= MAGNITUDE_MODULUS {
            (-(steps as i32)) as i16
        } else if steps > 32767 {
            32767
        } else {
            steps as i16
        }
    }

    /// A sample made from a PCM16 value converts back to that value.
    pub proof fn pcm16_round_trip(self, value: i16)
        requires
            self.is_pcm16(value),
        ensures
            self.pcm16() == value,
    {
        let unit = pow2(self.pcm_shift()) as int;
        lemma_pow2_pos(self.pcm_shift());
        let size: int = if value < 0 {
            -(value as int)
        } else {
            value as int
        };
        if value == 0 {
            assert(self.significand() == 0);
            assert((2 * 0 + unit) / (2 * unit) == 0) by (nonlinear_arith)
                requires
                    unit > 0,
            ;
        } else {
            assert(2 * (size * unit) + unit == size * (2 * unit) + unit) by (nonlinear_arith);
            assert((size * (2 * unit) + unit) / (2 * unit) == size) by (nonlinear_arith)
                requires
                    unit > 0,
            ;
            assert(self.pcm_steps() == size);
        }
    }

    /// Every PCM16 value has a sample, and that sample converts back to the value.
    pub proof fn of_pcm16_properties(value: i16)
        ensures
            Sample::of_pcm16(value).is_pcm16(value),
            Sample::of_pcm16(value).normalized(),
            Sample::of_pcm16(value).pcm16() == value,
    {
        let size: int = if value < 0 {
            -(value as int)
        } else {
            value as int
        };
        if value == 0 {
            assert((Sample { bits: 0 }).is_pcm16(value));
        } else {
            lemma2_to64();
            let shift = normal_shift(size as nat, 0);
            let significand = size * pow2(shift);
            let magnitude = (135 - shift) * HIDDEN_BIT + (significand - HIDDEN_BIT);
            let sample = Sample {
                bits: (if value < 0 {
                    MAGNITUDE_MODULUS + magnitude
                } else {
                    magnitude
                }) as u32,
            };
            lemma2_to64();
            if shift < 8 {
                if shift < 7 {
                    lemma_pow2_strictly_increases(shift, 7);
                }
                assert(size * pow2(shift) <= 32768 * 128) by (nonlinear_arith)
                    requires
                        0 <= size <= 32768,
                        pow2(shift) <= 128,
                ;
            }
            if shift == 8 {
                assert(significand == size * 256);
            }
            assert(sample.magnitude() == magnitude);
            assert(sample.exponent() == 135 - shift);
            assert(sample.significand() == significand);
            assert(sample.is_pcm16(value));
        }
        Sample::of_pcm16(value).pcm16_round_trip(value);
    }

    proof fn of_pcm16_is(sample: Sample, value: i16)
        requires
            sample.is_pcm16(value),
        ensures
            Sample::of_pcm16(value) == sample,
    {
        Sample::pcm16_is_unique(Sample::of_pcm16(value), sample, value);
    }

    /// At most one bit pattern is the sample of a PCM16 value.
    pub proof fn pcm16_is_unique(a: Sample, b: Sample, value: i16)
        requires
            a.is_pcm16(value),
            b.is_pcm16(value),
        ensures
            a == b,
    {
        if value != 0 {
            let size: int = if value < 0 {
                -(value as int)
            } else {
                value as int
            };
            lemma_pow2_pos(a.pcm_shift());
            lemma_pow2_pos(b.pcm_shift());
            shift_is_least(a, b, size);
            shift_is_least(b, a, size);
            assert(a.exponent() == b.exponent());
            assert(a.magnitude() == b.magnitude());
        }
    }
}

proof fn shift_is_least(a: Sample, b: Sample, size: int)
    requires
        size > 0,
        a.exponent() >= 1,
        b.exponent() >= 1,
        a.normalized(),
        b.normalized(),
        a.significand() == size * pow2(a.pcm_shift()),
        b.significand() == size * pow2(b.pcm_shift()),
    ensures
        a.pcm_shift() >= b.pcm_shift(),
{
    if a.pcm_shift() < b.pcm_shift() {
        let x = pow2(a.pcm_shift()) as int;
        let y = pow2(b.pcm_shift()) as int;
        lemma_pow2_unfold((a.pcm_shift() + 1) as nat);
        if a.pcm_shift() + 1 < b.pcm_shift() {
            lemma_pow2_strictly_increases((a.pcm_shift() + 1) as nat, b.pcm_shift());
        }
        assert(y >= 2 * x);
        assert(size * y >= 2 * (size * x)) by (nonlinear_arith)
            requires
                size > 0,
                y >= 2 * x,
        ;
        assert(a.significand() >= HIDDEN_BIT);
        assert(b.significand() < 2 * HIDDEN_BIT);
    }
}

proof fn normal_shift(size: nat, shift: nat) -> (r: nat)
    requires
        1 <= size <= 32768,
        shift <= 23,
        size * pow2(shift) < 2 * HIDDEN_BIT,
    ensures
        r <= 23,
        HIDDEN_BIT <= size * pow2(r) < 2 * HIDDEN_BIT,
    decreases 23 - shift,
{
    lemma2_to64();
    if size * pow2(shift) >= HIDDEN_BIT {
        shift
    } else {
        assert(shift < 23) by {
            assert(size * pow2(shift) >= pow2(shift)) by (nonlinear_arith)
                requires
                    size >= 1,
            ;
        }
        lemma_pow2_unfold((shift + 1) as nat);
        assert(size * (2 * pow2(shift)) == 2 * (size * pow2(shift))) by (nonlinear_arith);
        normal_shift(size, (shift + 1) as nat)
    }
}

fn power_of_two(shift: u32) -> (r: u64)
    requires
        shift <= 25,
    ensures
        r as nat == pow2(shift as nat),
        r <= 0x0200_0000,
{
    let mut r: u64 = 1;
    let mut i: u32 = 0;
    proof {
        lemma2_to64();
    }
    while i < shift
        invariant
            i <= shift <= 25,
            r as nat == pow2(i as nat),
            r <= 0x0200_0000,
            pow2(25) == 0x0200_0000,
        decreases shift - i,
    {
        proof {
            lemma_pow2_unfold((i + 1) as nat);
            if i + 1 < 25 {
                lemma_pow2_strictly_increases((i + 1) as nat, 25);
            }
        }
        r = 2 * r;
        i += 1;
    }
    r
}

/// The absolute value that a bit pattern stands for, in units of the smallest positive number: the
/// fraction alone below the smallest normal number, and above it the fraction behind a leading one,
/// doubled once for every further exponent.
pub open spec fn absolute_value(bits: u32) -> nat {
    let exponent = ((bits / 0x80_0000) % 256) as nat;
    let fraction = (bits % 0x80_0000) as nat;
    if exponent == 0 {
        fraction
    } else {
        (fraction + 0x80_0000) * pow2((exponent - 1) as nat)
    }
}

/// How a sample's parts make up its value.
proof fn parts_make_up_the_value(sample: Sample)
    ensures
        sample.exponent() == (sample.bits / 0x80_0000) % 256,
        sample.exponent() == 0 ==> absolute_value(sample.bits) == sample.significand(),
        sample.exponent() > 0 ==> absolute_value(sample.bits) == sample.significand() * pow2(
            (sample.exponent() - 1) as nat,
        ),
        sample.exponent() > 0 ==> 0x80_0000 <= sample.significand() < 0x100_0000,
        sample.exponent() == 0 ==> sample.significand() < 0x80_0000,
{
    let bits = sample.bits;
    assert(sample.magnitude() == bits % 0x8000_0000);
    assert((bits % 0x8000_0000) / 0x80_0000 == (bits / 0x80_0000) % 256) by (bit_vector);
    assert((bits % 0x8000_0000) % 0x80_0000 == bits % 0x80_0000) by (bit_vector);
}

/// One number is doubled as often as another where they have the same exponent.
proof fn powers_are_ordered(low: nat, high: nat)
    requires
        low <= high,
    ensures
        0 < pow2(low) <= pow2(high),
{
    lemma_pow2_pos(low);
    if low < high {
        lemma_pow2_strictly_increases(low, high);
    }
}

/// A number reaches a power of two of at least the smallest normal number exactly when its exponent
/// does.
proof fn exponents_order_values(sample: Sample, exponent: nat)
    requires
        1 <= exponent <= 255,
    ensures
        absolute_value(sample.bits) >= pow2((exponent + 22) as nat) <==> sample.exponent()
            >= exponent,
        absolute_value(sample.bits) <= pow2((exponent + 22) as nat) <==> {
            ||| sample.exponent() < exponent
            ||| sample.exponent() == exponent && sample.significand() == 0x80_0000
        },
{
    parts_make_up_the_value(sample);
    lemma2_to64();
    let e = (exponent - 1) as nat;
    lemma_pow2_adds(23, e);
    assert(pow2((exponent + 22) as nat) == 0x80_0000 * pow2(e));
    lemma_pow2_pos(e);
    let value = absolute_value(sample.bits);
    let sig = sample.significand();
    if sample.exponent() == 0 {
        assert(0x80_0000 * pow2(e) >= 0x80_0000) by (nonlinear_arith)
            requires
                pow2(e) >= 1,
        ;
    } else {
        let own = (sample.exponent() - 1) as nat;
        lemma_pow2_pos(own);
        if own < e {
            powers_are_ordered(own + 1, e);
            lemma_pow2_adds(1, own);
            assert(value < 0x80_0000 * pow2(e)) by (nonlinear_arith)
                requires
                    value == sig * pow2(own),
                    sig < 0x100_0000,
                    2 * pow2(own) <= pow2(e),
                    pow2(own) > 0,
            ;
        } else if own == e {
            assert(value >= 0x80_0000 * pow2(e)) by (nonlinear_arith)
                requires
                    value == sig * pow2(e),
                    sig >= 0x80_0000,
                    pow2(e) > 0,
            ;
            assert(value <= 0x80_0000 * pow2(e) <==> sig <= 0x80_0000) by (nonlinear_arith)
                requires
                    value == sig * pow2(e),
                    pow2(e) > 0,
            ;
        } else {
            powers_are_ordered(e + 1, own);
            lemma_pow2_adds(1, e);
            assert(value > 0x80_0000 * pow2(e)) by (nonlinear_arith)
                requires
                    value == sig * pow2(own),
                    sig >= 0x80_0000,
                    2 * pow2(e) <= pow2(own),
                    pow2(e) > 0,
            ;
        }
    }
}

/// A sample is normalized exactly when its absolute value is at most one, and finite exactly when it
/// is below the first number that there is no room for.
pub proof fn bounds_are_bounds_of_the_value(sample: Sample)
    ensures
        sample.normalized() <==> absolute_value(sample.bits) <= pow2(149),
        sample.finite() <==> absolute_value(sample.bits) < pow2(277),
        sample.negative() <==> sample.bits >= 0x8000_0000,
{
    let bits = sample.bits;
    parts_make_up_the_value(sample);
    exponents_order_values(sample, 127);
    exponents_order_values(sample, 255);
    assert(sample.magnitude() == bits % 0x8000_0000);
    let magnitude: u32 = bits % 0x8000_0000;
    assert(magnitude <= 0x3f80_0000 <==> (magnitude / 0x80_0000 < 127 || (magnitude / 0x80_0000
        == 127 && magnitude % 0x80_0000 == 0))) by (bit_vector);
    assert(magnitude < 0x7f80_0000 <==> magnitude / 0x80_0000 < 255) by (bit_vector)
        requires
            magnitude < 0x8000_0000,
    ;
}

/// A normalized sample becomes the PCM16 value nearest to it: in steps of 1/32768 the value lies no
/// further than half a step from the sample, halves go away from zero, the sign stays, and only plus
/// one, for which there is no value, becomes the largest.
pub proof fn samples_become_the_nearest_value(sample: Sample)
    requires
        sample.normalized(),
    ensures
        ({
            let value = sample.pcm16() as int;
            let steps = if value < 0 {
                -value
            } else {
                value
            };
            let exact = absolute_value(sample.bits) as int;
            let step = pow2(134) as int;
            &&& sample.negative() ==> value <= 0
            &&& !sample.negative() ==> value >= 0
            &&& (sample.negative() || 2 * exact < 65_535 * step) ==> {
                &&& 2 * (steps * step - exact) <= step
                &&& 2 * (exact - steps * step) < step
            }
            &&& !sample.negative() && 2 * exact >= 65_535 * step ==> value == 32_767
        }),
{
    parts_make_up_the_value(sample);
    bounds_are_bounds_of_the_value(sample);
    let exact = absolute_value(sample.bits) as int;
    let sig = sample.significand() as int;
    let shift = sample.pcm_shift();
    let unit = pow2(shift) as int;
    let raise = if sample.exponent() == 0 {
        0
    } else {
        (sample.exponent() - 1) as nat
    };
    exponents_order_values(sample, 128);
    exponents_order_values(sample, 127);
    assert(sample.exponent() <= 127);
    assert(shift + raise == 134);
    lemma_pow2_adds(shift, raise);
    lemma_pow2_pos(shift);
    lemma_pow2_pos(raise);
    lemma_pow2_pos(134);
    lemma2_to64();
    let scale = pow2(raise) as int;
    let step = pow2(134) as int;
    assert(step == unit * scale);
    assert(exact == sig * scale) by (nonlinear_arith)
        requires
            exact == sig * scale || (exact == sig && scale == 1),
    ;
    let steps = sample.pcm_steps() as int;
    assert(2 * unit * steps <= 2 * sig + unit < 2 * unit * (steps + 1)) by (nonlinear_arith)
        requires
            steps == (2 * sig + unit) / (2 * unit),
            unit > 0,
    ;
    assert(2 * steps * step <= 2 * exact + step) by (nonlinear_arith)
        requires
            2 * unit * steps <= 2 * sig + unit,
            step == unit * scale,
            exact == sig * scale,
            scale > 0,
    ;
    assert(2 * exact + step < 2 * (steps + 1) * step) by (nonlinear_arith)
        requires
            2 * sig + unit < 2 * unit * (steps + 1),
            step == unit * scale,
            exact == sig * scale,
            scale > 0,
    ;
    lemma_pow2_adds(15, 134);
    assert(exact <= 32_768 * step);
    assert(steps <= 32_768) by (nonlinear_arith)
        requires
            2 * steps * step <= 2 * exact + step,
            exact <= 32_768 * step,
            step > 0,
    ;
    assert(steps >= 32_768 <==> 2 * exact >= 65_535 * step) by (nonlinear_arith)
        requires
            2 * steps * step <= 2 * exact + step,
            2 * exact + step < 2 * (steps + 1) * step,
            step > 0,
    ;
    assert(2 * (steps * step - exact) <= step && 2 * (exact - steps * step) < step)
        by (nonlinear_arith)
        requires
            2 * steps * step <= 2 * exact + step,
            2 * exact + step < 2 * (steps + 1) * step,
    ;
}

/// A PCM16 value becomes exactly its number of steps of 1/32768, with its sign.
pub proof fn values_become_their_steps(value: i16)
    ensures
        ({
            let sample = Sample::of_pcm16(value);
            let size = if value < 0 {
                -(value as int)
            } else {
                value as int
            };
            &&& absolute_value(sample.bits) == size * pow2(134)
            &&& sample.negative() == (value < 0)
        }),
{
    Sample::of_pcm16_properties(value);
    let sample = Sample::of_pcm16(value);
    parts_make_up_the_value(sample);
    bounds_are_bounds_of_the_value(sample);
    if value != 0 {
        let size: int = if value < 0 {
            -(value as int)
        } else {
            value as int
        };
        exponents_order_values(sample, 128);
        let shift = sample.pcm_shift();
        let raise = (sample.exponent() - 1) as nat;
        assert(sample.exponent() <= 127) by {
            exponents_order_values(sample, 127);
        }
        lemma_pow2_adds(shift, raise);
        assert((size * pow2(shift)) * pow2(raise) == size * (pow2(shift) * pow2(raise)))
            by (nonlinear_arith);
    }
}

/// The bit patterns from that of one half to that of two are those of the numbers from one half to
/// two.
pub proof fn bits_bound_halves_and_doubles(sample: Sample)
    ensures
        0x3f00_0000 <= sample.bits <= 0x4000_0000 <==> !sample.negative() && pow2(148)
            <= absolute_value(sample.bits) <= pow2(150),
{
    let bits = sample.bits;
    parts_make_up_the_value(sample);
    exponents_order_values(sample, 126);
    exponents_order_values(sample, 128);
    assert(0x3f00_0000 <= bits <= 0x4000_0000 <==> bits < 0x8000_0000 && (bits / 0x80_0000) % 256
        >= 126 && ((bits / 0x80_0000) % 256 < 128 || ((bits / 0x80_0000) % 256 == 128 && bits
        % 0x80_0000 == 0))) by (bit_vector);
}

}
