//! Random construction of a neuron, and the persisted byte layout.

use vstd::prelude::*;
use vstd::bytes::{
    spec_u64_to_le_bytes, spec_u64_from_le_bytes, u64_to_le_bytes, u64_from_le_bytes,
    lemma_auto_spec_u64_to_from_le_bytes,
};
use vstd::slice::slice_subrange;
use crate::arith::spec_weight_in_range;
use crate::neuron::{NeuronError, RosenblattNeuron};

verus! {

/// Bit pattern of the binary64 value 0.5, the default learning rate of a
/// freshly built neuron.
pub const LEARNING_RATE_DEFAULT_BITS: u64 = 0x3FE0_0000_0000_0000;

/// The largest grid index of a fresh weight's magnitude: a drawn magnitude
/// is m / 2^54 for a near-uniform m with 0 <= m <= this constant, whose own
/// quotient is exactly the binary64 value 0.3.
pub const WEIGHT_GRID_MAX: u64 = 0x0013_3333_3333_3333;

/// Relies on rand::random: a fresh draw from the process's thread-local
/// generator. Nothing is assumed of the value. The call aborts if the
/// operating system's randomness source fails while that generator is
/// created or reseeded; that depends on the environment alone, never on an
/// input.
pub assume_specification<T>[ rand::random::<T> ]() -> (r: T)
    where
        rand::distributions::Standard: rand::distributions::Distribution<T>,
;

/// The index of the leading one of `m`, searched downward from `h`: the
/// largest position at or below `h` holding a set bit of `m`, or zero when
/// there is none.
pub open spec fn spec_msb_from(m: u64, h: u64) -> u64
    decreases h,
{
    if m >> h != 0 {
        h
    } else if h == 0 {
        0
    } else {
        spec_msb_from(m, (h - 1) as u64)
    }
}

/// The packed binary64 pattern of the grid value sign * m / 2^54: zero when
/// m is zero, else the sign bit, the biased exponent 969 + h for the index
/// h of m's leading one, and the bits of m below that leading one shifted
/// to the top of the fraction field.
pub open spec fn spec_grid_bits(sign: u64, m: u64) -> u64 {
    if m == 0 {
        0
    } else {
        let h = spec_msb_from(m, 52);
        (sign << 63) | ((((969 + h) as u64) << 52) | ((m ^ (1u64 << h)) << ((52 - h) as u64)))
    }
}

/// Whether a bit pattern is one of the grid points that fresh weights are
/// drawn from.
pub open spec fn spec_is_drawn_weight(w: u64) -> bool {
    exists|sign: u64, m: u64|
        sign <= 1 && m <= WEIGHT_GRID_MAX && w == #[trigger] spec_grid_bits(sign, m)
}

/// The packed binary64 pattern with the given sign for a magnitude m / 2^54
/// whose leading one sits at bit h lies within [-0.3, 0.3].
proof fn lemma_grid_bits_in_range(sign: u64, h: u64, m: u64)
    requires
        sign <= 1,
        h <= 52,
        1 <= m <= 0x0013_3333_3333_3333,
        m >> h != 0,
        m >> (h + 1) == 0,
    ensures
        spec_weight_in_range((sign << 63) | ((((969 + h) as u64) << 52) | ((m ^ (1u64 << h)) << ((52 - h) as u64)))),
{
    assert(((sign << 63) | ((((969 + h) as u64) << 52) | ((m ^ (1u64 << h)) << ((52 - h) as u64))))
        & 0x7FFF_FFFF_FFFF_FFFF <= 0x3FD3_3333_3333_3333) by (bit_vector)
        requires
            sign <= 1,
            h <= 52,
            1 <= m <= 0x0013_3333_3333_3333,
            m >> h != 0,
            m >> ((h + 1) as u64) == 0,
    ;
}

/// Turns a grid index into the bit pattern of the binary64 value
/// sign * m / 2^54. Every index up to `WEIGHT_GRID_MAX` is exactly
/// representable, and the result lies within [-0.3, 0.3].
fn weight_bits_of_grid(sign: u64, m: u64) -> (r: u64)
    requires
        sign <= 1,
        m <= WEIGHT_GRID_MAX,
    ensures
        r == spec_grid_bits(sign, m),
        spec_weight_in_range(r),
{
    if m == 0 {
        // Zero keeps a clear sign bit.
        proof {
            assert(0u64 & 0x7FFF_FFFF_FFFF_FFFF == 0) by (bit_vector);
        }
        return 0;
    }
    let mut h: u64 = 52;
    proof {
        assert(m <= 0x0013_3333_3333_3333 ==> m >> 53 == 0) by (bit_vector);
    }
    while m >> h == 0
        invariant
            h <= 52,
            1 <= m <= WEIGHT_GRID_MAX,
            m >> ((h + 1) as u64) == 0,
            spec_msb_from(m, 52) == spec_msb_from(m, h),
        decreases h,
    {
        proof {
            assert(m >> 0 == m) by (bit_vector);
        }
        h = h - 1;
    }
    let mantissa: u64 = (m ^ (1u64 << h)) << (52 - h);
    let exponent: u64 = 969 + h;
    let bits: u64 = (sign << 63) | ((exponent << 52) | mantissa);
    proof {
        lemma_grid_bits_in_range(sign, h, m);
    }
    bits
}

/// Draws a fresh weight: a dyadic value m / 2^54 in the closed interval
/// [-0.3, 0.3], whose endpoints are the binary64 value 0.3 and its
/// negation. The grid index m is the residue of a 63-bit draw, so the grid
/// points are approximately, not exactly, equally likely.
fn random_weight_bits() -> (r: u64)
    ensures
        spec_weight_in_range(r),
        spec_is_drawn_weight(r),
{
    let raw: u64 = rand::random::<u64>();
    let sign: u64 = raw & 1;
    let m: u64 = (raw >> 1) % (WEIGHT_GRID_MAX + 1);
    proof {
        assert(raw & 1 <= 1) by (bit_vector);
    }
    let w = weight_bits_of_grid(sign, m);
    proof {
        assert(sign <= 1 && m <= WEIGHT_GRID_MAX && w == spec_grid_bits(sign, m));
    }
    w
}

/// Builds neurons with randomized, bounded weights, and encodes and decodes
/// model state. `size` is the weight count of a built neuron and `bias` its
/// starting bias.
pub struct RosenblattNeuronSerializer {
    pub size: u32,
    pub bias: u64,
}

impl RosenblattNeuronSerializer {
    pub fn new(size: u32, bias: u64) -> (r: Self)
        ensures
            r.size == size,
            r.bias == bias,
    {
        RosenblattNeuronSerializer { size, bias }
    }

    /// Builds a neuron with `size` independently drawn weights, each within
    /// the closed interval [-0.3, 0.3]; the bias is passed through and the
    /// learning rate is the default 0.5.
    pub fn build(&self) -> (r: RosenblattNeuron)
        ensures
            r.weights@.len() == self.size as nat,
            forall|j: int|
                0 <= j < r.weights@.len() ==> spec_weight_in_range(#[trigger] r.weights@[j]),
            forall|j: int|
                0 <= j < r.weights@.len() ==> spec_is_drawn_weight(#[trigger] r.weights@[j]),
            r.bias == self.bias,
            r.learning_rate == LEARNING_RATE_DEFAULT_BITS,
    {
        self.build_with_learning_rate(LEARNING_RATE_DEFAULT_BITS)
    }

    /// Builds a neuron as `build` does, with the given learning rate in
    /// place of the default.
    pub fn build_with_learning_rate(&self, learning_rate: u64) -> (r: RosenblattNeuron)
        ensures
            r.weights@.len() == self.size as nat,
            forall|j: int|
                0 <= j < r.weights@.len() ==> spec_weight_in_range(#[trigger] r.weights@[j]),
            forall|j: int|
                0 <= j < r.weights@.len() ==> spec_is_drawn_weight(#[trigger] r.weights@[j]),
            r.bias == self.bias,
            r.learning_rate == learning_rate,
    {
        let mut weights: Vec<u64> = Vec::new();
        let mut i: u32 = 0;
        while i < self.size
            invariant
                i <= self.size,
                weights@.len() == i as nat,
                forall|j: int|
                    0 <= j < weights@.len() ==> spec_weight_in_range(#[trigger] weights@[j]),
                forall|j: int|
                    0 <= j < weights@.len() ==> spec_is_drawn_weight(#[trigger] weights@[j]),
            decreases self.size - i,
        {
            let w = random_weight_bits();
            weights.push(w);
            i += 1;
        }
        RosenblattNeuron::new(weights, self.bias, learning_rate)
    }

    /// Encodes the model into the persisted layout: the weight count as an
    /// eight-byte little-endian integer, then each weight, the bias and the
    /// learning rate as eight little-endian bytes each.
    pub fn encode(&self, model: &RosenblattNeuron) -> (r: Vec<u8>)
        ensures
            r@ == spec_encode(model.weights@, model.bias, model.learning_rate),
    {
        let ghost ws = model.weights@;
        let n = model.weights.len();
        let mut out: Vec<u8> = u64_to_le_bytes(n as u64);
        let mut i: usize = 0;
        proof {
            assert(ws.take(0) =~= Seq::<u64>::empty());
        }
        while i < n
            invariant
                i <= n,
                n == ws.len(),
                ws == model.weights@,
                out@ == spec_u64_to_le_bytes(n as u64) + spec_weights_bytes(ws.take(i as int)),
            decreases n - i,
        {
            let mut wb = u64_to_le_bytes(model.weights[i]);
            out.append(&mut wb);
            proof {
                lemma_weights_bytes_take_snoc(ws, i as int);
                assert(out@ =~= spec_u64_to_le_bytes(n as u64) + spec_weights_bytes(
                    ws.take(i as int + 1),
                ));
            }
            i += 1;
        }
        let mut bb = u64_to_le_bytes(model.bias);
        out.append(&mut bb);
        let mut lb = u64_to_le_bytes(model.learning_rate);
        out.append(&mut lb);
        proof {
            assert(ws.take(n as int) =~= ws);
            assert(out@ =~= spec_encode(model.weights@, model.bias, model.learning_rate));
        }
        out
    }

    /// Decodes a persisted buffer back into a model. A buffer shorter than
    /// the fixed fields, a trailing remainder, or a weight count that
    /// disagrees with the buffer's length is refused as `DecodeError`.
    pub fn decode(&self, bytes: &Vec<u8>) -> (r: Result<RosenblattNeuron, NeuronError>)
        ensures
            (match spec_decode(bytes@) {
                Some(t) => r matches Ok(m) && m.weights@ == t.0 && m.bias == t.1
                    && m.learning_rate == t.2,
                None => r == Err::<RosenblattNeuron, NeuronError>(NeuronError::DecodeError),
            }),
    {
        let len = bytes.len();
        if len < 24 {
            return Err(NeuronError::DecodeError);
        }
        let body = len - 24;
        if body % 8 != 0 {
            return Err(NeuronError::DecodeError);
        }
        let n = body / 8;
        let prefix = u64_from_le_bytes(slice_subrange(bytes.as_slice(), 0, 8));
        proof {
            assert(bytes@.subrange(0, 8) =~= bytes@.take(8));
        }
        if prefix != n as u64 {
            return Err(NeuronError::DecodeError);
        }
        let mut weights: Vec<u64> = Vec::new();
        let mut i: usize = 0;
        while i < n
            invariant
                i <= n,
                len == bytes@.len(),
                24 <= len,
                body == len - 24,
                body % 8 == 0,
                n == body / 8,
                body == 8 * n,
                weights@.len() == i as nat,
                forall|j: int|
                    0 <= j < i ==> weights@[j] == spec_u64_from_le_bytes(
                        #[trigger] bytes@.subrange(8 + 8 * j, 16 + 8 * j),
                    ),
            decreases n - i,
        {
            let w = u64_from_le_bytes(slice_subrange(bytes.as_slice(), 8 + 8 * i, 16 + 8 * i));
            weights.push(w);
            i += 1;
        }
        let bias = u64_from_le_bytes(slice_subrange(bytes.as_slice(), len - 16, len - 8));
        let lr = u64_from_le_bytes(slice_subrange(bytes.as_slice(), len - 8, len));
        proof {
            assert(weights@ =~= Seq::new(
                n as nat,
                |j: int| spec_u64_from_le_bytes(bytes@.subrange(8 + 8 * j, 16 + 8 * j)),
            ));
        }
        Ok(RosenblattNeuron::new(weights, bias, lr))
    }
}

/// Byte encoding of a weight sequence: each element as eight little-endian
/// bytes, in order.
pub open spec fn spec_weights_bytes(ws: Seq<u64>) -> Seq<u8>
    decreases ws.len(),
{
    if ws.len() == 0 {
        Seq::empty()
    } else {
        spec_u64_to_le_bytes(ws[0]) + spec_weights_bytes(ws.skip(1))
    }
}

/// The persisted form of a model: weight count, weights, bias, learning
/// rate.
pub open spec fn spec_encode(ws: Seq<u64>, bias: u64, lr: u64) -> Seq<u8> {
    spec_u64_to_le_bytes(ws.len() as u64) + spec_weights_bytes(ws) + spec_u64_to_le_bytes(bias)
        + spec_u64_to_le_bytes(lr)
}

/// What a persisted buffer decodes to: the weight sequence, the bias and
/// the learning rate, or nothing when the buffer is shorter than the fixed
/// fields, its weight block is not a whole number of eight-byte words, or
/// its count prefix disagrees with its length.
pub open spec fn spec_decode(s: Seq<u8>) -> Option<(Seq<u64>, u64, u64)> {
    if s.len() < 24 {
        None
    } else if (s.len() - 24) % 8 != 0 {
        None
    } else if spec_u64_from_le_bytes(s.take(8)) != (((s.len() - 24) / 8) as u64) {
        None
    } else {
        Some(
            (
                Seq::new(
                    ((s.len() - 24) / 8) as nat,
                    |i: int| spec_u64_from_le_bytes(s.subrange(8 + 8 * i, 16 + 8 * i)),
                ),
                spec_u64_from_le_bytes(s.subrange(s.len() - 16, s.len() - 8)),
                spec_u64_from_le_bytes(s.subrange(s.len() - 8, s.len() as int)),
            ),
        )
    }
}

/// The weight block is eight bytes per weight.
pub proof fn lemma_weights_bytes_len(ws: Seq<u64>)
    ensures
        spec_weights_bytes(ws).len() == 8 * ws.len(),
    decreases ws.len(),
{
    lemma_auto_spec_u64_to_from_le_bytes();
    if ws.len() > 0 {
        lemma_weights_bytes_len(ws.skip(1));
    }
}

/// Extending a weight sequence by one element appends that element's eight
/// bytes to its block.
pub proof fn lemma_weights_bytes_snoc(ws: Seq<u64>)
    requires
        ws.len() > 0,
    ensures
        spec_weights_bytes(ws) == spec_weights_bytes(ws.drop_last()) + spec_u64_to_le_bytes(
            ws.last(),
        ),
    decreases ws.len(),
{
    lemma_auto_spec_u64_to_from_le_bytes();
    lemma_weights_bytes_len(ws);
    lemma_weights_bytes_len(ws.drop_last());
    if ws.len() == 1 {
        assert(ws.skip(1) =~= Seq::<u64>::empty());
        assert(ws.drop_last() =~= Seq::<u64>::empty());
        assert(spec_weights_bytes(ws) =~= spec_weights_bytes(ws.drop_last())
            + spec_u64_to_le_bytes(ws.last()));
    } else {
        lemma_weights_bytes_snoc(ws.skip(1));
        assert(ws.skip(1).drop_last() =~= ws.drop_last().skip(1));
        assert(ws.skip(1).last() == ws.last());
        assert(ws.drop_last()[0] == ws[0]);
        assert(spec_weights_bytes(ws) =~= spec_weights_bytes(ws.drop_last())
            + spec_u64_to_le_bytes(ws.last()));
    }
}

/// The block of one more taken element is the old block plus that element's
/// bytes.
pub proof fn lemma_weights_bytes_take_snoc(ws: Seq<u64>, i: int)
    requires
        0 <= i < ws.len(),
    ensures
        spec_weights_bytes(ws.take(i + 1)) == spec_weights_bytes(ws.take(i))
            + spec_u64_to_le_bytes(ws[i]),
{
    lemma_weights_bytes_snoc(ws.take(i + 1));
    assert(ws.take(i + 1).drop_last() =~= ws.take(i));
    assert(ws.take(i + 1).last() == ws[i]);
}

/// Each weight's eight bytes sit at their offset within the block.
pub proof fn lemma_weights_bytes_index(ws: Seq<u64>, i: int)
    requires
        0 <= i < ws.len(),
    ensures
        spec_weights_bytes(ws).subrange(8 * i, 8 * i + 8) == spec_u64_to_le_bytes(ws[i]),
    decreases i,
{
    lemma_auto_spec_u64_to_from_le_bytes();
    lemma_weights_bytes_len(ws);
    lemma_weights_bytes_len(ws.skip(1));
    if i == 0 {
        assert(spec_weights_bytes(ws).subrange(0, 8) =~= spec_u64_to_le_bytes(ws[0]));
    } else {
        lemma_weights_bytes_index(ws.skip(1), i - 1);
        assert(ws.skip(1)[i - 1] == ws[i]);
        assert(spec_weights_bytes(ws).subrange(8 * i, 8 * i + 8) =~= spec_weights_bytes(
            ws.skip(1),
        ).subrange(8 * (i - 1), 8 * (i - 1) + 8));
    }
}

/// Law: decoding an encoding restores the weight sequence, the bias and the
/// learning rate exactly, bit for bit.
pub proof fn lemma_encode_decode_round_trip(ws: Seq<u64>, bias: u64, lr: u64)
    requires
        ws.len() <= u64::MAX,
    ensures
        spec_decode(spec_encode(ws, bias, lr)) == Some((ws, bias, lr)),
{
    lemma_auto_spec_u64_to_from_le_bytes();
    lemma_weights_bytes_len(ws);
    let s = spec_encode(ws, bias, lr);
    assert(s.len() == 24 + 8 * ws.len());
    assert((8 * ws.len()) % 8 == 0) by (nonlinear_arith);
    assert((s.len() - 24) / 8 == ws.len());
    assert(s.take(8) =~= spec_u64_to_le_bytes(ws.len() as u64));
    let decoded = Seq::new(
        ws.len(),
        |i: int| spec_u64_from_le_bytes(s.subrange(8 + 8 * i, 16 + 8 * i)),
    );
    assert forall|i: int| 0 <= i < ws.len() implies decoded[i] == ws[i] by {
        lemma_weights_bytes_index(ws, i);
        assert(s.subrange(8 + 8 * i, 16 + 8 * i) =~= spec_weights_bytes(ws).subrange(
            8 * i,
            8 * i + 8,
        ));
    }
    assert(decoded =~= ws);
    assert(s.subrange(s.len() - 16, s.len() - 8) =~= spec_u64_to_le_bytes(bias));
    assert(s.subrange(s.len() - 8, s.len() as int) =~= spec_u64_to_le_bytes(lr));
}

} // verus!

