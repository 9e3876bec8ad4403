//! The linear threshold unit: prediction and the one-sample update rule.

use vstd::prelude::*;
use crate::arith::{
    POS_ZERO_BITS, ONE_BITS, f64_add_bits, f64_sub_bits, f64_mul_bits, add_bits, sub_bits,
    mul_bits, spec_ge_zero_bits, ge_zero_bits,
};

verus! {

/// The typed failures of the model: each carries enough context to be told
/// apart programmatically.
#[derive(Debug, Clone, PartialEq, Eq)]
pub enum NeuronError {
    /// An input vector's length disagrees with the neuron's weight count.
    DimensionMismatch { input_len: usize, weight_count: usize },
    /// The expected-output vector handed to `evaluate` does not have
    /// exactly one element.
    LabelCardinalityError { expected_len: usize },
    /// Storage under the named identifier could not be opened, read or
    /// written.
    IoError { filename: String },
    /// Model state could not be turned into a byte buffer.
    EncodeError,
    /// A byte buffer does not conform to the persisted layout.
    DecodeError,
}

/// One linear threshold unit. Each field holds binary64 bit patterns: the
/// weight vector, the bias, and the learning rate, which is constant after
/// construction. The weight count is fixed for the neuron's lifetime.
#[derive(Debug, Clone, PartialEq)]
pub struct RosenblattNeuron {
    pub weights: Vec<u64>,
    pub bias: u64,
    pub learning_rate: u64,
}

/// Bit pattern of the running sum after folding the pairwise products of
/// the two sequences into `acc`, left to right.
pub open spec fn net_acc_bits(ws: Seq<u64>, xs: Seq<u64>, acc: u64) -> u64
    decreases ws.len(),
{
    if ws.len() == 0 {
        acc
    } else {
        net_acc_bits(ws.skip(1), xs.skip(1), f64_add_bits(acc, f64_mul_bits(ws[0], xs[0])))
    }
}

/// The net input: the pairwise products summed left to right starting from
/// +0.0, then the bias added.
pub open spec fn net_input_bits(ws: Seq<u64>, xs: Seq<u64>, bias: u64) -> u64 {
    f64_add_bits(net_acc_bits(ws, xs, POS_ZERO_BITS), bias)
}

/// Heaviside step on a binary64 bit pattern: the encoding of 1.0 when the
/// value is >= 0, else the encoding of 0.0.
pub open spec fn spec_heaviside(x: u64) -> u64 {
    if spec_ge_zero_bits(x) {
        ONE_BITS
    } else {
        POS_ZERO_BITS
    }
}

/// The activation the neuron predicts for an input of matching length.
pub open spec fn spec_prediction(ws: Seq<u64>, xs: Seq<u64>, bias: u64) -> u64 {
    spec_heaviside(net_input_bits(ws, xs, bias))
}

/// The error term of one update step: expected label minus predicted
/// activation.
pub open spec fn spec_error_term(ws: Seq<u64>, bias: u64, xs: Seq<u64>, expected: u64) -> u64 {
    f64_sub_bits(expected, spec_prediction(ws, xs, bias))
}

/// The weights after one update step: each weight moved by
/// (learning rate * error) * input, element-wise.
pub open spec fn spec_updated_weights(ws: Seq<u64>, xs: Seq<u64>, lr: u64, err: u64) -> Seq<u64> {
    Seq::new(ws.len(), |i: int| f64_add_bits(ws[i], f64_mul_bits(f64_mul_bits(lr, err), xs[i])))
}

/// Law: for every neuron state and input, the predicted activation is the
/// encoding of exactly 1.0 or exactly 0.0.
pub proof fn lemma_prediction_binary(ws: Seq<u64>, xs: Seq<u64>, bias: u64)
    ensures
        spec_prediction(ws, xs, bias) == ONE_BITS || spec_prediction(ws, xs, bias)
            == POS_ZERO_BITS,
{
}

impl RosenblattNeuron {
    pub fn new(weights: Vec<u64>, bias: u64, learning_rate: u64) -> (r: Self)
        ensures
            r.weights@ == weights@,
            r.bias == bias,
            r.learning_rate == learning_rate,
    {
        RosenblattNeuron { weights, bias, learning_rate }
    }

    /// The step activation, decided on the bit pattern of the net input.
    pub fn heaviside(x: u64) -> (r: u64)
        ensures
            r == spec_heaviside(x),
    {
        if ge_zero_bits(x) {
            ONE_BITS
        } else {
            POS_ZERO_BITS
        }
    }

    /// Computes the activation for `input`, or reports the two lengths when
    /// they disagree. Leaves the neuron untouched.
    pub fn internal_predict(&self, input: &Vec<u64>) -> (r: Result<u64, NeuronError>)
        ensures
            input@.len() == self.weights@.len() ==> r == Ok::<u64, NeuronError>(
                spec_prediction(self.weights@, input@, self.bias),
            ),
            input@.len() != self.weights@.len() ==> r == Err::<u64, NeuronError>(
                NeuronError::DimensionMismatch {
                    input_len: input@.len() as usize,
                    weight_count: self.weights@.len() as usize,
                },
            ),
    {
        if input.len() != self.weights.len() {
            return Err(NeuronError::DimensionMismatch {
                input_len: input.len(),
                weight_count: self.weights.len(),
            });
        }
        let ghost ws = self.weights@;
        let ghost xs = input@;
        let n = self.weights.len();
        let mut acc: u64 = POS_ZERO_BITS;
        let mut i: usize = 0;
        proof {
            assert(ws.skip(0) =~= ws);
            assert(xs.skip(0) =~= xs);
        }
        while i < n
            invariant
                i <= n,
                n == ws.len(),
                xs.len() == n,
                ws == self.weights@,
                xs == input@,
                net_acc_bits(ws, xs, POS_ZERO_BITS) == net_acc_bits(
                    ws.skip(i as int),
                    xs.skip(i as int),
                    acc,
                ),
            decreases n - i,
        {
            proof {
                assert(ws.skip(i as int).len() > 0);
                assert(ws.skip(i as int)[0] == ws[i as int]);
                assert(xs.skip(i as int)[0] == xs[i as int]);
                assert(ws.skip(i as int).skip(1) =~= ws.skip(i as int + 1));
                assert(xs.skip(i as int).skip(1) =~= xs.skip(i as int + 1));
            }
            acc = add_bits(acc, mul_bits(self.weights[i], input[i]));
            i += 1;
        }
        proof {
            assert(ws.skip(n as int).len() == 0);
        }
        Ok(Self::heaviside(add_bits(acc, self.bias)))
    }

    /// Predicts the activation for one sample, returned as a one-element
    /// vector, or reports the two lengths when they disagree.
    pub fn predict(&self, input: &Vec<u64>) -> (r: Result<Vec<u64>, NeuronError>)
        ensures
            input@.len() == self.weights@.len() ==> (r matches Ok(p) && p@ == seq![
                spec_prediction(self.weights@, input@, self.bias),
            ]),
            input@.len() != self.weights@.len() ==> r == Err::<Vec<u64>, NeuronError>(
                NeuronError::DimensionMismatch {
                    input_len: input@.len() as usize,
                    weight_count: self.weights@.len() as usize,
                },
            ),
    {
        match self.internal_predict(input) {
            Ok(prediction) => {
                let mut out: Vec<u64> = Vec::new();
                out.push(prediction);
                proof {
                    assert(out@ =~= seq![spec_prediction(self.weights@, input@, self.bias)]);
                }
                Ok(out)
            },
            Err(e) => Err(e),
        }
    }

    /// One online training step. Validation fully precedes mutation: a
    /// label-cardinality or dimension failure leaves the state unchanged;
    /// on success every weight and the bias move by the update rule, and
    /// the learning rate stays.
    pub fn evaluate(&mut self, input: Vec<u64>, expected_output: Vec<u64>) -> (r: Result<
        (),
        NeuronError,
    >)
        ensures
            expected_output@.len() != 1 ==> r == Err::<(), NeuronError>(
                NeuronError::LabelCardinalityError {
                    expected_len: expected_output@.len() as usize,
                },
            ) && *final(self) == *old(self),
            expected_output@.len() == 1 && input@.len() != old(self).weights@.len() ==> r
                == Err::<(), NeuronError>(NeuronError::DimensionMismatch {
                input_len: input@.len() as usize,
                weight_count: old(self).weights@.len() as usize,
            }) && *final(self) == *old(self),
            expected_output@.len() == 1 && input@.len() == old(self).weights@.len() ==> ({
                let err = spec_error_term(
                    old(self).weights@,
                    old(self).bias,
                    input@,
                    expected_output@[0],
                );
                &&& r == Ok::<(), NeuronError>(())
                &&& final(self).weights@ == spec_updated_weights(
                    old(self).weights@,
                    input@,
                    old(self).learning_rate,
                    err,
                )
                &&& final(self).bias == f64_add_bits(
                    old(self).bias,
                    f64_mul_bits(old(self).learning_rate, err),
                )
                &&& final(self).learning_rate == old(self).learning_rate
            }),
    {
        if expected_output.len() != 1 {
            return Err(NeuronError::LabelCardinalityError {
                expected_len: expected_output.len(),
            });
        }
        let prediction = match self.internal_predict(&input) {
            Ok(p) => p,
            Err(e) => {
                return Err(e);
            },
        };
        let expected = expected_output[0];
        let err = sub_bits(expected, prediction);
        let lr = self.learning_rate;
        let n = self.weights.len();
        let mut i: usize = 0;
        while i < n
            invariant
                i <= n,
                n == self.weights@.len(),
                input@.len() == n,
                self.bias == old(self).bias,
                self.learning_rate == old(self).learning_rate,
                lr == old(self).learning_rate,
                err == spec_error_term(
                    old(self).weights@,
                    old(self).bias,
                    input@,
                    expected_output@[0],
                ),
                forall|j: int|
                    0 <= j < i ==> self.weights@[j] == f64_add_bits(
                        old(self).weights@[j],
                        f64_mul_bits(f64_mul_bits(lr, err), input@[j]),
                    ),
                forall|j: int| i <= j < n ==> self.weights@[j] == old(self).weights@[j],
            decreases n - i,
        {
            let moved = add_bits(self.weights[i], mul_bits(mul_bits(lr, err), input[i]));
            self.weights.set(i, moved);
            i += 1;
        }
        self.bias = add_bits(self.bias, mul_bits(lr, err));
        proof {
            assert(self.weights@ =~= spec_updated_weights(
                old(self).weights@,
                input@,
                old(self).learning_rate,
                spec_error_term(old(self).weights@, old(self).bias, input@, expected_output@[0]),
            ));
        }
        Ok(())
    }
}

} // verus!
