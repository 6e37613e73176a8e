use vstd::prelude::*;

use crate::error::NnError;
use crate::matrix::Matrix;

verus! {

/// The network's parameter state: the two weight matrices, the three
/// dimensions they must fit, and the learning-rate scalar code.
///
/// `w1` maps inputs to the hidden layer (`input_size` by `hidden_size`),
/// `w2` maps the hidden layer to the outputs (`hidden_size` by
/// `output_size`). The entries are opaque scalar codes (see [`Matrix`]);
/// the caller performs the numeric forward and backward kernels and hands
/// the freshly computed weights back through [`Network::apply_update`],
/// which re-checks their shapes.
#[derive(Debug, Clone)]
pub struct Network {
    pub w1: Matrix,
    pub w2: Matrix,
    pub input_size: usize,
    pub hidden_size: usize,
    pub output_size: usize,
    pub learning_rate_code: u64,
}

impl Network {
    /// Dimensions positive, and both weight matrices shaped to them.
    pub open spec fn wf(&self) -> bool {
        &&& self.input_size > 0
        &&& self.hidden_size > 0
        &&& self.output_size > 0
        &&& self.w1.wf()
        &&& self.w2.wf()
        &&& self.w1@.len() == self.input_size as nat
        &&& self.w1.spec_cols() == self.hidden_size
        &&& self.w2@.len() == self.hidden_size as nat
        &&& self.w2.spec_cols() == self.output_size
    }

    /// Builds a network from its dimensions and initial weights.
    ///
    /// Fails with `ConstructionError` exactly when a dimension is zero, and
    /// otherwise with `ShapeMismatch` exactly when a weight matrix does not
    /// have the requested shape; on success the network holds the given
    /// weights unchanged.
    pub fn new(
        input_size: usize,
        hidden_size: usize,
        output_size: usize,
        learning_rate_code: u64,
        w1: Matrix,
        w2: Matrix,
    ) -> (r: Result<Network, NnError>)
        requires
            w1.wf(),
            w2.wf(),
        ensures
            r == (Err::<Network, NnError>(NnError::ConstructionError)) <==> (input_size == 0
                || hidden_size == 0 || output_size == 0),
            r is Ok <==> {
                &&& input_size > 0
                &&& hidden_size > 0
                &&& output_size > 0
                &&& w1@.len() == input_size as nat
                &&& w1.spec_cols() == hidden_size
                &&& w2@.len() == hidden_size as nat
                &&& w2.spec_cols() == output_size
            },
            r matches Ok(n) ==> {
                &&& n.wf()
                &&& n.w1 == w1
                &&& n.w2 == w2
                &&& n.input_size == input_size
                &&& n.hidden_size == hidden_size
                &&& n.output_size == output_size
                &&& n.learning_rate_code == learning_rate_code
            },
            (input_size > 0 && hidden_size > 0 && output_size > 0 && w1@.len() != input_size
                as nat) ==> r == (Err::<Network, NnError>(NnError::ShapeMismatch {
                expected: input_size,
                found: w1@.len() as usize,
            })),
            (input_size > 0 && hidden_size > 0 && output_size > 0 && w1@.len() == input_size
                as nat && w1.spec_cols() != hidden_size) ==> r == (Err::<Network, NnError>(
                NnError::ShapeMismatch { expected: hidden_size, found: w1.spec_cols() },
            )),
            (input_size > 0 && hidden_size > 0 && output_size > 0 && w1@.len() == input_size
                as nat && w1.spec_cols() == hidden_size && w2@.len() != hidden_size as nat) ==> r
                == (Err::<Network, NnError>(NnError::ShapeMismatch {
                expected: hidden_size,
                found: w2@.len() as usize,
            })),
            (input_size > 0 && hidden_size > 0 && output_size > 0 && w1@.len() == input_size
                as nat && w1.spec_cols() == hidden_size && w2@.len() == hidden_size as nat
                && w2.spec_cols() != output_size) ==> r == (Err::<Network, NnError>(
                NnError::ShapeMismatch { expected: output_size, found: w2.spec_cols() },
            )),
    {
        if input_size == 0 || hidden_size == 0 || output_size == 0 {
            return Err(NnError::ConstructionError);
        }
        if w1.rows() != input_size {
            return Err(NnError::ShapeMismatch { expected: input_size, found: w1.rows() });
        }
        if w1.cols() != hidden_size {
            return Err(NnError::ShapeMismatch { expected: hidden_size, found: w1.cols() });
        }
        if w2.rows() != hidden_size {
            return Err(NnError::ShapeMismatch { expected: hidden_size, found: w2.rows() });
        }
        if w2.cols() != output_size {
            return Err(NnError::ShapeMismatch { expected: output_size, found: w2.cols() });
        }
        Ok(Network { w1, w2, input_size, hidden_size, output_size, learning_rate_code })
    }

    /// Checks that an input batch can be multiplied against `w1`: its
    /// feature count (column count) must equal `input_size`. Returns
    /// `ShapeMismatch` exactly on disagreement; row count is free.
    pub fn check_input(&self, x: &Matrix) -> (r: Result<(), NnError>)
        ensures
            r is Ok <==> x.spec_cols() == self.input_size,
            r matches Err(e) ==> e == (NnError::ShapeMismatch {
                expected: self.input_size,
                found: x.spec_cols(),
            }),
    {
        if x.cols() != self.input_size {
            return Err(NnError::ShapeMismatch { expected: self.input_size, found: x.cols() });
        }
        Ok(())
    }

    /// Checks that a target batch matches an input batch and the output
    /// layer: `y` must have as many rows as `x` and `output_size` columns.
    pub fn check_targets(&self, x: &Matrix, y: &Matrix) -> (r: Result<(), NnError>)
        ensures
            r is Ok <==> (y@.len() == x@.len() && y.spec_cols() == self.output_size),
            y@.len() != x@.len() ==> r == (Err::<(), NnError>(NnError::ShapeMismatch {
                expected: x@.len() as usize,
                found: y@.len() as usize,
            })),
            (y@.len() == x@.len() && y.spec_cols() != self.output_size) ==> r == (Err::<
                (),
                NnError,
            >(NnError::ShapeMismatch { expected: self.output_size, found: y.spec_cols() })),
    {
        if y.rows() != x.rows() {
            return Err(NnError::ShapeMismatch { expected: x.rows(), found: y.rows() });
        }
        if y.cols() != self.output_size {
            return Err(NnError::ShapeMismatch { expected: self.output_size, found: y.cols() });
        }
        Ok(())
    }

    /// Replaces both weight matrices with freshly computed ones, exactly
    /// when they have the shapes the network was constructed with; on any
    /// mismatch the network is left unchanged and the mismatch reported.
    pub fn apply_update(&mut self, w1: Matrix, w2: Matrix) -> (r: Result<(), NnError>)
        requires
            old(self).wf(),
            w1.wf(),
            w2.wf(),
        ensures
            r is Ok <==> {
                &&& w1@.len() == old(self).input_size as nat
                &&& w1.spec_cols() == old(self).hidden_size
                &&& w2@.len() == old(self).hidden_size as nat
                &&& w2.spec_cols() == old(self).output_size
            },
            r is Ok ==> {
                &&& final(self).w1 == w1
                &&& final(self).w2 == w2
                &&& final(self).wf()
            },
            r matches Err(e) ==> (*final(self) == *old(self) && e matches
                NnError::ShapeMismatch { expected, found }),
            w1@.len() != old(self).input_size as nat ==> r == (Err::<(), NnError>(
                NnError::ShapeMismatch {
                    expected: old(self).input_size,
                    found: w1@.len() as usize,
                },
            )),
            (w1@.len() == old(self).input_size as nat && w1.spec_cols() != old(
                self,
            ).hidden_size) ==> r == (Err::<(), NnError>(NnError::ShapeMismatch {
                expected: old(self).hidden_size,
                found: w1.spec_cols(),
            })),
            (w1@.len() == old(self).input_size as nat && w1.spec_cols() == old(self).hidden_size
                && w2@.len() != old(self).hidden_size as nat) ==> r == (Err::<(), NnError>(
                NnError::ShapeMismatch {
                    expected: old(self).hidden_size,
                    found: w2@.len() as usize,
                },
            )),
            (w1@.len() == old(self).input_size as nat && w1.spec_cols() == old(self).hidden_size
                && w2@.len() == old(self).hidden_size as nat && w2.spec_cols() != old(
                self,
            ).output_size) ==> r == (Err::<(), NnError>(NnError::ShapeMismatch {
                expected: old(self).output_size,
                found: w2.spec_cols(),
            })),
            final(self).input_size == old(self).input_size,
            final(self).hidden_size == old(self).hidden_size,
            final(self).output_size == old(self).output_size,
            final(self).learning_rate_code == old(self).learning_rate_code,
    {
        if w1.rows() != self.input_size {
            return Err(NnError::ShapeMismatch { expected: self.input_size, found: w1.rows() });
        }
        if w1.cols() != self.hidden_size {
            return Err(NnError::ShapeMismatch { expected: self.hidden_size, found: w1.cols() });
        }
        if w2.rows() != self.hidden_size {
            return Err(NnError::ShapeMismatch { expected: self.hidden_size, found: w2.rows() });
        }
        if w2.cols() != self.output_size {
            return Err(NnError::ShapeMismatch { expected: self.output_size, found: w2.cols() });
        }
        self.w1 = w1;
        self.w2 = w2;
        Ok(())
    }
}

} // verus!
