use vstd::prelude::*;

use crate::error::NnError;

verus! {

/// A rectangular matrix of opaque 64-bit scalar codes.
///
/// The trainer's weight matrices, activations and targets are all matrices
/// of real numbers; the library stores each entry as an opaque code chosen
/// by the caller (in practice the IEEE-754 bit pattern of the value). The
/// library never computes with a code; the evaluator compares codes, so a
/// caller that scores predictions must pick an encoding on which `<=` of
/// codes agrees with `<=` of the encoded values — true of the bit patterns
/// of non-negative finite values.
#[derive(Debug, Clone)]
pub struct Matrix {
    rows_data: Vec<Vec<u64>>,
    n_cols: usize,
}

impl View for Matrix {
    type V = Seq<Seq<u64>>;

    closed spec fn view(&self) -> Seq<Seq<u64>> {
        Seq::new(self.rows_data@.len(), |i: int| self.rows_data@[i]@)
    }
}

impl Matrix {
    /// The common length of every row.
    pub closed spec fn spec_cols(&self) -> usize {
        self.n_cols
    }

    /// Rectangularity: every row has exactly `spec_cols` entries.
    pub open spec fn wf(&self) -> bool {
        forall|i: int|
            0 <= i < self@.len() ==> (#[trigger] self@[i]).len() == self.spec_cols() as nat
    }

    /// Builds a matrix from row data, rejecting anything that is not a
    /// `n_rows` by `n_cols` rectangle.
    pub fn new(data: Vec<Vec<u64>>, n_rows: usize, n_cols: usize) -> (r: Result<Matrix, NnError>)
        ensures
            r is Ok <==> (data@.len() == n_rows && forall|i: int|
                0 <= i < data@.len() ==> (#[trigger] data@[i]@).len() == n_cols as nat),
            r matches Ok(m) ==> {
                &&& m.wf()
                &&& m@.len() == n_rows as nat
                &&& m.spec_cols() == n_cols
                &&& m@ == Seq::new(data@.len(), |i: int| data@[i]@)
            },
            r matches Err(e) ==> {
                ||| (data@.len() != n_rows && e == (NnError::ShapeMismatch {
                    expected: n_rows,
                    found: data@.len() as usize,
                }))
                ||| (data@.len() == n_rows && exists|i: int|
                    0 <= i < data@.len() && (#[trigger] data@[i]@).len() != n_cols && e == (
                    NnError::ShapeMismatch { expected: n_cols, found: data@[i]@.len() as usize }))
            },
    {
        if data.len() != n_rows {
            return Err(NnError::ShapeMismatch { expected: n_rows, found: data.len() });
        }
        let mut i: usize = 0;
        while i < data.len()
            invariant
                i <= data@.len(),
                data@.len() == n_rows as nat,
                forall|k: int| 0 <= k < i ==> (#[trigger] data@[k]@).len() == n_cols as nat,
            decreases data@.len() - i,
        {
            let rl = data[i].len();
            if rl != n_cols {
                proof {
                    assert(data@[i as int]@.len() == rl as nat);
                    assert(exists|k: int|
                        0 <= k < data@.len() && (#[trigger] data@[k]@).len() != n_cols && (
                        NnError::ShapeMismatch { expected: n_cols, found: rl }) == (
                        NnError::ShapeMismatch {
                            expected: n_cols,
                            found: data@[k]@.len() as usize,
                        })) by {
                        assert(0 <= (i as int) < data@.len() && data@[i as int]@.len() != n_cols
                            && data@[i as int]@.len() as usize == rl);
                    }
                }
                return Err(NnError::ShapeMismatch { expected: n_cols, found: rl });
            }
            i += 1;
        }
        let m = Matrix { rows_data: data, n_cols };
        proof {
            assert(m@ =~= Seq::new(data@.len(), |i: int| data@[i]@));
        }
        Ok(m)
    }

    /// Number of rows.
    pub fn rows(&self) -> (r: usize)
        ensures
            r as nat == self@.len(),
    {
        self.rows_data.len()
    }

    /// Number of columns.
    pub fn cols(&self) -> (r: usize)
        ensures
            r == self.spec_cols(),
    {
        self.n_cols
    }

    /// Borrows row `i`.
    pub fn row_at(&self, i: usize) -> (r: &Vec<u64>)
        requires
            i < self@.len(),
        ensures
            r@ == self@[i as int],
    {
        &self.rows_data[i]
    }
}

} // verus!
