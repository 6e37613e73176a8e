use vstd::prelude::*;

use crate::error::NnError;
use crate::matrix::Matrix;

verus! {

/// Index of the maximum entry of a non-empty row, the last one on ties —
/// the tie the trainer's evaluator breaks the same way.
pub open spec fn argmax_spec(s: Seq<u64>) -> int
    recommends
        s.len() > 0,
    decreases s.len(),
{
    if s.len() <= 1 {
        0
    } else if s.last() >= s[argmax_spec(s.drop_last())] {
        s.len() - 1
    } else {
        argmax_spec(s.drop_last())
    }
}

/// `argmax_spec` names an in-range index that carries the row's maximum and
/// strictly dominates everything after it.
pub proof fn lemma_argmax_spec_props(s: Seq<u64>)
    requires
        s.len() > 0,
    ensures
        0 <= argmax_spec(s) < s.len(),
        forall|j: int| 0 <= j < s.len() ==> #[trigger] s[j] <= s[argmax_spec(s)],
        forall|j: int| argmax_spec(s) < j < s.len() ==> #[trigger] s[j] < s[argmax_spec(s)],
    decreases s.len(),
{
    if s.len() > 1 {
        lemma_argmax_spec_props(s.drop_last());
        let m = argmax_spec(s.drop_last());
        assert(forall|j: int| 0 <= j < s.len() - 1 ==> s[j] == s.drop_last()[j]);
        assert(s.last() == s[s.len() - 1]);
    }
}

/// A row's predicted class: the argmax index, or nothing for an empty row.
pub open spec fn class_of(s: Seq<u64>) -> Option<int> {
    if s.len() == 0 {
        None
    } else {
        Some(argmax_spec(s))
    }
}

/// Whether a prediction row and a target row name the same class.
pub open spec fn rows_match(p: Seq<u64>, t: Seq<u64>) -> bool {
    class_of(p) == class_of(t)
}

/// How many corresponding rows of two equally long batches name the same
/// class.
pub open spec fn match_count(p: Seq<Seq<u64>>, t: Seq<Seq<u64>>) -> int
    recommends
        p.len() == t.len(),
    decreases p.len(),
{
    if p.len() == 0 {
        0
    } else {
        match_count(p.drop_last(), t.drop_last()) + if rows_match(p.last(), t.last()) {
            1int
        } else {
            0int
        }
    }
}

/// At most every row can be scored as correct: the match count lies between
/// 0 and the row count, so an accuracy reported as `100 * correct / total`
/// always lies within [0, 100].
pub proof fn lemma_match_count_bounds(p: Seq<Seq<u64>>, t: Seq<Seq<u64>>)
    ensures
        0 <= match_count(p, t) <= p.len(),
    decreases p.len(),
{
    if p.len() > 0 {
        lemma_match_count_bounds(p.drop_last(), t.drop_last());
    }
}

/// The evaluator reads the true class of a one-hot row as the position of
/// its maximum: for any row holding one copy of a larger code at the label
/// position and a smaller code everywhere else, the argmax is exactly the
/// label position.
pub proof fn lemma_one_hot_argmax(s: Seq<u64>, l: int, one: u64, zero: u64)
    requires
        zero < one,
        0 <= l < s.len(),
        forall|j: int| 0 <= j < s.len() ==> #[trigger] s[j] == (
            if j == l {
                one
            } else {
                zero
            }),
    ensures
        argmax_spec(s) == l,
    decreases s.len(),
{
    if s.len() > 1 {
        let t = s.drop_last();
        lemma_argmax_spec_props(t);
        if l == s.len() - 1 {
            assert(s[argmax_spec(t)] == zero);
        } else {
            lemma_one_hot_argmax(t, l, one, zero);
            assert(s.last() == zero && s[l] == one);
        }
    }
}

/// Index of the maximum entry of `row`, the last such index on ties;
/// nothing when the row is empty.
pub fn argmax(row: &Vec<u64>) -> (r: Option<usize>)
    ensures
        r matches Some(i) ==> {
            &&& row@.len() > 0
            &&& i as int == argmax_spec(row@)
            &&& i < row@.len()
            &&& forall|j: int| 0 <= j < row@.len() ==> row@[j] <= row@[i as int]
            &&& forall|j: int| i < j < row@.len() ==> row@[j] < row@[i as int]
        },
        r is None <==> row@.len() == 0,
{
    if row.len() == 0 {
        return None;
    }
    let ghost full = row@;
    let mut best: usize = 0;
    let mut i: usize = 1;
    proof {
        assert(full.take(1).len() == 1);
        assert(argmax_spec(full.take(1)) == 0);
    }
    while i < row.len()
        invariant
            1 <= i <= full.len(),
            best < i,
            full == row@,
            best as int == argmax_spec(full.take(i as int)),
        decreases full.len() - i,
    {
        proof {
            assert(full.take(i + 1).drop_last() =~= full.take(i as int));
            assert(full.take(i + 1).last() == full[i as int]);
            assert(full.take(i + 1)[best as int] == full[best as int]);
        }
        if row[i] >= row[best] {
            best = i;
        }
        i += 1;
    }
    proof {
        assert(full.take(full.len() as int) =~= full);
        lemma_argmax_spec_props(full);
    }
    Some(best)
}

/// Scores a prediction batch against a target batch: exactly when the two
/// have the same shape, returns `(correct, total)` where `total` is the
/// number of rows and `correct` the number whose predicted class (argmax of
/// the prediction row) equals the true class (argmax of the target row);
/// otherwise reports the shape disagreement.
pub fn score(pred: &Matrix, target: &Matrix) -> (r: Result<(usize, usize), NnError>)
    ensures
        r is Ok <==> (pred@.len() == target@.len() && pred.spec_cols() == target.spec_cols()),
        r matches Ok(ct) ==> {
            &&& ct.1 as nat == pred@.len()
            &&& ct.0 as int == match_count(pred@, target@)
            &&& ct.0 <= ct.1
        },
        pred@.len() != target@.len() ==> r == (Err::<(usize, usize), NnError>(
            NnError::ShapeMismatch {
                expected: pred@.len() as usize,
                found: target@.len() as usize,
            },
        )),
        (pred@.len() == target@.len() && pred.spec_cols() != target.spec_cols()) ==> r == (Err::<
            (usize, usize),
            NnError,
        >(NnError::ShapeMismatch { expected: pred.spec_cols(), found: target.spec_cols() })),
{
    if pred.rows() != target.rows() {
        return Err(NnError::ShapeMismatch { expected: pred.rows(), found: target.rows() });
    }
    if pred.cols() != target.cols() {
        return Err(NnError::ShapeMismatch { expected: pred.cols(), found: target.cols() });
    }
    let n = pred.rows();
    let mut correct: usize = 0;
    let mut i: usize = 0;
    while i < n
        invariant
            i <= n,
            n as nat == pred@.len(),
            pred@.len() == target@.len(),
            correct <= i,
            correct as int == match_count(pred@.take(i as int), target@.take(i as int)),
        decreases n - i,
    {
        let p_class = argmax(pred.row_at(i));
        let t_class = argmax(target.row_at(i));
        let matched = match (p_class, t_class) {
            (Some(a), Some(b)) => a == b,
            (None, None) => true,
            _ => false,
        };
        proof {
            assert(pred@.take(i + 1).drop_last() =~= pred@.take(i as int));
            assert(target@.take(i + 1).drop_last() =~= target@.take(i as int));
            assert(pred@.take(i + 1).last() == pred@[i as int]);
            assert(target@.take(i + 1).last() == target@[i as int]);
        }
        if matched {
            correct += 1;
        }
        i += 1;
    }
    proof {
        assert(pred@.take(n as int) =~= pred@);
        assert(target@.take(n as int) =~= target@);
    }
    Ok((correct, n))
}

} // verus!
