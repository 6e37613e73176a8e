use vstd::prelude::*;

verus! {

/// Largest label in the batch, 0 when there is none — the value the class
/// count is derived from (one class per label value up to the maximum).
pub fn max_label(labels: &Vec<usize>) -> (r: usize)
    ensures
        forall|i: int| 0 <= i < labels@.len() ==> #[trigger] labels@[i] <= r,
        labels@.len() == 0 ==> r == 0,
        labels@.len() > 0 ==> exists|i: int| 0 <= i < labels@.len() && #[trigger] labels@[i]
            == r,
{
    let mut best: usize = 0;
    let mut i: usize = 0;
    while i < labels.len()
        invariant
            i <= labels@.len(),
            forall|k: int| 0 <= k < i ==> #[trigger] labels@[k] <= best,
            i == 0 ==> best == 0,
            i > 0 ==> exists|k: int| 0 <= k < i && #[trigger] labels@[k] == best,
        decreases labels@.len() - i,
    {
        if labels[i] > best || i == 0 {
            best = labels[i];
        }
        i += 1;
    }
    best
}

/// Number of target classes a label batch spans: one more than the largest
/// label (1 for an empty batch, whose largest label counts as 0). Nothing
/// exactly when that count does not fit the machine, that is when some
/// label is the largest machine value.
pub fn class_count(labels: &Vec<usize>) -> (r: Option<usize>)
    ensures
        r matches Some(c) ==> {
            &&& c > 0
            &&& forall|i: int| 0 <= i < labels@.len() ==> #[trigger] labels@[i] < c
            &&& labels@.len() == 0 ==> c == 1
            &&& labels@.len() > 0 ==> exists|i: int|
                0 <= i < labels@.len() && #[trigger] labels@[i] + 1 == c
        },
        r is None <==> exists|i: int|
            0 <= i < labels@.len() && #[trigger] labels@[i] == usize::MAX,
{
    let m = max_label(labels);
    if m == usize::MAX {
        proof {
            assert(labels@.len() > 0);
        }
        None
    } else {
        Some(m + 1)
    }
}

/// One-hot encodes a label batch: row `i` has a single 1 in column
/// `labels[i]` and 0 everywhere else, over `num_classes` columns.
pub fn one_hot(labels: &Vec<usize>, num_classes: usize) -> (r: Vec<Vec<u8>>)
    requires
        forall|i: int| 0 <= i < labels@.len() ==> #[trigger] labels@[i] < num_classes,
    ensures
        r@.len() == labels@.len(),
        forall|i: int| 0 <= i < r@.len() ==> (#[trigger] r@[i]@).len() == num_classes as nat,
        forall|i: int, j: int|
            0 <= i < r@.len() && 0 <= j < num_classes ==> #[trigger] r@[i]@[j] == (
            if j == labels@[i] as int {
                1u8
            } else {
                0u8
            }),
{
    let mut rows: Vec<Vec<u8>> = Vec::new();
    let mut i: usize = 0;
    while i < labels.len()
        invariant
            i <= labels@.len(),
            rows@.len() == i as nat,
            forall|k: int| 0 <= k < i ==> (#[trigger] rows@[k]@).len() == num_classes as nat,
            forall|k: int, j: int|
                0 <= k < i && 0 <= j < num_classes ==> #[trigger] rows@[k]@[j] == (
                if j == labels@[k] as int {
                    1u8
                } else {
                    0u8
                }),
        decreases labels@.len() - i,
    {
        let label = labels[i];
        let mut row: Vec<u8> = Vec::new();
        let mut j: usize = 0;
        while j < num_classes
            invariant
                j <= num_classes,
                row@.len() == j as nat,
                forall|c: int| 0 <= c < j ==> #[trigger] row@[c] == (
                    if c == label as int {
                        1u8
                    } else {
                        0u8
                    }),
            decreases num_classes - j,
        {
            if j == label {
                row.push(1);
            } else {
                row.push(0);
            }
            j += 1;
        }
        rows.push(row);
        i += 1;
    }
    rows
}

/// Sum of a row of 0/1 indicator entries.
pub open spec fn row_sum(s: Seq<u8>) -> int
    decreases s.len(),
{
    if s.len() == 0 {
        0
    } else {
        row_sum(s.drop_last()) + s.last()
    }
}

proof fn lemma_row_sum_zeros(s: Seq<u8>)
    requires
        forall|j: int| 0 <= j < s.len() ==> #[trigger] s[j] == 0u8,
    ensures
        row_sum(s) == 0,
    decreases s.len(),
{
    if s.len() > 0 {
        lemma_row_sum_zeros(s.drop_last());
    }
}

/// Every one-hot row sums to exactly 1: a row whose single 1 stands at the
/// label position and whose other entries are 0 has total weight 1.
pub proof fn lemma_one_hot_row_sum(s: Seq<u8>, l: int)
    requires
        0 <= l < s.len(),
        forall|j: int| 0 <= j < s.len() ==> #[trigger] s[j] == (
            if j == l {
                1u8
            } else {
                0u8
            }),
    ensures
        row_sum(s) == 1,
    decreases s.len(),
{
    let t = s.drop_last();
    if l == s.len() - 1 {
        lemma_row_sum_zeros(t);
    } else {
        lemma_one_hot_row_sum(t, l);
    }
}

} // verus!
