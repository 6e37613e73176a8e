use vstd::prelude::*;

use crate::error::NnError;

verus! {

/// ASCII whitespace, the blanks stripped from the ends of a data field.
pub open spec fn is_space(b: u8) -> bool {
    b == 32 || (9 <= b <= 13)
}

/// Index of the first non-blank byte (the length when there is none).
pub open spec fn first_nonspace(s: Seq<u8>) -> int
    decreases s.len(),
{
    if s.len() == 0 {
        0
    } else if !is_space(s[0]) {
        0
    } else {
        1 + first_nonspace(s.drop_first())
    }
}

/// One past the last non-blank byte (0 when there is none).
pub open spec fn last_nonspace_end(s: Seq<u8>) -> int
    decreases s.len(),
{
    if s.len() == 0 {
        0
    } else if !is_space(s.last()) {
        s.len() as int
    } else {
        last_nonspace_end(s.drop_last())
    }
}

/// The field with blanks stripped from both ends.
pub open spec fn trim_spec(s: Seq<u8>) -> Seq<u8> {
    if first_nonspace(s) >= last_nonspace_end(s) {
        Seq::empty()
    } else {
        s.subrange(first_nonspace(s), last_nonspace_end(s))
    }
}

/// A decimal comma rewritten as a decimal point; everything else kept.
pub open spec fn dot_for_comma(b: u8) -> u8 {
    if b == 44 {
        46u8
    } else {
        b
    }
}

/// A numeric field as handed to the number parser: trimmed at both ends,
/// with a decimal comma rewritten as a point.
pub open spec fn normalize_spec(s: Seq<u8>) -> Seq<u8> {
    trim_spec(s).map(|_i: int, b: u8| dot_for_comma(b))
}

proof fn lemma_first_nonspace_from_scan(s: Seq<u8>, k: int)
    requires
        0 <= k <= s.len(),
        forall|j: int| 0 <= j < k ==> is_space(#[trigger] s[j]),
        k < s.len() ==> !is_space(s[k]),
    ensures
        first_nonspace(s) == k,
    decreases s.len(),
{
    if s.len() > 0 {
        if k == 0 {
        } else {
            assert(is_space(s[0]));
            let t = s.drop_first();
            assert(forall|j: int| 0 <= j < k - 1 ==> #[trigger] t[j] == s[j + 1]);
            lemma_first_nonspace_from_scan(t, k - 1);
        }
    }
}

proof fn lemma_last_nonspace_end_from_scan(s: Seq<u8>, h: int)
    requires
        0 <= h <= s.len(),
        forall|j: int| h <= j < s.len() ==> is_space(#[trigger] s[j]),
        h > 0 ==> !is_space(s[h - 1]),
    ensures
        last_nonspace_end(s) == h,
    decreases s.len(),
{
    if s.len() > 0 {
        if h == s.len() {
        } else {
            assert(is_space(s.last()));
            let t = s.drop_last();
            assert(forall|j: int| 0 <= j < t.len() ==> #[trigger] t[j] == s[j]);
            lemma_last_nonspace_end_from_scan(t, h);
        }
    }
}

fn is_space_byte(b: u8) -> (r: bool)
    ensures
        r == is_space(b),
{
    b == 32 || (9 <= b && b <= 13)
}

/// Strips blanks from both ends of a field, as the trainer does before
/// parsing a number or a label from it.
pub fn trim_field(field: &Vec<u8>) -> (r: Vec<u8>)
    ensures
        r@ == trim_spec(field@),
{
    let n = field.len();
    let mut lo: usize = 0;
    while lo < n && is_space_byte(field[lo])
        invariant
            lo <= n,
            n as nat == field@.len(),
            forall|j: int| 0 <= j < lo ==> is_space(#[trigger] field@[j]),
        decreases n - lo,
    {
        lo += 1;
    }
    proof {
        lemma_first_nonspace_from_scan(field@, lo as int);
    }
    if lo == n {
        proof {
            lemma_last_nonspace_end_from_scan(field@, 0);
            assert(trim_spec(field@) =~= Seq::<u8>::empty());
        }
        return Vec::new();
    }
    let mut hi: usize = n;
    while hi > lo && is_space_byte(field[hi - 1])
        invariant
            lo <= hi <= n,
            n as nat == field@.len(),
            lo < n,
            !is_space(field@[lo as int]),
            forall|j: int| hi <= j < n ==> is_space(#[trigger] field@[j]),
        decreases hi,
    {
        hi -= 1;
    }
    proof {
        assert(hi > lo);
        assert(!is_space(field@[hi - 1]));
        lemma_last_nonspace_end_from_scan(field@, hi as int);
    }
    let mut out: Vec<u8> = Vec::new();
    let mut i: usize = lo;
    while i < hi
        invariant
            lo <= i <= hi <= n,
            n as nat == field@.len(),
            out@.len() == i - lo,
            forall|j: int| 0 <= j < out@.len() ==> #[trigger] out@[j] == field@[lo + j],
        decreases hi - i,
    {
        out.push(field[i]);
        i += 1;
    }
    proof {
        assert(out@ =~= field@.subrange(lo as int, hi as int));
    }
    out
}

/// Prepares a numeric field for parsing: strips blanks from both ends and
/// rewrites a decimal comma as a decimal point.
pub fn normalize_field(field: &Vec<u8>) -> (r: Vec<u8>)
    ensures
        r@ == normalize_spec(field@),
{
    let t = trim_field(field);
    let mut out: Vec<u8> = Vec::new();
    let mut i: usize = 0;
    while i < t.len()
        invariant
            i <= t@.len(),
            out@.len() == i as nat,
            forall|j: int| 0 <= j < out@.len() ==> #[trigger] out@[j] == dot_for_comma(t@[j]),
        decreases t@.len() - i,
    {
        let b = t[i];
        if b == 44 {
            out.push(46);
        } else {
            out.push(b);
        }
        i += 1;
    }
    proof {
        assert(out@ =~= t@.map(|_i: int, b: u8| dot_for_comma(b)));
    }
    out
}

/// An ASCII decimal digit.
pub open spec fn is_digit(b: u8) -> bool {
    48 <= b <= 57
}

/// Every byte is a digit.
pub open spec fn all_digits(s: Seq<u8>) -> bool {
    forall|i: int| 0 <= i < s.len() ==> is_digit(#[trigger] s[i])
}

/// The number a digit string denotes, most significant digit first.
pub open spec fn digits_val(s: Seq<u8>) -> int
    decreases s.len(),
{
    if s.len() == 0 {
        0
    } else {
        digits_val(s.drop_last()) * 10 + (s.last() - 48)
    }
}

/// The digit part of a label field: an optional leading `+` sign dropped.
pub open spec fn label_digits(s: Seq<u8>) -> Seq<u8> {
    if s.len() > 0 && s[0] == 43 {
        s.drop_first()
    } else {
        s
    }
}

/// A well-formed label: after the optional sign, one or more digits.
pub open spec fn is_valid_label(s: Seq<u8>) -> bool {
    label_digits(s).len() > 0 && all_digits(label_digits(s))
}

proof fn lemma_digits_val_nonneg(s: Seq<u8>)
    requires
        all_digits(s),
    ensures
        digits_val(s) >= 0,
    decreases s.len(),
{
    if s.len() > 0 {
        assert(all_digits(s.drop_last()));
        lemma_digits_val_nonneg(s.drop_last());
    }
}

proof fn lemma_digits_val_take_le(s: Seq<u8>, i: int)
    requires
        all_digits(s),
        0 <= i <= s.len(),
    ensures
        digits_val(s.take(i)) <= digits_val(s),
    decreases s.len() - i,
{
    if i < s.len() {
        assert(s.take(i + 1).drop_last() =~= s.take(i));
        assert(all_digits(s.take(i)));
        lemma_digits_val_nonneg(s.take(i));
        assert(digits_val(s.take(i + 1)) >= digits_val(s.take(i)));
        lemma_digits_val_take_le(s, i + 1);
    } else {
        assert(s.take(i) =~= s);
    }
}

/// Parses a class label from a trimmed field: an optional `+` sign
/// followed by one or more decimal digits, valued in machine range.
/// Returns nothing exactly when the field is malformed or the value does
/// not fit.
pub fn parse_label(field: &Vec<u8>) -> (r: Option<usize>)
    ensures
        r matches Some(v) ==> is_valid_label(field@) && v as int == digits_val(
            label_digits(field@),
        ),
        r is None ==> (!is_valid_label(field@) || digits_val(label_digits(field@))
            > usize::MAX as int),
{
    let ghost d = label_digits(field@);
    let start: usize = if field.len() > 0 && field[0] == 43 {
        1
    } else {
        0
    };
    proof {
        assert(d =~= field@.subrange(start as int, field@.len() as int));
    }
    if field.len() == start {
        return None;
    }
    let mut v: usize = 0;
    let mut i: usize = start;
    while i < field.len()
        invariant
            start <= i <= field@.len(),
            start <= 1,
            d == label_digits(field@),
            d =~= field@.subrange(start as int, field@.len() as int),
            all_digits(d.take(i - start)),
            v as int == digits_val(d.take(i - start)),
        decreases field@.len() - i,
    {
        let b = field[i];
        if b < 48 || b > 57 {
            proof {
                assert(d[i - start] == field@[i as int]);
                assert(!is_digit(d[i - start]));
            }
            return None;
        }
        let dv = (b - 48) as usize;
        proof {
            assert(d.take(i - start + 1).drop_last() =~= d.take(i - start));
            assert(d.take(i - start + 1).last() == field@[i as int]);
        }
        let w = match v.checked_mul(10) {
            Some(w) => w,
            None => {
                proof {
                    lemma_overflow_means_no_fit(d, i - start, v as int, dv as int);
                }
                return None;
            },
        };
        let nv = match w.checked_add(dv) {
            Some(nv) => nv,
            None => {
                proof {
                    lemma_overflow_means_no_fit(d, i - start, v as int, dv as int);
                }
                return None;
            },
        };
        v = nv;
        i += 1;
    }
    proof {
        assert(d.take(i - start) =~= d);
    }
    Some(v)
}

/// Parses the label column of data row `row` (1-based): the field is
/// trimmed, then read as an optionally signed decimal. A malformed or
/// out-of-range label is reported as a parse error carrying the row, with
/// column 0 marking the label position.
pub fn parse_label_field(field: &Vec<u8>, row: usize) -> (r: Result<usize, NnError>)
    ensures
        r is Ok <==> (is_valid_label(trim_spec(field@)) && digits_val(
            label_digits(trim_spec(field@)),
        ) <= usize::MAX as int),
        r matches Ok(v) ==> v as int == digits_val(label_digits(trim_spec(field@))),
        r matches Err(e) ==> e == (NnError::ParseError { row, col: 0 }),
{
    let trimmed = trim_field(field);
    match parse_label(&trimmed) {
        Some(v) => Ok(v),
        None => Err(NnError::ParseError { row, col: 0 }),
    }
}

/// When some prefix of the digit string already denotes more than the
/// machine can hold, so does the whole string (provided it is all digits).
proof fn lemma_overflow_means_no_fit(d: Seq<u8>, k: int, v: int, dv: int)
    requires
        0 <= k < d.len(),
        all_digits(d.take(k)),
        v == digits_val(d.take(k)),
        0 <= dv,
        d.take(k + 1).drop_last() =~= d.take(k),
        d.take(k + 1).last() - 48 == dv,
        v * 10 + dv > usize::MAX as int,
    ensures
        all_digits(d) ==> digits_val(d) > usize::MAX as int,
{
    if all_digits(d) {
        assert(digits_val(d.take(k + 1)) == v * 10 + dv);
        lemma_digits_val_take_le(d, k + 1);
    }
}

} // verus!
