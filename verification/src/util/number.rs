//! Numbers as the user reads them.

use crate::util::list::{first_index, lemma_first_index_is};
use crate::util::str::{chars_of, string_of};
use vstd::prelude::*;

verus! {

/// Whether a character is the decimal point.
pub open spec fn is_point() -> spec_fn(char) -> bool {
    |c: char| c == '.'
}

/// Whether a comma stands before the digit at position `i` of `n` digits:
/// before every digit but the first whose distance to the end is a multiple
/// of three.
pub open spec fn comma_before(n: int, i: int) -> bool {
    i > 0 && (n - i) % 3 == 0
}

/// The first `k` of the digits, with their commas.
pub open spec fn grouped_prefix(digits: Seq<char>, k: int) -> Seq<char>
    decreases k,
{
    if k <= 0 {
        Seq::empty()
    } else {
        grouped_prefix(digits, k - 1) + (if comma_before(digits.len() as int, k - 1) {
            seq![',']
        } else {
            Seq::empty()
        }) + seq![digits[k - 1]]
    }
}

/// The digits in groups of three, counted from the right, with a comma
/// between the groups.
pub open spec fn grouped(digits: Seq<char>) -> Seq<char> {
    grouped_prefix(digits, digits.len() as int)
}

/// A number with commas between the groups of three digits before its
/// decimal point. What stands from the first point on stays as it is.
pub open spec fn spec_format_number_with_commas(number: Seq<char>) -> Seq<char> {
    let point = first_index(number, is_point());
    grouped(number.take(point)) + number.skip(point)
}

/// Writes a number with commas between the groups of three digits: `1234.12`
/// becomes `1,234.12`. Only what stands before the first decimal point is
/// grouped, and no character of it is looked at: the grouping goes by
/// position alone.
pub fn format_number_with_commas(number_str: &str) -> (r: String)
    ensures
        r@ == spec_format_number_with_commas(number_str@),
{
    let chars = chars_of(number_str);
    let n = chars.len();
    let mut point: usize = 0;
    while point < n && chars[point] != '.'
        invariant
            point <= n,
            n == chars.len(),
            forall|k: int| 0 <= k < point ==> chars@[k] != '.',
        decreases n - point,
    {
        point = point + 1;
    }
    proof {
        lemma_first_index_is(chars@, is_point(), point as int);
    }
    let ghost digits = chars@.take(point as int);
    let mut chs: Vec<char> = Vec::new();
    let mut i: usize = 0;
    while i < point
        invariant
            i <= point <= n,
            n == chars.len(),
            digits == chars@.take(point as int),
            chs@ == grouped_prefix(digits, i as int),
        decreases point - i,
    {
        if i > 0 && (point - i) % 3 == 0 {
            chs.push(',');
        }
        chs.push(chars[i]);
        i = i + 1;
        assert(chs@ =~= grouped_prefix(digits, i as int));
    }
    while i < n
        invariant
            point <= i <= n,
            n == chars.len(),
            chs@ == grouped(digits) + chars@.subrange(point as int, i as int),
        decreases n - i,
    {
        chs.push(chars[i]);
        i = i + 1;
        assert(chs@ =~= grouped(digits) + chars@.subrange(point as int, i as int));
    }
    assert(chars@.subrange(point as int, n as int) =~= chars@.skip(point as int));
    string_of(&chs)
}

} // verus!
