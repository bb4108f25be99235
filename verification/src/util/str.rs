//! Text helpers shared by the whole crate.

use vstd::prelude::*;
use vstd::string::StringSliceAdditionalSpecFns;
use vstd::utf8::{decode_utf8, encode_utf8_decode_utf8};

verus! {

/// Lower-case form of a text, as `str::to_lowercase` computes it.
pub uninterp spec fn lowercase(s: Seq<char>) -> Seq<char>;

/// `str::to_lowercase` of std.
#[verifier::external_body]
pub(crate) fn to_lowercase(s: &str) -> (r: String)
    ensures
        r@ == lowercase(s@),
{
    s.to_lowercase()
}

/// A text without its leading and trailing white space, as `str::trim`
/// computes it.
pub uninterp spec fn trimmed(s: Seq<char>) -> Seq<char>;

/// `str::trim` of std.
#[verifier::external_body]
pub(crate) fn trim(s: &str) -> (r: &str)
    ensures
        r@ == trimmed(s@),
{
    s.trim()
}

/// `String::from_iter` of std on characters: the string that holds exactly
/// the characters of `v`, in order.
#[verifier::external_body]
pub(crate) fn string_of(v: &Vec<char>) -> (s: String)
    ensures
        s@ == v@,
{
    String::from_iter(v.iter())
}

/// The characters of `s`, in order.
pub(crate) fn chars_of(s: &str) -> (v: Vec<char>)
    ensures
        v@ == s@,
{
    let mut v: Vec<char> = Vec::new();
    for c in it: s.chars()
        invariant
            it.seq() == s@,
            v@ == it.seq().take(it.index()),
    {
        v.push(c);
    }
    v
}

/// The characters `from..to` of `v` as a fresh vector.
pub(crate) fn slice_chars(v: &Vec<char>, from: usize, to: usize) -> (r: Vec<char>)
    requires
        from <= to <= v.len(),
    ensures
        r@ == v@.subrange(from as int, to as int),
{
    let mut r: Vec<char> = Vec::new();
    let mut i: usize = from;
    while i < to
        invariant
            from <= i <= to <= v.len(),
            r@ == v@.subrange(from as int, i as int),
        decreases to - i,
    {
        r.push(v[i]);
        i = i + 1;
    }
    r
}

/// Whether two string slices hold the same characters.
pub(crate) fn str_eq(a: &str, b: &str) -> (r: bool)
    ensures
        r == (a@ == b@),
{
    let x = a.as_bytes();
    let y = b.as_bytes();
    proof {
        encode_utf8_decode_utf8(a@);
        encode_utf8_decode_utf8(b@);
    }
    if x.len() != y.len() {
        return false;
    }
    let mut i: usize = 0;
    while i < x.len()
        invariant
            i <= x.len(),
            x.len() == y.len(),
            x@ == a.spec_bytes(),
            y@ == b.spec_bytes(),
            decode_utf8(a.spec_bytes()) == a@,
            decode_utf8(b.spec_bytes()) == b@,
            forall|k: int| 0 <= k < i ==> x@[k] == y@[k],
        decreases x.len() - i,
    {
        if x[i] != y[i] {
            return false;
        }
        i = i + 1;
    }
    assert(x@ =~= y@);
    true
}

/// Whether one text comes before another in the order of std's strings:
/// the first character in which they differ decides, by its code point, and
/// a text comes before every longer text that begins with it.
pub open spec fn lex_lt(a: Seq<char>, b: Seq<char>) -> bool
    decreases a.len(),
{
    if b.len() == 0 {
        false
    } else if a.len() == 0 {
        true
    } else if a[0] == b[0] {
        lex_lt(a.drop_first(), b.drop_first())
    } else {
        (a[0] as u32) < (b[0] as u32)
    }
}

/// No text comes before itself.
pub proof fn lemma_lex_lt_irreflexive(a: Seq<char>)
    ensures
        !lex_lt(a, a),
    decreases a.len(),
{
    if a.len() > 0 {
        lemma_lex_lt_irreflexive(a.drop_first());
    }
}

/// What comes before a text comes before everything that the text comes
/// before.
pub proof fn lemma_lex_lt_transitive(a: Seq<char>, b: Seq<char>, c: Seq<char>)
    requires
        lex_lt(a, b),
        lex_lt(b, c),
    ensures
        lex_lt(a, c),
    decreases a.len(),
{
    if a.len() > 0 && a[0] == b[0] && b[0] == c[0] {
        lemma_lex_lt_transitive(a.drop_first(), b.drop_first(), c.drop_first());
    }
}

/// The order of the texts from a position on decides, where they agree up
/// to that position.
proof fn lemma_lex_lt_step(a: Seq<char>, b: Seq<char>, i: int)
    requires
        0 <= i < a.len(),
        i < b.len(),
        a[i] == b[i],
    ensures
        lex_lt(a.skip(i), b.skip(i)) == lex_lt(a.skip(i + 1), b.skip(i + 1)),
{
    assert(a.skip(i).drop_first() =~= a.skip(i + 1));
    assert(b.skip(i).drop_first() =~= b.skip(i + 1));
}

/// Whether one text comes before another in the order of their characters'
/// code points, the first difference deciding. This is the order of std's
/// strings.
pub(crate) fn str_lt(a: &str, b: &str) -> (r: bool)
    ensures
        r == lex_lt(a@, b@),
{
    let x = chars_of(a);
    let y = chars_of(b);
    let mut i: usize = 0;
    proof {
        assert(x@.skip(0) =~= x@);
        assert(y@.skip(0) =~= y@);
    }
    while i < x.len() && i < y.len()
        invariant
            i <= x.len(),
            i <= y.len(),
            x@ == a@,
            y@ == b@,
            lex_lt(x@, y@) == lex_lt(x@.skip(i as int), y@.skip(i as int)),
        decreases x.len() - i,
    {
        if x[i] != y[i] {
            proof {
                assert(x@.skip(i as int)[0] == x@[i as int]);
                assert(y@.skip(i as int)[0] == y@[i as int]);
            }
            return (x[i] as u32) < (y[i] as u32);
        }
        proof {
            lemma_lex_lt_step(x@, y@, i as int);
        }
        i = i + 1;
    }
    i < y.len()
}

/// Whether `part` stands in `text` at position `i`.
pub open spec fn stands(text: Seq<char>, part: Seq<char>, i: int) -> bool {
    0 <= i && i + part.len() <= text.len() && text.subrange(i, i + part.len()) == part
}

/// Whether a text holds another text somewhere in it.
pub open spec fn holds(text: Seq<char>, part: Seq<char>) -> bool {
    exists|i: int| stands(text, part, i)
}

/// Whether `part` stands in `text` at position `i`.
fn stands_at(text: &Vec<char>, part: &Vec<char>, i: usize) -> (r: bool)
    requires
        i + part.len() <= text.len(),
    ensures
        r == stands(text@, part@, i as int),
{
    let mut k: usize = 0;
    while k < part.len()
        invariant
            k <= part.len(),
            i + part.len() <= text.len(),
            forall|j: int| 0 <= j < k ==> text@[i + j] == part@[j],
        decreases part.len() - k,
    {
        if text[i + k] != part[k] {
            assert(text@.subrange(i as int, i + part.len())[k as int] != part@[k as int]);
            return false;
        }
        k = k + 1;
    }
    assert(text@.subrange(i as int, i + part.len()) =~= part@);
    true
}

/// Whether a text holds another text somewhere in it.
pub(crate) fn str_contains(text: &str, part: &str) -> (r: bool)
    ensures
        r == holds(text@, part@),
{
    let t = chars_of(text);
    let p = chars_of(part);
    if p.len() > t.len() {
        return false;
    }
    let last = t.len() - p.len();
    let mut i: usize = 0;
    loop
        invariant
            i <= last,
            last == t.len() - p.len(),
            p.len() <= t.len(),
            t@ == text@,
            p@ == part@,
            forall|j: int| 0 <= j < i ==> !stands(t@, p@, j),
        decreases last - i,
    {
        if stands_at(&t, &p, i) {
            return true;
        }
        if i == last {
            return false;
        }
        i = i + 1;
    }
}

/// The ten decimal digits.
pub open spec fn digit(d: int) -> char {
    seq!['0', '1', '2', '3', '4', '5', '6', '7', '8', '9'][d]
}

/// Decimal notation of a number, without sign or padding.
pub open spec fn decimal(n: nat) -> Seq<char>
    decreases n,
{
    if n < 10 {
        seq![digit(n as int)]
    } else {
        decimal(n / 10).push(digit((n % 10) as int))
    }
}

/// The character of a decimal digit.
fn digit_char(d: u64) -> (c: char)
    requires
        d < 10,
    ensures
        c == digit(d as int),
{
    if d == 0 {
        '0'
    } else if d == 1 {
        '1'
    } else if d == 2 {
        '2'
    } else if d == 3 {
        '3'
    } else if d == 4 {
        '4'
    } else if d == 5 {
        '5'
    } else if d == 6 {
        '6'
    } else if d == 7 {
        '7'
    } else if d == 8 {
        '8'
    } else {
        '9'
    }
}

/// The decimal notation of `n`.
pub(crate) fn u64_to_string(n: u64) -> (r: String)
    ensures
        r@ == decimal(n as nat),
{
    // The digits behind the first one, the last of them first.
    let mut behind: Vec<char> = Vec::new();
    let mut m = n;
    while m >= 10
        invariant
            decimal(n as nat) == decimal(m as nat) + behind@.reverse(),
        decreases m,
    {
        let d = digit_char(m % 10);
        proof {
            assert(behind@.push(d).reverse() =~= seq![d] + behind@.reverse());
            assert(decimal(m as nat) == decimal((m / 10) as nat).push(d));
            assert(decimal((m / 10) as nat).push(d) + behind@.reverse() =~= decimal(
                (m / 10) as nat,
            ) + (seq![d] + behind@.reverse()));
        }
        behind.push(d);
        m = m / 10;
    }
    let mut digits: Vec<char> = Vec::new();
    digits.push(digit_char(m));
    let mut k: usize = behind.len();
    while k > 0
        invariant
            k <= behind.len(),
            digits@ == decimal(m as nat) + behind@.reverse().take(behind.len() - k),
        decreases k,
    {
        k = k - 1;
        digits.push(behind[k]);
        assert(digits@ =~= decimal(m as nat) + behind@.reverse().take(behind.len() - k));
    }
    assert(behind@.reverse().take(behind.len() as int) =~= behind@.reverse());
    string_of(&digits)
}

/// Number of pieces that `len` characters fall into when cut every `length`
/// characters, the last piece possibly shorter.
pub open spec fn part_count(len: nat, length: nat) -> nat {
    if length == 0 {
        0
    } else {
        ((len + length - 1) / length as int) as nat
    }
}

/// The `i`-th piece of `s` cut every `length` characters.
pub open spec fn part_at(s: Seq<char>, length: nat, i: int) -> Seq<char> {
    let start = i * length;
    let end = if start + length <= s.len() { start + length } else { s.len() as int };
    s.subrange(start, end)
}

/// Cuts `input` into consecutive pieces of `length` characters; the last
/// piece holds what is left. An empty input gives no piece.
pub fn split_string_to_fixed_length_parts(input: &str, length: usize) -> (parts: Vec<String>)
    requires
        length > 0,
    ensures
        parts@.len() == part_count(input@.len(), length as nat),
        forall|i: int| 0 <= i < parts@.len() ==> #[trigger] parts@[i]@ == part_at(input@, length as nat, i),
{
    let chars = chars_of(input);
    let n = chars.len();
    let mut parts: Vec<String> = Vec::new();
    let mut start: usize = 0;
    proof {
        let len = length as int;
        assert(0 * len == 0) by (nonlinear_arith);
        assert((len - 1) / len == 0) by (nonlinear_arith)
            requires
                len > 0,
        ;
    }
    while start < n
        invariant
            length > 0,
            n == chars@.len(),
            chars@ == input@,
            start <= n,
            start < n ==> start == parts@.len() * length,
            start == n ==> parts@.len() == part_count(n as nat, length as nat),
            forall|i: int| 0 <= i < parts@.len() ==> #[trigger] parts@[i]@ == part_at(input@, length as nat, i),
        decreases n - start,
    {
        let end = if n - start >= length { start + length } else { n };
        let piece = slice_chars(&chars, start, end);
        let s = string_of(&piece);
        proof {
            let k = parts@.len() as int;
            let len = length as int;
            if end == n {
                assert((n + len - 1) / len == k + 1) by (nonlinear_arith)
                    requires
                        k * len < n <= k * len + len,
                        len > 0,
                ;
            } else {
                assert((k + 1) * len == k * len + len) by (nonlinear_arith);
            }
        }
        parts.push(s);
        start = end;
    }
    parts
}

/// The unit letters of a size in bytes.
pub open spec fn size_unit(size: u64) -> Seq<char> {
    if size < 1024 {
        seq!['B']
    } else if size < 1024 * 1024 {
        seq!['K']
    } else if size < 1024 * 1024 * 1024 {
        seq!['M']
    } else {
        seq!['G']
    }
}

/// The whole number of units in a size in bytes.
pub open spec fn size_number(size: u64) -> nat {
    if size < 1024 {
        size as nat
    } else if size < 1024 * 1024 {
        (size as nat) / 1024
    } else if size < 1024 * 1024 * 1024 {
        (size as nat) / 1048576
    } else {
        (size as nat) / 1073741824
    }
}

/// A size in bytes as a whole number of the largest unit that it reaches:
/// `B`, `K`, `M` or `G`, each 1024 times the one before.
pub fn pretty_size_string(size: u64) -> (r: String)
    ensures
        r@ == decimal(size_number(size)) + size_unit(size),
{
    let (number, unit): (u64, &str) = if size < 1024 {
        (size, "B")
    } else if size < 1024 * 1024 {
        (size / 1024, "K")
    } else if size < 1024 * 1024 * 1024 {
        (size / (1024 * 1024), "M")
    } else {
        (size / (1024 * 1024 * 1024), "G")
    };
    proof {
        reveal_strlit("B");
        reveal_strlit("K");
        reveal_strlit("M");
        reveal_strlit("G");
        assert(unit@ =~= size_unit(size));
    }
    let mut r = u64_to_string(number);
    r.append(unit);
    r
}

} // verus!
