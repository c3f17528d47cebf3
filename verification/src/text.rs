//! Character-level text operations.
//!
//! Every operation has a specification over `Seq<char>` and an executable
//! counterpart that works on a `Vec<char>` and half-open index ranges, so that
//! the callers can cut a text into pieces without copying it.

use vstd::prelude::*;

verus! {

/// Whether `c` has the Unicode property `White_Space`.
pub open spec fn is_whitespace(c: char) -> bool {
    let u = c as u32;
    ||| 0x09 <= u <= 0x0D
    ||| u == 0x20
    ||| u == 0x85
    ||| u == 0xA0
    ||| u == 0x1680
    ||| 0x2000 <= u <= 0x200A
    ||| u == 0x2028
    ||| u == 0x2029
    ||| u == 0x202F
    ||| u == 0x205F
    ||| u == 0x3000
}

/// `s` without its leading whitespace.
pub open spec fn trim_start(s: Seq<char>) -> Seq<char>
    decreases s.len(),
{
    if s.len() > 0 && is_whitespace(s[0]) {
        trim_start(s.drop_first())
    } else {
        s
    }
}

/// `s` without its trailing whitespace.
pub open spec fn trim_end(s: Seq<char>) -> Seq<char>
    decreases s.len(),
{
    if s.len() > 0 && is_whitespace(s.last()) {
        trim_end(s.drop_last())
    } else {
        s
    }
}

/// `s` without its leading and trailing whitespace.
pub open spec fn trim(s: Seq<char>) -> Seq<char> {
    trim_end(trim_start(s))
}

/// The pieces of `s` between the occurrences of the separators `a` and `b`,
/// in order. There is one piece more than there are separators; a piece may be
/// empty.
pub open spec fn split_either(s: Seq<char>, a: char, b: char) -> Seq<Seq<char>>
    decreases s.len(),
{
    if s.len() == 0 {
        seq![Seq::<char>::empty()]
    } else {
        let init = split_either(s.drop_last(), a, b);
        if s.last() == a || s.last() == b {
            init.push(Seq::<char>::empty())
        } else {
            init.update(init.len() - 1, init.last().push(s.last()))
        }
    }
}

/// The pieces of `s` between the occurrences of `sep`, in order. There is one
/// piece more than there are separators; a piece may be empty.
pub open spec fn split(s: Seq<char>, sep: char) -> Seq<Seq<char>> {
    split_either(s, sep, sep)
}

/// The position of the first `c` in `s`, or the length of `s` where there is
/// none.
pub open spec fn find(s: Seq<char>, c: char) -> int
    decreases s.len(),
{
    if s.len() == 0 {
        0
    } else if s[0] == c {
        0
    } else {
        1 + find(s.drop_first(), c)
    }
}

/// Whether `c` occurs in `s`.
pub open spec fn has_char(s: Seq<char>, c: char) -> bool {
    exists|i: int| 0 <= i < s.len() && s[i] == c
}

/// Whether `s` begins with `prefix`.
pub open spec fn starts_with(s: Seq<char>, prefix: Seq<char>) -> bool {
    prefix.len() <= s.len() && s.take(prefix.len() as int) == prefix
}

/// The decimal digit `d` as a character.
pub open spec fn digit(d: int) -> char
    recommends
        0 <= d <= 9,
{
    ((0x30 + d) as u32) as char
}

/// The decimal digits of `n`, most significant first, without padding.
pub open spec fn decimal(n: nat) -> Seq<char>
    decreases n,
{
    if n < 10 {
        seq![digit(n as int)]
    } else {
        decimal(n / 10).push(digit((n % 10) as int))
    }
}

/// `s` with as many zeros before it as it lacks characters to `width`.
pub open spec fn zero_padded(s: Seq<char>, width: nat) -> Seq<char> {
    if s.len() >= width {
        s
    } else {
        Seq::new((width - s.len()) as nat, |i: int| '0') + s
    }
}

/// The decimal digits of `n`, with zeros before them up to `width` digits.
pub open spec fn padded_decimal(n: nat, width: nat) -> Seq<char> {
    zero_padded(decimal(n), width)
}

pub proof fn lemma_find(s: Seq<char>, c: char)
    ensures
        0 <= find(s, c) <= s.len(),
        find(s, c) < s.len() ==> s[find(s, c)] == c,
        forall|k: int| 0 <= k < find(s, c) ==> s[k] != c,
    decreases s.len(),
{
    if s.len() > 0 && s[0] != c {
        lemma_find(s.drop_first(), c);
        assert forall|k: int| 0 <= k < find(s, c) implies s[k] != c by {
            if k > 0 {
                assert(s.drop_first()[k - 1] == s[k]);
            }
        }
    }
}

/// The first occurrence is the one that no other precedes.
pub proof fn lemma_find_is(s: Seq<char>, c: char, i: int)
    requires
        0 <= i <= s.len(),
        i < s.len() ==> s[i] == c,
        forall|k: int| 0 <= k < i ==> s[k] != c,
    ensures
        find(s, c) == i,
{
    lemma_find(s, c);
}

pub proof fn lemma_split_either_nonempty(s: Seq<char>, a: char, b: char)
    ensures
        split_either(s, a, b).len() >= 1,
    decreases s.len(),
{
    if s.len() > 0 {
        lemma_split_either_nonempty(s.drop_last(), a, b);
    }
}

pub proof fn lemma_split_nonempty(s: Seq<char>, sep: char)
    ensures
        split(s, sep).len() >= 1,
{
    lemma_split_either_nonempty(s, sep, sep);
}

/// Text that follows the last separator only lengthens the last piece.
pub proof fn lemma_split_append(a: Seq<char>, b: Seq<char>, sep: char)
    requires
        !has_char(b, sep),
    ensures
        split(a + b, sep).len() == split(a, sep).len(),
        split(a + b, sep) == split(a, sep).update(
            split(a, sep).len() - 1,
            split(a, sep).last() + b,
        ),
    decreases b.len(),
{
    lemma_split_nonempty(a, sep);
    if b.len() == 0 {
        assert(a + b == a);
        assert(split(a, sep).last() + b == split(a, sep).last());
        assert(split(a, sep).update(split(a, sep).len() - 1, split(a, sep).last())
            == split(a, sep));
    } else {
        let b0 = b.drop_last();
        assert forall|i: int| 0 <= i < b0.len() implies b0[i] != sep by {
            assert(b0[i] == b[i]);
        }
        lemma_split_append(a, b0, sep);
        assert((a + b).drop_last() == a + b0);
        assert((a + b).last() == b.last());
        assert(b.last() == b[b.len() - 1]);
        let pa = split(a, sep);
        let pab0 = split(a + b0, sep);
        assert(pab0.last() == pa.last() + b0);
        assert((pa.last() + b0).push(b.last()) == pa.last() + b);
        assert(pab0.update(pab0.len() - 1, pab0.last().push(b.last())) == pa.update(
            pa.len() - 1,
            pa.last() + b,
        ));
    }
}

/// A separator at the end opens a new, empty piece.
pub proof fn lemma_split_push_separator(a: Seq<char>, sep: char)
    ensures
        split(a.push(sep), sep) == split(a, sep).push(Seq::<char>::empty()),
{
    assert(a.push(sep).drop_last() == a);
}

/// What `String::from_utf8_lossy` makes of `bytes`.
pub uninterp spec fn utf8_lossy(bytes: Seq<u8>) -> Seq<char>;

/// The text that `bytes` hold: what they encode where they are well-formed
/// UTF-8, else what lossy decoding makes of them.
pub open spec fn decoded(bytes: Seq<u8>) -> Seq<char> {
    if vstd::utf8::valid_utf8(bytes) {
        vstd::utf8::decode_utf8(bytes)
    } else {
        utf8_lossy(bytes)
    }
}

/// Decodes `bytes` as UTF-8, with U+FFFD in place of what is malformed.
///
/// Calls `String::from_utf8_lossy`. Trusted: the result is a function of the
/// bytes alone, and well-formed UTF-8 decodes to the text that it encodes.
#[verifier::external_body]
pub(crate) fn decode_lossy(bytes: &[u8]) -> (s: String)
    ensures
        vstd::utf8::valid_utf8(bytes@) ==> s@ == vstd::utf8::decode_utf8(bytes@),
        !vstd::utf8::valid_utf8(bytes@) ==> s@ == utf8_lossy(bytes@),
{
    String::from_utf8_lossy(bytes).into_owned()
}

/// Builds the string that holds the characters `chars`.
///
/// Calls `String::from_iter`. Trusted: the string holds these characters in
/// this order.
#[verifier::external_body]
fn string_from(chars: &[char]) -> (s: String)
    ensures
        s@ == chars@,
{
    String::from_iter(chars)
}

/// The string that holds the characters `v[from..to]`.
pub fn string_of(v: &Vec<char>, from: usize, to: usize) -> (s: String)
    requires
        from <= to <= v@.len(),
    ensures
        s@ == v@.subrange(from as int, to as int),
{
    string_from(vstd::slice::slice_subrange(v.as_slice(), from, to))
}

/// The characters of `s`.
pub fn chars_of(s: &str) -> (v: Vec<char>)
    ensures
        v@ == s@,
{
    let mut v: Vec<char> = Vec::new();
    for c in it: s.chars()
        invariant
            it.seq() == s@,
            v@ == it.seq().take(it.index() as int),
    {
        v.push(c);
    }
    v
}

/// Whether `c` is whitespace.
pub fn char_is_whitespace(c: char) -> (b: bool)
    ensures
        b == is_whitespace(c),
{
    let u: u32 = c as u32;
    (0x09 <= u && u <= 0x0D) || u == 0x20 || u == 0x85 || u == 0xA0 || u == 0x1680 || (0x2000 <= u
        && u <= 0x200A) || u == 0x2028 || u == 0x2029 || u == 0x202F || u == 0x205F || u == 0x3000
}

/// The range of `v[from..to]` that trimming leaves.
pub fn trim_range(v: &Vec<char>, from: usize, to: usize) -> (r: (usize, usize))
    requires
        from <= to <= v@.len(),
    ensures
        from <= r.0 <= r.1 <= to,
        v@.subrange(r.0 as int, r.1 as int) == trim(v@.subrange(from as int, to as int)),
{
    let mut i: usize = from;
    while i < to && char_is_whitespace(v[i])
        invariant
            from <= i <= to <= v@.len(),
            trim_start(v@.subrange(from as int, to as int)) == trim_start(
                v@.subrange(i as int, to as int),
            ),
        decreases to - i,
    {
        assert(v@.subrange(i as int, to as int).drop_first() == v@.subrange(
            i as int + 1,
            to as int,
        ));
        i += 1;
    }
    let mut j: usize = to;
    while i < j && char_is_whitespace(v[j - 1])
        invariant
            from <= i <= j <= to <= v@.len(),
            trim_end(v@.subrange(i as int, to as int)) == trim_end(
                v@.subrange(i as int, j as int),
            ),
        decreases j - i,
    {
        assert(v@.subrange(i as int, j as int).drop_last() == v@.subrange(
            i as int,
            j as int - 1,
        ));
        j -= 1;
    }
    (i, j)
}

/// The ranges of the pieces of `v[from..to]` between the occurrences of the
/// separators `a` and `b`.
pub fn split_ranges_either(v: &Vec<char>, from: usize, to: usize, a: char, b: char) -> (r: Vec<
    (usize, usize),
>)
    requires
        from <= to <= v@.len(),
    ensures
        r@.len() == split_either(v@.subrange(from as int, to as int), a, b).len(),
        forall|k: int|
            0 <= k < r@.len() ==> from <= (#[trigger] r@[k]).0 <= r@[k].1 <= to,
        forall|k: int|
            0 <= k < r@.len() ==> v@.subrange((#[trigger] r@[k]).0 as int, r@[k].1 as int)
                == split_either(v@.subrange(from as int, to as int), a, b)[k],
{
    let mut r: Vec<(usize, usize)> = Vec::new();
    let mut start: usize = from;
    let mut i: usize = from;
    assert(v@.subrange(from as int, from as int) == Seq::<char>::empty());
    while i < to
        invariant
            from <= start <= i <= to <= v@.len(),
            r@.len() + 1 == split_either(v@.subrange(from as int, i as int), a, b).len(),
            forall|k: int|
                0 <= k < r@.len() ==> from <= (#[trigger] r@[k]).0 <= r@[k].1 <= to,
            forall|k: int|
                0 <= k < r@.len() ==> v@.subrange((#[trigger] r@[k]).0 as int, r@[k].1 as int)
                    == split_either(v@.subrange(from as int, i as int), a, b)[k],
            v@.subrange(start as int, i as int) == split_either(
                v@.subrange(from as int, i as int),
                a,
                b,
            ).last(),
        decreases to - i,
    {
        let ghost before = v@.subrange(from as int, i as int);
        let ghost after = v@.subrange(from as int, i as int + 1);
        assert(after.drop_last() == before);
        assert(after.last() == v@[i as int]);
        if v[i] == a || v[i] == b {
            r.push((start, i));
            start = i + 1;
            assert(v@.subrange(start as int, i as int + 1) == Seq::<char>::empty());
        } else {
            assert(v@.subrange(start as int, i as int).push(v@[i as int]) == v@.subrange(
                start as int,
                i as int + 1,
            ));
        }
        i += 1;
    }
    r.push((start, to));
    r
}

/// The ranges of the pieces of `v[from..to]` between the occurrences of
/// `sep`.
pub fn split_ranges(v: &Vec<char>, from: usize, to: usize, sep: char) -> (r: Vec<(usize, usize)>)
    requires
        from <= to <= v@.len(),
    ensures
        r@.len() == split(v@.subrange(from as int, to as int), sep).len(),
        forall|k: int|
            0 <= k < r@.len() ==> from <= (#[trigger] r@[k]).0 <= r@[k].1 <= to,
        forall|k: int|
            0 <= k < r@.len() ==> v@.subrange((#[trigger] r@[k]).0 as int, r@[k].1 as int)
                == split(v@.subrange(from as int, to as int), sep)[k],
{
    split_ranges_either(v, from, to, sep, sep)
}

/// The position of the first `c` in `v[from..to]`, or `to` where there is
/// none.
pub fn find_char(v: &Vec<char>, from: usize, to: usize, c: char) -> (i: usize)
    requires
        from <= to <= v@.len(),
    ensures
        from <= i <= to,
        forall|k: int| from <= k < i ==> v@[k] != c,
        i < to ==> v@[i as int] == c,
{
    let mut i: usize = from;
    while i < to && v[i] != c
        invariant
            from <= i <= to <= v@.len(),
            forall|k: int| from <= k < i ==> v@[k] != c,
        decreases to - i,
    {
        i += 1;
    }
    i
}

/// The position after the last `c` in `v[from..to]`, or `from` where there is
/// none.
pub fn after_last_char(v: &Vec<char>, from: usize, to: usize, c: char) -> (i: usize)
    requires
        from <= to <= v@.len(),
    ensures
        from <= i <= to,
        forall|k: int| i <= k < to ==> v@[k] != c,
        i > from ==> v@[i as int - 1] == c,
{
    let mut i: usize = to;
    while i > from && v[i - 1] != c
        invariant
            from <= i <= to <= v@.len(),
            forall|k: int| i <= k < to ==> v@[k] != c,
        decreases i - from,
    {
        i -= 1;
    }
    i
}

/// The decimal digit `d` as a character.
pub fn digit_char(d: u8) -> (c: char)
    requires
        d <= 9,
    ensures
        c == digit(d as int),
{
    if d == 0 {
        '0'
    } else if d == 1 {
        '1'
    } else if d == 2 {
        '2'
    } else if d == 3 {
        '3'
    } else if d == 4 {
        '4'
    } else if d == 5 {
        '5'
    } else if d == 6 {
        '6'
    } else if d == 7 {
        '7'
    } else if d == 8 {
        '8'
    } else {
        '9'
    }
}

/// Puts the decimal digits of `n` at the end of `out`.
pub fn push_decimal(n: u64, out: &mut Vec<char>)
    ensures
        final(out)@ == old(out)@ + decimal(n as nat),
    decreases n,
{
    if n >= 10 {
        push_decimal(n / 10, out);
    }
    out.push(digit_char((n % 10) as u8));
    assert(final(out)@ =~= old(out)@ + decimal(n as nat));
}

/// Puts the decimal digits of `n` at the end of `out`, with zeros before them
/// up to `width` digits.
pub fn push_padded_decimal(n: u64, width: usize, out: &mut Vec<char>)
    ensures
        final(out)@ == old(out)@ + padded_decimal(n as nat, width as nat),
{
    let mut digits: Vec<char> = Vec::new();
    push_decimal(n, &mut digits);
    assert(digits@ =~= decimal(n as nat));
    let ghost start = out@;
    let mut k: usize = digits.len();
    while k < width
        invariant
            digits@.len() <= k,
            k <= width || k == digits@.len(),
            out@ == start + Seq::new((k - digits@.len()) as nat, |i: int| '0'),
        decreases width - k,
    {
        out.push('0');
        assert(out@ =~= start + Seq::new((k + 1 - digits@.len()) as nat, |i: int| '0'));
        k += 1;
    }
    let ghost zeros = out@;
    let mut i: usize = 0;
    while i < digits.len()
        invariant
            i <= digits@.len(),
            out@ == zeros + digits@.take(i as int),
        decreases digits@.len() - i,
    {
        out.push(digits[i]);
        assert(out@ =~= zeros + digits@.take(i as int + 1));
        i += 1;
    }
    proof {
        assert(digits@.take(digits@.len() as int) == digits@);
        if digits@.len() >= width {
            assert(zeros =~= start);
        } else {
            assert(k == width);
        }
        assert(out@ =~= start + padded_decimal(n as nat, width as nat));
    }
}

/// The decimal digits of `n` as a string.
pub fn decimal_string(n: u64) -> (s: String)
    ensures
        s@ == decimal(n as nat),
{
    let mut v: Vec<char> = Vec::new();
    push_decimal(n, &mut v);
    let s = string_of(&v, 0, v.len());
    assert(v@.subrange(0, v@.len() as int) =~= decimal(n as nat));
    s
}

/// Whether `a` and `b` hold the same text.
pub fn str_equal(a: &str, b: &str) -> (r: bool)
    ensures
        r == (a@ == b@),
{
    let x = chars_of(a);
    let y = chars_of(b);
    if x.len() != y.len() {
        return false;
    }
    let mut i: usize = 0;
    while i < x.len()
        invariant
            i <= x@.len(),
            x@ == a@,
            y@ == b@,
            x@.len() == y@.len(),
            forall|j: int| 0 <= j < i ==> x@[j] == y@[j],
        decreases x@.len() - i,
    {
        if x[i] != y[i] {
            return false;
        }
        i += 1;
    }
    assert(x@ =~= y@);
    true
}

} // verus!
