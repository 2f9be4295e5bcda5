//! Character sequences: whitespace, trimming and splitting.

use vstd::prelude::*;

verus! {

/// Whether `c` is whitespace: the code points with the Unicode property
/// `White_Space`.
pub open spec fn is_space(c: char) -> bool {
    let n = c as u32;
    ||| 0x09 <= n <= 0x0D
    ||| n == 0x20
    ||| n == 0x85
    ||| n == 0xA0
    ||| n == 0x1680
    ||| 0x2000 <= n <= 0x200A
    ||| n == 0x2028
    ||| n == 0x2029
    ||| n == 0x202F
    ||| n == 0x205F
    ||| n == 0x3000
}

/// `s` without its leading whitespace.
pub open spec fn trim_start(s: Seq<char>) -> Seq<char>
    decreases s.len(),
{
    if s.len() > 0 && is_space(s[0]) {
        trim_start(s.skip(1))
    } else {
        s
    }
}

/// `s` without its trailing whitespace.
pub open spec fn trim_end(s: Seq<char>) -> Seq<char>
    decreases s.len(),
{
    if s.len() > 0 && is_space(s.last()) {
        trim_end(s.drop_last())
    } else {
        s
    }
}

/// `s` without leading and trailing whitespace.
pub open spec fn trim(s: Seq<char>) -> Seq<char> {
    trim_end(trim_start(s))
}

/// Whether `s` is free of whitespace.
pub open spec fn has_no_space(s: Seq<char>) -> bool {
    forall|i: int| 0 <= i < s.len() ==> !is_space(#[trigger] s[i])
}

/// The pieces of `s` between occurrences of `sep`, in order. There is always
/// one piece more than there are separators, so the empty sequence has the
/// one empty piece.
pub open spec fn split(s: Seq<char>, sep: char) -> Seq<Seq<char>>
    decreases s.len(),
{
    if s.len() == 0 {
        seq![Seq::<char>::empty()]
    } else {
        let before = split(s.drop_last(), sep);
        if s.last() == sep {
            before.push(Seq::<char>::empty())
        } else {
            before.drop_last().push(before.last().push(s.last()))
        }
    }
}

/// A split has at least one piece, and no piece holds the separator.
pub proof fn split_pieces(s: Seq<char>, sep: char)
    ensures
        split(s, sep).len() >= 1,
        forall|i: int| 0 <= i < split(s, sep).len() ==> !(#[trigger] split(s, sep)[i]).contains(sep),
    decreases s.len(),
{
    if s.len() > 0 {
        split_pieces(s.drop_last(), sep);
        let before = split(s.drop_last(), sep);
        assert forall|i: int| 0 <= i < split(s, sep).len() implies !(#[trigger] split(
            s,
            sep,
        )[i]).contains(sep) by {
            if i < before.len() - 1 {
                assert(split(s, sep)[i] == before[i]);
            } else if s.last() != sep && i == before.len() - 1 {
                let piece = before.last().push(s.last());
                assert(split(s, sep)[i] == piece);
                if piece.contains(sep) {
                    let k = choose|k: int| 0 <= k < piece.len() && piece[k] == sep;
                    assert(before.last()[k] == sep);
                    assert(before[before.len() - 1].contains(sep));
                }
            } else if s.last() == sep && i == before.len() - 1 {
                assert(split(s, sep)[i] == before[i]);
            }
        }
    }
}

/// A sequence without the separator is the one piece of its split.
pub proof fn split_of_one_piece(s: Seq<char>, sep: char)
    requires
        !s.contains(sep),
    ensures
        split(s, sep) == seq![s],
    decreases s.len(),
{
    if s.len() > 0 {
        assert forall|i: int| 0 <= i < s.drop_last().len() implies s.drop_last()[i] != sep by {
            assert(s[i] == s.drop_last()[i]);
            assert(s.contains(s[i]));
        }
        assert(s.contains(s[s.len() - 1]));
        assert(!s.drop_last().contains(sep));
        split_of_one_piece(s.drop_last(), sep);
        assert(s.drop_last().push(s.last()) == s);
        assert(seq![s.drop_last()].drop_last().push(s) =~= seq![s]);
    } else {
        assert(s == Seq::<char>::empty());
    }
}

/// A separator between two sequences parts their splits: the pieces of
/// `left`, then those of `right`.
pub proof fn split_at_separator(left: Seq<char>, right: Seq<char>, sep: char)
    ensures
        split(left + seq![sep] + right, sep) == split(left, sep) + split(right, sep),
    decreases right.len(),
{
    let whole = left + seq![sep] + right;
    if right.len() == 0 {
        assert(whole.drop_last() == left);
        assert(split(left, sep).push(Seq::<char>::empty()) == split(left, sep) + split(right, sep));
    } else {
        split_at_separator(left, right.drop_last(), sep);
        split_pieces(right.drop_last(), sep);
        assert(whole.drop_last() == left + seq![sep] + right.drop_last());
        assert(whole.last() == right.last());
        let a = split(left, sep);
        let b = split(right.drop_last(), sep);
        if right.last() == sep {
            assert((a + b).push(Seq::<char>::empty()) == a + b.push(Seq::<char>::empty()));
        } else {
            assert((a + b).drop_last().push((a + b).last().push(right.last())) == a
                + b.drop_last().push(b.last().push(right.last())));
        }
    }
}

/// The index of the first occurrence of `c` in `s`, or the length of `s`
/// where `c` does not occur.
pub open spec fn index_of_first(s: Seq<char>, c: char) -> int
    decreases s.len(),
{
    if s.len() == 0 || s[0] == c {
        0
    } else {
        1 + index_of_first(s.skip(1), c)
    }
}

/// The characters of a string, as a vector.
pub fn chars_of(s: &str) -> (v: Vec<char>)
    ensures
        v@ == s@,
{
    let mut v: Vec<char> = Vec::new();
    for c in it: s.chars()
        invariant
            it.seq() == s@,
            v@ == it.seq().take(it.index()),
    {
        v.push(c);
    }
    v
}

pub fn is_whitespace(c: char) -> (b: bool)
    ensures
        b == is_space(c),
{
    let n: u32 = c as u32;
    (0x09 <= n && n <= 0x0D) || n == 0x20 || n == 0x85 || n == 0xA0 || n == 0x1680 || (0x2000 <= n
        && n <= 0x200A) || n == 0x2028 || n == 0x2029 || n == 0x202F || n == 0x205F || n == 0x3000
}

/// The views of a vector of character vectors.
pub open spec fn texts(pieces: Seq<Vec<char>>) -> Seq<Seq<char>> {
    Seq::new(pieces.len(), |i: int| pieces[i]@)
}

/// A copy of the characters of `s` from index `lo` up to `hi`.
pub fn copy_range(s: &[char], lo: usize, hi: usize) -> (v: Vec<char>)
    requires
        lo <= hi <= s@.len(),
    ensures
        v@ == s@.subrange(lo as int, hi as int),
{
    let mut v: Vec<char> = Vec::new();
    let mut i: usize = lo;
    while i < hi
        invariant
            lo <= i <= hi <= s@.len(),
            v@ == s@.subrange(lo as int, i as int),
        decreases hi - i,
    {
        v.push(s[i]);
        i += 1;
    }
    v
}

/// `s` without leading and trailing whitespace.
pub fn trimmed(s: &[char]) -> (r: Vec<char>)
    ensures
        r@ == trim(s@),
{
    let n: usize = s.len();
    let mut lo: usize = 0;
    assert(s@.skip(0) == s@);
    while lo < n && is_whitespace(s[lo])
        invariant
            lo <= n == s@.len(),
            trim_start(s@) == trim_start(s@.skip(lo as int)),
        decreases n - lo,
    {
        assert(s@.skip(lo as int).skip(1) == s@.skip(lo + 1));
        lo += 1;
    }
    assert(s@.skip(lo as int) == s@.subrange(lo as int, n as int));
    let mut hi: usize = n;
    while hi > lo && is_whitespace(s[hi - 1])
        invariant
            lo <= hi <= n == s@.len(),
            trim(s@) == trim_end(s@.subrange(lo as int, hi as int)),
        decreases hi,
    {
        assert(s@.subrange(lo as int, hi as int).drop_last() == s@.subrange(lo as int, hi - 1));
        hi -= 1;
    }
    copy_range(s, lo, hi)
}

/// `index_of_first` is the least index that holds `c`.
pub proof fn index_of_first_is_least(s: Seq<char>, c: char)
    ensures
        0 <= index_of_first(s, c) <= s.len(),
        index_of_first(s, c) < s.len() ==> s[index_of_first(s, c)] == c,
        forall|j: int| 0 <= j < index_of_first(s, c) ==> s[j] != c,
    decreases s.len(),
{
    if s.len() == 0 || s[0] == c {
    } else {
        index_of_first_is_least(s.skip(1), c);
        assert forall|j: int| 0 <= j < index_of_first(s, c) implies s[j] != c by {
            if j > 0 {
                assert(s.skip(1)[j - 1] == s[j]);
            }
        }
    }
}

/// The index of the first occurrence of `c` in `s`, or the length of `s`.
pub fn find_first(s: &[char], c: char) -> (i: usize)
    ensures
        i == index_of_first(s@, c),
        i <= s@.len(),
{
    let mut i: usize = 0;
    assert(s@.skip(0) == s@);
    while i < s.len() && s[i] != c
        invariant
            i <= s@.len(),
            index_of_first(s@, c) == i + index_of_first(s@.skip(i as int), c),
        decreases s@.len() - i,
    {
        assert(s@.skip(i as int).skip(1) == s@.skip(i + 1));
        i += 1;
    }
    i
}

/// Whether `s` is free of whitespace.
pub fn is_free_of_whitespace(s: &[char]) -> (b: bool)
    ensures
        b == has_no_space(s@),
{
    let mut i: usize = 0;
    while i < s.len()
        invariant
            i <= s@.len(),
            forall|j: int| 0 <= j < i ==> !is_space(#[trigger] s@[j]),
        decreases s@.len() - i,
    {
        if is_whitespace(s[i]) {
            return false;
        }
        i += 1;
    }
    true
}

/// The pieces of `s` between occurrences of `sep`.
pub fn split_on(s: &[char], sep: char) -> (pieces: Vec<Vec<char>>)
    ensures
        texts(pieces@) == split(s@, sep),
{
    let mut pieces: Vec<Vec<char>> = Vec::new();
    let mut current: Vec<char> = Vec::new();
    let mut i: usize = 0;
    assert(texts(pieces@).push(current@) == split(s@.take(0), sep));
    while i < s.len()
        invariant
            i <= s@.len(),
            texts(pieces@).push(current@) == split(s@.take(i as int), sep),
        decreases s@.len() - i,
    {
        let ghost before = split(s@.take(i as int), sep);
        assert(s@.take(i + 1).drop_last() == s@.take(i as int));
        assert(before.drop_last() == texts(pieces@));
        let c: char = s[i];
        if c == sep {
            pieces.push(current);
            current = Vec::new();
            assert(texts(pieces@) == before);
        } else {
            current.push(c);
        }
        i += 1;
    }
    assert(s@.take(s@.len() as int) == s@);
    pieces.push(current);
    assert(texts(pieces@) == split(s@, sep));
    pieces
}

/// Appends the characters of `more` to `v`.
pub fn push_all(v: &mut Vec<char>, more: &[char])
    ensures
        final(v)@ == old(v)@ + more@,
{
    let mut i: usize = 0;
    assert(old(v)@ + more@.take(0) == old(v)@);
    while i < more.len()
        invariant
            i <= more@.len(),
            v@ == old(v)@ + more@.take(i as int),
        decreases more@.len() - i,
    {
        v.push(more[i]);
        assert(more@.take(i + 1) == more@.take(i as int).push(more@[i as int]));
        assert(old(v)@ + more@.take(i + 1) == (old(v)@ + more@.take(i as int)).push(
            more@[i as int],
        ));
        i += 1;
    }
    assert(more@.take(more@.len() as int) == more@);
}

/// `String::push` appends the one character to the string.
pub assume_specification[ String::push ](s: &mut String, c: char)
    ensures
        final(s)@ == old(s)@.push(c),
;

/// The string made of the characters of `chars`.
pub fn string_of(chars: &[char]) -> (s: String)
    ensures
        s@ == chars@,
{
    let mut s: String = String::new();
    let mut i: usize = 0;
    while i < chars.len()
        invariant
            i <= chars@.len(),
            s@ == chars@.take(i as int),
        decreases chars@.len() - i,
    {
        s.push(chars[i]);
        assert(chars@.take(i + 1) == chars@.take(i as int).push(chars@[i as int]));
        i += 1;
    }
    assert(chars@.take(chars@.len() as int) == chars@);
    s
}

} // verus!
