//! Searching and splitting character sequences, and their dictionary order.
use vstd::prelude::*;

verus! {

/// The index of the first `mark` in `s`, or the length of `s` if there is none.
pub open spec fn first_cut(s: Seq<char>, mark: char) -> int
    decreases s.len(),
{
    if s.len() == 0 || s.first() == mark {
        0
    } else {
        1 + first_cut(s.drop_first(), mark)
    }
}

/// The pieces of `s` between its `mark` characters, in order. There is one
/// piece more than there are marks, so the pieces of the empty sequence
/// are one empty piece.
pub open spec fn split(s: Seq<char>, mark: char) -> Seq<Seq<char>>
    decreases s.len(),
{
    let cut = first_cut(s, mark);
    if cut < 0 || cut >= s.len() {
        seq![s]
    } else {
        seq![s.subrange(0, cut)] + split(s.subrange(cut + 1, s.len() as int), mark)
    }
}

/// Whether `needle` occurs in `s` at index `at`.
pub open spec fn occurs_at(s: Seq<char>, needle: Seq<char>, at: int) -> bool {
    0 <= at && at + needle.len() <= s.len() && s.subrange(at, at + needle.len()) == needle
}

/// Whether `needle` occurs somewhere in `s`.
pub open spec fn contains_text(s: Seq<char>, needle: Seq<char>) -> bool {
    exists|at: int| occurs_at(s, needle, at)
}

/// Whether `at` is the index of the first occurrence of `needle` in `s`.
pub open spec fn first_occurrence(s: Seq<char>, needle: Seq<char>, at: int) -> bool {
    occurs_at(s, needle, at) && forall|k: int| 0 <= k < at ==> !occurs_at(s, needle, k)
}

/// The index of the first occurrence of `needle` in `s`, where it occurs.
pub open spec fn first_index_of(s: Seq<char>, needle: Seq<char>) -> int {
    choose|at: int| first_occurrence(s, needle, at)
}

/// What follows the first occurrence of `needle` in `s`, where it occurs.
pub open spec fn after_first(s: Seq<char>, needle: Seq<char>) -> Seq<char> {
    s.subrange(first_index_of(s, needle) + needle.len(), s.len() as int)
}

/// Whether `a` comes strictly before `b` in dictionary order, characters
/// compared by code point. This is the order of the UTF-8 encodings
/// compared byte by byte.
pub open spec fn lex_less(a: Seq<char>, b: Seq<char>) -> bool
    decreases a.len(),
{
    if b.len() == 0 {
        false
    } else if a.len() == 0 {
        true
    } else if a.first() != b.first() {
        (a.first() as u32) < (b.first() as u32)
    } else {
        lex_less(a.drop_first(), b.drop_first())
    }
}

/// The first cut lies in `s`, has no mark before it and a mark at it
/// unless it is the end.
pub proof fn lemma_first_cut_bounds(s: Seq<char>, mark: char)
    ensures
        0 <= first_cut(s, mark) <= s.len(),
        first_cut(s, mark) < s.len() ==> s[first_cut(s, mark)] == mark,
        forall|i: int| 0 <= i < first_cut(s, mark) ==> #[trigger] s[i] != mark,
    decreases s.len(),
{
    if !(s.len() == 0 || s.first() == mark) {
        let rest = s.drop_first();
        lemma_first_cut_bounds(rest, mark);
        assert forall|i: int| 0 <= i < first_cut(s, mark) implies #[trigger] s[i] != mark by {
            if i > 0 {
                assert(s[i] == rest[i - 1]);
            }
        }
    }
}

/// The first cut is the only index that has no mark before it and a mark
/// (or the end) at it.
pub proof fn lemma_first_cut_unique(s: Seq<char>, mark: char, k: int)
    requires
        0 <= k <= s.len(),
        k < s.len() ==> s[k] == mark,
        forall|i: int| 0 <= i < k ==> #[trigger] s[i] != mark,
    ensures
        first_cut(s, mark) == k,
{
    lemma_first_cut_bounds(s, mark);
    let c = first_cut(s, mark);
    if c < k {
        assert(s[c] != mark);
    } else if c > k {
        assert(s[k] != mark);
    }
}

/// A first occurrence is the first occurrence.
pub proof fn lemma_first_occurrence_unique(s: Seq<char>, needle: Seq<char>, at: int)
    requires
        first_occurrence(s, needle, at),
    ensures
        first_index_of(s, needle) == at,
        contains_text(s, needle),
{
    let chosen = first_index_of(s, needle);
    assert(first_occurrence(s, needle, chosen));
    if chosen < at {
        assert(!occurs_at(s, needle, chosen));
    } else if at < chosen {
        assert(!occurs_at(s, needle, at));
    }
}

/// Dictionary order is decided at the first index where the two differ.
pub proof fn lemma_lex_less_skip(a: Seq<char>, b: Seq<char>, k: int)
    requires
        0 <= k <= a.len(),
        k <= b.len(),
        a.subrange(0, k) == b.subrange(0, k),
    ensures
        lex_less(a, b) == lex_less(a.subrange(k, a.len() as int), b.subrange(k, b.len() as int)),
    decreases k,
{
    if k == 0 {
        assert(a.subrange(0, a.len() as int) =~= a);
        assert(b.subrange(0, b.len() as int) =~= b);
    } else {
        assert(a.subrange(0, k)[0] == a[0]);
        assert(b.subrange(0, k)[0] == b[0]);
        let a1 = a.drop_first();
        let b1 = b.drop_first();
        assert(a1.subrange(0, k - 1) =~= a.subrange(0, k).drop_first());
        assert(b1.subrange(0, k - 1) =~= b.subrange(0, k).drop_first());
        lemma_lex_less_skip(a1, b1, k - 1);
        assert(a1.subrange(k - 1, a1.len() as int) =~= a.subrange(k, a.len() as int));
        assert(b1.subrange(k - 1, b1.len() as int) =~= b.subrange(k, b.len() as int));
    }
}

/// The index of the first `mark` in `chars[from..to]`, or `to` if there is none.
pub fn find_char(chars: &Vec<char>, from: usize, to: usize, mark: char) -> (at: usize)
    requires
        from <= to <= chars.len(),
    ensures
        from <= at <= to,
        at == from + first_cut(chars@.subrange(from as int, to as int), mark),
        at < to ==> chars@[at as int] == mark,
{
    let ghost piece = chars@.subrange(from as int, to as int);
    let mut at: usize = from;
    while at < to && chars[at] != mark
        invariant
            from <= at <= to <= chars.len(),
            forall|i: int| from <= i < at ==> #[trigger] chars@[i] != mark,
        decreases to - at,
    {
        at += 1;
    }
    proof {
        assert forall|i: int| 0 <= i < at - from implies #[trigger] piece[i] != mark by {
            assert(piece[i] == chars@[from + i]);
        }
        lemma_first_cut_unique(piece, mark, at - from);
    }
    at
}

/// The bounds of the pieces of `chars[from..to]` between its `mark`
/// characters, in order.
pub fn split_ranges(chars: &Vec<char>, from: usize, to: usize, mark: char) -> (ranges: Vec<
    (usize, usize),
>)
    requires
        from <= to <= chars.len(),
    ensures
        ranges.len() == split(chars@.subrange(from as int, to as int), mark).len(),
        forall|k: int|
            0 <= k < ranges.len() ==> from <= (#[trigger] ranges@[k]).0 <= ranges@[k].1 <= to
                && chars@.subrange(ranges@[k].0 as int, ranges@[k].1 as int) == split(
                chars@.subrange(from as int, to as int),
                mark,
            )[k],
{
    let ghost whole = split(chars@.subrange(from as int, to as int), mark);
    let mut ranges: Vec<(usize, usize)> = Vec::new();
    let mut start: usize = from;
    loop
        invariant_except_break
            whole.len() == ranges.len() + split(chars@.subrange(start as int, to as int), mark).len(),
            forall|k: int|
                0 <= k < split(chars@.subrange(start as int, to as int), mark).len() ==> whole[ranges.len()
                    + k] == #[trigger] split(chars@.subrange(start as int, to as int), mark)[k],
        invariant
            from <= start <= to <= chars.len(),
            whole == split(chars@.subrange(from as int, to as int), mark),
            forall|k: int|
                0 <= k < ranges.len() ==> from <= (#[trigger] ranges@[k]).0 <= ranges@[k].1 <= to
                    && chars@.subrange(ranges@[k].0 as int, ranges@[k].1 as int) == whole[k],
        ensures
            ranges.len() == whole.len(),
            forall|k: int|
                0 <= k < ranges.len() ==> from <= (#[trigger] ranges@[k]).0 <= ranges@[k].1 <= to
                    && chars@.subrange(ranges@[k].0 as int, ranges@[k].1 as int) == whole[k],
        decreases to - start,
    {
        let ghost rest = chars@.subrange(start as int, to as int);
        let ghost pieces = split(rest, mark);
        let end = find_char(chars, start, to, mark);
        proof {
            lemma_first_cut_bounds(rest, mark);
            assert(rest.subrange(0, end - start) =~= chars@.subrange(start as int, end as int));
            if end < to {
                assert(rest.subrange(end - start + 1, rest.len() as int) =~= chars@.subrange(
                    end + 1,
                    to as int,
                ));
                let tail = split(chars@.subrange(end + 1, to as int), mark);
                assert(pieces == seq![rest.subrange(0, end - start)] + tail);
                assert(pieces[0] == chars@.subrange(start as int, end as int));
                assert forall|k: int| 0 <= k < tail.len() implies whole[ranges.len() + 1 + k]
                    == #[trigger] tail[k] by {
                    assert(pieces[k + 1] == tail[k]);
                }
            } else {
                assert(rest =~= chars@.subrange(start as int, end as int));
                assert(pieces == seq![rest]);
                assert(pieces[0] == rest);
            }
            assert(whole[ranges.len() as int] == pieces[0]);
        }
        ranges.push((start, end));
        if end >= to {
            break ;
        }
        start = end + 1;
    }
    ranges
}

/// The index of the first occurrence of `needle` in `chars[from..to]`, if
/// there is one.
pub fn find_text(chars: &Vec<char>, from: usize, to: usize, needle: &Vec<char>) -> (found:
    Option<usize>)
    requires
        from <= to <= chars.len(),
    ensures
        match found {
            Some(at) => from <= at && at + needle.len() <= to && first_occurrence(
                chars@.subrange(from as int, to as int),
                needle@,
                at - from,
            ),
            None => !contains_text(chars@.subrange(from as int, to as int), needle@),
        },
{
    let ghost piece = chars@.subrange(from as int, to as int);
    let length = needle.len();
    if length > to - from {
        assert(!contains_text(piece, needle@));
        return None;
    }
    let last = to - length;
    let mut at: usize = from;
    while at <= last
        invariant
            from <= at <= last + 1,
            last + length == to,
            to <= chars.len(),
            length == needle.len(),
            piece == chars@.subrange(from as int, to as int),
            forall|k: int| 0 <= k < at - from ==> !occurs_at(piece, needle@, k),
        decreases last + 1 - at,
    {
        let mut matched: usize = 0;
        while matched < length && chars[at + matched] == needle[matched]
            invariant
                matched <= length,
                at + length <= to <= chars.len(),
                length == needle.len(),
                forall|j: int| 0 <= j < matched ==> chars@[at + j] == #[trigger] needle@[j],
            decreases length - matched,
        {
            matched += 1;
        }
        if matched == length {
            proof {
                assert(piece.subrange(at - from, at - from + length) =~= needle@);
                assert(occurs_at(piece, needle@, at - from));
            }
            return Some(at);
        }
        proof {
            let here = piece.subrange(at - from, at - from + length);
            assert(here[matched as int] == chars@[at + matched]);
            assert(!occurs_at(piece, needle@, at - from));
        }
        at += 1;
    }
    proof {
        assert forall|k: int| !occurs_at(piece, needle@, k) by {
            if 0 <= k && k + needle@.len() <= piece.len() {
                assert(k < at - from);
            }
        }
    }
    None
}

/// Whether `a` comes strictly before `b` in dictionary order.
pub fn is_lex_less(a: &Vec<char>, b: &Vec<char>) -> (less: bool)
    ensures
        less == lex_less(a@, b@),
{
    let mut i: usize = 0;
    while i < a.len() && i < b.len() && a[i] == b[i]
        invariant
            i <= a.len(),
            i <= b.len(),
            a@.subrange(0, i as int) == b@.subrange(0, i as int),
        decreases a.len() - i,
    {
        proof {
            assert(a@.subrange(0, i + 1) =~= a@.subrange(0, i as int).push(a@[i as int]));
            assert(b@.subrange(0, i + 1) =~= b@.subrange(0, i as int).push(b@[i as int]));
        }
        i += 1;
    }
    proof {
        lemma_lex_less_skip(a@, b@, i as int);
        let ra = a@.subrange(i as int, a.len() as int);
        let rb = b@.subrange(i as int, b.len() as int);
        if i < a.len() && i < b.len() {
            assert(ra.first() == a@[i as int]);
            assert(rb.first() == b@[i as int]);
        }
    }
    if i >= b.len() {
        false
    } else if i >= a.len() {
        true
    } else {
        (a[i] as u32) < (b[i] as u32)
    }
}

/// A mark occurs in `s` exactly when the first cut falls inside `s`.
pub proof fn lemma_first_cut_contains(s: Seq<char>, mark: char)
    ensures
        s.contains(mark) <==> first_cut(s, mark) < s.len(),
{
    lemma_first_cut_bounds(s, mark);
    if s.contains(mark) {
        let i = choose|i: int| 0 <= i < s.len() && s[i] == mark;
        assert(s[i] == mark);
    }
}

/// Whether `chars[from..to]` is exactly `text`.
pub fn range_is(chars: &Vec<char>, from: usize, to: usize, text: &str) -> (same: bool)
    requires
        from <= to <= chars.len(),
    ensures
        same == (chars@.subrange(from as int, to as int) == text@),
{
    let wanted = crate::chars::chars_of(text);
    if wanted.len() != to - from {
        return false;
    }
    let mut i: usize = 0;
    while i < wanted.len()
        invariant
            i <= wanted.len(),
            wanted.len() == to - from,
            wanted@ == text@,
            to <= chars.len(),
            forall|k: int| 0 <= k < i ==> chars@[from + k] == #[trigger] wanted@[k],
        decreases wanted.len() - i,
    {
        if chars[from + i] != wanted[i] {
            proof {
                assert(chars@.subrange(from as int, to as int)[i as int] != wanted@[i as int]);
            }
            return false;
        }
        i += 1;
    }
    assert(chars@.subrange(from as int, to as int) =~= text@);
    true
}

} // verus!
