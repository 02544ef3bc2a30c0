//! Character-level helpers shared by the collectors and the renderer:
//! whitespace, trimming, and decimal numbers.
use vstd::prelude::*;
use vstd::string::{StringExecFns, StringSliceAdditionalSpecFns};
use vstd::utf8::encode_utf8;

verus! {

/// How many bytes the UTF-8 encoding of `s` takes.
pub open spec fn byte_len(s: Seq<char>) -> nat {
    encode_utf8(s).len()
}

/// How many bytes `s` takes.
pub fn byte_length(s: &str) -> (count: usize)
    ensures
        count == byte_len(s@),
{
    s.as_bytes().len()
}

/// Whether `c` carries the Unicode `White_Space` property.
pub open spec fn is_space(c: char) -> bool {
    let u = c as u32;
    (0x09 <= u && u <= 0x0d) || u == 0x20 || u == 0x85 || u == 0xa0 || u == 0x1680 || (0x2000 <= u
        && u <= 0x200a) || u == 0x2028 || u == 0x2029 || u == 0x202f || u == 0x205f || u == 0x3000
}

/// How many characters of `s` remain once trailing whitespace is dropped.
pub open spec fn trimmed_end(s: Seq<char>) -> int
    decreases s.len(),
{
    if s.len() > 0 && is_space(s.last()) {
        trimmed_end(s.drop_last())
    } else {
        s.len() as int
    }
}

/// How many leading characters of `s` are whitespace.
pub open spec fn trimmed_start(s: Seq<char>) -> int
    decreases s.len(),
{
    if s.len() > 0 && is_space(s.first()) {
        1 + trimmed_start(s.drop_first())
    } else {
        0
    }
}

/// `s` without its trailing whitespace.
pub open spec fn trim_end_of(s: Seq<char>) -> Seq<char> {
    s.subrange(0, trimmed_end(s))
}

/// `s` without its leading and trailing whitespace.
pub open spec fn trim_of(s: Seq<char>) -> Seq<char> {
    trim_end_of(s.subrange(trimmed_start(s), s.len() as int))
}

/// The trailing-whitespace cut lies in `s`, has no whitespace before it and
/// only whitespace from it on.
pub proof fn lemma_trimmed_end_bounds(s: Seq<char>)
    ensures
        0 <= trimmed_end(s) <= s.len(),
        trimmed_end(s) > 0 ==> !is_space(s[trimmed_end(s) - 1]),
        forall|i: int| trimmed_end(s) <= i < s.len() ==> is_space(#[trigger] s[i]),
    decreases s.len(),
{
    if s.len() > 0 && is_space(s.last()) {
        let rest = s.drop_last();
        lemma_trimmed_end_bounds(rest);
        assert forall|i: int| trimmed_end(s) <= i < s.len() implies is_space(#[trigger] s[i]) by {
            if i < rest.len() {
                assert(s[i] == rest[i]);
            }
        }
    }
}

/// The leading-whitespace count lies in `s`, has only whitespace before it
/// and no whitespace at it.
pub proof fn lemma_trimmed_start_bounds(s: Seq<char>)
    ensures
        0 <= trimmed_start(s) <= s.len(),
        trimmed_start(s) < s.len() ==> !is_space(s[trimmed_start(s)]),
        forall|i: int| 0 <= i < trimmed_start(s) ==> is_space(#[trigger] s[i]),
    decreases s.len(),
{
    if s.len() > 0 && is_space(s.first()) {
        let rest = s.drop_first();
        lemma_trimmed_start_bounds(rest);
        assert forall|i: int| 0 <= i < trimmed_start(s) implies is_space(#[trigger] s[i]) by {
            if i > 0 {
                assert(s[i] == rest[i - 1]);
            }
        }
    }
}

/// The trailing-whitespace cut is the only position that has a non-blank
/// character (or the start) before it and only whitespace after it.
pub proof fn lemma_trimmed_end_unique(s: Seq<char>, k: int)
    requires
        0 <= k <= s.len(),
        k > 0 ==> !is_space(s[k - 1]),
        forall|i: int| k <= i < s.len() ==> is_space(#[trigger] s[i]),
    ensures
        trimmed_end(s) == k,
{
    lemma_trimmed_end_bounds(s);
    let t = trimmed_end(s);
    if t < k {
        assert(is_space(s[k - 1]));
    } else if t > k {
        assert(is_space(s[t - 1]));
    }
}

/// The leading-whitespace count is the only position that has only
/// whitespace before it and a non-blank character (or the end) at it.
pub proof fn lemma_trimmed_start_unique(s: Seq<char>, k: int)
    requires
        0 <= k <= s.len(),
        k < s.len() ==> !is_space(s[k]),
        forall|i: int| 0 <= i < k ==> is_space(#[trigger] s[i]),
    ensures
        trimmed_start(s) == k,
{
    lemma_trimmed_start_bounds(s);
    let t = trimmed_start(s);
    if t < k {
        assert(is_space(s[t]));
    } else if t > k {
        assert(is_space(s[k]));
    }
}

/// Whether `c` carries the Unicode `White_Space` property.
pub fn is_space_char(c: char) -> (b: bool)
    ensures
        b == is_space(c),
{
    let u: u32 = c as u32;
    (0x09 <= u && u <= 0x0d) || u == 0x20 || u == 0x85 || u == 0xa0 || u == 0x1680 || (0x2000 <= u
        && u <= 0x200a) || u == 0x2028 || u == 0x2029 || u == 0x202f || u == 0x205f || u == 0x3000
}

/// The characters of `s`, in order.
pub fn chars_of(s: &str) -> (chars: Vec<char>)
    ensures
        chars@ == s@,
{
    let mut chars: Vec<char> = Vec::new();
    for c in it: s.chars()
        invariant
            chars@ == s@.subrange(0, it.index() as int),
            it.seq() == s@,
    {
        chars.push(c);
    }
    chars
}

/// The bounds of `chars[from..to]` once whitespace is dropped from both ends.
pub fn trim_range(chars: &Vec<char>, from: usize, to: usize) -> (bounds: (usize, usize))
    requires
        from <= to <= chars.len(),
    ensures
        from <= bounds.0 <= bounds.1 <= to,
        bounds.0 == from + trimmed_start(chars@.subrange(from as int, to as int)),
        chars@.subrange(bounds.0 as int, bounds.1 as int) == trim_of(
            chars@.subrange(from as int, to as int),
        ),
{
    let ghost piece = chars@.subrange(from as int, to as int);
    let mut lo: usize = from;
    while lo < to && is_space_char(chars[lo])
        invariant
            from <= lo <= to <= chars.len(),
            forall|i: int| from <= i < lo ==> is_space(#[trigger] chars@[i]),
        decreases to - lo,
    {
        lo += 1;
    }
    let mut hi: usize = to;
    while hi > lo && is_space_char(chars[hi - 1])
        invariant
            lo <= hi <= to <= chars.len(),
            forall|i: int| hi <= i < to ==> is_space(#[trigger] chars@[i]),
        decreases hi - lo,
    {
        hi -= 1;
    }
    proof {
        assert forall|i: int| 0 <= i < lo - from implies is_space(#[trigger] piece[i]) by {
            assert(piece[i] == chars@[from + i]);
        }
        lemma_trimmed_start_unique(piece, lo - from);
        let tail = piece.subrange(lo - from, piece.len() as int);
        assert forall|i: int| hi - lo <= i < tail.len() implies is_space(#[trigger] tail[i]) by {
            assert(tail[i] == chars@[lo + i]);
        }
        lemma_trimmed_end_unique(tail, hi - lo);
        assert(tail.subrange(0, hi - lo) =~= chars@.subrange(lo as int, hi as int));
    }
    (lo, hi)
}

/// `s` without its trailing whitespace.
pub fn trim_end(s: &str) -> (trimmed: &str)
    ensures
        trimmed@ == trim_end_of(s@),
{
    let chars = chars_of(s);
    let mut hi: usize = chars.len();
    while hi > 0 && is_space_char(chars[hi - 1])
        invariant
            hi <= chars.len(),
            forall|i: int| hi <= i < chars.len() ==> is_space(#[trigger] chars@[i]),
        decreases hi,
    {
        hi -= 1;
    }
    proof {
        lemma_trimmed_end_unique(s@, hi as int);
    }
    s.substring_char(0, hi)
}

/// Whether `c` is one of the ten ASCII digits.
pub open spec fn is_digit(c: char) -> bool {
    '0' <= c <= '9'
}

/// The number that the ASCII digit `c` stands for.
pub open spec fn digit_value(c: char) -> nat {
    (c as u32 - '0' as u32) as nat
}

/// The ASCII digit that stands for `d`, for `d` below ten.
pub open spec fn digit_char(d: nat) -> char {
    if d == 0 {
        '0'
    } else if d == 1 {
        '1'
    } else if d == 2 {
        '2'
    } else if d == 3 {
        '3'
    } else if d == 4 {
        '4'
    } else if d == 5 {
        '5'
    } else if d == 6 {
        '6'
    } else if d == 7 {
        '7'
    } else if d == 8 {
        '8'
    } else {
        '9'
    }
}

/// Whether `s` is made of ASCII digits alone.
pub open spec fn all_digits(s: Seq<char>) -> bool {
    forall|i: int| 0 <= i < s.len() ==> is_digit(#[trigger] s[i])
}

/// The number written by the digits of `s`, most significant first.
pub open spec fn decimal_value(s: Seq<char>) -> nat
    decreases s.len(),
{
    if s.len() == 0 {
        0
    } else {
        decimal_value(s.drop_last()) * 10 + digit_value(s.last())
    }
}

/// What `s` parses to as an unsigned 64-bit decimal: a number exactly when
/// `s` is a non-empty run of ASCII digits whose value fits.
pub open spec fn parsed_u64(s: Seq<char>) -> Option<u64> {
    if s.len() > 0 && all_digits(s) && decimal_value(s) <= u64::MAX {
        Some(decimal_value(s) as u64)
    } else {
        None
    }
}

/// The shortest decimal writing of `n`.
pub open spec fn decimal_text(n: nat) -> Seq<char>
    decreases n,
{
    if n < 10 {
        seq![digit_char(n)]
    } else {
        decimal_text(n / 10).push(digit_char(n % 10))
    }
}

/// The decimal writing of `n`, with a leading minus sign below zero.
pub open spec fn signed_decimal_text(n: int) -> Seq<char> {
    if n < 0 {
        seq!['-'] + decimal_text((-n) as nat)
    } else {
        decimal_text(n as nat)
    }
}

/// A longer run of digits never writes a smaller number than its prefix.
pub proof fn lemma_decimal_value_prefix(s: Seq<char>, k: int)
    requires
        0 <= k <= s.len(),
    ensures
        decimal_value(s.subrange(0, k)) <= decimal_value(s),
    decreases s.len() - k,
{
    if k < s.len() {
        lemma_decimal_value_prefix(s, k + 1);
        let longer = s.subrange(0, k + 1);
        assert(longer.drop_last() =~= s.subrange(0, k));
    } else {
        assert(s.subrange(0, k) =~= s);
    }
}

/// Two digits write a number below one hundred.
pub proof fn lemma_two_digits(s: Seq<char>)
    requires
        s.len() == 2,
        all_digits(s),
    ensures
        decimal_value(s) == digit_value(s[0]) * 10 + digit_value(s[1]),
        decimal_value(s) <= 99,
{
    let head = s.drop_last();
    assert(head.len() == 1);
    assert(head.drop_last() =~= Seq::<char>::empty());
    assert(decimal_value(head.drop_last()) == 0);
    assert(head.last() == s[0]);
    assert(decimal_value(head) == digit_value(s[0]));
    assert(is_digit(s[0]));
    assert(is_digit(s[1]));
}

/// The number written by `chars[from..to]`, if that is a non-empty run of
/// ASCII digits whose value fits in 64 bits.
pub fn parse_u64(chars: &Vec<char>, from: usize, to: usize) -> (number: Option<u64>)
    requires
        from <= to <= chars.len(),
    ensures
        number == parsed_u64(chars@.subrange(from as int, to as int)),
{
    let ghost piece = chars@.subrange(from as int, to as int);
    if from == to {
        return None;
    }
    let mut value: u64 = 0;
    let mut i: usize = from;
    while i < to
        invariant
            from <= i <= to <= chars.len(),
            piece == chars@.subrange(from as int, to as int),
            all_digits(piece.subrange(0, i - from)),
            value == decimal_value(piece.subrange(0, i - from)),
        decreases to - i,
    {
        let c = chars[i];
        let ghost seen = piece.subrange(0, i - from);
        let ghost next = piece.subrange(0, i + 1 - from);
        proof {
            assert(piece[i - from] == c);
            assert(next.drop_last() =~= seen);
            assert(next.last() == c);
        }
        if !(c >= '0' && c <= '9') {
            proof {
                assert(!is_digit(piece[i - from]));
            }
            return None;
        }
        let d: u64 = (c as u32 - '0' as u32) as u64;
        let next_value = match value.checked_mul(10) {
            Some(tens) => tens.checked_add(d),
            None => None,
        };
        match next_value {
            Some(v) => {
                value = v;
            },
            None => {
                proof {
                    assert(decimal_value(next) > u64::MAX);
                    lemma_decimal_value_prefix(piece, i + 1 - from);
                }
                return None;
            },
        }
        proof {
            assert forall|j: int| 0 <= j < next.len() implies is_digit(#[trigger] next[j]) by {
                if j < seen.len() {
                    assert(next[j] == seen[j]);
                }
            }
        }
        i += 1;
    }
    proof {
        assert(piece.subrange(0, to - from) =~= piece);
    }
    Some(value)
}

/// The one-character text of the digit `d`.
fn digit_text(d: u64) -> (text: &'static str)
    requires
        d < 10,
    ensures
        text@ == seq![digit_char(d as nat)],
{
    proof {
        reveal_strlit("0");
        reveal_strlit("1");
        reveal_strlit("2");
        reveal_strlit("3");
        reveal_strlit("4");
        reveal_strlit("5");
        reveal_strlit("6");
        reveal_strlit("7");
        reveal_strlit("8");
        reveal_strlit("9");
    }
    let text = if d == 0 {
        "0"
    } else if d == 1 {
        "1"
    } else if d == 2 {
        "2"
    } else if d == 3 {
        "3"
    } else if d == 4 {
        "4"
    } else if d == 5 {
        "5"
    } else if d == 6 {
        "6"
    } else if d == 7 {
        "7"
    } else if d == 8 {
        "8"
    } else {
        "9"
    };
    assert(text@ =~= seq![digit_char(d as nat)]);
    text
}

/// Appends the decimal writing of `n` to `out`.
pub fn push_decimal(out: &mut String, n: u64)
    ensures
        final(out)@ == old(out)@ + decimal_text(n as nat),
    decreases n,
{
    if n >= 10 {
        push_decimal(out, n / 10);
    }
    out.append(digit_text(n % 10));
    proof {
        if n >= 10 {
            assert(old(out)@ + decimal_text((n / 10) as nat) + seq![digit_char((n % 10) as nat)]
                =~= old(out)@ + decimal_text(n as nat));
        }
    }
}

/// Appends the decimal writing of `n` to `out`, with a minus sign below zero.
pub fn push_signed_decimal(out: &mut String, n: i64)
    ensures
        final(out)@ == old(out)@ + signed_decimal_text(n as int),
{
    if n < 0 {
        proof {
            reveal_strlit("-");
        }
        out.append("-");
        let magnitude: u64 = if n == i64::MIN {
            0x8000_0000_0000_0000u64
        } else {
            (-n) as u64
        };
        push_decimal(out, magnitude);
        proof {
            assert(old(out)@ + "-"@ + decimal_text(magnitude as nat) =~= old(out)@
                + signed_decimal_text(n as int));
        }
    } else {
        push_decimal(out, n as u64);
    }
}

/// Appends `count` copies of `piece` to `out`.
pub fn push_repeated(out: &mut String, piece: &str, count: u128)
    ensures
        final(out)@ == old(out)@ + repeated(piece@, count as nat),
{
    let mut done: u128 = 0;
    while done < count
        invariant
            done <= count,
            out@ == old(out)@ + repeated(piece@, done as nat),
        decreases count - done,
    {
        out.append(piece);
        done += 1;
        proof {
            assert(old(out)@ + repeated(piece@, (done - 1) as nat) + piece@ =~= old(out)@
                + repeated(piece@, done as nat));
        }
    }
}

/// `count` copies of `piece`, one after the other.
pub open spec fn repeated(piece: Seq<char>, count: nat) -> Seq<char>
    decreases count,
{
    if count == 0 {
        Seq::empty()
    } else {
        repeated(piece, (count - 1) as nat) + piece
    }
}

} // verus!
