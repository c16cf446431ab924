//! Character-level helpers shared by the parsers and the encoder.

use vstd::prelude::*;

verus! {

/// `String::push` appends exactly one character to the end of the string.
pub assume_specification[ std::string::String::push ](s: &mut std::string::String, ch: char)
    ensures
        final(s)@ == old(s)@.push(ch),
;

/// Collects the characters of a string slice, in order.
pub fn chars_of(s: &str) -> (v: Vec<char>)
    ensures
        v@ == s@,
{
    let mut v: Vec<char> = Vec::new();
    for c in it: s.chars()
        invariant
            v@ == it.seq().take(it.index() as int),
    {
        v.push(c);
    }
    v
}

/// Appends the characters `cs[from..to]` to `out`.
pub fn push_chars(out: &mut String, cs: &Vec<char>, from: usize, to: usize)
    requires
        from <= to <= cs.len(),
    ensures
        final(out)@ == old(out)@ + cs@.subrange(from as int, to as int),
{
    let mut i: usize = from;
    while i < to
        invariant
            from <= i <= to <= cs.len(),
            out@ == old(out)@ + cs@.subrange(from as int, i as int),
        decreases to - i,
    {
        out.push(cs[i]);
        i += 1;
    }
}

/// Builds a string from a vector of characters.
pub fn string_of(cs: &Vec<char>) -> (s: String)
    ensures
        s@ == cs@,
{
    let mut s = String::new();
    push_chars(&mut s, cs, 0, cs.len());
    assert(cs@.subrange(0, cs.len() as int) == cs@);
    s
}

/// The text after the last separator of `s` (all of `s` when it holds none).
pub open spec fn last_part(s: Seq<char>, sep: char) -> Seq<char>
    decreases s.len(),
{
    if s.len() == 0 || s.last() == sep {
        Seq::empty()
    } else {
        last_part(s.drop_last(), sep).push(s.last())
    }
}

/// The parts of `s` that a separator closes, in order.
pub open spec fn closed_parts(s: Seq<char>, sep: char) -> Seq<Seq<char>>
    decreases s.len(),
{
    if s.len() == 0 {
        Seq::empty()
    } else if s.last() == sep {
        closed_parts(s.drop_last(), sep).push(last_part(s.drop_last(), sep))
    } else {
        closed_parts(s.drop_last(), sep)
    }
}

/// `s` cut at every separator: one part more than there are separators.
pub open spec fn split(s: Seq<char>, sep: char) -> Seq<Seq<char>> {
    closed_parts(s, sep).push(last_part(s, sep))
}

/// The parts of `parts`, each followed by a separator.
pub open spec fn join_closed(parts: Seq<Seq<char>>, sep: char) -> Seq<char>
    decreases parts.len(),
{
    if parts.len() == 0 {
        Seq::empty()
    } else {
        join_closed(parts.drop_last(), sep) + parts.last().push(sep)
    }
}

/// The views of a vector of character vectors.
pub open spec fn views(parts: Seq<Vec<char>>) -> Seq<Seq<char>> {
    Seq::new(parts.len(), |i: int| parts[i]@)
}

/// Cuts `cs` at every `sep`.
pub fn split_chars(cs: &Vec<char>, sep: char) -> (parts: Vec<Vec<char>>)
    ensures
        views(parts@) == split(cs@, sep),
        parts.len() >= 1,
{
    let mut done: Vec<Vec<char>> = Vec::new();
    let mut current: Vec<char> = Vec::new();
    let mut i: usize = 0;
    while i < cs.len()
        invariant
            i <= cs.len(),
            views(done@) == closed_parts(cs@.take(i as int), sep),
            current@ == last_part(cs@.take(i as int), sep),
        decreases cs.len() - i,
    {
        let c = cs[i];
        proof {
            assert(cs@.take(i + 1).drop_last() == cs@.take(i as int));
            assert(cs@.take(i + 1).last() == c);
        }
        if c == sep {
            let ghost before = views(done@);
            done.push(current);
            current = Vec::new();
            assert(views(done@) == before.push(last_part(cs@.take(i as int), sep)));
        } else {
            let ghost before = views(done@);
            current.push(c);
            assert(views(done@) == before);
        }
        i += 1;
    }
    assert(cs@.take(cs.len() as int) == cs@);
    let ghost before = views(done@);
    done.push(current);
    assert(views(done@) == before.push(last_part(cs@, sep)));
    done
}

/// A text without separators is the last part of whatever it is put behind.
pub proof fn lemma_split_append(s: Seq<char>, p: Seq<char>, sep: char)
    requires
        !p.contains(sep),
    ensures
        last_part(s + p, sep) == last_part(s, sep) + p,
        closed_parts(s + p, sep) == closed_parts(s, sep),
    decreases p.len(),
{
    if p.len() == 0 {
        assert(s + p == s);
        assert(last_part(s, sep) + p == last_part(s, sep));
    } else {
        let q = p.drop_last();
        assert(p[p.len() - 1] != sep);
        assert forall|c: char| q.contains(c) implies p.contains(c) by {
            let i = choose|i: int| 0 <= i < q.len() && q[i] == c;
            assert(p[i] == c);
        }
        lemma_split_append(s, q, sep);
        assert((s + p).drop_last() == s + q);
        assert((s + p).last() == p.last());
        assert(last_part(s, sep) + p == (last_part(s, sep) + q).push(p.last()));
    }
}

/// Every text is its closed parts, each with its separator, and then its last part.
pub proof fn lemma_join_split(s: Seq<char>, sep: char)
    ensures
        join_closed(closed_parts(s, sep), sep) + last_part(s, sep) == s,
    decreases s.len(),
{
    if s.len() == 0 {
    } else {
        let t = s.drop_last();
        lemma_join_split(t, sep);
        if s.last() == sep {
            let cp = closed_parts(s, sep);
            assert(cp.drop_last() == closed_parts(t, sep));
            assert(cp.last() == last_part(t, sep));
            assert(join_closed(cp, sep) == join_closed(closed_parts(t, sep), sep) + last_part(
                t,
                sep,
            ).push(sep));
            assert(join_closed(cp, sep) + last_part(s, sep) == t.push(sep));
            assert(t.push(sep) == s);
        } else {
            assert((join_closed(closed_parts(t, sep), sep) + last_part(t, sep)).push(s.last())
                == join_closed(closed_parts(t, sep), sep) + last_part(t, sep).push(s.last()));
            assert(t.push(s.last()) == s);
        }
    }
}

/// Whether a character is white space: the characters with the Unicode
/// property `White_Space`.
pub open spec fn is_whitespace(c: char) -> bool {
    let n = c as u32;
    (0x09 <= n <= 0x0D) || n == 0x20 || n == 0x85 || n == 0xA0 || n == 0x1680 || (0x2000 <= n
        <= 0x200A) || n == 0x2028 || n == 0x2029 || n == 0x202F || n == 0x205F || n == 0x3000
}

/// `s` without the white space at its start.
pub open spec fn trim_start(s: Seq<char>) -> Seq<char>
    decreases s.len(),
{
    if s.len() > 0 && is_whitespace(s[0]) {
        trim_start(s.skip(1))
    } else {
        s
    }
}

/// `s` without the white space at its end.
pub open spec fn trim_end(s: Seq<char>) -> Seq<char>
    decreases s.len(),
{
    if s.len() > 0 && is_whitespace(s.last()) {
        trim_end(s.drop_last())
    } else {
        s
    }
}

/// `s` without the white space at its start and at its end.
pub open spec fn trimmed(s: Seq<char>) -> Seq<char> {
    trim_end(trim_start(s))
}

/// Whether `c` is white space.
pub fn whitespace(c: char) -> (r: bool)
    ensures
        r == is_whitespace(c),
{
    let n: u32 = c as u32;
    (0x09 <= n && n <= 0x0D) || n == 0x20 || n == 0x85 || n == 0xA0 || n == 0x1680 || (0x2000 <= n
        && n <= 0x200A) || n == 0x2028 || n == 0x2029 || n == 0x202F || n == 0x205F || n == 0x3000
}

/// The range of `cs[from..to]` that is left when the white space at its start
/// and at its end is taken off.
pub fn trim_range(cs: &Vec<char>, from: usize, to: usize) -> (r: (usize, usize))
    requires
        from <= to <= cs.len(),
    ensures
        from <= r.0 <= r.1 <= to,
        cs@.subrange(r.0 as int, r.1 as int) == trimmed(cs@.subrange(from as int, to as int)),
{
    let mut a: usize = from;
    while a < to && whitespace(cs[a])
        invariant
            from <= a <= to <= cs.len(),
            trim_start(cs@.subrange(from as int, to as int)) == trim_start(
                cs@.subrange(a as int, to as int),
            ),
        decreases to - a,
    {
        assert(cs@.subrange(a as int, to as int).skip(1) == cs@.subrange(a + 1, to as int));
        a += 1;
    }
    assert(trim_start(cs@.subrange(a as int, to as int)) == cs@.subrange(a as int, to as int));
    let mut b: usize = to;
    while b > a && whitespace(cs[b - 1])
        invariant
            a <= b <= to <= cs.len(),
            trim_end(cs@.subrange(a as int, to as int)) == trim_end(
                cs@.subrange(a as int, b as int),
            ),
        decreases b,
    {
        assert(cs@.subrange(a as int, b as int).drop_last() == cs@.subrange(a as int, b - 1));
        b -= 1;
    }
    assert(trim_end(cs@.subrange(a as int, b as int)) == cs@.subrange(a as int, b as int));
    (a, b)
}

/// The number that `s` spells as a whole number: decimal digits, with or
/// without a plus sign in front, that fit in 64 bits.
pub open spec fn whole_number(s: Seq<char>) -> Option<u64> {
    if s.len() > 0 && s[0] == '+' {
        unsigned_value(s.skip(1))
    } else {
        unsigned_value(s)
    }
}

/// Reads `cs[from..to]` as a whole number.
pub fn parse_whole(cs: &Vec<char>, from: usize, to: usize) -> (r: Option<u64>)
    requires
        from <= to <= cs.len(),
    ensures
        r == whole_number(cs@.subrange(from as int, to as int)),
{
    if from < to && cs[from] == '+' {
        assert(cs@.subrange(from as int, to as int).skip(1) == cs@.subrange(from + 1, to as int));
        parse_unsigned(cs, from + 1, to)
    } else {
        parse_unsigned(cs, from, to)
    }
}

/// An uppercase ASCII letter turned to lower case; any other character unchanged.
pub open spec fn ascii_lower(c: char) -> char {
    if 'A' <= c <= 'Z' {
        (c as int + 32) as char
    } else {
        c
    }
}

/// `s` with its uppercase ASCII letters turned to lower case.
pub open spec fn ascii_lowercase(s: Seq<char>) -> Seq<char> {
    s.map_values(|c: char| ascii_lower(c))
}

/// Whether `cs`, with its ASCII letters in lower case, is `word`.
pub fn is_word(cs: &Vec<char>, word: &str) -> (r: bool)
    ensures
        r == (ascii_lowercase(cs@) == word@),
{
    let w = chars_of(word);
    if w.len() != cs.len() {
        assert(ascii_lowercase(cs@).len() != word@.len());
        return false;
    }
    let mut i: usize = 0;
    while i < cs.len()
        invariant
            i <= cs.len(),
            w.len() == cs.len(),
            w@ == word@,
            forall|j: int| 0 <= j < i ==> ascii_lower(cs@[j]) == w@[j],
        decreases cs.len() - i,
    {
        let c = cs[i];
        let l = if 'A' <= c && c <= 'Z' {
            ((c as u8) + 32) as char
        } else {
            c
        };
        if l != w[i] {
            assert(ascii_lowercase(cs@)[i as int] != word@[i as int]);
            return false;
        }
        i += 1;
    }
    assert(ascii_lowercase(cs@) =~= word@);
    true
}

/// The decimal digit of a value below ten.
pub open spec fn digit_char(d: int) -> char {
    ('0' as int + d) as char
}

/// The decimal digits of a number, without leading zeros; `0` for zero.
pub open spec fn digits(n: nat) -> Seq<char>
    decreases n,
{
    if n < 10 {
        seq![digit_char(n as int)]
    } else {
        digits(n / 10).push(digit_char((n % 10) as int))
    }
}

/// Whether every character is a decimal digit.
pub open spec fn is_digits(s: Seq<char>) -> bool {
    forall|i: int| 0 <= i < s.len() ==> '0' <= #[trigger] s[i] <= '9'
}

/// The number that a run of decimal digits spells; zero for the empty run.
pub open spec fn digits_value(s: Seq<char>) -> nat
    decreases s.len(),
{
    if s.len() == 0 {
        0
    } else {
        digits_value(s.drop_last()) * 10 + (s.last() as int - '0' as int) as nat
    }
}

/// The decimal digits of `n`.
pub fn digits_of(n: u128) -> (v: Vec<char>)
    ensures
        v@ == digits(n as nat),
    decreases n,
{
    if n < 10 {
        let mut v: Vec<char> = Vec::new();
        v.push((48u8 + n as u8) as char);
        assert(v@ == seq![digit_char(n as int)]);
        v
    } else {
        let mut v = digits_of(n / 10);
        v.push((48u8 + (n % 10) as u8) as char);
        v
    }
}

/// Appends the decimal digits of `n` to `out`.
pub fn push_unsigned(out: &mut String, n: u128)
    ensures
        final(out)@ == old(out)@ + digits(n as nat),
{
    let v = digits_of(n);
    push_chars(out, &v, 0, v.len());
    assert(v@.subrange(0, v.len() as int) == v@);
}

/// A shorter run of digits spells no more than the run it begins.
pub proof fn lemma_digits_value_prefix(s: Seq<char>, i: int)
    requires
        is_digits(s),
        0 <= i <= s.len(),
    ensures
        digits_value(s.take(i)) <= digits_value(s),
    decreases s.len() - i,
{
    if i == s.len() {
        assert(s.take(i) == s);
    } else {
        lemma_digits_value_prefix(s, i + 1);
        assert(s.take(i + 1).drop_last() == s.take(i));
        assert('0' <= s[i] <= '9');
        assert(s.take(i + 1).last() == s[i]);
    }
}

/// Reads the digits `cs[from..to]` as a number. `None` when the range is
/// empty, holds anything but digits, or spells more than `u64::MAX`.
pub fn parse_unsigned(cs: &Vec<char>, from: usize, to: usize) -> (r: Option<u64>)
    requires
        from <= to <= cs.len(),
    ensures
        r == unsigned_value(cs@.subrange(from as int, to as int)),
{
    let ghost s = cs@.subrange(from as int, to as int);
    if from == to {
        return None;
    }
    let mut acc: u64 = 0;
    let mut i: usize = from;
    while i < to
        invariant
            from <= i <= to <= cs.len(),
            s == cs@.subrange(from as int, to as int),
            is_digits(s.take(i - from)),
            acc == digits_value(s.take(i - from)),
        decreases to - i,
    {
        let c = cs[i];
        assert(s[i - from] == c);
        assert(s.take(i - from + 1).drop_last() == s.take(i - from));
        assert(s.take(i - from + 1).last() == c);
        if !('0' <= c && c <= '9') {
            assert(!is_digits(s));
            return None;
        }
        let d: u64 = (c as u32 - 48) as u64;
        assert(is_digits(s.take(i - from + 1))) by {
            assert forall|j: int| 0 <= j < i - from + 1 implies '0' <= #[trigger] s.take(
                i - from + 1,
            )[j] <= '9' by {
                if j < i - from {
                    assert(s.take(i - from)[j] == s.take(i - from + 1)[j]);
                }
            }
        }
        let next = match acc.checked_mul(10) {
            Some(m) => m.checked_add(d),
            None => None,
        };
        match next {
            Some(v) => {
                acc = v;
            },
            None => {
                proof {
                    assert(digits_value(s.take(i - from + 1)) > u64::MAX);
                    if is_digits(s) {
                        lemma_digits_value_prefix(s, i - from + 1);
                    }
                }
                return None;
            },
        }
        i += 1;
    }
    assert(s.take(to - from) == s);
    Some(acc)
}

/// The number that `s` spells when it is a non-empty run of digits that fits
/// in 64 bits.
pub open spec fn unsigned_value(s: Seq<char>) -> Option<u64> {
    if s.len() > 0 && is_digits(s) && digits_value(s) <= u64::MAX {
        Some(digits_value(s) as u64)
    } else {
        None
    }
}

} // verus!
