//! Exact decimal numbers for physical readings, and their text form.
//!
//! A reading is held as a whole number of units and a count of decimal
//! places, so that scaling by a power of ten and printing lose nothing.

use crate::text::{
    chars_of, closed_parts, digit_char, digits, digits_of, digits_value, is_digits, join_closed,
    last_part, lemma_join_split, parse_unsigned, push_chars, split, split_chars, unsigned_value,
    views,
};
use vstd::prelude::*;

verus! {

/// The number `units / 10^scale`.
#[derive(Debug, Clone, Copy, PartialEq, Eq)]
pub struct Decimal {
    pub units: i64,
    pub scale: u8,
}

/// `n` zeros.
pub open spec fn zeros(n: nat) -> Seq<char> {
    Seq::new(n, |i: int| '0')
}

/// `s` without the zeros at its end.
pub open spec fn trim_zeros(s: Seq<char>) -> Seq<char>
    decreases s.len(),
{
    if s.len() > 0 && s.last() == '0' {
        trim_zeros(s.drop_last())
    } else {
        s
    }
}

/// The digits of `magnitude`, with zeros in front until there is a digit
/// before the last `scale` of them.
pub open spec fn padded_digits(magnitude: nat, scale: nat) -> Seq<char> {
    let d = digits(magnitude);
    if d.len() <= scale {
        zeros((scale + 1 - d.len()) as nat) + d
    } else {
        d
    }
}

/// The shortest plain decimal text of `units / 10^scale`: a minus sign when
/// negative, the whole part, and, unless the rest is zero, a point and the
/// rest without the zeros at its end.
pub open spec fn decimal_text(units: int, scale: nat) -> Seq<char> {
    let magnitude = (if units < 0 { -units } else { units }) as nat;
    let p = padded_digits(magnitude, scale);
    let whole = p.take(p.len() - scale);
    let rest = trim_zeros(p.skip(p.len() - scale));
    let sign = if units < 0 { seq!['-'] } else { Seq::<char>::empty() };
    if rest.len() > 0 {
        sign + whole + seq!['.'] + rest
    } else {
        sign + whole
    }
}

/// `s` without a minus sign in front.
pub open spec fn unsigned_part(s: Seq<char>) -> Seq<char> {
    if s.len() > 0 && s[0] == '-' {
        s.skip(1)
    } else {
        s
    }
}

/// All digits of a plain decimal text, whole part then rest, when the text is
/// well formed: digits, or digits, a point and digits, after an optional
/// minus sign.
pub open spec fn decimal_digits(s: Seq<char>) -> Option<Seq<char>> {
    let parts = split(unsigned_part(s), '.');
    if parts.len() == 1 {
        Some(parts[0])
    } else if parts.len() == 2 && parts[0].len() > 0 && 0 < parts[1].len() <= 255 {
        Some(parts[0] + parts[1])
    } else {
        None
    }
}

/// The number that a plain decimal text spells, as units and scale, when the
/// units fit in 63 bits.
pub open spec fn decimal_value(s: Seq<char>) -> Option<(int, nat)> {
    match decimal_digits(s) {
        Some(d) => match unsigned_value(d) {
            Some(m) => if m <= i64::MAX {
                let parts = split(unsigned_part(s), '.');
                let scale = if parts.len() == 2 { parts[1].len() } else { 0 };
                let negative = s.len() > 0 && s[0] == '-';
                Some((if negative { -(m as int) } else { m as int }, scale))
            } else {
                None
            },
            None => None,
        },
        None => None,
    }
}

fn slice_chars(cs: &Vec<char>, from: usize, to: usize) -> (v: Vec<char>)
    requires
        from <= to <= cs.len(),
    ensures
        v@ == cs@.subrange(from as int, to as int),
{
    let mut v: Vec<char> = Vec::new();
    let mut i: usize = from;
    while i < to
        invariant
            from <= i <= to <= cs.len(),
            v@ == cs@.subrange(from as int, i as int),
        decreases to - i,
    {
        v.push(cs[i]);
        i += 1;
    }
    v
}

fn padded_digits_of(magnitude: u128, scale: u16) -> (p: Vec<char>)
    ensures
        p@ == padded_digits(magnitude as nat, scale as nat),
        p.len() > scale,
{
    let d = digits_of(magnitude);
    let places: usize = scale as usize;
    let mut p: Vec<char> = Vec::new();
    if d.len() <= places {
        let fill: usize = places + 1 - d.len();
        let mut i: usize = 0;
        while i < fill
            invariant
                i <= fill,
                p@ == zeros(i as nat),
            decreases fill - i,
        {
            p.push('0');
            assert(p@ == zeros((i + 1) as nat));
            i += 1;
        }
    }
    let mut j: usize = 0;
    let ghost front = p@;
    while j < d.len()
        invariant
            j <= d.len(),
            p@ == front + d@.take(j as int),
        decreases d.len() - j,
    {
        p.push(d[j]);
        assert(d@.take(j + 1) == d@.take(j as int).push(d@[j as int]));
        j += 1;
    }
    assert(d@.take(d.len() as int) == d@);
    assert(front + d@.take(0) == front);
    p
}

fn trimmed_end(p: &Vec<char>, cut: usize) -> (end: usize)
    requires
        cut <= p.len(),
    ensures
        cut <= end <= p.len(),
        trim_zeros(p@.skip(cut as int)) == p@.subrange(cut as int, end as int),
{
    let mut end: usize = p.len();
    assert(p@.skip(cut as int) == p@.subrange(cut as int, p.len() as int));
    while end > cut && p[end - 1] == '0'
        invariant
            cut <= end <= p.len(),
            trim_zeros(p@.skip(cut as int)) == trim_zeros(p@.subrange(cut as int, end as int)),
        decreases end,
    {
        assert(p@.subrange(cut as int, end as int).drop_last() == p@.subrange(
            cut as int,
            end - 1,
        ));
        end -= 1;
    }
    end
}

/// Appends the text of `units / 10^scale` to `out`.
pub fn push_decimal(out: &mut String, units: i64, scale: u16)
    ensures
        final(out)@ == old(out)@ + decimal_text(units as int, scale as nat),
{
    let magnitude: u128 = if units < 0 {
        (-(units as i128)) as u128
    } else {
        units as u128
    };
    let p = padded_digits_of(magnitude, scale);
    let cut: usize = p.len() - scale as usize;
    let end = trimmed_end(&p, cut);
    let ghost whole = p@.subrange(0, cut as int);
    let ghost rest = p@.subrange(cut as int, end as int);
    assert(whole == p@.take(p.len() - scale));
    if units < 0 {
        out.push('-');
    }
    push_chars(out, &p, 0, cut);
    if end > cut {
        out.push('.');
        push_chars(out, &p, cut, end);
    }
    let ghost sign = if units < 0 { seq!['-'] } else { Seq::<char>::empty() };
    assert(out@ == if rest.len() > 0 {
        old(out)@ + (sign + whole + seq!['.'] + rest)
    } else {
        old(out)@ + (sign + whole)
    });
}

impl Decimal {
    /// The number `units / 10^scale`.
    pub fn new(units: i64, scale: u8) -> (d: Decimal)
        ensures
            d.units == units,
            d.scale == scale,
    {
        Decimal { units, scale }
    }

    /// The shortest plain decimal text of the number.
    pub open spec fn text(&self) -> Seq<char> {
        decimal_text(self.units as int, self.scale as nat)
    }

    /// The number as text: `24.3`, `-0.004`, `66`.
    pub fn to_string(&self) -> (s: String)
        ensures
            s@ == self.text(),
    {
        let mut out = String::new();
        push_decimal(&mut out, self.units, self.scale as u16);
        out
    }

    /// Reads a plain decimal text: digits, optionally a point and more
    /// digits, optionally a minus sign in front. `None` for any other text,
    /// for more than 255 decimal places, and for units beyond 63 bits.
    pub fn parse(s: &str) -> (r: Option<Decimal>)
        ensures
            match r {
                Some(d) => decimal_value(s@) == Some((d.units as int, d.scale as nat)),
                None => decimal_value(s@) is None,
            },
    {
        let cs = chars_of(s);
        let negative = cs.len() > 0 && cs[0] == '-';
        let start: usize = if negative { 1 } else { 0 };
        let body = slice_chars(&cs, start, cs.len());
        assert(body@ == unsigned_part(s@));
        let parts = split_chars(&body, '.');
        let ghost sp = split(body@, '.');
        assert(views(parts@) == sp);
        let mut all: Vec<char> = Vec::new();
        let scale: u8;
        if parts.len() == 1 {
            assert(parts[0]@ == sp[0]);
            all = slice_chars(&parts[0], 0, parts[0].len());
            assert(all@ == sp[0]);
            scale = 0;
        } else if parts.len() == 2 && parts[0].len() > 0 && parts[1].len() > 0 && parts[1].len()
            <= 255 {
            assert(parts[0]@ == sp[0]);
            assert(parts[1]@ == sp[1]);
            all = slice_chars(&parts[0], 0, parts[0].len());
            let rest = &parts[1];
            let mut i: usize = 0;
            while i < rest.len()
                invariant
                    i <= rest.len(),
                    all@ == sp[0] + rest@.take(i as int),
                decreases rest.len() - i,
            {
                all.push(rest[i]);
                assert(rest@.take(i + 1) == rest@.take(i as int).push(rest@[i as int]));
                i += 1;
            }
            assert(rest@.take(rest.len() as int) == rest@);
            scale = rest.len() as u8;
        } else {
            assert(sp[0].len() == parts[0].len());
            assert(parts.len() >= 2 ==> sp[1].len() == parts[1].len());
            return None;
        }
        assert(decimal_digits(s@) == Some(all@));
        assert(all@.subrange(0, all.len() as int) == all@);
        match parse_unsigned(&all, 0, all.len()) {
            Some(m) => {
                if m > i64::MAX as u64 {
                    None
                } else if negative {
                    Some(Decimal { units: -(m as i64), scale })
                } else {
                    Some(Decimal { units: m as i64, scale })
                }
            },
            None => None,
        }
    }

    /// A hundred times the number. `None` when the units would leave 63 bits.
    pub fn times_hundred(&self) -> (r: Option<Decimal>)
        ensures
            r == times_hundred_of(*self),
    {
        if self.scale >= 2 {
            Some(Decimal { units: self.units, scale: self.scale - 2 })
        } else {
            let factor: i64 = if self.scale == 1 { 10 } else { 100 };
            match self.units.checked_mul(factor) {
                Some(u) => Some(Decimal { units: u, scale: 0 }),
                None => None,
            }
        }
    }
}

/// A hundred times `d`, by dropping two decimal places or, where there are
/// none to drop, by multiplying the units.
pub open spec fn times_hundred_of(d: Decimal) -> Option<Decimal> {
    if d.scale >= 2 {
        Some(Decimal { units: d.units, scale: (d.scale - 2) as u8 })
    } else {
        let u = d.units * (if d.scale == 1 { 10int } else { 100int });
        if i64::MIN <= u <= i64::MAX {
            Some(Decimal { units: u as i64, scale: 0 })
        } else {
            None
        }
    }
}

/// A run of digits that is written as a number is: not empty, and without
/// a zero in front unless it is the one digit.
pub open spec fn is_plain_number(d: Seq<char>) -> bool {
    d.len() > 0 && is_digits(d) && (d.len() == 1 || d[0] != '0')
}

/// The units and the scale of the number that a text spells.
pub open spec fn spelled(s: Seq<char>) -> (int, nat) {
    decimal_value(s)->0
}

/// Whether a text is the shortest plain form of a decimal number that a
/// `Decimal` can hold: a plain number, then, if at all, a point and digits
/// that do not end in zero; a minus sign in front only of a number other
/// than zero.
pub open spec fn is_shortest_form(s: Seq<char>) -> bool {
    let parts = split(unsigned_part(s), '.');
    &&& parts.len() == 1 || parts.len() == 2
    &&& is_plain_number(parts[0])
    &&& parts.len() == 2 ==> 0 < parts[1].len() <= 255 && is_digits(parts[1]) && parts[1].last()
        != '0'
    &&& decimal_value(s) is Some
    &&& s.len() > 0 && s[0] == '-' ==> spelled(s).0 != 0
}

/// The number of zeros at the start of `s`.
pub open spec fn leading_zeros(s: Seq<char>) -> nat
    decreases s.len(),
{
    if s.len() > 0 && s[0] == '0' {
        1 + leading_zeros(s.skip(1))
    } else {
        0
    }
}

proof fn lemma_leading_zeros(s: Seq<char>)
    ensures
        leading_zeros(s) <= s.len(),
        s == zeros(leading_zeros(s)) + s.skip(leading_zeros(s) as int),
        leading_zeros(s) < s.len() ==> s[leading_zeros(s) as int] != '0',
        s.len() > 0 && s.last() != '0' ==> leading_zeros(s) < s.len(),
    decreases s.len(),
{
    if s.len() > 0 && s[0] == '0' {
        let t = s.skip(1);
        lemma_leading_zeros(t);
        let k = leading_zeros(t) as int;
        assert(t.skip(k) == s.skip(k + 1));
        assert(s =~= zeros((k + 1) as nat) + s.skip(k + 1)) by {
            assert(t == zeros(k as nat) + t.skip(k));
            assert forall|i: int| 0 <= i < s.len() implies s[i] == (zeros((k + 1) as nat) + s.skip(
                k + 1,
            ))[i] by {
                if 1 <= i {
                    assert(s[i] == t[i - 1]);
                    assert(t[i - 1] == (zeros(k as nat) + t.skip(k))[i - 1]);
                }
            }
        }
        if k < t.len() {
            assert(s[k + 1] == t[k]);
        }
        if s.last() != '0' {
            assert(t.len() > 0);
            assert(t.last() == s.last());
        }
    } else {
        assert(s.skip(0) == s);
        assert(zeros(0) + s == s);
    }
}

proof fn lemma_zeros_value(k: nat, x: Seq<char>)
    ensures
        digits_value(zeros(k) + x) == digits_value(x),
    decreases x.len(), k,
{
    if x.len() == 0 {
        assert(zeros(k) + x == zeros(k));
        if k > 0 {
            assert(zeros(k).drop_last() == zeros((k - 1) as nat));
            assert(zeros((k - 1) as nat) + x == zeros((k - 1) as nat));
            lemma_zeros_value((k - 1) as nat, x);
        } else {
            assert(zeros(0) =~= x);
        }
    } else {
        assert((zeros(k) + x).drop_last() == zeros(k) + x.drop_last());
        assert((zeros(k) + x).last() == x.last());
        lemma_zeros_value(k, x.drop_last());
    }
}

proof fn lemma_value_positive(d: Seq<char>)
    requires
        d.len() > 0,
        is_digits(d),
        d[0] != '0',
    ensures
        digits_value(d) > 0,
    decreases d.len(),
{
    if d.len() > 1 {
        assert(d.drop_last()[0] == d[0]);
        assert forall|i: int| 0 <= i < d.drop_last().len() implies '0' <= #[trigger] d.drop_last()[i]
            <= '9' by {
            assert(d.drop_last()[i] == d[i]);
        }
        lemma_value_positive(d.drop_last());
    } else {
        assert(d.drop_last().len() == 0);
        assert(d.last() == d[0]);
        assert('0' <= d[0] <= '9');
    }
}

/// The digits of the number that a plain number spells are the plain number.
pub proof fn lemma_digits_of_value(d: Seq<char>)
    requires
        is_plain_number(d),
    ensures
        digits(digits_value(d)) == d,
    decreases d.len(),
{
    let before = d.drop_last();
    let last = (d.last() as int - '0' as int) as nat;
    assert('0' <= d[d.len() - 1] <= '9');
    assert(digit_char(last as int) == d.last());
    if d.len() == 1 {
        assert(before.len() == 0);
        assert(digits_value(d) == last);
        assert(seq![d.last()] =~= d);
    } else {
        assert(before[0] == d[0]);
        assert forall|i: int| 0 <= i < before.len() implies '0' <= #[trigger] before[i] <= '9' by {
            assert(before[i] == d[i]);
        }
        lemma_value_positive(before);
        lemma_digits_of_value(before);
        let v = digits_value(before);
        assert(digits_value(d) == v * 10 + last);
        assert((v * 10 + last) / 10 == v && (v * 10 + last) % 10 == last);
        assert(before.push(d.last()) =~= d);
    }
}

/// A text in shortest form is the text of the number that it spells: to
/// read such a text and write the number again changes nothing.
pub proof fn lemma_shortest_form_is_kept(s: Seq<char>)
    requires
        is_shortest_form(s),
    ensures
        decimal_text(spelled(s).0, spelled(s).1) == s,
{
    let negative = s.len() > 0 && s[0] == '-';
    let body = unsigned_part(s);
    let parts = split(body, '.');
    let whole = parts[0];
    let (units, scale) = spelled(s);
    let all = decimal_digits(s)->0;
    let m = digits_value(all);
    assert(unsigned_value(all) == Some(m as u64));
    let sign = if negative { seq!['-'] } else { Seq::<char>::empty() };
    assert(s =~= sign + body);
    lemma_join_split(body, '.');
    assert(closed_parts(body, '.') == parts.drop_last());
    assert(last_part(body, '.') == parts.last());
    if parts.len() == 1 {
        assert(join_closed(parts.drop_last(), '.') =~= Seq::<char>::empty());
        assert(body =~= whole);
        assert(all == whole);
        lemma_digits_of_value(whole);
        let p = padded_digits(m, 0);
        assert(p == whole);
        assert(p.take(p.len() - 0) =~= whole);
        assert(p.skip(p.len() - 0) =~= Seq::<char>::empty());
        assert(decimal_text(units, scale) =~= sign + whole);
    } else {
        let rest = parts[1];
        reveal_with_fuel(join_closed, 2);
        assert(parts.drop_last().drop_last().len() == 0);
        assert(parts.drop_last().last() == whole);
        assert(join_closed(parts.drop_last(), '.') =~= whole.push('.'));
        assert(body =~= whole + seq!['.'] + rest);
        assert(all == whole + rest);
        assert(scale == rest.len());
        assert(trim_zeros(rest) == rest);
        let p = padded_digits(m, scale);
        if whole[0] != '0' {
            assert(is_plain_number(all)) by {
                assert(all[0] == whole[0]);
                assert forall|i: int| 0 <= i < all.len() implies '0' <= #[trigger] all[i] <= '9' by {
                    if i < whole.len() {
                        assert(all[i] == whole[i]);
                    } else {
                        assert(all[i] == rest[i - whole.len()]);
                    }
                }
            }
            lemma_digits_of_value(all);
            assert(p == all);
        } else {
            assert(whole =~= zeros(1));
            let k = leading_zeros(rest);
            lemma_leading_zeros(rest);
            let tail = rest.skip(k as int);
            assert(is_plain_number(tail)) by {
                assert(tail[0] == rest[k as int]);
                assert forall|i: int| 0 <= i < tail.len() implies '0' <= #[trigger] tail[i]
                    <= '9' by {
                    assert(tail[i] == rest[k + i]);
                }
            }
            assert(all =~= zeros(k + 1) + tail);
            lemma_zeros_value(k + 1, tail);
            lemma_digits_of_value(tail);
            assert(digits(m) == tail);
            assert(p =~= zeros(k + 1) + tail);
            assert(p == all);
        }
        assert(p.take(p.len() - scale) =~= whole);
        assert(p.skip(p.len() - scale) =~= rest);
        assert(decimal_text(units, scale) =~= sign + whole + seq!['.'] + rest);
    }
}

} // verus!
