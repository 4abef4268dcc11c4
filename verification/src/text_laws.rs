//! What the operations on texts and numbers give, stated on what goes in and comes out.
use crate::numbers::{
    decimal_text, digit_value, digits_value, hex4_text, lemma_decimal, parse_u16, parse_u32, parsed,
    unsigned_part,
};
use crate::text::{
    begins_with, contains, equals, find_where, has_part, has_prefix, is_blank, is_space, join,
    joined_texts, lemma_find_where, lemma_find_where_is, lines, name_at, not_space, occurs_at,
    pieces, position, space, texts, trim, trim_end, trim_start, trimmed,
};
use vstd::prelude::*;

verus! {

/// A text stands in another exactly if the other is made of something, the text, and
/// something.
pub proof fn part_stands_between(s: Seq<char>, part: Seq<char>)
    ensures
        has_part(s, part) <==> exists|x: Seq<char>, y: Seq<char>| #[trigger] (x + part + y) == s,
{
    if has_part(s, part) {
        let i = choose|i: int| occurs_at(s, part, i);
        assert(s.take(i) + part + s.skip(i + part.len()) =~= s);
    }
    if exists|x: Seq<char>, y: Seq<char>| #[trigger] (x + part + y) == s {
        let (x, y) = choose|x: Seq<char>, y: Seq<char>| #[trigger] (x + part + y) == s;
        assert(s.subrange(x.len() as int, (x.len() + part.len()) as int) =~= part);
        assert(occurs_at(s, part, x.len() as int));
    }
}

/// The search for a text in another says yes exactly if the other is made of something, the
/// text, and something.
pub proof fn contains_finds_parts(s: &str, part: &str, res: bool)
    requires
        call_ensures(contains, (s, part), res),
    ensures
        res <==> exists|x: Seq<char>, y: Seq<char>| #[trigger] (x + part@ + y) == s@,
{
    part_stands_between(s@, part@);
}

/// A text begins with another exactly if it is made of that and something.
pub proof fn beginning_stands_first(s: Seq<char>, part: Seq<char>)
    ensures
        begins_with(s, part) <==> exists|y: Seq<char>| #[trigger] (part + y) == s,
{
    if begins_with(s, part) {
        assert(part + s.skip(part.len() as int) =~= s);
    }
    if exists|y: Seq<char>| #[trigger] (part + y) == s {
        let y = choose|y: Seq<char>| #[trigger] (part + y) == s;
        assert(s.subrange(0, part.len() as int) =~= part);
    }
}

/// The same of the search for a beginning.
pub proof fn has_prefix_finds_beginnings(s: &str, part: &str, res: bool)
    requires
        call_ensures(has_prefix, (s, part), res),
    ensures
        res <==> exists|y: Seq<char>| #[trigger] (part@ + y) == s@,
{
    beginning_stands_first(s@, part@);
}

/// White space is the characters that Unicode gives the property of that name.
pub proof fn white_space_is_that_of_unicode(c: char, res: bool)
    requires
        call_ensures(space, (c,), res),
    ensures
        res <==> {
            let n = c as int;
            ||| 0x9 <= n <= 0xd
            ||| n == 0x20
            ||| n == 0x85
            ||| n == 0xa0
            ||| n == 0x1680
            ||| 0x2000 <= n <= 0x200a
            ||| n == 0x2028
            ||| n == 0x2029
            ||| n == 0x202f
            ||| n == 0x205f
            ||| n == 0x3000
        },
        res == is_space(c),
{
}

/// Every character is white space.
pub open spec fn all_space(s: Seq<char>) -> bool {
    forall|i: int| 0 <= i < s.len() ==> is_space(#[trigger] s[i])
}

proof fn lemma_trim_end(s: Seq<char>)
    ensures
        trim_end(s).len() <= s.len(),
        trim_end(s) == s.take(trim_end(s).len() as int),
        all_space(s.skip(trim_end(s).len() as int)),
        trim_end(s).len() > 0 ==> !is_space(trim_end(s).last()),
    decreases s.len(),
{
    let n = trim_end(s).len() as int;
    if s.len() > 0 && is_space(s.last()) {
        let front = s.drop_last();
        lemma_trim_end(front);
        assert(front.take(n) =~= s.take(n));
        assert forall|i: int| 0 <= i < s.skip(n).len() implies is_space(
            #[trigger] s.skip(n)[i],
        ) by {
            if i < front.skip(n).len() {
                assert(s.skip(n)[i] == front.skip(n)[i]);
            }
        }
    } else {
        assert(s.take(n) =~= s);
    }
}

/// Trimming takes white space off both ends, and nothing else; what is left does not begin or
/// end with white space.
pub proof fn trim_takes_off_white_space(s: Seq<char>) -> (around: (Seq<char>, Seq<char>))
    ensures
        s == around.0 + trim(s) + around.1,
        all_space(around.0),
        all_space(around.1),
        trim(s).len() > 0 ==> !is_space(trim(s)[0]) && !is_space(trim(s).last()),
{
    let n = find_where(s, not_space(), 0);
    lemma_find_where(s, not_space(), 0);
    let rest = trim_start(s);
    lemma_trim_end(rest);
    let a = s.take(n);
    let b = rest.skip(trim(s).len() as int);
    assert forall|i: int| 0 <= i < a.len() implies is_space(#[trigger] a[i]) by {
        assert(!(not_space())(s[i]));
    }
    assert(rest =~= trim(s) + b);
    assert(s =~= a + trim(s) + b);
    if trim(s).len() > 0 {
        assert(trim(s)[0] == rest[0]);
        assert(rest[0] == s[n]);
    }
    (a, b)
}

/// There is one way to do so: a text between white space that neither begins nor ends with
/// white space is what trimming leaves.
pub proof fn trim_is_what_stands_between(a: Seq<char>, t: Seq<char>, b: Seq<char>)
    requires
        all_space(a),
        all_space(b),
        t.len() > 0 ==> !is_space(t[0]) && !is_space(t.last()),
    ensures
        trim(a + t + b) == t,
{
    let s = a + t + b;
    let n = if t.len() > 0 {
        a.len() as int
    } else {
        s.len() as int
    };
    assert forall|i: int| 0 <= i < n implies !(not_space())(#[trigger] s[i]) by {
        if i < a.len() {
            assert(s[i] == a[i]);
        } else {
            assert(s[i] == b[i - a.len()]);
        }
    }
    if t.len() > 0 {
        assert(s[n] == t[0]);
    }
    lemma_find_where_is(s, not_space(), 0, n);
    let rest = s.skip(n);
    lemma_trim_end(rest);
    if t.len() > 0 {
        assert(rest =~= t + b);
        let m = trim_end(rest).len() as int;
        if m < t.len() {
            assert(rest.skip(m)[t.len() - 1 - m] == t.last());
        } else if m > t.len() {
            assert(trim_end(rest).last() == b[m - 1 - t.len()]);
        }
        assert(rest.take(t.len() as int) =~= t);
    } else {
        assert(rest =~= t);
    }
}

/// Nothing is left of a text exactly if all of it is white space.
pub proof fn nothing_is_left_of_white_space(s: Seq<char>)
    ensures
        trim(s).len() == 0 <==> all_space(s),
{
    let (a, b) = trim_takes_off_white_space(s);
    if trim(s).len() == 0 {
        assert forall|i: int| 0 <= i < s.len() implies is_space(#[trigger] s[i]) by {
            if i < a.len() {
                assert(s[i] == a[i]);
            } else {
                assert(s[i] == b[i - a.len()]);
            }
        }
    } else {
        assert(s[a.len() as int] == trim(s)[0]);
    }
}

/// A text is blank exactly if all of it is white space.
pub proof fn blank_is_all_white_space(s: &str, res: bool)
    requires
        call_ensures(is_blank, (s,), res),
    ensures
        res <==> all_space(s@),
{
    nothing_is_left_of_white_space(s@);
}

/// What `trimmed` gives is the text without the white space at its ends.
pub proof fn trimmed_takes_off_white_space(s: &str, res: String)
    requires
        call_ensures(trimmed, (s,), res),
    ensures
        exists|a: Seq<char>, b: Seq<char>|
            #[trigger] (a + res@ + b) == s@ && all_space(a) && all_space(b),
        res@.len() > 0 ==> !is_space(res@[0]) && !is_space(res@.last()),
{
    let (a, b) = trim_takes_off_white_space(s@);
    assert(a + res@ + b == s@);
}

/// None of the texts holds the character.
pub open spec fn all_lack(parts: Seq<Seq<char>>, c: char) -> bool {
    forall|i: int| 0 <= i < parts.len() ==> !(#[trigger] parts[i]).contains(c)
}

/// Joined texts, from the front.
proof fn lemma_join_first(parts: Seq<Seq<char>>, sep: Seq<char>)
    requires
        parts.len() > 1,
    ensures
        join(parts, sep) == parts[0] + sep + join(parts.skip(1), sep),
    decreases parts.len(),
{
    let rest = parts.skip(1);
    if parts.len() == 2 {
        assert(parts.drop_last() =~= seq![parts[0]]);
        assert(rest =~= seq![parts[1]]);
        assert(join(parts.drop_last(), sep) == parts[0]);
        assert(join(rest, sep) == parts[1]);
    } else {
        lemma_join_first(parts.drop_last(), sep);
        assert(parts.drop_last().skip(1) =~= rest.drop_last());
        let mid = join(rest.drop_last(), sep);
        assert(join(rest, sep) == mid + sep + parts.last());
        assert(join(parts, sep) =~= parts[0] + sep + (mid + sep + parts.last()));
    }
}

/// Joining puts the separator between neighbours and nowhere else: one text stays as it is,
/// and one more text comes behind a separator.
pub proof fn join_puts_separators_between(parts: Seq<Seq<char>>, more: Seq<char>, sep: Seq<char>)
    ensures
        join(seq![more], sep) == more,
        parts.len() > 0 ==> join(parts.push(more), sep) == join(parts, sep) + sep + more,
        join(Seq::<Seq<char>>::empty(), sep).len() == 0,
{
    assert(parts.push(more).drop_last() =~= parts);
}

/// Splitting undoes joining, for texts that do not hold the separator.
pub proof fn splitting_undoes_joining(parts: Seq<Seq<char>>, sep: char)
    requires
        parts.len() > 0,
        all_lack(parts, sep),
    ensures
        pieces(join(parts, seq![sep]), sep) == parts,
    decreases parts.len(),
{
    let s = join(parts, seq![sep]);
    let x = parts[0];
    assert(!x.contains(sep));
    let n = x.len() as int;
    if parts.len() == 1 {
        assert forall|j: int| 0 <= j < n implies !(equals(sep))(#[trigger] s[j]) by {
            if s[j] == sep {
                assert(x.contains(sep));
            }
        }
        lemma_find_where_is(s, equals(sep), 0, n);
        assert(pieces(s, sep) =~= parts);
    } else {
        let rest = parts.skip(1);
        lemma_join_first(parts, seq![sep]);
        assert forall|i: int| 0 <= i < rest.len() implies !(#[trigger] rest[i]).contains(sep) by {
            assert(rest[i] == parts[i + 1]);
        }
        splitting_undoes_joining(rest, sep);
        let y = join(rest, seq![sep]);
        assert forall|j: int| 0 <= j < n implies !(equals(sep))(#[trigger] s[j]) by {
            assert(s[j] == x[j]);
            if x[j] == sep {
                assert(x.contains(sep));
            }
        }
        assert(s[n] == sep);
        lemma_find_where_is(s, equals(sep), 0, n);
        assert(s.take(n) =~= x);
        assert(s.skip(n + 1) =~= y);
        assert(pieces(s, sep) =~= seq![x] + rest);
        assert(seq![x] + rest =~= parts);
    }
}

/// Joining undoes splitting, and no piece holds the separator.
pub proof fn joining_undoes_splitting(s: Seq<char>, sep: char)
    ensures
        pieces(s, sep).len() > 0,
        all_lack(pieces(s, sep), sep),
        join(pieces(s, sep), seq![sep]) == s,
    decreases s.len(),
{
    let i = find_where(s, equals(sep), 0);
    lemma_find_where(s, equals(sep), 0);
    assert forall|j: int| 0 <= j < i implies s[j] != sep by {
        assert(!(equals(sep))(s[j]));
    }
    let ps = pieces(s, sep);
    if i < s.len() {
        let y = s.skip(i + 1);
        joining_undoes_splitting(y, sep);
        let rest = pieces(y, sep);
        assert(ps =~= seq![s.take(i)] + rest);
        assert(ps.skip(1) =~= rest);
        lemma_join_first(ps, seq![sep]);
        assert forall|j: int| 0 <= j < ps.len() implies !(#[trigger] ps[j]).contains(sep) by {
            if j > 0 {
                assert(ps[j] == rest[j - 1]);
            }
        }
        assert(s =~= s.take(i) + seq![sep] + y);
    } else {
        assert(ps =~= seq![s]);
    }
}

/// The lines of a text: one that a line feed follows is a line, without the carriage return
/// that may stand before the line feed; what follows the last line feed is a line unless it
/// is empty.
pub proof fn lines_end_at_line_feeds(x: Seq<char>, y: Seq<char>)
    requires
        !x.contains('\n'),
    ensures
        lines(x + seq!['\n'] + y) == seq![
            if x.len() > 0 && x.last() == '\r' {
                x.drop_last()
            } else {
                x
            },
        ] + lines(y),
        x.len() > 0 ==> lines(x) == seq![x],
        lines(Seq::<char>::empty()).len() == 0,
{
    let n = x.len() as int;
    let s = x + seq!['\n'] + y;
    assert forall|j: int| 0 <= j < n implies !(equals('\n'))(#[trigger] x[j]) by {
        if x[j] == '\n' {
            assert(x.contains('\n'));
        }
    }
    lemma_find_where_is(x, equals('\n'), 0, n);
    assert forall|j: int| 0 <= j < n implies !(equals('\n'))(#[trigger] s[j]) by {
        assert(s[j] == x[j]);
    }
    assert(s[n] == '\n');
    lemma_find_where_is(s, equals('\n'), 0, n);
    assert(s.take(n) =~= x);
    assert(s.skip(n + 1) =~= y);
}

/// What `joined_texts` gives: the texts with the separator between neighbours.
pub proof fn joined_texts_grow(
    parts: &Vec<String>,
    more: &Vec<String>,
    last: String,
    sep: &str,
    res: String,
    longer: String,
)
    requires
        parts@.len() > 0,
        more@ == parts@.push(last),
        call_ensures(joined_texts, (parts, sep), res),
        call_ensures(joined_texts, (more, sep), longer),
    ensures
        longer@ == res@ + sep@ + last@,
        parts@.len() == 1 ==> res@ == parts@[0]@,
{
    assert(texts(more@).drop_last() =~= texts(parts@));
    assert(texts(more@).last() == last@);
}

/// A name is at the position that is given for it, and no earlier position holds it; the
/// name at a position is the one that the list holds there.
pub proof fn positions_lead_to_names(names: Seq<Seq<char>>, name: Seq<char>, index: u32)
    requires
        names.len() > 0,
    ensures
        names.contains(name) ==> {
            let p = position(names, name, 0);
            &&& 0 <= p < names.len()
            &&& names[p] == name
            &&& forall|j: int| 0 <= j < p ==> #[trigger] names[j] != name
        },
        !names.contains(name) ==> position(names, name, 0) == 0,
        index < names.len() ==> name_at(names, index) == names[index as int],
        index >= names.len() ==> name_at(names, index) == names[0],
{
    lemma_position_first(names, name, 0);
}

proof fn lemma_position_first(names: Seq<Seq<char>>, name: Seq<char>, from: int)
    requires
        0 <= from,
    ensures
        (exists|i: int| from <= i < names.len() && names[i] == name) ==> {
            let p = position(names, name, from);
            &&& from <= p < names.len()
            &&& names[p] == name
            &&& forall|j: int| from <= j < p ==> #[trigger] names[j] != name
        },
        (forall|i: int| from <= i < names.len() ==> #[trigger] names[i] != name) ==> position(
            names,
            name,
            from,
        ) == 0,
    decreases names.len() - from,
{
    if from < names.len() && names[from] != name {
        lemma_position_first(names, name, from + 1);
    }
}

/// A number below ten is written as its digit, and one digit more stands for ten times the
/// number and the digit.
pub proof fn digits_are_written_from_the_front(
    n: u64,
    d: u64,
    more: u64,
    one: String,
    front: String,
    all: String,
)
    requires
        d < 10,
        0 < n,
        more == 10 * n + d,
        call_ensures(decimal_text, (d,), one),
        call_ensures(decimal_text, (n,), front),
        call_ensures(decimal_text, (more,), all),
    ensures
        one@.len() == 1,
        one@[0] as int == '0' as int + d,
        all@ == front@ + one@,
{
    assert(more / 10 == n && more % 10 == d);
    assert(all@ =~= front@ + one@);
}

/// A number of 16 bits is written as four digits, each `0` to `9` or `a` to `f`, of which the
/// first counts most.
pub proof fn hex_digits_stand_for_the_number(n: u16, res: String) -> (ds: Seq<int>)
    requires
        call_ensures(hex4_text, (n,), res),
    ensures
        res@.len() == 4,
        ds.len() == 4,
        n == ((ds[0] * 16 + ds[1]) * 16 + ds[2]) * 16 + ds[3],
        forall|i: int|
            0 <= i < 4 ==> 0 <= #[trigger] ds[i] < 16 && res@[i] as int == (if ds[i] < 10 {
                '0' as int + ds[i]
            } else {
                'a' as int + (ds[i] - 10)
            }),
{
    let m = n as int;
    let ds = seq![m / 4096, m / 256 % 16, m / 16 % 16, m % 16];
    assert forall|i: int| 0 <= i < 4 implies 0 <= #[trigger] ds[i] < 16 && res@[i] as int == (
    if ds[i] < 10 {
        '0' as int + ds[i]
    } else {
        'a' as int + (ds[i] - 10)
    }) by {
        assert(i == 0 || i == 1 || i == 2 || i == 3);
    }
    ds
}

/// The character is a decimal digit.
pub open spec fn is_digit(c: char) -> bool {
    '0' <= c <= '9'
}

/// A text that is no number: empty, a plus sign alone, or with something in it that is
/// neither a digit nor a plus sign at its beginning.
pub proof fn other_texts_are_no_numbers(s: Seq<char>, max: int)
    requires
        s.len() == 0 || (s.len() == 1 && s[0] == '+') || exists|i: int|
            0 <= i < s.len() && !is_digit(#[trigger] s[i]) && !(i == 0 && s[i] == '+'),
    ensures
        parsed(s, max).is_none(),
{
    let d = unsigned_part(s);
    if s.len() > 0 && !(s.len() == 1 && s[0] == '+') {
        let i = choose|i: int|
            0 <= i < s.len() && !is_digit(#[trigger] s[i]) && !(i == 0 && s[i] == '+');
        if s[0] == '+' {
            assert(d[i - 1] == s[i]);
        } else {
            assert(d[i] == s[i]);
        }
    }
}

/// One digit more makes ten times the number and the digit, if that is not too large; a plus
/// sign before a number changes nothing; and a number that is too large is none.
pub proof fn numbers_are_read_from_the_front(s: Seq<char>, c: char, max: int, other: int)
    requires
        is_digit(c),
        max >= 9,
        other >= 9,
    ensures
        parsed(seq![c], max) == Some(c as int - '0' as int),
        parsed(s, max) matches Some(v) ==> {
            let n = v * 10 + (c as int - '0' as int);
            &&& 0 <= v <= max
            &&& parsed(s.push(c), max) == (if n <= max {
                Some(n)
            } else {
                None
            })
            &&& s[0] != '+' ==> parsed(seq!['+'] + s, max) == Some(v)
            &&& parsed(s, other) == (if v <= other {
                Some(v)
            } else {
                None
            })
        },
{
    reveal_with_fuel(digits_value, 2);
    let one = seq![c];
    assert(one.drop_last() =~= Seq::empty());
    assert(unsigned_part(one) =~= one);
    assert(digit_value(one[0]).is_some());
    assert(digits_value(one) == c as int - '0' as int);
    if let Some(v) = parsed(s, max) {
        let d = unsigned_part(s);
        let longer = s.push(c);
        let e = unsigned_part(longer);
        assert(e =~= d.push(c));
        assert(e.drop_last() =~= d);
        assert forall|i: int| 0 <= i < e.len() implies digit_value(#[trigger] e[i]).is_some() by {
            if i < d.len() {
                assert(e[i] == d[i]);
            }
        }
        lemma_value_positive(d);
        assert(digits_value(e) == digits_value(d) * 10 + digit_value(c).unwrap());
        if s[0] != '+' {
            assert(unsigned_part(seq!['+'] + s) =~= s);
        }
    }
}

proof fn lemma_value_positive(d: Seq<char>)
    requires
        forall|i: int| 0 <= i < d.len() ==> digit_value(#[trigger] d[i]).is_some(),
    ensures
        digits_value(d) >= 0,
    decreases d.len(),
{
    if d.len() > 0 {
        let front = d.drop_last();
        assert forall|i: int| 0 <= i < front.len() implies digit_value(
            #[trigger] front[i],
        ).is_some() by {
            assert(front[i] == d[i]);
        }
        assert(digit_value(d[d.len() - 1]).is_some());
        lemma_value_positive(front);
    }
}

/// A text of digits is a number, if that is not too large.
pub proof fn digits_are_numbers(s: Seq<char>, max: int)
    requires
        s.len() > 0,
        forall|i: int| 0 <= i < s.len() ==> is_digit(#[trigger] s[i]),
        digits_value(s) <= max,
    ensures
        parsed(s, max).is_some(),
{
    assert(is_digit(s[0]));
    assert forall|i: int| 0 <= i < s.len() implies digit_value(#[trigger] s[i]).is_some() by {
        assert(is_digit(s[i]));
    }
}

/// A number that was written is read as that number.
pub proof fn written_numbers_are_read(n: u32, text: String, s: &str, res: Option<u32>)
    requires
        call_ensures(decimal_text, (n as u64,), text),
        s@ == text@,
        call_ensures(parse_u32, (s,), res),
    ensures
        res == Some(n),
{
    lemma_decimal(n as int);
    assert(digit_value(s@[0]).is_some());
}

/// The number of 16 bits that a text holds is the one of 32 bits, unless that is too large.
pub proof fn small_numbers_are_numbers(s: &str, small: Option<u16>, large: Option<u32>)
    requires
        call_ensures(parse_u16, (s,), small),
        call_ensures(parse_u32, (s,), large),
    ensures
        small.is_some() <==> large.is_some() && large.unwrap() <= 65535,
        small.is_some() ==> small.unwrap() == large.unwrap(),
{
}

} // verus!
