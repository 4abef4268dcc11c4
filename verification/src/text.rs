//! Character sequences: white space, searching, lines and pieces.
//!
//! A text is modelled as the sequence of its characters. The executable
//! functions read a text as a `Vec<char>`, so that an index names a character.
use vstd::prelude::*;
use vstd::string::StringExecFns;

verus! {

/// `String::push` appends one character to the end of the string.
pub assume_specification[ String::push ](string: &mut String, ch: char)
    ensures
        final(string)@ == old(string)@.push(ch),
;

/// Whether `c` has the Unicode property `White_Space`.
pub open spec fn is_space(c: char) -> bool {
    ||| '\u{9}' <= c <= '\u{d}'
    ||| c == ' '
    ||| c == '\u{85}'
    ||| c == '\u{a0}'
    ||| c == '\u{1680}'
    ||| '\u{2000}' <= c <= '\u{200a}'
    ||| c == '\u{2028}'
    ||| c == '\u{2029}'
    ||| c == '\u{202f}'
    ||| c == '\u{205f}'
    ||| c == '\u{3000}'
}

/// The first position at or after `from` whose character satisfies `p`, or the
/// length of `s` if there is none.
pub open spec fn find_where(s: Seq<char>, p: spec_fn(char) -> bool, from: int) -> int
    decreases s.len() - from,
{
    if 0 <= from < s.len() && !p(s[from]) {
        find_where(s, p, from + 1)
    } else {
        from
    }
}

pub open spec fn not_space() -> spec_fn(char) -> bool {
    |c: char| !is_space(c)
}

pub open spec fn equals(d: char) -> spec_fn(char) -> bool {
    |c: char| c == d
}

/// `s` without its leading white space.
pub open spec fn trim_start(s: Seq<char>) -> Seq<char> {
    s.skip(find_where(s, not_space(), 0))
}

/// `s` without its trailing white space.
pub open spec fn trim_end(s: Seq<char>) -> Seq<char>
    decreases s.len(),
{
    if s.len() > 0 && is_space(s.last()) {
        trim_end(s.drop_last())
    } else {
        s
    }
}

/// `s` without the white space at both ends.
pub open spec fn trim(s: Seq<char>) -> Seq<char> {
    trim_end(trim_start(s))
}

/// `part` stands in `s` at position `i`.
pub open spec fn occurs_at(s: Seq<char>, part: Seq<char>, i: int) -> bool {
    0 <= i && i + part.len() <= s.len() && s.subrange(i, i + part.len()) == part
}

/// `part` stands somewhere in `s`.
pub open spec fn has_part(s: Seq<char>, part: Seq<char>) -> bool {
    exists|i: int| occurs_at(s, part, i)
}

/// The first position at or after `from` at which `part` stands in `s`.
pub open spec fn find_part(s: Seq<char>, part: Seq<char>, from: int) -> Option<int>
    decreases s.len() + 1 - from,
{
    if from < 0 || from + part.len() > s.len() {
        None
    } else if occurs_at(s, part, from) {
        Some(from)
    } else {
        find_part(s, part, from + 1)
    }
}

/// `s` begins with `part`.
pub open spec fn begins_with(s: Seq<char>, part: Seq<char>) -> bool {
    occurs_at(s, part, 0)
}

/// A line without the carriage return that may stand before its line feed.
pub open spec fn strip_cr(line: Seq<char>) -> Seq<char> {
    if line.len() > 0 && line.last() == '\r' {
        line.drop_last()
    } else {
        line
    }
}

/// The lines of `s`. A line ends with a line feed, or with a carriage return and
/// a line feed; the last line may lack its ending.
pub open spec fn lines(s: Seq<char>) -> Seq<Seq<char>>
    decreases s.len(),
{
    if s.len() == 0 {
        Seq::empty()
    } else {
        let i = find_where(s, equals('\n'), 0);
        if 0 <= i < s.len() {
            seq![strip_cr(s.take(i))] + lines(s.skip(i + 1))
        } else {
            seq![s]
        }
    }
}

/// The pieces of `s` between the separators `sep`; one piece more than there are
/// separators.
pub open spec fn pieces(s: Seq<char>, sep: char) -> Seq<Seq<char>>
    decreases s.len(),
{
    let i = find_where(s, equals(sep), 0);
    if 0 <= i < s.len() {
        seq![s.take(i)] + pieces(s.skip(i + 1), sep)
    } else {
        seq![s]
    }
}

/// The parts one after the other, with `sep` between neighbours.
pub open spec fn join(parts: Seq<Seq<char>>, sep: Seq<char>) -> Seq<char>
    decreases parts.len(),
{
    if parts.len() == 0 {
        Seq::empty()
    } else if parts.len() == 1 {
        parts[0]
    } else {
        join(parts.drop_last(), sep) + sep + parts.last()
    }
}

/// The texts that a vector of character vectors holds.
pub open spec fn views(v: Seq<Vec<char>>) -> Seq<Seq<char>> {
    Seq::new(v.len(), |i: int| v[i]@)
}

/// The texts that a vector of strings holds.
pub open spec fn texts(v: Seq<String>) -> Seq<Seq<char>> {
    Seq::new(v.len(), |i: int| v[i]@)
}

/// What `find_where` says of its result.
pub proof fn lemma_find_where(s: Seq<char>, p: spec_fn(char) -> bool, from: int)
    requires
        0 <= from <= s.len(),
    ensures
        from <= find_where(s, p, from) <= s.len(),
        forall|j: int| from <= j < find_where(s, p, from) ==> !p(#[trigger] s[j]),
        find_where(s, p, from) < s.len() ==> p(s[find_where(s, p, from)]),
    decreases s.len() - from,
{
    if from < s.len() && !p(s[from]) {
        lemma_find_where(s, p, from + 1);
    }
}

/// A position that satisfies `p`, or the end, with none before it that does, is the
/// result of `find_where`.
pub proof fn lemma_find_where_is(s: Seq<char>, p: spec_fn(char) -> bool, from: int, at: int)
    requires
        0 <= from <= at <= s.len(),
        forall|j: int| from <= j < at ==> !p(#[trigger] s[j]),
        at < s.len() ==> p(s[at]),
    ensures
        find_where(s, p, from) == at,
{
    lemma_find_where(s, p, from);
}

/// What `find_part` says of its result.
pub proof fn lemma_find_part(s: Seq<char>, part: Seq<char>, from: int)
    requires
        0 <= from,
    ensures
        match find_part(s, part, from) {
            Some(i) => from <= i && occurs_at(s, part, i) && forall|j: int|
                from <= j < i ==> !occurs_at(s, part, j),
            None => forall|j: int| from <= j ==> !occurs_at(s, part, j),
        },
    decreases s.len() + 1 - from,
{
    if from + part.len() <= s.len() && !occurs_at(s, part, from) {
        lemma_find_part(s, part, from + 1);
    }
}

/// The characters of `s`.
pub fn chars_of(s: &str) -> (res: Vec<char>)
    ensures
        res@ == s@,
{
    let mut res: Vec<char> = Vec::new();
    for c in it: s.chars()
        invariant
            res@ == it.seq().take(it.index()),
            it.seq() == s@,
    {
        res.push(c);
    }
    res
}

/// The string of the characters `s[from..to]`.
pub fn string_of(s: &[char], from: usize, to: usize) -> (res: String)
    requires
        from <= to <= s@.len(),
    ensures
        res@ == s@.subrange(from as int, to as int),
{
    let mut res = String::new();
    let mut i: usize = from;
    while i < to
        invariant
            from <= i <= to <= s@.len(),
            res@ == s@.subrange(from as int, i as int),
        decreases to - i,
    {
        res.push(s[i]);
        i = i + 1;
    }
    res
}

pub fn space(c: char) -> (res: bool)
    ensures
        res == is_space(c),
{
    ('\u{9}' <= c && c <= '\u{d}') || c == ' ' || c == '\u{85}' || c == '\u{a0}' || c == '\u{1680}'
        || ('\u{2000}' <= c && c <= '\u{200a}') || c == '\u{2028}' || c == '\u{2029}' || c
        == '\u{202f}' || c == '\u{205f}' || c == '\u{3000}'
}

/// The first position at or after `from` that holds no white space.
fn find_not_space(s: &[char], from: usize) -> (res: usize)
    requires
        from <= s@.len(),
    ensures
        from <= res <= s@.len(),
        res == find_where(s@, not_space(), from as int),
{
    let mut i: usize = from;
    while i < s.len() && space(s[i])
        invariant
            from <= i <= s@.len(),
            forall|j: int| from <= j < i ==> is_space(#[trigger] s@[j]),
        decreases s@.len() - i,
    {
        i = i + 1;
    }
    proof {
        lemma_find_where_is(s@, not_space(), from as int, i as int);
    }
    i
}

/// The first position at or after `from` that holds `c`, or the end.
pub fn find_char(s: &[char], c: char, from: usize) -> (res: usize)
    requires
        from <= s@.len(),
    ensures
        from <= res <= s@.len(),
        res == find_where(s@, equals(c), from as int),
{
    let mut i: usize = from;
    while i < s.len() && s[i] != c
        invariant
            from <= i <= s@.len(),
            forall|j: int| from <= j < i ==> #[trigger] s@[j] != c,
        decreases s@.len() - i,
    {
        i = i + 1;
    }
    proof {
        lemma_find_where_is(s@, equals(c), from as int, i as int);
    }
    i
}

/// How many characters of leading white space `s` has.
pub fn indent_of(s: &[char]) -> (res: usize)
    ensures
        res <= s@.len(),
        s@.skip(res as int) == trim_start(s@),
{
    find_not_space(s, 0)
}

/// The range of `s` that remains without the white space at both ends.
pub fn trim_range(s: &[char]) -> (res: (usize, usize))
    ensures
        res.0 <= res.1 <= s@.len(),
        s@.subrange(res.0 as int, res.1 as int) == trim(s@),
{
    let lo: usize = find_not_space(s, 0);
    let mut hi: usize = s.len();
    proof {
        assert(s@.subrange(lo as int, hi as int) == trim_start(s@));
    }
    while hi > lo && space(s[hi - 1])
        invariant
            lo <= hi <= s@.len(),
            trim_end(s@.subrange(lo as int, hi as int)) == trim(s@),
        decreases hi,
    {
        proof {
            let t = s@.subrange(lo as int, hi as int);
            assert(t.drop_last() == s@.subrange(lo as int, hi - 1));
            assert(t.last() == s@[hi - 1]);
        }
        hi = hi - 1;
    }
    proof {
        let t = s@.subrange(lo as int, hi as int);
        if hi > lo {
            assert(t.last() == s@[hi - 1]);
        }
    }
    (lo, hi)
}

/// The text without the white space at both ends.
pub fn trimmed(s: &str) -> (res: String)
    ensures
        res@ == trim(s@),
{
    let chars: Vec<char> = chars_of(s);
    let (lo, hi): (usize, usize) = trim_range(&chars);
    string_of(&chars, lo, hi)
}

/// Whether nothing but white space stands in the text.
pub fn is_blank(s: &str) -> (res: bool)
    ensures
        res == (trim(s@).len() == 0),
{
    let chars: Vec<char> = chars_of(s);
    let (lo, hi): (usize, usize) = trim_range(&chars);
    lo == hi
}

/// Whether `part` stands in `s` at position `at`.
pub fn stands_at(s: &[char], part: &[char], at: usize) -> (res: bool)
    requires
        at <= s@.len(),
    ensures
        res == occurs_at(s@, part@, at as int),
{
    if s.len() - at < part.len() {
        return false;
    }
    let mut i: usize = 0;
    while i < part.len()
        invariant
            i <= part@.len(),
            at + part@.len() <= s@.len() <= usize::MAX,
            forall|j: int| 0 <= j < i ==> s@[at + j] == #[trigger] part@[j],
        decreases part@.len() - i,
    {
        if s[at + i] != part[i] {
            proof {
                let sub = s@.subrange(at as int, at + part@.len());
                assert(sub[i as int] == s@[at + i]);
            }
            return false;
        }
        i = i + 1;
    }
    proof {
        assert(s@.subrange(at as int, at + part@.len()) =~= part@);
    }
    true
}

/// The first position at or after `from` at which `part` stands in `s`.
pub fn find(s: &[char], part: &[char], from: usize) -> (res: Option<usize>)
    requires
        from <= s@.len(),
    ensures
        res.is_some() == find_part(s@, part@, from as int).is_some(),
        res matches Some(i) ==> i + part@.len() <= s@.len() && find_part(s@, part@, from as int)
            == Some(i as int),
{
    let mut i: usize = from;
    while i <= s.len() && part.len() <= s.len() - i
        invariant
            from <= i <= s@.len() + 1,
            i <= s@.len() ==> find_part(s@, part@, from as int) == find_part(s@, part@, i as int),
            i > s@.len() ==> find_part(s@, part@, from as int).is_none(),
        decreases s@.len() + 1 - i,
    {
        if stands_at(s, part, i) {
            return Some(i);
        }
        if i == s.len() {
            proof {
                reveal_with_fuel(find_part, 2);
            }
            return None;
        }
        i = i + 1;
    }
    None
}

/// Whether `part` stands anywhere in `s`.
pub fn contains(s: &str, part: &str) -> (res: bool)
    ensures
        res == has_part(s@, part@),
{
    let chars: Vec<char> = chars_of(s);
    let wanted: Vec<char> = chars_of(part);
    proof {
        lemma_find_part(s@, part@, 0);
    }
    match find(&chars, &wanted, 0) {
        Some(_) => true,
        None => {
            proof {
                assert forall|i: int| !occurs_at(s@, part@, i) by {
                    if i < 0 {
                    }
                }
            }
            false
        },
    }
}

/// Whether `s` begins with `part`.
pub fn has_prefix(s: &str, part: &str) -> (res: bool)
    ensures
        res == begins_with(s@, part@),
{
    let chars: Vec<char> = chars_of(s);
    let wanted: Vec<char> = chars_of(part);
    stands_at(&chars, &wanted, 0)
}

/// Searching behind position `k` is searching in what stands behind it.
pub proof fn lemma_find_where_skip(s: Seq<char>, p: spec_fn(char) -> bool, k: int)
    requires
        0 <= k <= s.len(),
    ensures
        find_where(s.skip(k), p, 0) == find_where(s, p, k) - k,
{
    let at = find_where(s, p, k);
    lemma_find_where(s, p, k);
    assert forall|j: int| 0 <= j < at - k implies !p(#[trigger] s.skip(k)[j]) by {
        assert(s.skip(k)[j] == s[k + j]);
    }
    if at < s.len() {
        assert(s.skip(k)[at - k] == s[at]);
    }
    lemma_find_where_is(s.skip(k), p, 0, at - k);
}

/// The one position that `find_part` can give.
pub proof fn lemma_find_part_is(s: Seq<char>, part: Seq<char>, from: int, at: int)
    requires
        0 <= from <= at,
        occurs_at(s, part, at),
        forall|j: int| from <= j < at ==> !occurs_at(s, part, j),
    ensures
        find_part(s, part, from) == Some(at),
{
    lemma_find_part(s, part, from);
}

/// Where `part` stands behind position `k`, it stands in what is behind it.
pub proof fn lemma_occurs_skip(s: Seq<char>, part: Seq<char>, k: int, i: int)
    requires
        0 <= k <= s.len(),
        0 <= i,
    ensures
        occurs_at(s.skip(k), part, i) == occurs_at(s, part, k + i),
{
    if k + i + part.len() <= s.len() {
        assert(s.skip(k).subrange(i, i + part.len()) =~= s.subrange(k + i, k + i + part.len()));
    }
}

/// Searching for `part` behind position `k` is searching in what stands behind it.
pub proof fn lemma_find_part_skip(s: Seq<char>, part: Seq<char>, k: int)
    requires
        0 <= k <= s.len(),
    ensures
        match find_part(s, part, k) {
            Some(i) => find_part(s.skip(k), part, 0) == Some(i - k),
            None => find_part(s.skip(k), part, 0) == None::<int>,
        },
{
    lemma_find_part(s, part, k);
    lemma_find_part(s.skip(k), part, 0);
    match find_part(s, part, k) {
        Some(i) => {
            lemma_occurs_skip(s, part, k, i - k);
            assert forall|j: int| 0 <= j < i - k implies !occurs_at(s.skip(k), part, j) by {
                lemma_occurs_skip(s, part, k, j);
            }
            lemma_find_part_is(s.skip(k), part, 0, i - k);
        },
        None => {
            assert forall|j: int| 0 <= j implies !occurs_at(s.skip(k), part, j) by {
                lemma_occurs_skip(s, part, k, j);
            }
        },
    }
}

/// The characters `s[from..to]` as a vector of their own.
pub fn copy_range(s: &[char], from: usize, to: usize) -> (res: Vec<char>)
    requires
        from <= to <= s@.len(),
    ensures
        res@ == s@.subrange(from as int, to as int),
{
    let mut res: Vec<char> = Vec::new();
    let mut i: usize = from;
    while i < to
        invariant
            from <= i <= to <= s@.len(),
            res@ == s@.subrange(from as int, i as int),
        decreases to - i,
    {
        res.push(s[i]);
        i = i + 1;
    }
    res
}

/// A vector with the characters of `s`.
pub fn copy_all(s: &[char]) -> (res: Vec<char>)
    ensures
        res@ == s@,
{
    let res: Vec<char> = copy_range(s, 0, s.len());
    proof {
        assert(s@.subrange(0, s@.len() as int) =~= s@);
    }
    res
}

/// The lines of `s`.
pub fn lines_of(s: &[char]) -> (res: Vec<Vec<char>>)
    ensures
        views(res@) == lines(s@),
{
    let mut res: Vec<Vec<char>> = Vec::new();
    let mut pos: usize = 0;
    proof {
        assert(s@.skip(0) == s@);
    }
    while pos < s.len()
        invariant
            pos <= s@.len(),
            lines(s@) == views(res@) + lines(s@.skip(pos as int)),
        decreases s@.len() - pos,
    {
        let end: usize = find_char(s, '\n', pos);
        let ghost rest = s@.skip(pos as int);
        let ghost before = res@;
        proof {
            lemma_find_where_skip(s@, equals('\n'), pos as int);
        }
        if end < s.len() {
            let cut: usize = if end > pos && s[end - 1] == '\r' {
                end - 1
            } else {
                end
            };
            let line: Vec<char> = copy_range(s, pos, cut);
            proof {
                let whole = rest.take(end - pos);
                assert(whole == s@.subrange(pos as int, end as int));
                if end > pos {
                    assert(whole.last() == s@[end - 1]);
                }
                assert(line@ =~= strip_cr(whole));
                assert(rest.skip(end - pos + 1) =~= s@.skip(end + 1));
            }
            res.push(line);
            proof {
                assert(views(res@) =~= views(before) + seq![line@]);
                assert(lines(s@) =~= views(res@) + lines(s@.skip(end + 1)));
            }
            pos = end + 1;
        } else {
            let line: Vec<char> = copy_range(s, pos, end);
            res.push(line);
            proof {
                assert(line@ =~= rest);
                assert(views(res@) =~= views(before) + seq![rest]);
                assert(s@.skip(end as int) =~= Seq::<char>::empty());
                assert(lines(s@) =~= views(res@) + lines(s@.skip(end as int)));
            }
            pos = end;
        }
    }
    proof {
        assert(s@.skip(pos as int) =~= Seq::<char>::empty());
        assert(lines(s@) =~= views(res@));
    }
    res
}

/// The pieces of `s` between the separators `sep`.
pub fn pieces_of(s: &[char], sep: char) -> (res: Vec<Vec<char>>)
    ensures
        views(res@) == pieces(s@, sep),
        res@.len() > 0,
{
    let mut res: Vec<Vec<char>> = Vec::new();
    let mut pos: usize = 0;
    proof {
        assert(s@.skip(0) == s@);
        assert(views(res@) + pieces(s@, sep) =~= pieces(s@, sep));
    }
    let mut end: usize = find_char(s, sep, 0);
    while end < s.len()
        invariant
            pos <= end <= s@.len(),
            end == find_where(s@, equals(sep), pos as int),
            pieces(s@, sep) == views(res@) + pieces(s@.skip(pos as int), sep),
        decreases s@.len() - pos,
    {
        let ghost rest = s@.skip(pos as int);
        let ghost before = res@;
        let piece: Vec<char> = copy_range(s, pos, end);
        res.push(piece);
        proof {
            lemma_find_where_skip(s@, equals(sep), pos as int);
            assert(piece@ =~= rest.take(end - pos));
            assert(rest.skip(end - pos + 1) =~= s@.skip(end + 1));
            assert(views(res@) =~= views(before) + seq![piece@]);
            assert(pieces(s@, sep) =~= views(res@) + pieces(s@.skip(end + 1), sep));
        }
        pos = end + 1;
        end = find_char(s, sep, pos);
    }
    let ghost before = res@;
    let piece: Vec<char> = copy_range(s, pos, end);
    res.push(piece);
    proof {
        lemma_find_where_skip(s@, equals(sep), pos as int);
        assert(piece@ =~= s@.skip(pos as int));
        assert(views(res@) =~= views(before) + seq![piece@]);
    }
    res
}

/// Appends the characters of `part` to `out`.
pub fn push_chars(out: &mut String, part: &[char])
    ensures
        final(out)@ == old(out)@ + part@,
{
    let mut i: usize = 0;
    proof {
        assert(out@ =~= old(out)@ + part@.take(0));
    }
    while i < part.len()
        invariant
            i <= part@.len(),
            out@ == old(out)@ + part@.take(i as int),
        decreases part@.len() - i,
    {
        out.push(part[i]);
        proof {
            assert(out@ =~= old(out)@ + part@.take(i + 1));
        }
        i = i + 1;
    }
    proof {
        assert(part@.take(i as int) =~= part@);
    }
}

/// The parts one after the other, with `sep` between neighbours.
pub fn joined(parts: &Vec<Vec<char>>, sep: &str) -> (res: String)
    ensures
        res@ == join(views(parts@), sep@),
{
    let mut res = String::new();
    let mut i: usize = 0;
    while i < parts.len()
        invariant
            i <= parts@.len(),
            res@ == join(views(parts@).take(i as int), sep@),
        decreases parts@.len() - i,
    {
        let ghost done = views(parts@).take(i as int);
        if i > 0 {
            res.append(sep);
        }
        push_chars(&mut res, &parts[i]);
        proof {
            let more = views(parts@).take(i + 1);
            assert(more.drop_last() =~= done);
            assert(more.last() == parts@[i as int]@);
        }
        i = i + 1;
    }
    proof {
        assert(views(parts@).take(i as int) =~= views(parts@));
    }
    res
}

/// The texts one after the other, with `sep` between neighbours.
pub fn joined_texts(parts: &Vec<String>, sep: &str) -> (res: String)
    ensures
        res@ == join(texts(parts@), sep@),
{
    let mut res = String::new();
    let mut i: usize = 0;
    while i < parts.len()
        invariant
            i <= parts@.len(),
            res@ == join(texts(parts@).take(i as int), sep@),
        decreases parts@.len() - i,
    {
        let ghost done = texts(parts@).take(i as int);
        if i > 0 {
            res.append(sep);
        }
        res.append(parts[i].as_str());
        proof {
            let more = texts(parts@).take(i + 1);
            assert(more.drop_last() =~= done);
            assert(more.last() == parts@[i as int]@);
        }
        i = i + 1;
    }
    proof {
        assert(texts(parts@).take(i as int) =~= texts(parts@));
    }
    res
}

/// Whether two texts are the same.
pub fn same_text(a: &str, b: &str) -> (res: bool)
    ensures
        res == (a@ == b@),
{
    let x: Vec<char> = chars_of(a);
    let y: Vec<char> = chars_of(b);
    if x.len() != y.len() {
        return false;
    }
    proof {
        assert(x@.subrange(0, y@.len() as int) =~= x@);
    }
    stands_at(&x, &y, 0)
}

/// Two texts, one behind the other.
pub fn beside(first: &str, second: &str) -> (res: String)
    ensures
        res@ == first@ + second@,
{
    let mut out: String = first.to_string();
    out.append(second);
    out
}

/// Three texts, one behind the other.
pub fn wrap(before: &str, middle: &str, after: &str) -> (res: String)
    ensures
        res@ == before@ + middle@ + after@,
{
    let mut out: String = before.to_string();
    out.append(middle);
    out.append(after);
    out
}

/// Whether one of the texts is `wanted`.
pub fn holds_text(all: &Vec<String>, wanted: &str) -> (res: bool)
    ensures
        res == texts(all@).contains(wanted@),
{
    let mut i: usize = 0;
    while i < all.len()
        invariant
            i <= all@.len(),
            forall|j: int| 0 <= j < i ==> #[trigger] all@[j]@ != wanted@,
        decreases all@.len() - i,
    {
        if same_text(all[i].as_str(), wanted) {
            proof {
                assert(texts(all@)[i as int] == wanted@);
            }
            return true;
        }
        i = i + 1;
    }
    proof {
        assert forall|j: int| 0 <= j < texts(all@).len() implies texts(all@)[j] != wanted@ by {
            assert(texts(all@)[j] == all@[j]@);
        }
    }
    false
}

/// What `str::to_lowercase` makes of a text.
pub uninterp spec fn lowercase(s: Seq<char>) -> Seq<char>;

/// The text in lower case, by `str::to_lowercase` of the standard library: the result
/// depends on the text alone. Which characters it holds is not stated.
#[verifier::external_body]
pub(crate) fn lowered(s: &str) -> (res: String)
    ensures
        res@ == lowercase(s@),
{
    s.to_lowercase()
}

/// Whether a title holds what is searched for, both in lower case.
pub fn lowered_matches(title: &str, wanted: &str) -> (res: bool)
    ensures
        res == has_part(title@, wanted@),
{
    contains(title, wanted)
}

/// The first position of `name` in a list, or 0.
pub open spec fn position(names: Seq<Seq<char>>, name: Seq<char>, from: int) -> int
    decreases names.len() - from,
{
    if from < 0 || from >= names.len() {
        0
    } else if names[from] == name {
        from
    } else {
        position(names, name, from + 1)
    }
}

/// The name at a position of a list, or the first one.
pub open spec fn name_at(names: Seq<Seq<char>>, index: u32) -> Seq<char> {
    if index < names.len() {
        names[index as int]
    } else {
        names[0]
    }
}

/// The position of a name that is in a list is the position of that name.
pub proof fn lemma_position(names: Seq<Seq<char>>, name: Seq<char>, from: int)
    requires
        0 <= from,
        exists|i: int| from <= i < names.len() && names[i] == name,
    ensures
        from <= position(names, name, from) < names.len(),
        names[position(names, name, from)] == name,
    decreases names.len() - from,
{
    if names[from] != name {
        lemma_position(names, name, from + 1);
    }
}

/// A name that is not in a list has the position of the first.
pub proof fn unlisted_names_become_the_first(names: Seq<Seq<char>>, name: Seq<char>, from: int)
    requires
        !names.contains(name),
        0 <= from,
    ensures
        position(names, name, from) == 0,
    decreases names.len() - from,
{
    if from < names.len() {
        unlisted_names_become_the_first(names, name, from + 1);
    }
}

} // verus!
