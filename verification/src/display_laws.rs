//! What holds of a launch script whose display settings are written and read again.
use crate::display_dialog::{
    backends, display_option, display_value, ends_word, first_settings, is_display_line,
    line_settings, replace_displays, script_settings, spice_socket, value_settings, with_display,
};
use crate::text::{
    begins_with, equals, find_part, find_where, has_part, is_space, lemma_find_part,
    lemma_find_part_is, lemma_find_where, lemma_find_where_is, lines, name_at, not_space,
    occurs_at, pieces, position, strip_cr, trim_start,
};
use vstd::prelude::*;

verus! {

/// A backend whose name can stand as the value of a `-display` option: it is not empty,
/// nothing in it ends a word or a part of the value, and no option begins inside it.
pub open spec fn plain_backend(backend: Seq<char>) -> bool {
    &&& backend.len() > 0
    &&& forall|i: int|
        0 <= i < backend.len() ==> {
            let c = #[trigger] backend[i];
            &&& !is_space(c)
            &&& c != '\\'
            &&& c != ','
            &&& c != '='
            &&& c == '-' ==> i + 1 < backend.len() && backend[i + 1] != 'd' && backend[i + 1] != 's'
        }
}

/// The characters of `-display ` that the proofs look at.
pub proof fn lemma_option()
    ensures
        display_option().len() == 9,
        display_option()[0] == '-',
        display_option()[1] == 'd',
        display_option()[8] == ' ',
        forall|k: int| 1 <= k < 9 ==> #[trigger] display_option()[k] != '-',
        forall|k: int| 0 <= k < 8 ==> !is_space(#[trigger] display_option()[k]),
        forall|k: int| 0 <= k < 9 ==> #[trigger] display_option()[k] != '\\',
{
    let d = display_option();
    reveal_strlit("-display ");
    reveal_with_fuel(find_where, 10);
    assert(find_where(d, equals('-'), 1) == 9);
    lemma_find_where(d, equals('-'), 1);
    assert(find_where(d, equals('\\'), 0) == 9);
    lemma_find_where(d, equals('\\'), 0);
    assert(find_where(d, |c: char| is_space(c), 0) == 8);
    lemma_find_where(d, |c: char| is_space(c), 0);
    assert forall|k: int| 1 <= k < 9 implies #[trigger] d[k] != '-' by {
        assert(!(equals('-'))(d[k]));
    }
    assert forall|k: int| 0 <= k < 9 implies #[trigger] d[k] != '\\' by {
        assert(!(equals('\\'))(d[k]));
    }
}

/// The characters of the SPICE argument that the proofs look at.
pub proof fn lemma_socket()
    ensures
        spice_socket().len() == 35,
        spice_socket()[0] == '-',
        spice_socket()[1] == 's',
        spice_socket()[2] == 'p',
        forall|k: int| 1 <= k < 35 ==> #[trigger] spice_socket()[k] != '-',
        forall|k: int| 0 <= k < 35 ==> #[trigger] spice_socket()[k] != '\n',
        forall|k: int| 0 <= k < 35 ==> #[trigger] spice_socket()[k] != '\r',
{
    let d = spice_socket();
    reveal_strlit("-spice unix,addr=$VM_DIR/spice.sock");
    reveal_with_fuel(find_where, 36);
    assert(find_where(d, equals('-'), 1) == 35);
    lemma_find_where(d, equals('-'), 1);
    assert(find_where(d, equals('\n'), 0) == 35);
    lemma_find_where(d, equals('\n'), 0);
    assert(find_where(d, equals('\r'), 0) == 35);
    lemma_find_where(d, equals('\r'), 0);
    assert forall|k: int| 1 <= k < 35 implies #[trigger] d[k] != '-' by {
        assert(!(equals('-'))(d[k]));
    }
    assert forall|k: int| 0 <= k < 35 implies #[trigger] d[k] != '\n' by {
        assert(!(equals('\n'))(d[k]));
    }
    assert forall|k: int| 0 <= k < 35 implies #[trigger] d[k] != '\r' by {
        assert(!(equals('\r'))(d[k]));
    }
}

/// A `-display` argument as the dialog writes it.
pub open spec fn display_arg(backend: Seq<char>, gl: bool, fullscreen: bool) -> Seq<char> {
    display_option() + display_value(backend, gl, fullscreen)
}

/// A value in which no word ends, and in which neither `-display` nor the SPICE argument
/// begins.
pub open spec fn plain_value(v: Seq<char>) -> bool {
    &&& v.len() > 0
    &&& forall|i: int|
        0 <= i < v.len() ==> {
            let c = #[trigger] v[i];
            &&& !(ends_word())(c)
            &&& c == '-' ==> i + 1 < v.len() && v[i + 1] != 'd' && (v[i + 1] == 's' ==> i + 2
                < v.len() && v[i + 2] == 'c')
        }
}

/// The value for a plain backend is plain.
pub proof fn lemma_value(backend: Seq<char>, gl: bool, fullscreen: bool)
    requires
        plain_backend(backend),
    ensures
        plain_value(display_value(backend, gl, fullscreen)),
{
    let v = display_value(backend, gl, fullscreen);
    let g = ",gl=on"@;
    let f = ",full-screen=on"@;
    reveal_strlit(",gl=on");
    reveal_strlit(",full-screen=on");
    let n = backend.len() as int;
    let m = if gl {
        n + 6
    } else {
        n
    };
    assert forall|i: int| 0 <= i < v.len() implies {
        let c = #[trigger] v[i];
        &&& !(ends_word())(c)
        &&& c == '-' ==> i + 1 < v.len() && v[i + 1] != 'd' && (v[i + 1] == 's' ==> i + 2 < v.len()
            && v[i + 2] == 'c')
    } by {
        if i < n {
            assert(v[i] == backend[i]);
            if v[i] == '-' {
                assert(v[i + 1] == backend[i + 1]);
            }
        } else if i < m {
            let k = i - n;
            assert(v[i] == g[k]);
            assert(k == 0 || k == 1 || k == 2 || k == 3 || k == 4 || k == 5);
        } else {
            let k = i - m;
            assert(v[i] == f[k]);
            assert(k == 0 || k == 1 || k == 2 || k == 3 || k == 4 || k == 5 || k == 6 || k == 7
                || k == 8 || k == 9 || k == 10 || k == 11 || k == 12 || k == 13 || k == 14);
            if k == 5 {
                assert(v[i + 1] == f[6]);
                assert(v[i + 2] == f[7]);
            }
        }
    }
}

/// Where the first `-display` of `s` stands, and where its value ends.
pub proof fn lemma_step(s: Seq<char>, a: Seq<char>) -> (res: (int, int))
    requires
        find_part(s, display_option(), 0).is_some(),
    ensures
        ({
            let (i, end) = res;
            &&& find_part(s, display_option(), 0) == Some(i)
            &&& 0 <= i
            &&& i + 9 <= end <= s.len()
            &&& occurs_at(s, display_option(), i)
            &&& forall|j: int| 0 <= j < i ==> !occurs_at(s, display_option(), j)
            &&& end == find_where(s, ends_word(), i + 9)
            &&& forall|j: int| i + 9 <= j < end ==> !(ends_word())(#[trigger] s[j])
            &&& end < s.len() ==> (ends_word())(s[end])
            &&& replace_displays(s, a) == s.take(i) + a + replace_displays(s.skip(end), a)
        }),
{
    lemma_option();
    lemma_find_part(s, display_option(), 0);
    let i = find_part(s, display_option(), 0).unwrap();
    lemma_find_where(s, ends_word(), i + 9);
    (i, find_where(s, ends_word(), i + 9))
}

/// Occurrences in the front part of a text.
pub proof fn lemma_occurs_front(x: Seq<char>, y: Seq<char>, part: Seq<char>, i: int)
    requires
        0 <= i,
        i + part.len() <= x.len(),
    ensures
        occurs_at(x + y, part, i) == occurs_at(x, part, i),
{
    assert((x + y).subrange(i, i + part.len()) =~= x.subrange(i, i + part.len()));
}

/// Occurrences in the rear part of a text.
pub proof fn lemma_occurs_rear(x: Seq<char>, y: Seq<char>, part: Seq<char>, i: int)
    requires
        0 <= i,
    ensures
        occurs_at(x + y, part, x.len() + i) == occurs_at(y, part, i),
{
    if i + part.len() <= y.len() {
        assert((x + y).subrange(x.len() + i, x.len() + i + part.len()) =~= y.subrange(
            i,
            i + part.len(),
        ));
    }
}

/// The characters of an occurrence.
pub proof fn lemma_occurs_char(s: Seq<char>, part: Seq<char>, i: int, k: int)
    requires
        occurs_at(s, part, i),
        0 <= k < part.len(),
    ensures
        s[i + k] == part[k],
{
    assert(s.subrange(i, i + part.len())[k] == s[i + k]);
}

/// Replacing works on either side of a character that ends words and is no space.
proof fn lemma_replace_split(x: Seq<char>, c: char, y: Seq<char>, a: Seq<char>)
    requires
        (ends_word())(c),
        c != ' ',
    ensures
        replace_displays(x + seq![c] + y, a) == replace_displays(x, a) + seq![c]
            + replace_displays(y, a),
    decreases x.len(),
{
    let d = display_option();
    let s = x + seq![c] + y;
    lemma_option();
    lemma_find_part(x, d, 0);
    lemma_find_part(y, d, 0);
    lemma_find_part(s, d, 0);
    assert(s =~= x + (seq![c] + y));
    assert(s =~= (x + seq![c]) + y);
    // An occurrence in `s` lies in `x` or in `y`.
    assert forall|j: int| 0 <= j && occurs_at(s, d, j) implies j + 9 <= x.len() || j > x.len() by {
        if j + 9 > x.len() && j <= x.len() {
            lemma_occurs_char(s, d, j, x.len() - j);
            assert(s[x.len() as int] == c);
            if x.len() - j == 8 {
            } else {
                assert(!is_space(d[x.len() - j]));
            }
        }
    }
    if find_part(x, d, 0).is_some() {
        let (i, end) = lemma_step(x, a);
        lemma_occurs_front(x, seq![c] + y, d, i);
        assert forall|j: int| 0 <= j < i implies !occurs_at(s, d, j) by {
            lemma_occurs_front(x, seq![c] + y, d, j);
        }
        lemma_find_part_is(s, d, 0, i);
        assert forall|j: int| i + 9 <= j < end implies !(ends_word())(#[trigger] s[j]) by {
            assert(s[j] == x[j]);
        }
        if end < x.len() {
            assert(s[end] == x[end]);
        } else {
            assert(s[end] == c);
        }
        lemma_find_where_is(s, ends_word(), i + 9, end);
        assert(s.skip(end) =~= x.skip(end) + seq![c] + y);
        lemma_replace_split(x.skip(end), c, y, a);
        assert(s.take(i) =~= x.take(i));
        assert(replace_displays(s, a) =~= replace_displays(x, a) + seq![c] + replace_displays(
            y,
            a,
        ));
    } else {
        let n = x.len() + 1;
        assert forall|j: int| 0 <= j < n implies !occurs_at(s, d, j) by {
            if j + 9 <= x.len() {
                lemma_occurs_front(x, seq![c] + y, d, j);
            }
        }
        if find_part(y, d, 0).is_some() {
            let (i, end) = lemma_step(y, a);
            lemma_occurs_rear(x + seq![c], y, d, i);
            assert forall|j: int| 0 <= j < n + i implies !occurs_at(s, d, j) by {
                if j >= n {
                    lemma_occurs_rear(x + seq![c], y, d, j - n);
                }
            }
            lemma_find_part_is(s, d, 0, n + i);
            assert forall|j: int| n + i + 9 <= j < n + end implies !(ends_word())(
                #[trigger] s[j],
            ) by {
                assert(s[j] == y[j - n]);
            }
            if end < y.len() {
                assert(s[n + end] == y[end]);
            }
            lemma_find_where_is(s, ends_word(), n + i + 9, n + end);
            assert(s.skip(n + end) =~= y.skip(end));
            assert(s.take(n + i) =~= x + seq![c] + y.take(i));
            assert(replace_displays(s, a) =~= x + seq![c] + replace_displays(y, a));
        } else {
            assert forall|j: int| 0 <= j implies !occurs_at(s, d, j) by {
                if j >= n {
                    lemma_occurs_rear(x + seq![c], y, d, j - n);
                }
            }
            assert(find_part(s, d, 0).is_none());
        }
    }
}

/// A character that neither `s` nor the argument holds is not in the result.
proof fn lemma_replace_lacks(s: Seq<char>, a: Seq<char>, c: char)
    requires
        !s.contains(c),
        !a.contains(c),
    ensures
        !replace_displays(s, a).contains(c),
    decreases s.len(),
{
    if find_part(s, display_option(), 0).is_some() {
        let (i, end) = lemma_step(s, a);
        let rest = s.skip(end);
        assert forall|j: int| 0 <= j < rest.len() implies rest[j] != c by {
            assert(rest[j] == s[end + j]);
        }
        lemma_replace_lacks(rest, a, c);
        let r = replace_displays(s, a);
        let more = replace_displays(rest, a);
        assert forall|j: int| 0 <= j < r.len() implies r[j] != c by {
            if j < i {
                assert(r[j] == s[j]);
            } else if j < i + a.len() {
                assert(r[j] == a[j - i]);
            } else {
                assert(r[j] == more[j - i - a.len()]);
            }
        }
    }
}

/// How the result begins and ends.
proof fn lemma_replace_ends(s: Seq<char>, a: Seq<char>)
    requires
        s.len() > 0,
        a.len() > 0,
    ensures
        replace_displays(s, a).len() > 0,
        replace_displays(s, a).last() == s.last() || replace_displays(s, a).last() == a.last(),
        s[0] != '-' ==> replace_displays(s, a)[0] == s[0],
    decreases s.len(),
{
    if find_part(s, display_option(), 0).is_some() {
        let (i, end) = lemma_step(s, a);
        lemma_option();
        lemma_occurs_char(s, display_option(), i, 0);
        let rest = s.skip(end);
        if rest.len() > 0 {
            lemma_replace_ends(rest, a);
            assert(rest.last() == s.last());
        } else {
            lemma_find_part(rest, display_option(), 0);
            assert(replace_displays(rest, a) =~= Seq::<char>::empty());
        }
    }
}

/// The lines of a list, each with its displays replaced.
pub open spec fn replace_lines(ls: Seq<Seq<char>>, a: Seq<char>) -> Seq<Seq<char>> {
    Seq::new(ls.len(), |i: int| replace_displays(ls[i], a))
}

/// An argument that stays within a line: it holds no line feed and does not end with a
/// carriage return.
proof fn lemma_arg_in_line(v: Seq<char>)
    requires
        plain_value(v),
    ensures
        (display_option() + v).len() > 9,
        !(display_option() + v).contains('\n'),
        (display_option() + v).last() != '\r',
{
    let a = display_option() + v;
    lemma_option();
    assert forall|j: int| 0 <= j < a.len() implies a[j] != '\n' by {
        if j < 8 {
            assert(a[j] == display_option()[j]);
        } else if j == 8 {
            assert(a[j] == display_option()[8]);
        } else {
            assert(a[j] == v[j - 9]);
        }
    }
    assert(a.last() == v[v.len() - 1]);
}

/// Replacing commutes with taking off a carriage return.
proof fn lemma_replace_strip(x: Seq<char>, v: Seq<char>)
    requires
        plain_value(v),
    ensures
        strip_cr(replace_displays(x, display_option() + v)) == replace_displays(
            strip_cr(x),
            display_option() + v,
        ),
{
    let a = display_option() + v;
    lemma_arg_in_line(v);
    let none = Seq::<char>::empty();
    lemma_find_part(none, display_option(), 0);
    lemma_option();
    assert(replace_displays(none, a) =~= none);
    if x.len() > 0 && x.last() == '\r' {
        let y = x.drop_last();
        assert(x =~= y + seq!['\r'] + none);
        lemma_replace_split(y, '\r', none, a);
        assert(replace_displays(x, a) =~= replace_displays(y, a).push('\r'));
        assert(strip_cr(replace_displays(x, a)) =~= replace_displays(y, a));
    } else if x.len() > 0 {
        lemma_replace_ends(x, a);
    } else {
        assert(x =~= none);
    }
}

/// Replacing works line by line.
proof fn lemma_replace_lines(s: Seq<char>, v: Seq<char>)
    requires
        plain_value(v),
    ensures
        lines(replace_displays(s, display_option() + v)) == replace_lines(
            lines(s),
            display_option() + v,
        ),
    decreases s.len(),
{
    let a = display_option() + v;
    lemma_arg_in_line(v);
    lemma_option();
    let none = Seq::<char>::empty();
    lemma_find_part(none, display_option(), 0);
    assert(replace_displays(none, a) =~= none);
    if s.len() == 0 {
        assert(s =~= none);
        assert(lines(s) =~= replace_lines(lines(s), a));
    } else {
        let i = find_where(s, equals('\n'), 0);
        lemma_find_where(s, equals('\n'), 0);
        let r = replace_displays(s, a);
        if i < s.len() {
            let x = s.take(i);
            let y = s.skip(i + 1);
            assert(s =~= x + seq!['\n'] + y);
            lemma_replace_split(x, '\n', y, a);
            assert forall|j: int| 0 <= j < x.len() implies x[j] != '\n' by {
                assert(!(equals('\n'))(s[j]));
            }
            lemma_replace_lacks(x, a, '\n');
            let rx = replace_displays(x, a);
            let n = rx.len() as int;
            assert forall|j: int| 0 <= j < n implies !(equals('\n'))(#[trigger] r[j]) by {
                assert(r[j] == rx[j]);
                if rx[j] == '\n' {
                    assert(rx.contains('\n'));
                }
            }
            assert(r[n] == '\n');
            lemma_find_where_is(r, equals('\n'), 0, n);
            assert(r.take(n) =~= rx);
            assert(r.skip(n + 1) =~= replace_displays(y, a));
            lemma_replace_strip(x, v);
            lemma_replace_lines(y, v);
            assert(lines(r) =~= seq![replace_displays(strip_cr(x), a)] + replace_lines(
                lines(y),
                a,
            ));
            assert(lines(s) =~= seq![strip_cr(x)] + lines(y));
            assert(replace_lines(lines(s), a) =~= seq![replace_displays(strip_cr(x), a)]
                + replace_lines(lines(y), a));
        } else {
            assert forall|j: int| 0 <= j < s.len() implies s[j] != '\n' by {
                assert(!(equals('\n'))(s[j]));
            }
            lemma_replace_lacks(s, a, '\n');
            lemma_replace_ends(s, a);
            assert forall|j: int| 0 <= j < r.len() implies !(equals('\n'))(#[trigger] r[j]) by {
                if r[j] == '\n' {
                    assert(r.contains('\n'));
                }
            }
            lemma_find_where_is(r, equals('\n'), 0, r.len() as int);
            assert(lines(r) =~= seq![r]);
            assert(lines(s) =~= seq![s]);
            assert(replace_lines(lines(s), a) =~= seq![r]);
        }
    }
}

/// What stands behind leading white space.
pub proof fn lemma_trim_start(sp: Seq<char>, t: Seq<char>)
    requires
        forall|j: int| 0 <= j < sp.len() ==> is_space(#[trigger] sp[j]),
        t.len() > 0 ==> !is_space(t[0]),
    ensures
        trim_start(sp + t) == t,
{
    let s = sp + t;
    let n = sp.len() as int;
    assert forall|j: int| 0 <= j < n implies !(not_space())(#[trigger] s[j]) by {
        assert(s[j] == sp[j]);
    }
    if t.len() > 0 {
        assert(s[n] == t[0]);
    }
    lemma_find_where_is(s, not_space(), 0, n);
    assert(s.skip(n) =~= t);
}

/// The pieces of a text without separators, and of one with a separator.
proof fn lemma_pieces(x: Seq<char>, sep: char, y: Seq<char>)
    requires
        !x.contains(sep),
    ensures
        pieces(x, sep) == seq![x],
        pieces(x + seq![sep] + y, sep) == seq![x] + pieces(y, sep),
{
    assert forall|j: int| 0 <= j < x.len() implies !(equals(sep))(#[trigger] x[j]) by {
        if x[j] == sep {
            assert(x.contains(sep));
        }
    }
    lemma_find_where_is(x, equals(sep), 0, x.len() as int);
    let s = x + seq![sep] + y;
    let n = x.len() as int;
    assert forall|j: int| 0 <= j < n implies !(equals(sep))(#[trigger] s[j]) by {
        assert(s[j] == x[j]);
    }
    assert(s[n] == sep);
    lemma_find_where_is(s, equals(sep), 0, n);
    assert(s.take(n) =~= x);
    assert(s.skip(n + 1) =~= y);
}

/// A value holds the settings that it was made of.
proof fn lemma_value_settings(backend: Seq<char>, gl: bool, fullscreen: bool)
    requires
        plain_backend(backend),
    ensures
        value_settings(display_value(backend, gl, fullscreen)) == (backend, gl, fullscreen),
{
    let g = "gl=on"@;
    let f = "full-screen=on"@;
    reveal_strlit("gl=on");
    reveal_strlit(",gl=on");
    reveal_strlit("full-screen=on");
    reveal_strlit(",full-screen=on");
    reveal_with_fuel(find_where, 16);
    let v = display_value(backend, gl, fullscreen);
    let none = Seq::<char>::empty();
    assert(!backend.contains(','));
    assert(find_where(g, equals(','), 0) == 5);
    lemma_find_where(g, equals(','), 0);
    assert forall|j: int| 0 <= j < 5 implies g[j] != ',' by {
        assert(!(equals(','))(g[j]));
    }
    assert(find_where(f, equals(','), 0) == 14);
    lemma_find_where(f, equals(','), 0);
    assert forall|j: int| 0 <= j < 14 implies f[j] != ',' by {
        assert(!(equals(','))(f[j]));
    }
    assert(g[2] == '=');
    assert(f[11] == '=');
    assert(g != f);
    assert(backend != g) by {
        if backend == g {
            assert(backend[2] == '=');
        }
    }
    assert(backend != f) by {
        if backend == f {
            assert(backend[11] == '=');
        }
    }
    assert(",gl=on"@ =~= seq![','] + g);
    assert(",full-screen=on"@ =~= seq![','] + f);
    lemma_pieces(backend, ',', none);
    lemma_pieces(g, ',', none);
    lemma_pieces(f, ',', none);
    let parts = pieces(v, ',');
    if gl && fullscreen {
        lemma_pieces(backend, ',', g + seq![','] + f);
        lemma_pieces(g, ',', f);
        assert(v =~= backend + seq![','] + (g + seq![','] + f));
        assert(parts =~= seq![backend, g, f]);
        assert(parts[1] == g);
        assert(parts[2] == f);
    } else if gl {
        lemma_pieces(backend, ',', g);
        assert(v =~= backend + seq![','] + g);
        assert(parts =~= seq![backend, g]);
        assert(parts[1] == g);
    } else if fullscreen {
        lemma_pieces(backend, ',', f);
        assert(v =~= backend + seq![','] + f);
        assert(parts =~= seq![backend, f]);
        assert(parts[1] == f);
    } else {
        assert(v =~= backend);
        assert(parts =~= seq![backend]);
    }
}

/// A `-display` line, with white space before it and something behind its value that
/// ends the value, holds the settings of the value.
pub proof fn lemma_line_settings(
    sp: Seq<char>,
    backend: Seq<char>,
    gl: bool,
    fullscreen: bool,
    behind: Seq<char>,
)
    requires
        plain_backend(backend),
        forall|j: int| 0 <= j < sp.len() ==> is_space(#[trigger] sp[j]),
        behind.len() > 0 ==> (ends_word())(behind[0]),
    ensures
        line_settings(sp + display_arg(backend, gl, fullscreen) + behind) == Some(
            (backend, gl, fullscreen),
        ),
{
    let v = display_value(backend, gl, fullscreen);
    let a = display_arg(backend, gl, fullscreen);
    let line = sp + a + behind;
    lemma_value(backend, gl, fullscreen);
    lemma_value_settings(backend, gl, fullscreen);
    lemma_option();
    assert(line =~= sp + (a + behind));
    assert((a + behind)[0] == display_option()[0]);
    lemma_trim_start(sp, a + behind);
    let t = a + behind;
    assert(t.subrange(0, 9) =~= display_option());
    let w = t.skip(9);
    assert(w =~= v + behind);
    let n = v.len() as int;
    assert forall|j: int| 0 <= j < n implies !(ends_word())(#[trigger] w[j]) by {
        assert(w[j] == v[j]);
    }
    if behind.len() > 0 {
        assert(w[n] == behind[0]);
    }
    lemma_find_where_is(w, ends_word(), 0, n);
    assert(w.take(n) =~= v);
}

/// The white space at the beginning of a line, and what is behind it.
pub proof fn lemma_indent(line: Seq<char>) -> (n: int)
    ensures
        0 <= n <= line.len(),
        n == find_where(line, not_space(), 0),
        forall|j: int| 0 <= j < n ==> is_space(#[trigger] line[j]),
        n < line.len() ==> !is_space(line[n]),
        trim_start(line) == line.skip(n),
        line == line.take(n) + line.skip(n),
{
    lemma_find_where(line, not_space(), 0);
    let n = find_where(line, not_space(), 0);
    assert forall|j: int| 0 <= j < n implies is_space(#[trigger] line[j]) by {
        assert(!(not_space())(line[j]));
    }
    assert(line =~= line.take(n) + line.skip(n));
    n
}

/// A line that is no `-display` line does not become one.
proof fn lemma_other_line(line: Seq<char>, v: Seq<char>)
    requires
        plain_value(v),
        !is_display_line(line),
    ensures
        !is_display_line(replace_displays(line, display_option() + v)),
{
    let d = display_option();
    let a = d + v;
    lemma_option();
    if find_part(line, d, 0).is_some() {
        let (i, end) = lemma_step(line, a);
        let r = replace_displays(line, a);
        let n = lemma_indent(line);
        lemma_occurs_char(line, d, i, 0);
        // Something that is no white space stands before the first `-display`.
        assert(n < i) by {
            if n > i {
                assert(is_space(line[i]));
            } else if n == i {
                assert(line.skip(n).subrange(0, 9) =~= line.subrange(i, i + 9));
            }
        }
        assert(r =~= line.take(n) + r.skip(n));
        assert forall|j: int| 0 <= j < n implies is_space(#[trigger] line.take(n)[j]) by {
            assert(line.take(n)[j] == line[j]);
        }
        assert(r.skip(n)[0] == line[n]);
        lemma_trim_start(line.take(n), r.skip(n));
        if begins_with(r.skip(n), d) {
            if n + 9 <= i {
                assert forall|k: int| 0 <= k < 9 implies line.subrange(n, n + 9)[k] == d[k] by {
                    lemma_occurs_char(r.skip(n), d, 0, k);
                    assert(r.skip(n)[k] == line[n + k]);
                }
                assert(line.subrange(n, n + 9) =~= d);
                assert(occurs_at(line, d, n));
            } else {
                let k = i - n;
                lemma_occurs_char(r.skip(n), d, 0, k);
                assert(r.skip(n)[k] == r[i]);
                assert(r[i] == a[0]);
                assert(a[0] == d[0]);
            }
        }
    }
}

/// A `-display` line keeps its place and gets the new settings.
proof fn lemma_display_line(line: Seq<char>, backend: Seq<char>, gl: bool, fullscreen: bool)
    requires
        plain_backend(backend),
        is_display_line(line),
    ensures
        line_settings(replace_displays(line, display_arg(backend, gl, fullscreen))) == Some(
            (backend, gl, fullscreen),
        ),
{
    let d = display_option();
    let a = display_arg(backend, gl, fullscreen);
    lemma_option();
    lemma_value(backend, gl, fullscreen);
    let n = lemma_indent(line);
    assert(line.skip(n).subrange(0, 9) =~= line.subrange(n, n + 9));
    assert(occurs_at(line, d, n));
    assert forall|j: int| 0 <= j < n implies !occurs_at(line, d, j) by {
        if occurs_at(line, d, j) {
            lemma_occurs_char(line, d, j, 0);
            assert(is_space(line[j]));
        }
    }
    lemma_find_part_is(line, d, 0, n);
    let (i, end) = lemma_step(line, a);
    let rest = line.skip(end);
    let behind = replace_displays(rest, a);
    if rest.len() > 0 {
        assert(rest[0] == line[end]);
        assert(rest[0] != '-');
        lemma_replace_ends(rest, a);
    } else {
        lemma_find_part(rest, d, 0);
        assert(behind =~= rest);
    }
    assert forall|j: int| 0 <= j < n implies is_space(#[trigger] line.take(n)[j]) by {
        assert(line.take(n)[j] == line[j]);
    }
    lemma_line_settings(line.take(n), backend, gl, fullscreen, behind);
}

/// Some line is a `-display` line.
pub open spec fn any_display_line(ls: Seq<Seq<char>>) -> bool {
    exists|i: int| 0 <= i < ls.len() && is_display_line(#[trigger] ls[i])
}

/// The first `-display` line among replaced lines has the new settings.
proof fn lemma_first_replaced(
    ls: Seq<Seq<char>>,
    backend: Seq<char>,
    gl: bool,
    fullscreen: bool,
)
    requires
        plain_backend(backend),
        any_display_line(ls),
    ensures
        first_settings(replace_lines(ls, display_arg(backend, gl, fullscreen))) == Some(
            (backend, gl, fullscreen),
        ),
    decreases ls.len(),
{
    let a = display_arg(backend, gl, fullscreen);
    let r = replace_lines(ls, a);
    assert(r[0] == replace_displays(ls[0], a));
    if is_display_line(ls[0]) {
        lemma_display_line(ls[0], backend, gl, fullscreen);
    } else {
        lemma_value(backend, gl, fullscreen);
        lemma_other_line(ls[0], display_value(backend, gl, fullscreen));
        let i = choose|i: int| 0 <= i < ls.len() && is_display_line(#[trigger] ls[i]);
        assert(ls.skip(1)[i - 1] == ls[i]);
        lemma_first_replaced(ls.skip(1), backend, gl, fullscreen);
        assert(r.skip(1) =~= replace_lines(ls.skip(1), a));
    }
}

/// The SPICE argument does not stand in a text to which a `-display` argument was added, if
/// it stands neither before nor behind that.
proof fn lemma_no_spice_across(x: Seq<char>, v: Seq<char>, more: Seq<char>, j: int)
    requires
        plain_value(v),
        !has_part(x, spice_socket()),
        !has_part(more, spice_socket()),
    ensures
        !occurs_at(x + (display_option() + v) + more, spice_socket(), j),
{
    let d = display_option();
    let a = d + v;
    let sp = spice_socket();
    let r = x + a + more;
    let i = x.len() as int;
    lemma_option();
    lemma_socket();
    if occurs_at(r, sp, j) {
        if j + sp.len() <= i {
            assert(r =~= x + (a + more));
            lemma_occurs_front(x, a + more, sp, j);
        } else if j < i {
            lemma_occurs_char(r, sp, j, i - j);
            assert(r[i] == a[0]);
            assert(a[0] == d[0]);
        } else if j < i + a.len() {
            let k = j - i;
            lemma_occurs_char(r, sp, j, 0);
            lemma_occurs_char(r, sp, j, 1);
            lemma_occurs_char(r, sp, j, 2);
            assert(r[j] == a[k]);
            if k < 9 {
                assert(a[k] == d[k]);
                assert(r[i + 1] == a[1]);
                assert(a[1] == d[1]);
            } else {
                assert(a[k] == v[k - 9]);
                assert(r[j + 1] == a[k + 1]);
                assert(a[k + 1] == v[k - 8]);
                if v[k - 8] == 's' {
                    assert(r[j + 2] == a[k + 2]);
                    assert(a[k + 2] == v[k - 7]);
                }
            }
        } else {
            lemma_occurs_rear(x + a, more, sp, j - i - a.len());
        }
    }
}

/// What a text lacks, its front and its rear lack too.
pub proof fn lemma_no_part_of(s: Seq<char>, part: Seq<char>, i: int, end: int)
    requires
        !has_part(s, part),
        0 <= i <= s.len(),
        0 <= end <= s.len(),
    ensures
        !has_part(s.take(i), part),
        !has_part(s.skip(end), part),
{
    if has_part(s.take(i), part) {
        let j = choose|j: int| occurs_at(s.take(i), part, j);
        lemma_occurs_front(s.take(i), s.skip(i), part, j);
        assert(s.take(i) + s.skip(i) =~= s);
    }
    if has_part(s.skip(end), part) {
        let j = choose|j: int| occurs_at(s.skip(end), part, j);
        lemma_occurs_rear(s.take(end), s.skip(end), part, j);
        assert(s.take(end) + s.skip(end) =~= s);
        assert(occurs_at(s, part, end + j));
    }
}

/// Replacing does not bring the SPICE argument into a script.
proof fn lemma_replace_no_spice(s: Seq<char>, v: Seq<char>)
    requires
        plain_value(v),
        !has_part(s, spice_socket()),
    ensures
        !has_part(replace_displays(s, display_option() + v), spice_socket()),
    decreases s.len(),
{
    let a = display_option() + v;
    let sp = spice_socket();
    if find_part(s, display_option(), 0).is_some() {
        let (i, end) = lemma_step(s, a);
        lemma_no_part_of(s, sp, i, end);
        lemma_replace_no_spice(s.skip(end), v);
        let more = replace_displays(s.skip(end), a);
        assert forall|j: int| !occurs_at(s.take(i) + a + more, sp, j) by {
            lemma_no_spice_across(s.take(i), v, more, j);
        }
    }
}

/// A script that serves no SPICE and holds a `-display` line reads back the settings that
/// were written to it.
pub proof fn written_settings_read_back(
    content: Seq<char>,
    backend: Seq<char>,
    gl: bool,
    fullscreen: bool,
)
    requires
        !has_part(content, spice_socket()),
        any_display_line(lines(content)),
        plain_backend(backend),
        backend != "spice"@,
    ensures
        script_settings(with_display(content, backend, gl, fullscreen)) == (
            backend,
            gl,
            fullscreen,
        ),
{
    let v = display_value(backend, gl, fullscreen);
    lemma_value(backend, gl, fullscreen);
    lemma_replace_no_spice(content, v);
    lemma_replace_lines(content, v);
    lemma_first_replaced(lines(content), backend, gl, fullscreen);
}

/// Replacing what was replaced before.
proof fn lemma_replace_twice(s: Seq<char>, v: Seq<char>, b: Seq<char>)
    requires
        plain_value(v),
    ensures
        replace_displays(replace_displays(s, display_option() + v), b) == replace_displays(s, b),
    decreases s.len(),
{
    let d = display_option();
    let a = d + v;
    lemma_option();
    if find_part(s, d, 0).is_some() {
        let (i, end) = lemma_step(s, a);
        let (i2, end2) = lemma_step(s, b);
        let rest = s.skip(end);
        let more = replace_displays(rest, a);
        let r = replace_displays(s, a);
        lemma_replace_twice(rest, v, b);
        assert(r =~= s.take(i) + (a + more));
        assert(r.subrange(i, i + 9) =~= d);
        assert forall|j: int| 0 <= j < i implies !occurs_at(r, d, j) by {
            if occurs_at(r, d, j) {
                if j + 9 <= i {
                    assert(r.subrange(j, j + 9) =~= s.subrange(j, j + 9));
                    assert(occurs_at(s, d, j));
                } else {
                    lemma_occurs_char(r, d, j, i - j);
                    assert(r[i] == a[0]);
                    assert(a[0] == d[0]);
                }
            }
        }
        lemma_find_part_is(r, d, 0, i);
        let (k, stop) = lemma_step(r, b);
        let n = i + a.len();
        assert forall|j: int| i + 9 <= j < n implies !(ends_word())(#[trigger] r[j]) by {
            assert(r[j] == a[j - i]);
            assert(a[j - i] == v[j - i - 9]);
        }
        if rest.len() > 0 {
            assert(rest[0] == s[end]);
            lemma_replace_ends(rest, a);
            assert(r[n] == more[0]);
        } else {
            lemma_find_part(rest, d, 0);
            assert(more =~= rest);
        }
        lemma_find_where_is(r, ends_word(), i + 9, n);
        assert(r.take(i) =~= s.take(i));
        assert(r.skip(n) =~= more);
    } else {
        lemma_find_part(s, d, 0);
    }
}

/// Of two writes to a script that serves no SPICE, only the second is seen. With both
/// writes the same, writing again changes nothing.
pub proof fn last_write_stands(
    content: Seq<char>,
    backend1: Seq<char>,
    gl1: bool,
    fullscreen1: bool,
    backend2: Seq<char>,
    gl2: bool,
    fullscreen2: bool,
)
    requires
        !has_part(content, spice_socket()),
        plain_backend(backend1),
        backend1 != "spice"@,
        backend2 != "spice"@,
    ensures
        with_display(with_display(content, backend1, gl1, fullscreen1), backend2, gl2, fullscreen2)
            == with_display(content, backend2, gl2, fullscreen2),
{
    let v = display_value(backend1, gl1, fullscreen1);
    lemma_value(backend1, gl1, fullscreen1);
    lemma_replace_no_spice(content, v);
    lemma_replace_twice(content, v, display_arg(backend2, gl2, fullscreen2));
}

/// Writing settings to a script that serves no SPICE keeps the number of its lines, and
/// every line on which no `-display` stands.
pub proof fn lines_without_display_stay(
    content: Seq<char>,
    backend: Seq<char>,
    gl: bool,
    fullscreen: bool,
)
    requires
        !has_part(content, spice_socket()),
        plain_backend(backend),
        backend != "spice"@,
    ensures
        lines(with_display(content, backend, gl, fullscreen)).len() == lines(content).len(),
        forall|i: int|
            0 <= i < lines(content).len() && !has_part(lines(content)[i], display_option())
                ==> #[trigger] lines(with_display(content, backend, gl, fullscreen))[i] == lines(
                content,
            )[i],
{
    let now = lines(with_display(content, backend, gl, fullscreen));
    lemma_value(backend, gl, fullscreen);
    lemma_replace_lines(content, display_value(backend, gl, fullscreen));
    assert forall|i: int|
        0 <= i < lines(content).len() && !has_part(
            lines(content)[i],
            display_option(),
        ) implies #[trigger] now[i] == lines(content)[i] by {
        lemma_find_part(lines(content)[i], display_option(), 0);
    }
}

/// A script without any `-display` is left as it is.
pub proof fn script_without_display_stays(
    content: Seq<char>,
    backend: Seq<char>,
    gl: bool,
    fullscreen: bool,
)
    requires
        !has_part(content, spice_socket()),
        !has_part(content, display_option()),
        backend != "spice"@,
    ensures
        with_display(content, backend, gl, fullscreen) == content,
{
    lemma_find_part(content, display_option(), 0);
}

/// Every backend of the dialog but SPICE can stand as the value of a `-display` option.
pub proof fn listed_backends_are_plain(i: int)
    requires
        0 <= i < backends().len(),
        backends()[i] != "spice"@,
    ensures
        plain_backend(backends()[i]),
{
    reveal_strlit("gtk");
    reveal_strlit("sdl");
    reveal_strlit("spice-app");
    reveal_strlit("vnc");
    reveal_strlit("none");
    let b = backends()[i];
    assert(i == 0 || i == 1 || i == 2 || i == 3 || i == 4);
    assert forall|k: int| 0 <= k < b.len() implies {
        let c = #[trigger] b[k];
        &&& !is_space(c)
        &&& c != '\\'
        &&& c != ','
        &&& c != '='
        &&& c == '-' ==> k + 1 < b.len() && b[k + 1] != 'd' && b[k + 1] != 's'
    } by {
        assert(k == 0 || k == 1 || k == 2 || k == 3 || k == 4 || k == 5 || k == 6 || k == 7 || k
            == 8);
    }
}

/// A dialog that is opened after it was saved shows the backend that was chosen.
pub proof fn chosen_backend_is_shown_again(index: u32)
    requires
        index < backends().len(),
    ensures
        position(backends(), name_at(backends(), index), 0) == index,
{
    reveal_with_fuel(position, 7);
    reveal_strlit("gtk");
    reveal_strlit("sdl");
    reveal_strlit("spice-app");
    reveal_strlit("vnc");
    reveal_strlit("none");
    reveal_strlit("spice");
    assert("gtk"@[0] == 'g' && "sdl"@[0] == 's' && "spice-app"@[1] == 'p' && "sdl"@[1] == 'd');
    assert("vnc"@[0] == 'v' && "none"@[0] == 'n' && "spice-app"@[0] == 's' && "spice"@[0] == 's');
    assert("spice"@.len() == 5 && "spice-app"@.len() == 9 && "spice"@[1] == 'p');
}

} // verus!
