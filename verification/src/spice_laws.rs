//! What holds of a launch script that is switched to SPICE, or back from it.
use crate::display_dialog::{
    any_spice_line, display_line, display_option, display_value, ends_word, first_settings,
    is_display_line, is_spice_line, line_settings, lines_text, plain_lines, script_settings,
    spice_block, spice_lines, spice_socket, with_display, with_spice,
};
use crate::display_laws::{
    any_display_line, display_arg, lemma_indent, lemma_line_settings, lemma_occurs_char,
    lemma_occurs_front, lemma_occurs_rear, lemma_option, lemma_socket, lemma_trim_start,
    lemma_value, plain_backend,
};
use crate::text::{
    begins_with, equals, find_where, has_part, is_space, join, lemma_find_where,
    lemma_find_where_is, lines, occurs_at, strip_cr, trim_start,
};
use vstd::prelude::*;

verus! {

/// A part of the front or of the rear is a part of the whole.
pub proof fn lemma_part_of(x: Seq<char>, y: Seq<char>, part: Seq<char>)
    requires
        has_part(x, part) || has_part(y, part),
    ensures
        has_part(x + y, part),
{
    if has_part(x, part) {
        let i = choose|i: int| occurs_at(x, part, i);
        lemma_occurs_front(x, y, part, i);
    } else {
        let i = choose|i: int| occurs_at(y, part, i);
        lemma_occurs_rear(x, y, part, i);
        assert(occurs_at(x + y, part, x.len() + i));
    }
}

/// A part of two texts with a character between them that the part lacks is a part of one
/// of them.
proof fn lemma_part_beside(x: Seq<char>, c: char, y: Seq<char>, part: Seq<char>)
    requires
        part.len() > 0,
        !part.contains(c),
        has_part(x + seq![c] + y, part),
    ensures
        has_part(x, part) || has_part(y, part),
{
    let s = x + seq![c] + y;
    let i = choose|i: int| occurs_at(s, part, i);
    let n = x.len() as int;
    if i + part.len() <= n {
        assert(s =~= x + (seq![c] + y));
        lemma_occurs_front(x, seq![c] + y, part, i);
    } else if i <= n {
        lemma_occurs_char(s, part, i, n - i);
        assert(part.contains(s[n]));
    } else {
        lemma_occurs_rear(x + seq![c], y, part, i - n - 1);
    }
}

/// The joined lines, from the front.
pub proof fn lemma_join_front(ls: Seq<Seq<char>>)
    requires
        ls.len() > 1,
    ensures
        join(ls, "\n"@) == ls[0] + seq!['\n'] + join(ls.skip(1), "\n"@),
    decreases ls.len(),
{
    reveal_strlit("\n");
    let sep = "\n"@;
    assert(sep =~= seq!['\n']);
    if ls.len() == 2 {
        assert(ls.drop_last() =~= seq![ls[0]]);
        assert(ls.skip(1) =~= seq![ls[1]]);
        assert(join(ls.drop_last(), sep) == ls[0]);
        assert(join(ls.skip(1), sep) == ls[1]);
    } else {
        lemma_join_front(ls.drop_last());
        assert(ls.drop_last().skip(1) =~= ls.skip(1).drop_last());
        let mid = join(ls.skip(1).drop_last(), sep);
        assert(join(ls.skip(1), sep) == mid + sep + ls.last());
        assert(join(ls, sep) =~= ls[0] + seq!['\n'] + (mid + sep + ls.last()));
    }
}

/// No line feed stands in any of the lines.
pub open spec fn single_lines(ls: Seq<Seq<char>>) -> bool {
    forall|i: int| 0 <= i < ls.len() ==> !(#[trigger] ls[i]).contains('\n')
}

/// The text of lines holds what one of the lines holds, and nothing that spans lines.
proof fn lemma_part_of_lines(ls: Seq<Seq<char>>, part: Seq<char>)
    requires
        part.len() > 0,
        !part.contains('\n'),
    ensures
        has_part(join(ls, "\n"@), part) <==> exists|i: int|
            0 <= i < ls.len() && has_part(#[trigger] ls[i], part),
    decreases ls.len(),
{
    let text = join(ls, "\n"@);
    if ls.len() == 0 {
        if has_part(text, part) {
            let i = choose|i: int| occurs_at(text, part, i);
        }
    } else if ls.len() == 1 {
        assert(text == ls[0]);
    } else {
        let rest = ls.skip(1);
        let tail = join(rest, "\n"@);
        lemma_join_front(ls);
        lemma_part_of_lines(rest, part);
        if has_part(text, part) {
            lemma_part_beside(ls[0], '\n', tail, part);
            if !has_part(ls[0], part) {
                let i = choose|i: int| 0 <= i < rest.len() && has_part(#[trigger] rest[i], part);
                assert(ls[i + 1] == rest[i]);
            }
        }
        if exists|i: int| 0 <= i < ls.len() && has_part(#[trigger] ls[i], part) {
            let i = choose|i: int| 0 <= i < ls.len() && has_part(#[trigger] ls[i], part);
            if i == 0 {
                lemma_part_of(ls[0], seq!['\n'] + tail, part);
                assert(text =~= ls[0] + (seq!['\n'] + tail));
            } else {
                assert(rest[i - 1] == ls[i]);
                lemma_part_of(ls[0] + seq!['\n'], tail, part);
            }
        }
    }
}

/// The same with the line feed that may end the text.
proof fn lemma_part_of_text(ls: Seq<Seq<char>>, like: Seq<char>, part: Seq<char>)
    requires
        part.len() > 0,
        !part.contains('\n'),
    ensures
        has_part(lines_text(ls, like), part) <==> exists|i: int|
            0 <= i < ls.len() && has_part(#[trigger] ls[i], part),
{
    lemma_part_of_lines(ls, part);
    let text = join(ls, "\n"@);
    let none = Seq::<char>::empty();
    assert(text.push('\n') =~= text + seq!['\n'] + none);
    assert(text.push('\n') =~= text + seq!['\n']);
    if has_part(text, part) {
        lemma_part_of(text, seq!['\n'], part);
    }
    if has_part(text.push('\n'), part) {
        lemma_part_beside(text, '\n', none, part);
        if has_part(none, part) {
            let i = choose|i: int| occurs_at(none, part, i);
        }
    }
}

/// The lines of a text hold no line feed, and hold only what the text holds.
pub proof fn lemma_lines_of(s: Seq<char>)
    ensures
        single_lines(lines(s)),
        forall|i: int, part: Seq<char>|
            0 <= i < lines(s).len() && #[trigger] has_part(lines(s)[i], part) ==> has_part(s, part),
    decreases s.len(),
{
    let ls = lines(s);
    if s.len() > 0 {
        let n = find_where(s, equals('\n'), 0);
        lemma_find_where(s, equals('\n'), 0);
        assert forall|j: int| 0 <= j < n implies s[j] != '\n' by {
            assert(!(equals('\n'))(s[j]));
        }
        if n < s.len() {
            let x = s.take(n);
            let y = s.skip(n + 1);
            lemma_lines_of(y);
            assert(ls =~= seq![strip_cr(x)] + lines(y));
            assert forall|i: int| 0 <= i < ls.len() implies !(#[trigger] ls[i]).contains('\n') by {
                if i > 0 {
                    assert(ls[i] == lines(y)[i - 1]);
                }
            }
            assert forall|i: int, part: Seq<char>|
                0 <= i < ls.len() && #[trigger] has_part(ls[i], part) implies has_part(s, part) by {
                if i > 0 {
                    assert(ls[i] == lines(y)[i - 1]);
                    lemma_part_of(s.take(n + 1), y, part);
                    assert(s.take(n + 1) + y =~= s);
                } else {
                    let m = strip_cr(x).len() as int;
                    lemma_part_of(strip_cr(x), s.skip(m), part);
                    assert(strip_cr(x) + s.skip(m) =~= s);
                }
            }
        } else {
            assert(ls =~= seq![s]);
        }
    }
}

/// What reading lines again may make of them: the lines with perhaps a carriage return
/// less at their ends, and perhaps without an empty line at the end.
spec fn reread(old_lines: Seq<Seq<char>>, new_lines: Seq<Seq<char>>) -> bool {
    &&& new_lines.len() <= old_lines.len()
    &&& forall|i: int|
        0 <= i < new_lines.len() ==> (#[trigger] new_lines[i] == old_lines[i] || new_lines[i]
            == strip_cr(old_lines[i]))
    &&& forall|i: int|
        new_lines.len() <= i < old_lines.len() ==> (#[trigger] old_lines[i]).len() == 0
}

/// The lines of a line, of a line with a line feed, and of what follows it.
pub proof fn lemma_lines_front(x: Seq<char>, y: Seq<char>)
    requires
        !x.contains('\n'),
    ensures
        lines(x + seq!['\n'] + y) == seq![strip_cr(x)] + lines(y),
        lines(x) == (if x.len() == 0 {
            Seq::empty()
        } else {
            seq![x]
        }),
{
    assert forall|j: int| 0 <= j < x.len() implies !(equals('\n'))(#[trigger] x[j]) by {
        if x[j] == '\n' {
            assert(x.contains('\n'));
        }
    }
    let n = x.len() as int;
    let s = x + seq!['\n'] + y;
    lemma_find_where_is(x, equals('\n'), 0, n);
    assert forall|j: int| 0 <= j < n implies !(equals('\n'))(#[trigger] s[j]) by {
        assert(s[j] == x[j]);
    }
    assert(s[n] == '\n');
    lemma_find_where_is(s, equals('\n'), 0, n);
    assert(s.take(n) =~= x);
    assert(s.skip(n + 1) =~= y);
}

/// What the lines of the text of lines are.
proof fn lemma_reread(ls: Seq<Seq<char>>, like: Seq<char>)
    requires
        ls.len() > 0,
        single_lines(ls),
    ensures
        reread(ls, lines(lines_text(ls, like))),
    decreases ls.len(),
{
    let text = lines_text(ls, like);
    let none = Seq::<char>::empty();
    if ls.len() == 1 {
        lemma_lines_front(ls[0], none);
        assert(lines(none) =~= Seq::empty());
        if like.len() > 0 && like.last() == '\n' {
            assert(text =~= ls[0] + seq!['\n'] + none);
        }
    } else {
        let rest = ls.skip(1);
        lemma_join_front(ls);
        assert forall|i: int| 0 <= i < rest.len() implies !(#[trigger] rest[i]).contains('\n') by {
            assert(rest[i] == ls[i + 1]);
        }
        lemma_reread(rest, like);
        let tail = lines_text(rest, like);
        assert(text =~= ls[0] + seq!['\n'] + tail);
        lemma_lines_front(ls[0], tail);
        let now = lines(text);
        assert forall|i: int| 0 <= i < now.len() implies (#[trigger] now[i] == ls[i] || now[i]
            == strip_cr(ls[i])) by {
            if i > 0 {
                assert(now[i] == lines(tail)[i - 1]);
                assert(ls[i] == rest[i - 1]);
            }
        }
        assert forall|i: int| now.len() <= i < ls.len() implies (#[trigger] ls[i]).len() == 0 by {
            assert(ls[i] == rest[i - 1]);
        }
    }
}

/// A carriage return at the end of a line does not change what begins the line.
proof fn lemma_strip_begin(line: Seq<char>, part: Seq<char>)
    requires
        part.len() > 0,
        !is_space(part[0]),
        !part.contains('\r'),
    ensures
        begins_with(trim_start(strip_cr(line)), part) == begins_with(trim_start(line), part),
{
    if line.len() > 0 && line.last() == '\r' {
        let x = line.drop_last();
        let n = lemma_indent(x);
        let m = lemma_indent(line);
        assert(line =~= x.push('\r'));
        let t = x.skip(n);
        if n < x.len() {
            assert(line[n] == x[n]);
            assert forall|j: int| 0 <= j < n implies is_space(#[trigger] line[j]) by {
                assert(line[j] == x[j]);
            }
            assert(n == m) by {
                if m < n {
                    assert(is_space(line[m]));
                } else if m > n {
                    assert(is_space(line[n]));
                }
            }
            assert(line.skip(m) =~= t + seq!['\r']);
            if part.len() <= t.len() {
                lemma_occurs_front(t, seq!['\r'], part, 0);
            } else if begins_with(line.skip(m), part) {
                lemma_occurs_char(line.skip(m), part, 0, t.len() as int);
                assert(part.contains('\r'));
            }
        } else {
            assert(trim_start(x).len() == 0);
            if begins_with(line.skip(m), part) {
                lemma_occurs_char(line.skip(m), part, 0, 0);
                assert(line.skip(m)[0] == line[m]);
                if m < line.len() - 1 {
                    assert(line[m] == x[m]);
                }
            }
        }
    }
}

/// No part that makes a line a SPICE line holds a carriage return.
pub proof fn lemma_spice_options()
    ensures
        !is_space("-spice "@[0]),
        !is_space("-device virtio-serial"@[0]),
        !is_space("-chardev spicevmc,"@[0]),
        !is_space("-device virtserialport,chardev=vdagent"@[0]),
        "-spice "@.len() == 7,
        "-device virtio-serial"@.len() == 21,
        "-chardev spicevmc,"@.len() == 18,
        "-device virtserialport,chardev=vdagent"@.len() == 38,
        !"-spice "@.contains('\r'),
        !"-device virtio-serial"@.contains('\r'),
        !"-chardev spicevmc,"@.contains('\r'),
        !"-device virtserialport,chardev=vdagent"@.contains('\r'),
{
    reveal_strlit("-spice ");
    reveal_strlit("-device virtio-serial");
    reveal_strlit("-chardev spicevmc,");
    reveal_strlit("-device virtserialport,chardev=vdagent");
    reveal_with_fuel(find_where, 40);
    lemma_lacks("-spice "@, '\r');
    lemma_lacks("-device virtio-serial"@, '\r');
    lemma_lacks("-chardev spicevmc,"@, '\r');
    lemma_lacks("-device virtserialport,chardev=vdagent"@, '\r');
}

/// A text in which the search for `c` reaches the end lacks `c`.
proof fn lemma_lacks(s: Seq<char>, c: char)
    requires
        find_where(s, equals(c), 0) == s.len(),
    ensures
        !s.contains(c),
{
    lemma_find_where(s, equals(c), 0);
    assert forall|j: int| 0 <= j < s.len() implies s[j] != c by {
        assert(!(equals(c))(s[j]));
    }
}

/// A line keeps what it is without the carriage return at its end.
pub proof fn lemma_strip_kind(line: Seq<char>)
    ensures
        is_spice_line(strip_cr(line)) == is_spice_line(line),
        is_display_line(strip_cr(line)) == is_display_line(line),
{
    lemma_spice_options();
    lemma_option();
    reveal_strlit("-display ");
    reveal_with_fuel(find_where, 10);
    lemma_lacks(display_option(), '\r');
    lemma_strip_begin(line, "-spice "@);
    lemma_strip_begin(line, "-device virtio-serial"@);
    lemma_strip_begin(line, "-chardev spicevmc,"@);
    lemma_strip_begin(line, "-device virtserialport,chardev=vdagent"@);
    lemma_strip_begin(line, display_option());
}

/// The first line that holds settings gives them.
proof fn lemma_first_is(ls: Seq<Seq<char>>, k: int)
    requires
        0 <= k < ls.len(),
        line_settings(ls[k]).is_some(),
        forall|j: int| 0 <= j < k ==> line_settings(#[trigger] ls[j]).is_none(),
    ensures
        first_settings(ls) == line_settings(ls[k]),
    decreases k,
{
    if k > 0 {
        assert(line_settings(ls[0]).is_none());
        let rest = ls.skip(1);
        assert(rest[k - 1] == ls[k]);
        assert forall|j: int| 0 <= j < k - 1 implies line_settings(#[trigger] rest[j]).is_none() by {
            assert(rest[j] == ls[j + 1]);
        }
        lemma_first_is(rest, k - 1);
    }
}

/// Where the first SPICE line of `ls` is, the plain lines hold the display line.
proof fn lemma_plain_lines(ls: Seq<Seq<char>>, display: Seq<char>, k: int)
    requires
        0 <= k < ls.len(),
        is_spice_line(ls[k]),
        forall|j: int| 0 <= j < k ==> !is_spice_line(#[trigger] ls[j]),
    ensures
        plain_lines(ls, display).len() > k,
        plain_lines(ls, display)[k] == display,
        forall|j: int| 0 <= j < k ==> #[trigger] plain_lines(ls, display)[j] == ls[j],
    decreases ls.len(),
{
    let front = ls.drop_last();
    if k == ls.len() - 1 {
        lemma_no_spice_lines(front, display);
        assert(!any_spice_line(front)) by {
            assert forall|j: int| 0 <= j < front.len() implies !is_spice_line(
                #[trigger] front[j],
            ) by {
                assert(front[j] == ls[j]);
            }
        }
    } else {
        assert(front[k] == ls[k]);
        assert forall|j: int| 0 <= j < k implies !is_spice_line(#[trigger] front[j]) by {
            assert(front[j] == ls[j]);
        }
        lemma_plain_lines(front, display, k);
        assert forall|j: int| 0 <= j < k implies #[trigger] plain_lines(ls, display)[j] == ls[j] by {
            assert(plain_lines(front, display)[j] == front[j]);
        }
    }
}

/// Lines that serve no SPICE stay as they are.
pub proof fn lemma_no_spice_lines(ls: Seq<Seq<char>>, display: Seq<char>)
    requires
        forall|j: int| 0 <= j < ls.len() ==> !is_spice_line(#[trigger] ls[j]),
    ensures
        plain_lines(ls, display) == ls,
    decreases ls.len(),
{
    if ls.len() > 0 {
        let front = ls.drop_last();
        assert forall|j: int| 0 <= j < front.len() implies !is_spice_line(#[trigger] front[j]) by {
            assert(front[j] == ls[j]);
        }
        lemma_no_spice_lines(front, display);
        assert(ls =~= front.push(ls.last()));
    }
}

/// The plain lines are lines that serve no SPICE, and the display line.
proof fn lemma_plain_from(ls: Seq<Seq<char>>, display: Seq<char>, i: int) -> (k: int)
    requires
        0 <= i < plain_lines(ls, display).len(),
    ensures
        plain_lines(ls, display)[i] == display || (0 <= k < ls.len() && !is_spice_line(ls[k])
            && plain_lines(ls, display)[i] == ls[k]),
    decreases ls.len(),
{
    let front = ls.drop_last();
    if i < plain_lines(front, display).len() {
        let k = lemma_plain_from(front, display, i);
        if 0 <= k < front.len() {
            assert(front[k] == ls[k]);
        }
        k
    } else {
        ls.len() - 1
    }
}

/// The position of the first SPICE line.
proof fn lemma_first_spice(ls: Seq<Seq<char>>) -> (k: int)
    requires
        any_spice_line(ls),
    ensures
        0 <= k < ls.len(),
        is_spice_line(ls[k]),
        forall|j: int| 0 <= j < k ==> !is_spice_line(#[trigger] ls[j]),
    decreases ls.len(),
{
    let front = ls.drop_last();
    if any_spice_line(front) {
        let k = lemma_first_spice(front);
        assert(front[k] == ls[k]);
        assert forall|j: int| 0 <= j < k implies !is_spice_line(#[trigger] ls[j]) by {
            assert(front[j] == ls[j]);
        }
        k
    } else {
        assert forall|j: int| 0 <= j < ls.len() - 1 implies !is_spice_line(#[trigger] ls[j]) by {
            assert(front[j] == ls[j]);
        }
        ls.len() - 1
    }
}

/// A part that spans no lines stands in one of the lines.
proof fn lemma_part_in_lines(s: Seq<char>, part: Seq<char>) -> (i: int)
    requires
        part.len() > 0,
        !part.contains('\n'),
        !part.contains('\r'),
        has_part(s, part),
    ensures
        0 <= i < lines(s).len(),
        has_part(lines(s)[i], part),
    decreases s.len(),
{
    let at = choose|i: int| occurs_at(s, part, i);
    let n = find_where(s, equals('\n'), 0);
    lemma_find_where(s, equals('\n'), 0);
    let none = Seq::<char>::empty();
    if n < s.len() {
        let x = s.take(n);
        let y = s.skip(n + 1);
        assert(s =~= x + seq!['\n'] + y);
        assert(lines(s) =~= seq![strip_cr(x)] + lines(y));
        lemma_part_beside(x, '\n', y, part);
        if has_part(x, part) {
            if x.len() > 0 && x.last() == '\r' {
                assert(x =~= x.drop_last() + seq!['\r'] + none);
                lemma_part_beside(x.drop_last(), '\r', none, part);
                if has_part(none, part) {
                    let k = choose|i: int| occurs_at(none, part, i);
                }
            }
            0
        } else {
            let i = lemma_part_in_lines(y, part);
            assert(lines(s)[i + 1] == lines(y)[i]);
            i + 1
        }
    } else {
        0
    }
}

/// The settings of a line do not depend on a carriage return at its end.
pub proof fn lemma_strip_settings(line: Seq<char>)
    ensures
        line_settings(strip_cr(line)) == line_settings(line),
{
    lemma_strip_kind(line);
    lemma_option();
    if line.len() > 0 && line.last() == '\r' && is_display_line(line) {
        let x = line.drop_last();
        let n = lemma_indent(x);
        let m = lemma_indent(line);
        lemma_occurs_char(x.skip(n), display_option(), 0, 0);
        assert(line[n] == x[n]);
        assert(n == m) by {
            if m < n {
                assert(line[m] == x[m]);
            } else if m > n {
                assert(is_space(line[n]));
            }
        }
        let w = x.skip(n).skip(9);
        let u = line.skip(n).skip(9);
        assert(u =~= w.push('\r'));
        let end = find_where(w, ends_word(), 0);
        lemma_find_where(w, ends_word(), 0);
        assert forall|j: int| 0 <= j < end implies !(ends_word())(#[trigger] u[j]) by {
            assert(u[j] == w[j]);
        }
        assert((ends_word())(u[end]));
        lemma_find_where_is(u, ends_word(), 0, end);
        assert(u.take(end) =~= w.take(end));
    }
}

/// The line that the dialog writes in place of the SPICE lines holds its settings, spans
/// no lines and serves no SPICE.
proof fn lemma_written_line(backend: Seq<char>, gl: bool, fullscreen: bool)
    requires
        plain_backend(backend),
    ensures
        ({
            let d = display_line(backend, gl, fullscreen);
            &&& line_settings(d) == Some((backend, gl, fullscreen))
            &&& d.len() > 0
            &&& strip_cr(d) == d
            &&& !d.contains('\n')
            &&& !has_part(d, spice_socket())
        }),
{
    let d = display_line(backend, gl, fullscreen);
    let v = display_value(backend, gl, fullscreen);
    let a = display_arg(backend, gl, fullscreen);
    let head = "        -display "@;
    let behind = " \\"@;
    let sp = head.take(8);
    reveal_strlit("        -display ");
    reveal_strlit("-display ");
    reveal_strlit(" \\");
    assert(head =~= sp + display_option());
    assert(d =~= sp + a + behind);
    lemma_value(backend, gl, fullscreen);
    lemma_line_settings(sp, backend, gl, fullscreen, behind);
    assert(d.last() == '\\');
    lemma_option();
    assert forall|j: int| 0 <= j < d.len() implies d[j] != '\n' by {
        if j < 8 {
            assert(d[j] == head[j]);
        } else if j < 17 {
            assert(d[j] == display_option()[j - 8]);
        } else if j < 17 + v.len() {
            assert(d[j] == v[j - 17]);
        } else {
            assert(d[j] == behind[j - 17 - v.len()]);
        }
    }
    lemma_socket();
    let s = spice_socket();
    assert forall|j: int| !occurs_at(d, s, j) by {
        if occurs_at(d, s, j) {
            lemma_occurs_char(d, s, j, 0);
            lemma_occurs_char(d, s, j, 1);
            lemma_occurs_char(d, s, j, 2);
            if j < 8 {
                assert(d[j] == head[j]);
            } else if j < 17 {
                assert(d[j] == display_option()[j - 8]);
                assert(d[9] == display_option()[1]);
            } else if j < 17 + v.len() {
                assert(d[j] == v[j - 17]);
                assert(d[j + 1] == v[j - 16]);
                if v[j - 16] == 's' {
                    assert(d[j + 2] == v[j - 15]);
                }
            } else {
                assert(d[j] == behind[j - 17 - v.len()]);
            }
        }
    }
}

/// The lines of the block serve SPICE and name no display.
proof fn lemma_block()
    ensures
        spice_block().len() == 4,
        has_part(spice_block()[0], spice_socket()),
        forall|i: int|
            0 <= i < 4 ==> is_spice_line(#[trigger] spice_block()[i]) && !is_display_line(
                spice_block()[i],
            ) && !spice_block()[i].contains('\n'),
{
    let b = spice_block();
    lemma_block_serves();
    lemma_block_serial();
    lemma_block_channel();
    lemma_block_port();
    assert forall|i: int| 0 <= i < 4 implies is_spice_line(#[trigger] b[i]) && !is_display_line(
        b[i],
    ) && !b[i].contains('\n') by {
        assert(i == 0 || i == 1 || i == 2 || i == 3);
    }
}

/// A line of eight spaces and an option.
proof fn lemma_indented(line: Seq<char>, rest: Seq<char>)
    requires
        line.len() > 8,
        line[0] == ' ',
        line[1] == ' ',
        line[2] == ' ',
        line[3] == ' ',
        line[4] == ' ',
        line[5] == ' ',
        line[6] == ' ',
        line[7] == ' ',
        line[8] == '-',
        rest == line.skip(8),
        rest.len() > 2,
        rest[1] != 'd' || rest[2] != 'i',
    ensures
        trim_start(line) == rest,
        !is_display_line(line),
{
    let sp = line.take(8);
    assert(line =~= sp + rest);
    lemma_trim_start(sp, rest);
    reveal_strlit("-display ");
    if is_display_line(line) {
        lemma_occurs_char(rest, display_option(), 0, 1);
        lemma_occurs_char(rest, display_option(), 0, 2);
    }
}

proof fn lemma_block_serves()
    ensures
        is_spice_line(spice_block()[0]),
        !is_display_line(spice_block()[0]),
        !spice_block()[0].contains('\n'),
        has_part(spice_block()[0], spice_socket()),
{
    let l = spice_block()[0];
    reveal_strlit("        -spice unix,addr=$VM_DIR/spice.sock,disable-ticketing \\");
    reveal_strlit("-spice unix,addr=$VM_DIR/spice.sock");
    reveal_strlit("-spice ");
    lemma_indented(l, l.skip(8));
    assert(l.skip(8).subrange(0, 7) =~= "-spice "@);
    assert(l.subrange(8, 43) =~= spice_socket());
    assert(occurs_at(l, spice_socket(), 8));
    reveal_with_fuel(find_where, 70);
    lemma_lacks(l, '\n');
}

proof fn lemma_block_serial()
    ensures
        is_spice_line(spice_block()[1]),
        !is_display_line(spice_block()[1]),
        !spice_block()[1].contains('\n'),
{
    let l = spice_block()[1];
    reveal_strlit("        -device virtio-serial \\");
    reveal_strlit("-device virtio-serial");
    lemma_indented(l, l.skip(8));
    assert(l.skip(8).subrange(0, 21) =~= "-device virtio-serial"@);
    reveal_with_fuel(find_where, 40);
    lemma_lacks(l, '\n');
}

proof fn lemma_block_channel()
    ensures
        is_spice_line(spice_block()[2]),
        !is_display_line(spice_block()[2]),
        !spice_block()[2].contains('\n'),
{
    let l = spice_block()[2];
    reveal_strlit("        -chardev spicevmc,id=vdagent,name=vdagent \\");
    reveal_strlit("-chardev spicevmc,");
    lemma_indented(l, l.skip(8));
    assert(l.skip(8).subrange(0, 18) =~= "-chardev spicevmc,"@);
    reveal_with_fuel(find_where, 60);
    lemma_lacks(l, '\n');
}

proof fn lemma_block_port()
    ensures
        is_spice_line(spice_block()[3]),
        !is_display_line(spice_block()[3]),
        !spice_block()[3].contains('\n'),
{
    let l = spice_block()[3];
    reveal_strlit("        -device virtserialport,chardev=vdagent,name=com.redhat.spice.0 \\");
    reveal_strlit("-device virtserialport,chardev=vdagent");
    lemma_indented(l, l.skip(8));
    assert(l.skip(8).subrange(0, 38) =~= "-device virtserialport,chardev=vdagent"@);
    reveal_with_fuel(find_where, 80);
    lemma_lacks(l, '\n');
}

/// The SPICE lines are those of the block, and the lines that name no display.
proof fn lemma_spice_from(ls: Seq<Seq<char>>, i: int) -> (k: int)
    requires
        0 <= i < spice_lines(ls).len(),
    ensures
        (0 <= k < 4 && spice_lines(ls)[i] == spice_block()[k]) || (0 <= k - 4 < ls.len()
            && !is_display_line(ls[k - 4]) && spice_lines(ls)[i] == ls[k - 4]),
    decreases ls.len(),
{
    let front = ls.drop_last();
    let n = spice_lines(front).len();
    if i < n {
        let k = lemma_spice_from(front, i);
        if 0 <= k - 4 < front.len() {
            assert(front[k - 4] == ls[k - 4]);
        }
        k
    } else if is_display_line(ls.last()) {
        i - n
    } else {
        ls.len() - 1 + 4
    }
}

/// With a `-display` line, the SPICE lines hold the block.
proof fn lemma_spice_has(ls: Seq<Seq<char>>) -> (i: int)
    requires
        any_display_line(ls),
    ensures
        0 <= i < spice_lines(ls).len(),
        spice_lines(ls)[i] == spice_block()[0],
    decreases ls.len(),
{
    let front = ls.drop_last();
    let j = choose|j: int| 0 <= j < ls.len() && is_display_line(#[trigger] ls[j]);
    if j == ls.len() - 1 {
        spice_lines(front).len() as int
    } else {
        assert(front[j] == ls[j]);
        lemma_spice_has(front)
    }
}

/// A script that serves SPICE, or names a display on a line of its own, reads as SPICE
/// when it was switched to SPICE.
pub proof fn spice_reads_back(content: Seq<char>, gl: bool, fullscreen: bool)
    requires
        has_part(content, spice_socket()) || any_display_line(lines(content)),
    ensures
        script_settings(with_display(content, "spice"@, gl, fullscreen)) == (
            "spice"@,
            false,
            false,
        ),
{
    if !has_part(content, spice_socket()) {
        let sl = spice_lines(lines(content));
        let i = lemma_spice_has(lines(content));
        lemma_block();
        lemma_socket_line();
        assert(has_part(sl[i], spice_socket()));
        lemma_part_of_text(sl, content, spice_socket());
    }
}

/// The SPICE argument lies within a line.
proof fn lemma_socket_line()
    ensures
        spice_socket().len() > 0,
        !spice_socket().contains('\n'),
        !spice_socket().contains('\r'),
{
    lemma_socket();
}

/// The lines, each without a carriage return at its end.
pub open spec fn strip_all(ls: Seq<Seq<char>>) -> Seq<Seq<char>> {
    Seq::new(ls.len(), |i: int| strip_cr(ls[i]))
}

/// A text ends with a line feed.
pub open spec fn ends_line(s: Seq<char>) -> bool {
    s.len() > 0 && s.last() == '\n'
}

/// What the lines of a text become when they are written with line feeds between them and
/// read again: each line that a line feed follows loses a carriage return at its end.
pub open spec fn read_again(ls: Seq<Seq<char>>, like: Seq<char>) -> Seq<Seq<char>> {
    if ls.len() == 0 || ends_line(like) {
        strip_all(ls)
    } else {
        strip_all(ls.drop_last()).push(ls.last())
    }
}

/// The lines of the text of lines, if a last line without a line feed is not empty.
proof fn lemma_read_again(ls: Seq<Seq<char>>, like: Seq<char>)
    requires
        ls.len() > 0,
        single_lines(ls),
        ends_line(like) || ls.last().len() > 0,
    ensures
        lines(lines_text(ls, like)) == read_again(ls, like),
        ends_line(lines_text(ls, like)) == ends_line(like),
    decreases ls.len(),
{
    let text = lines_text(ls, like);
    let none = Seq::<char>::empty();
    if ls.len() == 1 {
        lemma_lines_front(ls[0], none);
        assert(lines(none) =~= Seq::empty());
        if ends_line(like) {
            assert(text =~= ls[0] + seq!['\n'] + none);
            assert(read_again(ls, like) =~= seq![strip_cr(ls[0])]);
        } else {
            assert(read_again(ls, like) =~= seq![ls[0]]);
            if text.last() == '\n' {
                assert(ls[0].contains('\n'));
            }
        }
    } else {
        let rest = ls.skip(1);
        lemma_join_front(ls);
        assert forall|i: int| 0 <= i < rest.len() implies !(#[trigger] rest[i]).contains('\n') by {
            assert(rest[i] == ls[i + 1]);
        }
        lemma_read_again(rest, like);
        let tail = lines_text(rest, like);
        assert(text =~= ls[0] + seq!['\n'] + tail);
        lemma_lines_front(ls[0], tail);
        assert(read_again(ls, like) =~= seq![strip_cr(ls[0])] + read_again(rest, like));
        if tail.len() == 0 {
            assert(lines(tail).len() == 0);
            assert(read_again(rest, like).len() == rest.len());
        }
        assert(text.last() == tail.last());
    }
}

/// The last line of a text that does not end with a line feed is not empty.
pub proof fn lemma_last_line(s: Seq<char>)
    requires
        s.len() > 0,
    ensures
        lines(s).len() > 0,
        ends_line(s) || lines(s).last().len() > 0,
    decreases s.len(),
{
    let n = find_where(s, equals('\n'), 0);
    lemma_find_where(s, equals('\n'), 0);
    if n < s.len() {
        let y = s.skip(n + 1);
        assert(lines(s) =~= seq![strip_cr(s.take(n))] + lines(y));
        if y.len() > 0 {
            lemma_last_line(y);
            assert(lines(s).last() == lines(y).last());
            assert(s.last() == y.last());
        } else {
            assert((equals('\n'))(s[n]));
        }
    } else {
        assert(lines(s) =~= seq![s]);
    }
}

/// Lines without a display stay as they are.
proof fn lemma_spice_none(ls: Seq<Seq<char>>)
    requires
        !any_display_line(ls),
    ensures
        spice_lines(ls) == ls,
    decreases ls.len(),
{
    if ls.len() > 0 {
        let front = ls.drop_last();
        assert forall|i: int| 0 <= i < front.len() implies !is_display_line(#[trigger] front[i]) by {
            assert(front[i] == ls[i]);
        }
        lemma_spice_none(front);
        assert(!is_display_line(ls[ls.len() - 1]));
        assert(ls =~= front.push(ls.last()));
    }
}

/// No line that a line feed follows keeps a carriage return at its end when it is read.
pub open spec fn plain_ends(content: Seq<char>) -> bool {
    read_again(lines(content), content) == lines(content)
}

/// A script without carriage returns has plain ends.
pub proof fn no_carriage_return_means_plain_ends(content: Seq<char>)
    requires
        !content.contains('\r'),
    ensures
        plain_ends(content),
{
    let ls = lines(content);
    lemma_lines_of(content);
    assert forall|i: int| 0 <= i < ls.len() implies strip_cr(#[trigger] ls[i]) == ls[i] by {
        if ls[i].len() > 0 && ls[i].last() == '\r' {
            let l = ls[i];
            assert(l.subrange(l.len() - 1, l.len() as int) =~= seq!['\r']);
            assert(occurs_at(l, seq!['\r'], l.len() - 1));
            assert(has_part(ls[i], seq!['\r']));
            assert(has_part(content, seq!['\r']));
            let k = choose|k: int| occurs_at(content, seq!['\r'], k);
            lemma_occurs_char(content, seq!['\r'], k, 0);
            assert(content.contains('\r'));
        }
    }
    assert(read_again(ls, content) =~= ls);
}

/// Switching to SPICE a second time changes nothing: if the script serves SPICE or names
/// a display on a line of its own, or if no line keeps a carriage return at its end.
pub proof fn spice_twice_is_once(content: Seq<char>)
    requires
        has_part(content, spice_socket()) || any_display_line(lines(content)) || plain_ends(
            content,
        ),
    ensures
        with_spice(with_spice(content)) == with_spice(content),
{
    let ls = lines(content);
    let sl = spice_lines(ls);
    lemma_block();
    lemma_socket_line();
    if !has_part(content, spice_socket()) {
        if any_display_line(ls) {
            let i = lemma_spice_has(ls);
            assert(has_part(sl[i], spice_socket()));
            lemma_part_of_text(sl, content, spice_socket());
        } else {
            let once = with_spice(content);
            lemma_spice_none(ls);
            lemma_lines_of(content);
            lemma_part_of_text(ls, content, spice_socket());
            if has_part(once, spice_socket()) {
                let i = choose|i: int| 0 <= i < ls.len() && has_part(
                    #[trigger] ls[i],
                    spice_socket(),
                );
                assert(has_part(content, spice_socket()));
            }
            if content.len() > 0 {
                lemma_last_line(content);
                lemma_read_again(ls, content);
                assert(lines(once) == ls);
            } else {
                assert(once =~= content);
            }
        }
    }
}

/// Each line that names the SPICE socket is one that the switch back takes out, and no
/// line before the first of those holds settings.
pub open spec fn clean_spice(ls: Seq<Seq<char>>) -> bool {
    &&& forall|i: int|
        0 <= i < ls.len() && has_part(#[trigger] ls[i], spice_socket()) ==> is_spice_line(ls[i])
    &&& forall|i: int|
        0 <= i < ls.len() && line_settings(#[trigger] ls[i]).is_some() ==> any_spice_line(
            ls.take(i),
        )
}

/// A script that is switched from SPICE to another display reads back its settings.
pub proof fn switched_back_settings_read_back(
    content: Seq<char>,
    backend: Seq<char>,
    gl: bool,
    fullscreen: bool,
)
    requires
        has_part(content, spice_socket()),
        clean_spice(lines(content)),
        plain_backend(backend),
        backend != "spice"@,
    ensures
        script_settings(with_display(content, backend, gl, fullscreen)) == (
            backend,
            gl,
            fullscreen,
        ),
{
    let ls = lines(content);
    let d = display_line(backend, gl, fullscreen);
    let pl = plain_lines(ls, d);
    lemma_written_line(backend, gl, fullscreen);
    lemma_socket_line();
    lemma_lines_of(content);
    let at = lemma_part_in_lines(content, spice_socket());
    assert(is_spice_line(ls[at]));
    let k = lemma_first_spice(ls);
    lemma_plain_lines(ls, d, k);
    assert forall|i: int| 0 <= i < pl.len() implies !(#[trigger] pl[i]).contains('\n') by {
        let j = lemma_plain_from(ls, d, i);
    }
    assert forall|i: int| 0 <= i < pl.len() implies !has_part(#[trigger] pl[i], spice_socket()) by {
        let j = lemma_plain_from(ls, d, i);
        if pl[i] != d {
            assert(!has_part(ls[j], spice_socket()));
        }
    }
    lemma_part_of_text(pl, content, spice_socket());
    lemma_reread(pl, content);
    let now = lines(lines_text(pl, content));
    assert(now.len() > k) by {
        if now.len() <= k {
            assert(pl[k].len() == 0);
        }
    }
    assert(now[k] == d);
    assert forall|j: int| 0 <= j < k implies line_settings(#[trigger] now[j]).is_none() by {
        assert(now[j] == pl[j] || now[j] == strip_cr(pl[j]));
        assert(pl[j] == ls[j]);
        if line_settings(ls[j]).is_some() {
            assert(any_spice_line(ls.take(j)));
            let m = choose|m: int| 0 <= m < j && is_spice_line(#[trigger] ls.take(j)[m]);
            assert(ls.take(j)[m] == ls[m]);
        }
        lemma_strip_settings(ls[j]);
    }
    lemma_first_is(now, k);
}

/// A script that names a display on a line of its own can be switched to SPICE and back
/// to any display, and reads back the settings that were written last.
pub proof fn spice_and_back(content: Seq<char>, backend: Seq<char>, gl: bool, fullscreen: bool)
    requires
        !has_part(content, spice_socket()),
        any_display_line(lines(content)),
        plain_backend(backend),
        backend != "spice"@,
    ensures
        script_settings(with_display(with_spice(content), backend, gl, fullscreen)) == (
            backend,
            gl,
            fullscreen,
        ),
{
    let ls = lines(content);
    let sl = spice_lines(ls);
    let c = with_spice(content);
    let now = lines(c);
    lemma_block();
    lemma_socket_line();
    lemma_lines_of(content);
    let at = lemma_spice_has(ls);
    assert(has_part(sl[at], spice_socket()));
    lemma_part_of_text(sl, content, spice_socket());
    assert forall|i: int| 0 <= i < sl.len() implies !(#[trigger] sl[i]).contains('\n') by {
        let j = lemma_spice_from(ls, i);
    }
    lemma_reread(sl, content);
    assert forall|i: int| 0 <= i < now.len() && has_part(#[trigger] now[i], spice_socket())
        implies is_spice_line(now[i]) by {
        let x = sl[i];
        assert(now[i] == x || now[i] == strip_cr(x));
        if x.len() > 0 && x.last() == '\r' {
            assert(x =~= strip_cr(x) + seq!['\r']);
            if now[i] != x {
                lemma_part_of(strip_cr(x), seq!['\r'], spice_socket());
            }
        }
        assert(has_part(x, spice_socket()));
        let j = lemma_spice_from(ls, i);
        if !(0 <= j < 4 && x == spice_block()[j]) {
            assert(has_part(ls[j - 4], spice_socket()));
        }
        lemma_strip_kind(x);
    }
    assert forall|i: int| 0 <= i < now.len() implies line_settings(#[trigger] now[i]).is_none() by {
        let x = sl[i];
        assert(now[i] == x || now[i] == strip_cr(x));
        let j = lemma_spice_from(ls, i);
        lemma_strip_kind(x);
    }
    switched_back_settings_read_back(c, backend, gl, fullscreen);
}

/// Reading lines again does not change which become SPICE lines.
proof fn lemma_strip_spice(ls: Seq<Seq<char>>)
    ensures
        spice_lines(strip_all(ls)) == strip_all(spice_lines(ls)),
    decreases ls.len(),
{
    if ls.len() > 0 {
        let front = ls.drop_last();
        lemma_strip_spice(front);
        lemma_strip_kind(ls.last());
        assert(strip_all(ls).drop_last() =~= strip_all(front));
        assert(strip_all(ls).last() == strip_cr(ls.last()));
        lemma_block_plain();
        if is_display_line(ls.last()) {
            assert(strip_all(spice_lines(front) + spice_block()) =~= strip_all(spice_lines(front))
                + spice_block());
        } else {
            assert(strip_all(spice_lines(front).push(ls.last())) =~= strip_all(
                spice_lines(front),
            ).push(strip_cr(ls.last())));
        }
    } else {
        assert(strip_all(ls) =~= ls);
        assert(strip_all(spice_lines(ls)) =~= spice_lines(ls));
    }
}

/// No line of the block ends with a carriage return.
proof fn lemma_block_plain()
    ensures
        spice_block().len() == 4,
        forall|i: int|
            0 <= i < 4 ==> strip_cr(#[trigger] spice_block()[i]) == spice_block()[i]
                && spice_block()[i].len() > 0,
{
    reveal_strlit("        -spice unix,addr=$VM_DIR/spice.sock,disable-ticketing \\");
    reveal_strlit("        -device virtio-serial \\");
    reveal_strlit("        -chardev spicevmc,id=vdagent,name=vdagent \\");
    reveal_strlit("        -device virtserialport,chardev=vdagent,name=com.redhat.spice.0 \\");
    assert forall|i: int| 0 <= i < 4 implies strip_cr(#[trigger] spice_block()[i])
        == spice_block()[i] && spice_block()[i].len() > 0 by {
        assert(i == 0 || i == 1 || i == 2 || i == 3);
        assert(spice_block()[i].last() == '\\');
    }
}

/// The same for lines of which the last may have no line feed.
proof fn lemma_read_again_spice(ls: Seq<Seq<char>>, like: Seq<char>)
    requires
        ls.len() > 0,
    ensures
        read_again(spice_lines(ls), like) == spice_lines(read_again(ls, like)),
        spice_lines(ls).len() > 0,
        ls.last().len() > 0 ==> spice_lines(ls).last().len() > 0,
{
    let front = ls.drop_last();
    let sl = spice_lines(ls);
    lemma_block_plain();
    if is_display_line(ls.last()) {
        assert(sl.last() == spice_block()[3]);
    } else {
        assert(sl.last() == ls.last());
    }
    if ends_line(like) {
        lemma_strip_spice(ls);
    } else {
        lemma_strip_spice(front);
        let now = read_again(ls, like);
        assert(now.drop_last() =~= strip_all(front));
        assert(now.last() == ls.last());
        if is_display_line(ls.last()) {
            assert(strip_all(sl.drop_last()).push(sl.last()) =~= strip_all(spice_lines(front))
                + spice_block());
        } else {
            assert(sl.drop_last() =~= spice_lines(front));
        }
    }
}

/// The line names a display, or serves SPICE: one that a switch to SPICE and back takes out.
pub open spec fn is_marked_line(line: Seq<char>) -> bool {
    is_display_line(line) || is_spice_line(line)
}

/// Some of the lines is marked.
pub open spec fn any_marked_line(ls: Seq<Seq<char>>) -> bool {
    exists|i: int| 0 <= i < ls.len() && is_marked_line(#[trigger] ls[i])
}

/// The lines without those that are marked, and with `display` in place of the first of
/// them.
pub open spec fn one_display(ls: Seq<Seq<char>>, display: Seq<char>) -> Seq<Seq<char>>
    decreases ls.len(),
{
    if ls.len() == 0 {
        Seq::empty()
    } else {
        let done = one_display(ls.drop_last(), display);
        if !is_marked_line(ls.last()) {
            done.push(ls.last())
        } else if any_marked_line(ls.drop_last()) {
            done
        } else {
            done.push(display)
        }
    }
}

/// One more line, taken out or kept.
proof fn lemma_plain_push(ls: Seq<Seq<char>>, line: Seq<char>, display: Seq<char>)
    ensures
        plain_lines(ls.push(line), display) == (if !is_spice_line(line) {
            plain_lines(ls, display).push(line)
        } else if any_spice_line(ls) {
            plain_lines(ls, display)
        } else {
            plain_lines(ls, display).push(display)
        }),
        any_spice_line(ls.push(line)) == (any_spice_line(ls) || is_spice_line(line)),
{
    let more = ls.push(line);
    assert(more.drop_last() =~= ls);
    if any_spice_line(ls) {
        let i = choose|i: int| 0 <= i < ls.len() && is_spice_line(#[trigger] ls[i]);
        assert(more[i] == ls[i]);
    }
    if is_spice_line(line) {
        assert(more[ls.len() as int] == line);
    }
    if any_spice_line(more) {
        let i = choose|i: int| 0 <= i < more.len() && is_spice_line(#[trigger] more[i]);
        if i < ls.len() {
            assert(ls[i] == more[i]);
        }
    }
}

/// The block, taken out.
proof fn lemma_plain_block(ls: Seq<Seq<char>>, display: Seq<char>)
    ensures
        plain_lines(ls + spice_block(), display) == (if any_spice_line(ls) {
            plain_lines(ls, display)
        } else {
            plain_lines(ls, display).push(display)
        }),
        any_spice_line(ls + spice_block()),
{
    let b = spice_block();
    lemma_block();
    let l1 = ls.push(b[0]);
    let l2 = l1.push(b[1]);
    let l3 = l2.push(b[2]);
    lemma_plain_push(ls, b[0], display);
    lemma_plain_push(l1, b[1], display);
    lemma_plain_push(l2, b[2], display);
    lemma_plain_push(l3, b[3], display);
    assert(l3.push(b[3]) =~= ls + b);
}

/// Taking out what a switch to SPICE put in.
proof fn lemma_plain_of_spice(ls: Seq<Seq<char>>, display: Seq<char>)
    ensures
        plain_lines(spice_lines(ls), display) == one_display(ls, display),
        any_spice_line(spice_lines(ls)) == any_marked_line(ls),
    decreases ls.len(),
{
    if ls.len() > 0 {
        let front = ls.drop_last();
        let last = ls.last();
        lemma_plain_of_spice(front, display);
        if is_display_line(last) {
            lemma_plain_block(spice_lines(front), display);
        } else {
            lemma_plain_push(spice_lines(front), last, display);
        }
        if any_marked_line(front) {
            let i = choose|i: int| 0 <= i < front.len() && is_marked_line(#[trigger] front[i]);
            assert(ls[i] == front[i]);
        }
        if is_marked_line(last) {
            assert(ls[ls.len() - 1] == last);
        }
        if any_marked_line(ls) {
            let i = choose|i: int| 0 <= i < ls.len() && is_marked_line(#[trigger] ls[i]);
            if i < front.len() {
                assert(front[i] == ls[i]);
            }
        }
    }
}

/// What a script holds that was switched to SPICE and back: its lines, with the written
/// display in place of the first line that named a display or served SPICE, and without the
/// others of these. Each line that a line feed follows has lost the carriage returns that
/// reading it twice takes off.
pub proof fn text_of_spice_and_back(
    content: Seq<char>,
    backend: Seq<char>,
    gl: bool,
    fullscreen: bool,
)
    requires
        !has_part(content, spice_socket()),
        any_display_line(lines(content)),
        backend != "spice"@,
    ensures
        with_display(with_spice(content), backend, gl, fullscreen) == lines_text(
            one_display(
                read_again(lines(content), content),
                display_line(backend, gl, fullscreen),
            ),
            content,
        ),
{
    let ls = lines(content);
    let sl = spice_lines(ls);
    let c = with_spice(content);
    let d = display_line(backend, gl, fullscreen);
    lemma_block();
    lemma_socket_line();
    lemma_lines_of(content);
    let at = lemma_spice_has(ls);
    assert(has_part(sl[at], spice_socket()));
    lemma_part_of_text(sl, content, spice_socket());
    assert forall|i: int| 0 <= i < sl.len() implies !(#[trigger] sl[i]).contains('\n') by {
        let j = lemma_spice_from(ls, i);
    }
    lemma_last_line(content);
    lemma_read_again_spice(ls, content);
    lemma_read_again(sl, content);
    lemma_plain_of_spice(read_again(ls, content), d);
    let pl = plain_lines(lines(c), d);
    assert(lines_text(pl, c) == lines_text(pl, content));
}

/// The same for a script whose lines have plain ends: the lines are those of the script.
pub proof fn plain_text_of_spice_and_back(
    content: Seq<char>,
    backend: Seq<char>,
    gl: bool,
    fullscreen: bool,
)
    requires
        !has_part(content, spice_socket()),
        any_display_line(lines(content)),
        plain_ends(content),
        backend != "spice"@,
    ensures
        with_display(with_spice(content), backend, gl, fullscreen) == lines_text(
            one_display(lines(content), display_line(backend, gl, fullscreen)),
            content,
        ),
{
    text_of_spice_and_back(content, backend, gl, fullscreen);
}

} // verus!
