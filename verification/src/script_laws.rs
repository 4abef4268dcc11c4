//! What reading and writing the display settings of a launch script give, stated on the texts
//! that go in and come out.
use crate::display_dialog::{
    any_spice_line, apply_display, apply_spice, display_line, display_option, display_value,
    ends_word, first_settings, is_display_line, is_spice_line, line_settings, lines_text,
    parse_display, plain_lines, remove_spice_add_display, spice_block, spice_lines, spice_socket,
};
use crate::display_laws::{
    lemma_indent, lemma_no_part_of, lemma_occurs_char, lemma_option, lemma_step, lemma_trim_start,
};
use crate::spice_laws::{
    lemma_join_front, lemma_last_line, lemma_lines_front, lemma_no_spice_lines, lemma_part_of,
    lemma_spice_options, lemma_strip_kind, lemma_strip_settings,
};
use crate::text::{
    begins_with, find_where, has_part, is_space, join, lemma_find_part, lemma_find_part_is,
    lemma_find_where, lemma_find_where_is, lines, occurs_at, pieces, strip_cr, trim_start,
};
use crate::text_laws::{all_lack, all_space, beginning_stands_first, splitting_undoes_joining};
use vstd::prelude::*;

verus! {

/// The text holds neither white space nor a backslash.
pub open spec fn one_word(s: Seq<char>) -> bool {
    forall|i: int| 0 <= i < s.len() ==> !is_space(#[trigger] s[i]) && s[i] != '\\'
}

/// The text is empty, or begins with white space or a backslash.
pub open spec fn word_over(s: Seq<char>) -> bool {
    s.len() == 0 || is_space(s[0]) || s[0] == '\\'
}

/// Words that are joined by commas are one word.
proof fn lemma_joined_word(parts: Seq<Seq<char>>)
    requires
        forall|i: int| 0 <= i < parts.len() ==> one_word(#[trigger] parts[i]),
    ensures
        one_word(join(parts, seq![','])),
    decreases parts.len(),
{
    if parts.len() == 1 {
        assert(one_word(parts[0]));
    } else if parts.len() > 1 {
        let front = parts.drop_last();
        assert forall|i: int| 0 <= i < front.len() implies one_word(#[trigger] front[i]) by {
            assert(front[i] == parts[i]);
        }
        lemma_joined_word(front);
        assert(one_word(parts[parts.len() - 1]));
    }
}

/// The settings of a `-display` line: the first part of its value, and whether `gl=on` and
/// `full-screen=on` are among the parts.
proof fn lemma_parts_settings(sp: Seq<char>, parts: Seq<Seq<char>>, behind: Seq<char>)
    requires
        all_space(sp),
        parts.len() > 0,
        all_lack(parts, ','),
        forall|i: int| 0 <= i < parts.len() ==> one_word(#[trigger] parts[i]),
        word_over(behind),
    ensures
        line_settings(sp + "-display "@ + join(parts, seq![',']) + behind) == (if parts[0].len()
            > 0 {
            Some((parts[0], parts.contains("gl=on"@), parts.contains("full-screen=on"@)))
        } else {
            None
        }),
{
    let d = "-display "@;
    let v = join(parts, seq![',']);
    let line = sp + d + v + behind;
    let t = d + v + behind;
    lemma_option();
    lemma_joined_word(parts);
    assert(line =~= sp + t);
    assert(t[0] == d[0]);
    lemma_trim_start(sp, t);
    assert(t.subrange(0, 9) =~= d);
    let w = t.skip(9);
    assert(w =~= v + behind);
    let n = v.len() as int;
    assert forall|j: int| 0 <= j < n implies !(ends_word())(#[trigger] w[j]) by {
        assert(w[j] == v[j]);
    }
    if behind.len() > 0 {
        assert(w[n] == behind[0]);
    }
    lemma_find_where_is(w, ends_word(), 0, n);
    assert(w.take(n) =~= v);
    splitting_undoes_joining(parts, ',');
}

/// A script that begins with a `-display` line whose value names a backend, and that does not
/// serve SPICE, has the settings of that line: its backend is the first of the parts between
/// the commas of the value, GL is on exactly if one of the parts is `gl=on`, and full screen
/// exactly if one is `full-screen=on`, whatever other parts there are, and in any order.
pub proof fn settings_are_those_of_the_parts(
    sp: Seq<char>,
    parts: Seq<Seq<char>>,
    behind: Seq<char>,
    back: Seq<char>,
    raw: &str,
    res: (String, bool, bool),
)
    requires
        all_space(sp),
        !sp.contains('\n'),
        parts.len() > 0,
        parts[0].len() > 0,
        all_lack(parts, ','),
        forall|i: int| 0 <= i < parts.len() ==> one_word(#[trigger] parts[i]),
        word_over(behind),
        !behind.contains('\n'),
        back.len() > 0 ==> back[0] == '\n',
        raw@ == sp + "-display "@ + join(parts, seq![',']) + behind + back,
        !has_part(raw@, "-spice unix,addr=$VM_DIR/spice.sock"@),
        call_ensures(parse_display, (raw,), res),
    ensures
        res.0@ == parts[0],
        res.1 <==> exists|i: int| 0 <= i < parts.len() && parts[i] == "gl=on"@,
        res.2 <==> exists|i: int| 0 <= i < parts.len() && parts[i] == "full-screen=on"@,
{
    let v = join(parts, seq![',']);
    let line = sp + "-display "@ + v + behind;
    let s = raw@;
    lemma_parts_settings(sp, parts, behind);
    lemma_option();
    lemma_joined_word(parts);
    assert forall|j: int| 0 <= j < line.len() implies line[j] != '\n' by {
        let n = sp.len() as int;
        if j < n {
            assert(line[j] == sp[j]);
        } else if j < n + 9 {
            assert(line[j] == display_option()[j - n]);
        } else if j < n + 9 + v.len() {
            assert(line[j] == v[j - n - 9]);
        } else {
            assert(line[j] == behind[j - n - 9 - v.len()]);
        }
    }
    if back.len() > 0 {
        let y = back.skip(1);
        assert(s =~= line + seq!['\n'] + y);
        lemma_lines_front(line, y);
        lemma_strip_settings(line);
        assert(lines(s)[0] == strip_cr(line));
    } else {
        assert(s =~= line);
        lemma_lines_front(line, Seq::empty());
        assert(lines(s)[0] == line);
    }
    assert(first_settings(lines(s)) == line_settings(line));
    assert(spice_socket() == "-spice unix,addr=$VM_DIR/spice.sock"@);
}

/// A line that names no backend for `-display` is passed over: a script that begins with it
/// has the settings of the rest.
pub proof fn other_lines_are_passed_over(
    sp: Seq<char>,
    t: Seq<char>,
    raw: &str,
    rest: &str,
    res: (String, bool, bool),
    of_rest: (String, bool, bool),
)
    requires
        all_space(sp),
        t.len() > 0 ==> !is_space(t[0]),
        !(sp + t).contains('\n'),
        forall|y: Seq<char>|
            #[trigger] ("-display "@ + y) == t ==> word_over(y) || y[0] == ',',
        raw@ == sp + t + seq!['\n'] + rest@,
        !has_part(raw@, "-spice unix,addr=$VM_DIR/spice.sock"@),
        call_ensures(parse_display, (raw,), res),
        call_ensures(parse_display, (rest,), of_rest),
    ensures
        (res.0@, res.1, res.2) == (of_rest.0@, of_rest.1, of_rest.2),
{
    let line = sp + t;
    let s = raw@;
    let y = rest@;
    lemma_lines_front(line, y);
    lemma_strip_settings(line);
    lemma_trim_start(sp, t);
    lemma_option();
    if is_display_line(line) {
        let w = t.skip(9);
        assert("-display "@ + w =~= t);
        let end = find_where(w, ends_word(), 0);
        lemma_find_where(w, ends_word(), 0);
        let v = w.take(end);
        if w.len() > 0 && w[0] == ',' {
            reveal_with_fuel(pieces, 2);
            lemma_find_where_is(v, crate::text::equals(','), 0, 0);
            assert(v.take(0).len() == 0);
        } else {
            if w.len() > 0 {
                lemma_find_where_is(w, ends_word(), 0, 0);
            }
            assert(v.len() == 0);
            lemma_find_where_is(v, crate::text::equals(','), 0, 0);
        }
        assert(line_settings(line).is_none());
    }
    assert(lines(s).skip(1) =~= lines(y));
    assert(first_settings(lines(s)) == first_settings(lines(y)));
    assert(spice_socket() == "-spice unix,addr=$VM_DIR/spice.sock"@);
    if has_part(y, spice_socket()) {
        lemma_part_of(line + seq!['\n'], y, spice_socket());
    }
}

/// A script that serves SPICE on its socket reads as SPICE, and one without any line that
/// names a display reads as GTK, both without GL and full screen.
pub proof fn spice_and_no_display(raw: &str, res: (String, bool, bool))
    requires
        call_ensures(parse_display, (raw,), res),
        has_part(raw@, "-spice unix,addr=$VM_DIR/spice.sock"@) || !has_part(raw@, "-display "@),
    ensures
        has_part(raw@, "-spice unix,addr=$VM_DIR/spice.sock"@) ==> res.0@ == "spice"@,
        !has_part(raw@, "-spice unix,addr=$VM_DIR/spice.sock"@) ==> res.0@ == "gtk"@,
        !res.1,
        !res.2,
{
    let s = raw@;
    assert(spice_socket() == "-spice unix,addr=$VM_DIR/spice.sock"@);
    if !has_part(s, spice_socket()) {
        crate::spice_laws::lemma_lines_of(s);
        assert forall|i: int| 0 <= i < lines(s).len() implies line_settings(
            #[trigger] lines(s)[i],
        ).is_none() by {
            let l = lines(s)[i];
            if is_display_line(l) {
                let n = lemma_indent(l);
                lemma_option();
                assert(l.skip(n).subrange(0, 9) =~= l.subrange(n, n + 9));
                assert(occurs_at(l, "-display "@, n));
                assert(has_part(lines(s)[i], "-display "@));
            }
        }
        lemma_no_settings(lines(s));
    }
}

proof fn lemma_no_settings(ls: Seq<Seq<char>>)
    requires
        forall|i: int| 0 <= i < ls.len() ==> line_settings(#[trigger] ls[i]).is_none(),
    ensures
        first_settings(ls).is_none(),
    decreases ls.len(),
{
    if ls.len() > 0 {
        let rest = ls.skip(1);
        assert forall|i: int| 0 <= i < rest.len() implies line_settings(
            #[trigger] rest[i],
        ).is_none() by {
            assert(rest[i] == ls[i + 1]);
        }
        lemma_no_settings(rest);
    }
}

/// Writing to a script that does not serve SPICE replaces each `-display` and its value, from
/// the first on: what stands before it stays, then comes the option with the backend and what
/// is switched on, and what stands behind is written in the same way.
pub proof fn display_arguments_are_replaced(
    x: Seq<char>,
    value: Seq<char>,
    behind: &str,
    content: &str,
    backend: &str,
    gl: bool,
    fullscreen: bool,
    res: String,
    of_behind: String,
)
    requires
        !has_part(x, "-display "@),
        one_word(value),
        word_over(behind@),
        content@ == x + "-display "@ + value + behind@,
        !has_part(content@, "-spice unix,addr=$VM_DIR/spice.sock"@),
        backend@ != "spice"@,
        call_ensures(apply_display, (content, backend, gl, fullscreen), res),
        call_ensures(apply_display, (behind, backend, gl, fullscreen), of_behind),
    ensures
        res@ == x + "-display "@ + backend@ + (if gl {
            ",gl=on"@
        } else {
            Seq::empty()
        }) + (if fullscreen {
            ",full-screen=on"@
        } else {
            Seq::empty()
        }) + of_behind@,
{
    let s = content@;
    let d = "-display "@;
    let n = x.len() as int;
    let a = d + display_value(backend@, gl, fullscreen);
    lemma_option();
    assert(spice_socket() == "-spice unix,addr=$VM_DIR/spice.sock"@);
    assert(s.subrange(n, n + 9) =~= d);
    assert forall|j: int| 0 <= j < n implies !occurs_at(s, d, j) by {
        if occurs_at(s, d, j) {
            if j + 9 <= n {
                assert(x.subrange(j, j + 9) =~= s.subrange(j, j + 9));
                assert(occurs_at(x, d, j));
            } else {
                lemma_occurs_char(s, d, j, n - j);
                assert(s[n] == d[0]);
            }
        }
    }
    lemma_find_part_is(s, d, 0, n);
    let m = n + 9 + value.len();
    assert forall|j: int| n + 9 <= j < m implies !(ends_word())(#[trigger] s[j]) by {
        assert(s[j] == value[j - n - 9]);
    }
    if behind@.len() > 0 {
        assert(s[m] == behind@[0]);
    }
    lemma_find_where_is(s, ends_word(), n + 9, m);
    assert(s.take(n) =~= x);
    assert(s.skip(m) =~= behind@);
    lemma_no_part_of(s, spice_socket(), n, m);
    let (i, end) = lemma_step(s, a);
    assert(res@ =~= x + d + backend@ + (if gl {
        ",gl=on"@
    } else {
        Seq::empty()
    }) + (if fullscreen {
        ",full-screen=on"@
    } else {
        Seq::empty()
    }) + of_behind@);
}

/// A script with neither `-display` nor SPICE stays as it is. The backend `spice` is the
/// switch to SPICE, and any other written to a script that serves SPICE is the switch back.
pub proof fn writing_goes_one_of_three_ways(
    content: &str,
    backend: &str,
    gl: bool,
    fullscreen: bool,
    res: String,
    to_spice: String,
    back: String,
)
    requires
        call_ensures(apply_display, (content, backend, gl, fullscreen), res),
        call_ensures(apply_spice, (content,), to_spice),
        call_ensures(remove_spice_add_display, (content, backend, gl, fullscreen), back),
    ensures
        backend@ == "spice"@ ==> res@ == to_spice@,
        backend@ != "spice"@ && has_part(content@, "-spice unix,addr=$VM_DIR/spice.sock"@)
            ==> res@ == back@,
        backend@ != "spice"@ && !has_part(content@, "-spice unix,addr=$VM_DIR/spice.sock"@)
            && !has_part(content@, "-display "@) ==> res@ == content@,
        has_part(content@, "-spice unix,addr=$VM_DIR/spice.sock"@) ==> to_spice@ == content@,
{
    assert(spice_socket() == "-spice unix,addr=$VM_DIR/spice.sock"@);
    lemma_find_part(content@, "-display "@, 0);
}

/// Behind white space the line begins with the option.
pub open spec fn line_with(line: Seq<char>, option: Seq<char>) -> bool {
    exists|sp: Seq<char>, y: Seq<char>| all_space(sp) && #[trigger] (sp + option + y) == line
}

/// What begins behind white space begins behind all of it.
proof fn lemma_line_with(line: Seq<char>, option: Seq<char>)
    requires
        option.len() > 0,
        !is_space(option[0]),
    ensures
        begins_with(trim_start(line), option) <==> line_with(line, option),
{
    let n = lemma_indent(line);
    beginning_stands_first(trim_start(line), option);
    if begins_with(trim_start(line), option) {
        let y = choose|y: Seq<char>| #[trigger] (option + y) == trim_start(line);
        let sp = line.take(n);
        assert forall|i: int| 0 <= i < sp.len() implies is_space(#[trigger] sp[i]) by {
            assert(sp[i] == line[i]);
        }
        assert(sp + option + y =~= line);
    }
    if line_with(line, option) {
        let (sp, y) = choose|sp: Seq<char>, y: Seq<char>|
            all_space(sp) && #[trigger] (sp + option + y) == line;
        assert(line =~= sp + (option + y));
        assert((option + y)[0] == option[0]);
        lemma_trim_start(sp, option + y);
        assert(option + y == trim_start(line));
    }
}

/// The line names a display.
pub open spec fn names_display(line: Seq<char>) -> bool {
    line_with(line, "-display "@)
}

/// The line is one that serves SPICE.
pub open spec fn serves_spice(line: Seq<char>) -> bool {
    ||| line_with(line, "-spice "@)
    ||| line_with(line, "-device virtio-serial"@)
    ||| line_with(line, "-chardev spicevmc,"@)
    ||| line_with(line, "-device virtserialport,chardev=vdagent"@)
}

proof fn lemma_kinds(line: Seq<char>)
    ensures
        is_display_line(line) <==> names_display(line),
        is_spice_line(line) <==> serves_spice(line),
{
    lemma_option();
    lemma_spice_options();
    lemma_line_with(line, "-display "@);
    lemma_line_with(line, "-spice "@);
    lemma_line_with(line, "-device virtio-serial"@);
    lemma_line_with(line, "-chardev spicevmc,"@);
    lemma_line_with(line, "-device virtserialport,chardev=vdagent"@);
}

/// The line without a carriage return at its end.
pub open spec fn without_return(line: Seq<char>) -> Seq<char> {
    if line.len() > 0 && line.last() == '\r' {
        line.drop_last()
    } else {
        line
    }
}

/// The lines that stand in place of a display when a script is switched to SPICE.
pub open spec fn spice_text() -> Seq<char> {
    "        -spice unix,addr=$VM_DIR/spice.sock,disable-ticketing \\"@ + seq!['\n']
        + "        -device virtio-serial \\"@ + seq!['\n']
        + "        -chardev spicevmc,id=vdagent,name=vdagent \\"@ + seq!['\n']
        + "        -device virtserialport,chardev=vdagent,name=com.redhat.spice.0 \\"@
}

proof fn lemma_spice_text()
    ensures
        join(spice_block(), "\n"@) == spice_text(),
        spice_block().len() == 4,
{
    let b = spice_block();
    let b1 = b.skip(1);
    let b2 = b1.skip(1);
    lemma_join_front(b);
    lemma_join_front(b1);
    lemma_join_front(b2);
    assert(b2.skip(1) =~= seq![b[3]]);
    assert(join(seq![b[3]], "\n"@) == b[3]);
    assert(join(b, "\n"@) =~= spice_text());
}

/// SPICE lines of a list, from the front.
proof fn lemma_spice_front(l: Seq<char>, ls: Seq<Seq<char>>)
    ensures
        spice_lines(seq![l] + ls) == (if is_display_line(l) {
            spice_block()
        } else {
            seq![l]
        }) + spice_lines(ls),
        ls.len() > 0 ==> spice_lines(ls).len() > 0,
    decreases ls.len(),
{
    let all = seq![l] + ls;
    let head = if is_display_line(l) {
        spice_block()
    } else {
        seq![l]
    };
    lemma_spice_text();
    if ls.len() == 0 {
        assert(all.drop_last() =~= Seq::empty());
        assert(all.last() == l);
        assert(spice_lines(all.drop_last()) =~= Seq::empty());
        assert(spice_lines(all) =~= head);
        assert(spice_lines(all) =~= head + spice_lines(ls));
    } else {
        lemma_spice_front(l, ls.drop_last());
        assert(all.drop_last() =~= seq![l] + ls.drop_last());
        assert(all.last() == ls.last());
        assert(spice_lines(all) =~= head + spice_lines(ls));
    }
}

/// The text of two lists of lines, one behind the other.
proof fn lemma_text_beside(a: Seq<Seq<char>>, b: Seq<Seq<char>>, like: Seq<char>)
    requires
        a.len() > 0,
        b.len() > 0,
    ensures
        lines_text(a + b, like) == join(a, "\n"@) + seq!['\n'] + lines_text(b, like),
    decreases a.len(),
{
    let ab = a + b;
    lemma_join_front(ab);
    if a.len() == 1 {
        assert(ab.skip(1) =~= b);
        assert(join(a, "\n"@) == a[0]);
        assert(lines_text(ab, like) =~= join(a, "\n"@) + seq!['\n'] + lines_text(b, like));
    } else {
        lemma_text_beside(a.skip(1), b, like);
        assert(ab.skip(1) =~= a.skip(1) + b);
        lemma_join_front(a);
        assert(lines_text(ab, like) =~= ab[0] + seq!['\n'] + lines_text(ab.skip(1), like));
        assert(lines_text(ab, like) =~= join(a, "\n"@) + seq!['\n'] + lines_text(b, like));
    }
}

/// Only the end of a text decides how the text of lines ends.
proof fn lemma_text_like(ls: Seq<Seq<char>>, x: Seq<char>, y: Seq<char>)
    requires
        y.len() > 0,
    ensures
        lines_text(ls, x + y) == lines_text(ls, y),
{
    assert((x + y).last() == y.last());
}

/// Switching to SPICE works line by line: a line that names a display becomes the four lines
/// that serve SPICE, and any other line stays, but for a carriage return before its line feed.
pub proof fn displays_become_spice(
    line: Seq<char>,
    content: &str,
    rest: &str,
    res: String,
    of_rest: String,
)
    requires
        !line.contains('\n'),
        rest@.len() > 0,
        content@ == line + seq!['\n'] + rest@,
        !has_part(content@, "-spice unix,addr=$VM_DIR/spice.sock"@),
        call_ensures(apply_spice, (content,), res),
        call_ensures(apply_spice, (rest,), of_rest),
    ensures
        res@ == (if names_display(line) {
            spice_text()
        } else {
            without_return(line)
        }) + seq!['\n'] + of_rest@,
{
    let c = content@;
    let r = rest@;
    let l = strip_cr(line);
    assert(spice_socket() == "-spice unix,addr=$VM_DIR/spice.sock"@);
    if has_part(r, spice_socket()) {
        lemma_part_of(line + seq!['\n'], r, spice_socket());
    }
    lemma_lines_front(line, r);
    lemma_last_line(r);
    lemma_spice_front(l, lines(r));
    lemma_strip_kind(line);
    lemma_kinds(line);
    lemma_spice_text();
    let head = if is_display_line(l) {
        spice_block()
    } else {
        seq![l]
    };
    lemma_text_beside(head, spice_lines(lines(r)), c);
    assert(c =~= (line + seq!['\n']) + r);
    lemma_text_like(spice_lines(lines(r)), line + seq!['\n'], r);
    assert(join(seq![l], "\n"@) == l);
}

/// The last line of a script is switched in the same way, and keeps its line feed if it has
/// one.
pub proof fn last_display_becomes_spice(
    line: Seq<char>,
    bare: &str,
    ended: &str,
    of_bare: String,
    of_ended: String,
)
    requires
        !line.contains('\n'),
        bare@ == line,
        ended@ == line + seq!['\n'],
        !has_part(ended@, "-spice unix,addr=$VM_DIR/spice.sock"@),
        call_ensures(apply_spice, (bare,), of_bare),
        call_ensures(apply_spice, (ended,), of_ended),
    ensures
        of_bare@ == (if names_display(line) {
            spice_text()
        } else {
            line
        }),
        of_ended@ == (if names_display(line) {
            spice_text()
        } else {
            without_return(line)
        }) + seq!['\n'],
{
    let none = Seq::<char>::empty();
    let empty = Seq::<Seq<char>>::empty();
    assert(spice_socket() == "-spice unix,addr=$VM_DIR/spice.sock"@);
    if has_part(line, spice_socket()) {
        lemma_part_of(line, seq!['\n'], spice_socket());
    }
    assert(ended@ =~= line + seq!['\n'] + none);
    lemma_lines_front(line, none);
    assert(lines(none) =~= empty);
    lemma_kinds(line);
    lemma_strip_kind(line);
    lemma_spice_text();
    lemma_spice_front(line, empty);
    lemma_spice_front(strip_cr(line), empty);
    assert(spice_lines(empty) =~= empty);
    assert(seq![line] + empty =~= seq![line]);
    assert(seq![strip_cr(line)] + empty =~= seq![strip_cr(line)]);
    assert(lines(ended@) =~= seq![strip_cr(line)]);
    assert(spice_block() + empty =~= spice_block());
    assert(join(seq![line], "\n"@) == line);
    assert(join(seq![strip_cr(line)], "\n"@) == strip_cr(line));
    if line.len() == 0 {
        assert(of_bare@ =~= none);
        if names_display(line) {
            lemma_option();
            let (sp, y) = choose|sp: Seq<char>, y: Seq<char>|
                all_space(sp) && #[trigger] (sp + "-display "@ + y) == line;
            assert((sp + "-display "@ + y).len() >= 9);
        }
    } else {
        if line.last() == '\n' {
            assert(line.contains('\n'));
        }
    }
}

/// The lines that do not serve SPICE.
spec fn kept(ls: Seq<Seq<char>>) -> Seq<Seq<char>>
    decreases ls.len(),
{
    if ls.len() == 0 {
        Seq::empty()
    } else if is_spice_line(ls.last()) {
        kept(ls.drop_last())
    } else {
        kept(ls.drop_last()).push(ls.last())
    }
}

proof fn lemma_kept_front(l: Seq<char>, ls: Seq<Seq<char>>)
    ensures
        kept(seq![l] + ls) == (if is_spice_line(l) {
            kept(ls)
        } else {
            seq![l] + kept(ls)
        }),
    decreases ls.len(),
{
    let all = seq![l] + ls;
    if ls.len() == 0 {
        assert(all.drop_last() =~= Seq::empty());
        assert(all.last() == l);
        assert(kept(all.drop_last()) =~= Seq::empty());
        assert(kept(all) =~= (if is_spice_line(l) {
            kept(ls)
        } else {
            seq![l] + kept(ls)
        }));
    } else {
        lemma_kept_front(l, ls.drop_last());
        assert(all.drop_last() =~= seq![l] + ls.drop_last());
        assert(all.last() == ls.last());
        assert(kept(all) =~= (if is_spice_line(l) {
            kept(ls)
        } else {
            seq![l] + kept(ls)
        }));
    }
}

proof fn lemma_kept_all(ls: Seq<Seq<char>>)
    requires
        forall|j: int| 0 <= j < ls.len() ==> !is_spice_line(#[trigger] ls[j]),
    ensures
        kept(ls) == ls,
    decreases ls.len(),
{
    if ls.len() > 0 {
        let front = ls.drop_last();
        assert forall|j: int| 0 <= j < front.len() implies !is_spice_line(#[trigger] front[j]) by {
            assert(front[j] == ls[j]);
        }
        lemma_kept_all(front);
        assert(!is_spice_line(ls[ls.len() - 1]));
        assert(ls =~= front.push(ls.last()));
    }
}

/// The plain lines of a list, from the front.
proof fn lemma_plain_front(l: Seq<char>, ls: Seq<Seq<char>>, d: Seq<char>)
    ensures
        plain_lines(seq![l] + ls, d) == (if is_spice_line(l) {
            seq![d] + kept(ls)
        } else {
            seq![l] + plain_lines(ls, d)
        }),
        any_spice_line(seq![l] + ls) == (is_spice_line(l) || any_spice_line(ls)),
        ls.len() > 0 ==> plain_lines(ls, d).len() > 0,
    decreases ls.len(),
{
    let all = seq![l] + ls;
    if any_spice_line(ls) {
        let i = choose|i: int| 0 <= i < ls.len() && is_spice_line(#[trigger] ls[i]);
        assert(all[i + 1] == ls[i]);
    }
    if is_spice_line(l) {
        assert(all[0] == l);
    }
    if any_spice_line(all) {
        let i = choose|i: int| 0 <= i < all.len() && is_spice_line(#[trigger] all[i]);
        if i > 0 {
            assert(ls[i - 1] == all[i]);
        }
    }
    if ls.len() == 0 {
        assert(all.drop_last() =~= Seq::empty());
        assert(all.last() == l);
        assert(plain_lines(all.drop_last(), d) =~= Seq::empty());
        assert(!any_spice_line(all.drop_last()));
        assert(plain_lines(all, d) =~= (if is_spice_line(l) {
            seq![d] + kept(ls)
        } else {
            seq![l] + plain_lines(ls, d)
        }));
    } else {
        let front = ls.drop_last();
        lemma_plain_front(l, front, d);
        assert(all.drop_last() =~= seq![l] + front);
        assert(all.last() == ls.last());
        assert(plain_lines(all, d) =~= (if is_spice_line(l) {
            seq![d] + kept(ls)
        } else {
            seq![l] + plain_lines(ls, d)
        }));
        if front.len() == 0 {
            assert(!any_spice_line(front));
        }
    }
}

/// The line that is written in place of the SPICE lines.
pub open spec fn written_line(backend: Seq<char>, gl: bool, fullscreen: bool) -> Seq<char> {
    "        -display "@ + backend + (if gl {
        ",gl=on"@
    } else {
        Seq::empty()
    }) + (if fullscreen {
        ",full-screen=on"@
    } else {
        Seq::empty()
    }) + " \\"@
}

proof fn lemma_written(backend: Seq<char>, gl: bool, fullscreen: bool)
    ensures
        display_line(backend, gl, fullscreen) == written_line(backend, gl, fullscreen),
{
    assert(display_line(backend, gl, fullscreen) =~= written_line(backend, gl, fullscreen));
}

/// Taking SPICE out of a script passes over the lines before the first that serves it: they
/// stay, but for a carriage return before a line feed.
pub proof fn lines_before_spice_stay(
    line: Seq<char>,
    content: &str,
    rest: &str,
    backend: &str,
    gl: bool,
    fullscreen: bool,
    res: String,
    of_rest: String,
)
    requires
        !line.contains('\n'),
        !serves_spice(line),
        rest@.len() > 0,
        content@ == line + seq!['\n'] + rest@,
        call_ensures(remove_spice_add_display, (content, backend, gl, fullscreen), res),
        call_ensures(remove_spice_add_display, (rest, backend, gl, fullscreen), of_rest),
    ensures
        res@ == without_return(line) + seq!['\n'] + of_rest@,
{
    let c = content@;
    let r = rest@;
    let l = strip_cr(line);
    let d = display_line(backend@, gl, fullscreen);
    lemma_lines_front(line, r);
    lemma_last_line(r);
    lemma_strip_kind(line);
    lemma_kinds(line);
    lemma_plain_front(l, lines(r), d);
    lemma_text_beside(seq![l], plain_lines(lines(r), d), c);
    assert(c =~= (line + seq!['\n']) + r);
    lemma_text_like(plain_lines(lines(r), d), line + seq!['\n'], r);
    assert(join(seq![l], "\n"@) == l);
}

/// The first line that serves SPICE becomes the new `-display` line. Of the lines behind it,
/// one that serves SPICE goes, and any other stays, but for a carriage return before its line
/// feed; the last two clauses say so of the line that comes next.
pub proof fn first_spice_line_becomes_the_display(
    line: Seq<char>,
    next: Seq<char>,
    rest: Seq<char>,
    content: &str,
    longer: &str,
    backend: &str,
    gl: bool,
    fullscreen: bool,
    res: String,
    of_longer: String,
) -> (behind: Seq<char>)
    requires
        !line.contains('\n'),
        !next.contains('\n'),
        serves_spice(line),
        content@ == line + seq!['\n'] + rest,
        longer@ == line + seq!['\n'] + (next + seq!['\n'] + rest),
        call_ensures(remove_spice_add_display, (content, backend, gl, fullscreen), res),
        call_ensures(remove_spice_add_display, (longer, backend, gl, fullscreen), of_longer),
    ensures
        res@ == written_line(backend@, gl, fullscreen) + behind,
        rest.len() == 0 ==> behind == seq!['\n'],
        serves_spice(next) ==> of_longer@ == res@,
        !serves_spice(next) ==> of_longer@ == written_line(backend@, gl, fullscreen) + seq!['\n']
            + without_return(next) + behind,
{
    let c = content@;
    let l = strip_cr(line);
    let m = strip_cr(next);
    let d = display_line(backend@, gl, fullscreen);
    let k = kept(lines(rest));
    lemma_written(backend@, gl, fullscreen);
    lemma_lines_front(line, rest);
    lemma_lines_front(line, next + seq!['\n'] + rest);
    lemma_lines_front(next, rest);
    lemma_strip_kind(line);
    lemma_kinds(line);
    lemma_strip_kind(next);
    lemma_kinds(next);
    lemma_plain_front(l, lines(rest), d);
    lemma_plain_front(l, seq![m] + lines(rest), d);
    lemma_kept_front(m, lines(rest));
    assert(join(seq![d], "\n"@) == d);
    assert(join(seq![d, m], "\n"@) == d + seq!['\n'] + m) by {
        lemma_join_front(seq![d, m]);
        assert(seq![d, m].skip(1) =~= seq![m]);
        assert(join(seq![m], "\n"@) == m);
    }
    // Both scripts end alike.
    if rest.len() > 0 {
        assert(c.last() == rest.last());
        assert(longer@.last() == rest.last());
    } else {
        assert(c.last() == '\n');
        assert(longer@.last() == '\n');
    }
    let none = Seq::<Seq<char>>::empty();
    if k.len() == 0 {
        assert(k =~= none);
        assert(seq![d] + none =~= seq![d]);
        assert(seq![m] + none =~= seq![m]);
        assert(seq![d] + (seq![m] + none) =~= seq![d, m]);
        assert(seq![d] + seq![m] =~= seq![d, m]);
        if rest.len() == 0 {
            assert(lines(rest) =~= none);
        }
        let behind = if c.last() == '\n' {
            seq!['\n']
        } else {
            Seq::<char>::empty()
        };
        assert(res@ =~= d + behind);
        if !serves_spice(next) {
            assert(of_longer@ =~= d + seq!['\n'] + m + behind);
        }
        behind
    } else {
        if rest.len() == 0 {
            assert(lines(rest) =~= none);
        }
        lemma_text_beside(seq![d], k, c);
        let behind = seq!['\n'] + lines_text(k, c);
        assert(res@ =~= d + behind);
        assert(lines_text(k, longer@) == lines_text(k, c));
        if !serves_spice(next) {
            lemma_text_beside(seq![d, m], k, longer@);
            assert(seq![d] + (seq![m] + k) =~= seq![d, m] + k);
            assert(of_longer@ =~= d + seq!['\n'] + m + behind);
        } else {
            lemma_text_beside(seq![d], k, longer@);
        }
        behind
    }
}

/// A script whose first line serves SPICE, and none behind it, becomes the `-display` line
/// with the rest behind it; a last line is switched in the same way.
pub proof fn single_spice_line_becomes_the_display(
    line: Seq<char>,
    content: &str,
    rest: &str,
    bare: &str,
    backend: &str,
    gl: bool,
    fullscreen: bool,
    res: String,
    of_rest: String,
    of_bare: String,
)
    requires
        !line.contains('\n'),
        serves_spice(line),
        rest@.len() > 0,
        forall|i: int| 0 <= i < lines(rest@).len() ==> !serves_spice(#[trigger] lines(rest@)[i]),
        content@ == line + seq!['\n'] + rest@,
        bare@ == line,
        call_ensures(remove_spice_add_display, (content, backend, gl, fullscreen), res),
        call_ensures(remove_spice_add_display, (rest, backend, gl, fullscreen), of_rest),
        call_ensures(remove_spice_add_display, (bare, backend, gl, fullscreen), of_bare),
    ensures
        res@ == written_line(backend@, gl, fullscreen) + seq!['\n'] + of_rest@,
        of_bare@ == written_line(backend@, gl, fullscreen),
{
    let c = content@;
    let r = rest@;
    let l = strip_cr(line);
    let d = display_line(backend@, gl, fullscreen);
    let none = Seq::<Seq<char>>::empty();
    lemma_written(backend@, gl, fullscreen);
    lemma_lines_front(line, r);
    lemma_last_line(r);
    lemma_strip_kind(line);
    lemma_kinds(line);
    assert forall|i: int| 0 <= i < lines(r).len() implies !is_spice_line(
        #[trigger] lines(r)[i],
    ) by {
        lemma_kinds(lines(r)[i]);
    }
    lemma_kept_all(lines(r));
    lemma_no_spice_lines(lines(r), d);
    lemma_plain_front(l, lines(r), d);
    lemma_text_beside(seq![d], lines(r), c);
    assert(c =~= (line + seq!['\n']) + r);
    lemma_text_like(lines(r), line + seq!['\n'], r);
    assert(join(seq![d], "\n"@) == d);
    if line.len() == 0 {
        lemma_option();
        lemma_spice_options();
        assert(trim_start(line).len() == 0) by {
            let n = lemma_indent(line);
        }
    } else {
        if line.last() == '\n' {
            assert(line.contains('\n'));
        }
        lemma_plain_front(line, none, d);
        assert(seq![line] + none =~= seq![line]);
        assert(kept(none) =~= none);
        assert(seq![d] + none =~= seq![d]);
    }
}

} // verus!
