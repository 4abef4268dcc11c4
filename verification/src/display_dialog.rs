//! The display settings of a launch script: reading them, and writing them back.
use crate::text::{
    begins_with, chars_of, contains, copy_all, copy_range, find, find_part, find_where, has_part,
    indent_of, is_space, join, joined, lemma_find_part, lemma_find_part_skip, lemma_find_where,
    lemma_find_where_is, lemma_find_where_skip, lines, lines_of, name_at, pieces, pieces_of,
    position, push_chars, same_text, space, stands_at, string_of, trim_start, views,
};
use vstd::prelude::*;
use vstd::string::StringExecFns;

verus! {

/// The argument by which a script that serves SPICE on a socket is known.
pub open spec fn spice_socket() -> Seq<char> {
    "-spice unix,addr=$VM_DIR/spice.sock"@
}

/// The option that names the display backend, with the space behind it.
pub open spec fn display_option() -> Seq<char> {
    "-display "@
}

/// What ends the value of an option: white space or a backslash.
pub open spec fn ends_word() -> spec_fn(char) -> bool {
    |c: char| is_space(c) || c == '\\'
}

/// The first word of `s`.
pub open spec fn first_word(s: Seq<char>) -> Seq<char> {
    s.take(find_where(s, ends_word(), 0))
}

/// The line is one whose first option is `-display`.
pub open spec fn is_display_line(line: Seq<char>) -> bool {
    begins_with(trim_start(line), display_option())
}

/// The settings that the value of a `-display` option holds: the backend, whether it
/// asks for GL, and whether it asks for full screen.
pub open spec fn value_settings(value: Seq<char>) -> (Seq<char>, bool, bool) {
    let parts = pieces(value, ',');
    (parts[0], parts.contains("gl=on"@), parts.contains("full-screen=on"@))
}

/// The settings that a line holds, if it is a `-display` line that names a backend.
pub open spec fn line_settings(line: Seq<char>) -> Option<(Seq<char>, bool, bool)> {
    let settings = value_settings(first_word(trim_start(line).skip(display_option().len() as int)));
    if is_display_line(line) && settings.0.len() > 0 {
        Some(settings)
    } else {
        None
    }
}

/// The settings of the first line that holds any.
pub open spec fn first_settings(ls: Seq<Seq<char>>) -> Option<(Seq<char>, bool, bool)>
    decreases ls.len(),
{
    if ls.len() == 0 {
        None
    } else if line_settings(ls[0]).is_some() {
        line_settings(ls[0])
    } else {
        first_settings(ls.skip(1))
    }
}

/// The settings of a launch script: those of SPICE if it serves SPICE on its socket,
/// else those of its first `-display` line that names a backend, else GTK.
pub open spec fn script_settings(raw: Seq<char>) -> (Seq<char>, bool, bool) {
    if has_part(raw, spice_socket()) {
        ("spice"@, false, false)
    } else {
        match first_settings(lines(raw)) {
            Some(settings) => settings,
            None => ("gtk"@, false, false),
        }
    }
}

/// The value of a `-display` option.
pub open spec fn display_value(backend: Seq<char>, gl: bool, fullscreen: bool) -> Seq<char> {
    let with_gl = if gl {
        backend + ",gl=on"@
    } else {
        backend
    };
    if fullscreen {
        with_gl + ",full-screen=on"@
    } else {
        with_gl
    }
}

/// `s` with every `-display` option and its value replaced by `arg`.
pub open spec fn replace_displays(s: Seq<char>, arg: Seq<char>) -> Seq<char>
    decreases s.len(),
{
    match find_part(s, display_option(), 0) {
        Some(i) => {
            let end = find_where(s, ends_word(), i + display_option().len());
            proof {
                reveal_strlit("-display ");
                lemma_find_part(s, display_option(), 0);
                lemma_find_where(s, ends_word(), i + display_option().len());
            }
            s.take(i) + arg + replace_displays(s.skip(end), arg)
        },
        None => s,
    }
}

/// The lines that serve SPICE on the socket and connect the guest's agent.
pub open spec fn spice_block() -> Seq<Seq<char>> {
    seq![
        "        -spice unix,addr=$VM_DIR/spice.sock,disable-ticketing \\"@,
        "        -device virtio-serial \\"@,
        "        -chardev spicevmc,id=vdagent,name=vdagent \\"@,
        "        -device virtserialport,chardev=vdagent,name=com.redhat.spice.0 \\"@,
    ]
}

/// The lines, with the SPICE lines in place of each `-display` line.
pub open spec fn spice_lines(ls: Seq<Seq<char>>) -> Seq<Seq<char>>
    decreases ls.len(),
{
    if ls.len() == 0 {
        Seq::empty()
    } else {
        let done = spice_lines(ls.drop_last());
        if is_display_line(ls.last()) {
            done + spice_block()
        } else {
            done.push(ls.last())
        }
    }
}

/// The text of `ls`, ended by a line feed if `like` is.
pub open spec fn lines_text(ls: Seq<Seq<char>>, like: Seq<char>) -> Seq<char> {
    let text = join(ls, "\n"@);
    if like.len() > 0 && like.last() == '\n' {
        text.push('\n')
    } else {
        text
    }
}

/// The script `content` with SPICE on its socket in place of each `-display` line.
pub open spec fn with_spice(content: Seq<char>) -> Seq<char> {
    if has_part(content, spice_socket()) {
        content
    } else {
        lines_text(spice_lines(lines(content)), content)
    }
}

/// The line is one of those that serve SPICE.
pub open spec fn is_spice_line(line: Seq<char>) -> bool {
    let t = trim_start(line);
    ||| begins_with(t, "-spice "@)
    ||| begins_with(t, "-device virtio-serial"@)
    ||| begins_with(t, "-chardev spicevmc,"@)
    ||| begins_with(t, "-device virtserialport,chardev=vdagent"@)
}

/// Some of the lines serves SPICE.
pub open spec fn any_spice_line(ls: Seq<Seq<char>>) -> bool {
    exists|i: int| 0 <= i < ls.len() && is_spice_line(#[trigger] ls[i])
}

/// The lines without those that serve SPICE, and with `display` in place of the first
/// of them.
pub open spec fn plain_lines(ls: Seq<Seq<char>>, display: Seq<char>) -> Seq<Seq<char>>
    decreases ls.len(),
{
    if ls.len() == 0 {
        Seq::empty()
    } else {
        let done = plain_lines(ls.drop_last(), display);
        if !is_spice_line(ls.last()) {
            done.push(ls.last())
        } else if any_spice_line(ls.drop_last()) {
            done
        } else {
            done.push(display)
        }
    }
}

/// The `-display` line that stands in place of the SPICE lines.
pub open spec fn display_line(backend: Seq<char>, gl: bool, fullscreen: bool) -> Seq<char> {
    "        -display "@ + display_value(backend, gl, fullscreen) + " \\"@
}

/// The script `content` without its SPICE lines.
pub open spec fn without_spice(
    content: Seq<char>,
    backend: Seq<char>,
    gl: bool,
    fullscreen: bool,
) -> Seq<char> {
    lines_text(plain_lines(lines(content), display_line(backend, gl, fullscreen)), content)
}

/// The script `content` with the display settings given.
pub open spec fn with_display(
    content: Seq<char>,
    backend: Seq<char>,
    gl: bool,
    fullscreen: bool,
) -> Seq<char> {
    if backend == "spice"@ {
        with_spice(content)
    } else if has_part(content, spice_socket()) {
        without_spice(content, backend, gl, fullscreen)
    } else {
        replace_displays(content, display_option() + display_value(backend, gl, fullscreen))
    }
}

/// The end of the word that begins at `from`.
fn word_end(s: &[char], from: usize) -> (res: usize)
    requires
        from <= s@.len(),
    ensures
        from <= res <= s@.len(),
        res == find_where(s@, ends_word(), from as int),
{
    let mut i: usize = from;
    while i < s.len() && !space(s[i]) && s[i] != '\\'
        invariant
            from <= i <= s@.len(),
            forall|j: int| from <= j < i ==> !(ends_word())(#[trigger] s@[j]),
        decreases s@.len() - i,
    {
        i = i + 1;
    }
    proof {
        lemma_find_where_is(s@, ends_word(), from as int, i as int);
    }
    i
}

/// Whether one of the parts is `wanted`.
fn any_part(parts: &Vec<Vec<char>>, wanted: &str) -> (res: bool)
    ensures
        res == views(parts@).contains(wanted@),
{
    let want: Vec<char> = chars_of(wanted);
    let mut i: usize = 0;
    while i < parts.len()
        invariant
            i <= parts@.len(),
            want@ == wanted@,
            forall|j: int| 0 <= j < i ==> #[trigger] parts@[j]@ != wanted@,
        decreases parts@.len() - i,
    {
        let part: &Vec<char> = &parts[i];
        if part.len() == want.len() && stands_at(part, &want, 0) {
            proof {
                assert(part@.subrange(0, wanted@.len() as int) =~= part@);
                assert(views(parts@)[i as int] == wanted@);
            }
            return true;
        }
        proof {
            if part@ == wanted@ {
                assert(part@.subrange(0, wanted@.len() as int) =~= part@);
            }
        }
        i = i + 1;
    }
    proof {
        assert forall|j: int| 0 <= j < views(parts@).len() implies views(parts@)[j] != wanted@ by {
            assert(views(parts@)[j] == parts@[j]@);
        }
    }
    false
}

/// The display settings that a launch script holds: the backend, whether it asks for
/// GL, and whether it asks for full screen.
pub fn parse_display(raw: &str) -> (res: (String, bool, bool))
    ensures
        (res.0@, res.1, res.2) == script_settings(raw@),
{
    if contains(raw, "-spice unix,addr=$VM_DIR/spice.sock") {
        return ("spice".to_string(), false, false);
    }
    let chars: Vec<char> = chars_of(raw);
    let option: Vec<char> = chars_of("-display ");
    let all: Vec<Vec<char>> = lines_of(&chars);
    let mut i: usize = 0;
    proof {
        assert(views(all@).skip(0) =~= views(all@));
    }
    while i < all.len()
        invariant
            i <= all@.len(),
            option@ == display_option(),
            first_settings(views(all@)) == first_settings(views(all@).skip(i as int)),
            views(all@) == lines(raw@),
            !has_part(raw@, spice_socket()),
        decreases all@.len() - i,
    {
        let line: &Vec<char> = &all[i];
        let start: usize = indent_of(line);
        let ghost rest = views(all@).skip(i as int);
        proof {
            assert(rest[0] == line@);
            assert(rest.skip(1) =~= views(all@).skip(i + 1));
        }
        let trimmed: Vec<char> = copy_range(line, start, line.len());
        proof {
            assert(trimmed@ =~= trim_start(line@));
        }
        if stands_at(&trimmed, &option, 0) {
            let after: usize = option.len();
            let end: usize = word_end(&trimmed, after);
            let value: Vec<char> = copy_range(&trimmed, after, end);
            proof {
                let t = trimmed@.skip(after as int);
                lemma_find_where_skip(trimmed@, ends_word(), after as int);
                assert(value@ =~= first_word(t));
            }
            let parts: Vec<Vec<char>> = pieces_of(&value, ',');
            proof {
                assert(views(parts@)[0] == parts@[0]@);
            }
            if parts[0].len() > 0 {
                let backend: String = string_of(&parts[0], 0, parts[0].len());
                proof {
                    assert(backend@ =~= parts@[0]@);
                }
                let gl: bool = any_part(&parts, "gl=on");
                let fullscreen: bool = any_part(&parts, "full-screen=on");
                return (backend, gl, fullscreen);
            }
        }
        i = i + 1;
    }
    ("gtk".to_string(), false, false)
}

/// `content` with the display settings given. The backend "spice" stands for SPICE on a
/// socket in the directory of the machine.
pub fn apply_display(content: &str, backend: &str, gl: bool, fullscreen: bool) -> (res: String)
    ensures
        res@ == with_display(content@, backend@, gl, fullscreen),
{
    if same_text(backend, "spice") {
        return apply_spice(content);
    }
    if contains(content, "-spice unix,addr=$VM_DIR/spice.sock") {
        return remove_spice_add_display(content, backend, gl, fullscreen);
    }
    let mut new_arg: String = "-display ".to_string();
    new_arg.append(display_value_of(backend, gl, fullscreen).as_str());
    let ghost arg = new_arg@;
    proof {
        reveal_strlit("-display ");
    }
    let chars: Vec<char> = chars_of(content);
    let option: Vec<char> = chars_of("-display ");
    let total: usize = chars.len();
    let mut result = String::new();
    let mut pos: usize = 0;
    proof {
        assert(content@.skip(0) =~= content@);
        assert(result@ + replace_displays(content@, arg) =~= replace_displays(content@, arg));
    }
    let mut next: Option<usize> = find(&chars, &option, 0);
    while next.is_some()
        invariant
            pos <= total,
            total == chars@.len(),
            chars@ == content@,
            option@ == display_option(),
            option@.len() > 0,
            new_arg@ == arg,
            next.is_some() == find_part(chars@, option@, pos as int).is_some(),
            next matches Some(i) ==> i + option@.len() <= chars@.len() && find_part(
                chars@,
                option@,
                pos as int,
            ) == Some(i as int),
            replace_displays(content@, arg) == result@ + replace_displays(
                content@.skip(pos as int),
                arg,
            ),
        decreases chars@.len() - pos,
    {
        let abs: usize = next.unwrap();
        let ghost rest = content@.skip(pos as int);
        let ghost before = result@;
        proof {
            lemma_find_part(chars@, option@, pos as int);
            lemma_find_part_skip(chars@, option@, pos as int);
        }
        push_chars(&mut result, &copy_range(&chars, pos, abs));
        result.append(new_arg.as_str());
        let after: usize = abs + option.len();
        let end: usize = word_end(&chars, after);
        proof {
            let k = pos as int;
            lemma_find_where_skip(chars@, ends_word(), after as int);
            lemma_find_where_skip(rest, ends_word(), after - k);
            assert(rest.skip(after - k) =~= chars@.skip(after as int));
            assert(find_where(rest, ends_word(), after - k) == end - k);
            assert(rest.take(abs - k) =~= chars@.subrange(k, abs as int));
            assert(rest.skip(end - k) =~= chars@.skip(end as int));
            assert(result@ =~= before + (rest.take(abs - k) + arg));
            assert(replace_displays(content@, arg) =~= result@ + replace_displays(
                content@.skip(end as int),
                arg,
            ));
        }
        pos = end;
        next = find(&chars, &option, pos);
    }
    proof {
        lemma_find_part_skip(chars@, option@, pos as int);
        assert(content@.skip(pos as int) =~= chars@.subrange(pos as int, chars@.len() as int));
    }
    push_chars(&mut result, &copy_range(&chars, pos, total));
    result
}

/// The value of the `-display` option for these settings.
fn display_value_of(backend: &str, gl: bool, fullscreen: bool) -> (res: String)
    ensures
        res@ == display_value(backend@, gl, fullscreen),
{
    let mut value: String = backend.to_string();
    if gl {
        value.append(",gl=on");
    }
    if fullscreen {
        value.append(",full-screen=on");
    }
    value
}

/// Whether the first option of the line is `-display`.
fn display_line_found(line: &[char]) -> (res: bool)
    ensures
        res == is_display_line(line@),
{
    let start: usize = indent_of(line);
    let rest: Vec<char> = copy_range(line, start, line.len());
    proof {
        assert(rest@ =~= trim_start(line@));
    }
    stands_at(&rest, &chars_of("-display "), 0)
}

/// Whether the first option of the line is one of those that serve SPICE.
fn spice_line_found(line: &[char]) -> (res: bool)
    ensures
        res == is_spice_line(line@),
{
    let start: usize = indent_of(line);
    let rest: Vec<char> = copy_range(line, start, line.len());
    proof {
        assert(rest@ =~= trim_start(line@));
    }
    stands_at(&rest, &chars_of("-spice "), 0) || stands_at(
        &rest,
        &chars_of("-device virtio-serial"),
        0,
    ) || stands_at(&rest, &chars_of("-chardev spicevmc,"), 0) || stands_at(
        &rest,
        &chars_of("-device virtserialport,chardev=vdagent"),
        0,
    )
}

/// The text of the lines, ended by a line feed if `like` is.
fn text_of_lines(all: &Vec<Vec<char>>, like: &[char]) -> (res: String)
    ensures
        res@ == lines_text(views(all@), like@),
{
    let mut out: String = joined(all, "\n");
    if like.len() > 0 && like[like.len() - 1] == '\n' {
        out.push('\n');
    }
    out
}

/// `content` with SPICE on its socket in place of each `-display` line; `content` itself
/// if it serves SPICE already.
pub fn apply_spice(content: &str) -> (res: String)
    ensures
        res@ == with_spice(content@),
{
    if contains(content, "-spice unix,addr=$VM_DIR/spice.sock") {
        return content.to_string();
    }
    let chars: Vec<char> = chars_of(content);
    let all: Vec<Vec<char>> = lines_of(&chars);
    let mut result: Vec<Vec<char>> = Vec::new();
    let mut i: usize = 0;
    proof {
        assert(views(result@) =~= spice_lines(views(all@).take(0)));
    }
    while i < all.len()
        invariant
            i <= all@.len(),
            views(result@) == spice_lines(views(all@).take(i as int)),
        decreases all@.len() - i,
    {
        let ghost before = result@;
        proof {
            let more = views(all@).take(i + 1);
            assert(more.drop_last() =~= views(all@).take(i as int));
            assert(more.last() == all@[i as int]@);
        }
        if display_line_found(&all[i]) {
            result.push(
                chars_of("        -spice unix,addr=$VM_DIR/spice.sock,disable-ticketing \\"),
            );
            result.push(chars_of("        -device virtio-serial \\"));
            result.push(chars_of("        -chardev spicevmc,id=vdagent,name=vdagent \\"));
            result.push(
                chars_of(
                    "        -device virtserialport,chardev=vdagent,name=com.redhat.spice.0 \\",
                ),
            );
            proof {
                assert(views(result@) =~= views(before) + spice_block());
            }
        } else {
            result.push(copy_all(&all[i]));
            proof {
                assert(views(result@) =~= views(before).push(all@[i as int]@));
            }
        }
        i = i + 1;
    }
    proof {
        assert(views(all@).take(i as int) =~= views(all@));
    }
    text_of_lines(&result, &chars)
}

/// `content` without the lines that serve SPICE, and with a `-display` line in place of
/// the first of them.
pub fn remove_spice_add_display(
    content: &str,
    backend: &str,
    gl: bool,
    fullscreen: bool,
) -> (res: String)
    ensures
        res@ == without_spice(content@, backend@, gl, fullscreen),
{
    let mut line_text: String = "        -display ".to_string();
    line_text.append(display_value_of(backend, gl, fullscreen).as_str());
    line_text.append(" \\");
    let new_display: Vec<char> = chars_of(line_text.as_str());
    let ghost display = display_line(backend@, gl, fullscreen);
    let chars: Vec<char> = chars_of(content);
    let all: Vec<Vec<char>> = lines_of(&chars);
    let mut result: Vec<Vec<char>> = Vec::new();
    let mut replaced: bool = false;
    let mut i: usize = 0;
    proof {
        assert(views(result@) =~= plain_lines(views(all@).take(0), display));
    }
    while i < all.len()
        invariant
            i <= all@.len(),
            new_display@ == display,
            replaced == any_spice_line(views(all@).take(i as int)),
            views(result@) == plain_lines(views(all@).take(i as int), display),
        decreases all@.len() - i,
    {
        let ghost before = result@;
        let ghost done = views(all@).take(i as int);
        let ghost more = views(all@).take(i + 1);
        proof {
            assert(more.drop_last() =~= done);
            assert(more.last() == all@[i as int]@);
            assert forall|j: int| 0 <= j < i implies more[j] == done[j] by {}
        }
        if spice_line_found(&all[i]) {
            if !replaced {
                result.push(copy_all(&new_display));
                proof {
                    assert(views(result@) =~= views(before).push(display));
                }
                replaced = true;
            }
            proof {
                assert(is_spice_line(more[i as int]));
            }
        } else {
            result.push(copy_all(&all[i]));
            proof {
                assert(views(result@) =~= views(before).push(all@[i as int]@));
                if any_spice_line(done) {
                    let j = choose|j: int| 0 <= j < done.len() && is_spice_line(#[trigger] done[j]);
                    assert(is_spice_line(more[j]));
                }
                if any_spice_line(more) {
                    let j = choose|j: int| 0 <= j < more.len() && is_spice_line(#[trigger] more[j]);
                    assert(is_spice_line(done[j]));
                }
            }
        }
        i = i + 1;
    }
    proof {
        assert(views(all@).take(i as int) =~= views(all@));
    }
    text_of_lines(&result, &chars)
}

/// The backends of the dialog, in the order of their list.
pub open spec fn backends() -> Seq<Seq<char>> {
    seq!["gtk"@, "sdl"@, "spice-app"@, "vnc"@, "none"@, "spice"@]
}

/// The position of a backend in the list; 0 for one that is not in it.
pub fn backend_position(name: &str) -> (res: u32)
    ensures
        res == position(backends(), name@, 0),
{
    reveal_with_fuel(position, 7);
    if same_text(name, "gtk") {
        0
    } else if same_text(name, "sdl") {
        1
    } else if same_text(name, "spice-app") {
        2
    } else if same_text(name, "vnc") {
        3
    } else if same_text(name, "none") {
        4
    } else if same_text(name, "spice") {
        5
    } else {
        0
    }
}

/// The backend at a position of the list; the first one beyond its end.
pub fn backend_at(index: u32) -> (res: &'static str)
    ensures
        res@ == name_at(backends(), index),
{
    match index {
        1 => "sdl",
        2 => "spice-app",
        3 => "vnc",
        4 => "none",
        5 => "spice",
        _ => "gtk",
    }
}

/// Whether the backend at a position is SPICE: then the viewer handles GL and full screen,
/// the switches for them cannot be used, and a note says what SPICE needs.
pub fn is_spice(index: u32) -> (res: bool)
    ensures
        res <==> index < backends().len() && backends()[index as int] == "spice"@,
{
    proof {
        reveal_strlit("gtk");
        reveal_strlit("sdl");
        reveal_strlit("spice-app");
        reveal_strlit("vnc");
        reveal_strlit("none");
        reveal_strlit("spice");
        assert("none"@.len() == 4 && "spice"@.len() == 5 && "spice-app"@.len() == 9);
    }
    index == 5
}

} // verus!
