//! What the operations on a running machine do: its screen, its keys, its header, its process
//! and the bar over it.
use crate::numbers::decimal_text;
use crate::overlay::{
    bar_stays, focus_script, focus_script_path, marks_view, running_numbers_stay_seen,
    script_object, Hover, HoverEvent, Seen,
};
use crate::process::{find_pid, pid_in, QemuProcess};
use crate::text::trimmed;
use crate::text_laws::{all_space, nothing_is_left_of_white_space};
use crate::vm_window::{
    after_attempt, apply_update, covers, force_stop_confirmed, force_stop_question,
    fullscreen_label, gdk_mem_format, has_evdev_keys, has_place, key_number, mouse_button, patch_of,
    pause_label, row_writes, stop_confirmed, stop_question, update_shows_in_its_rectangle,
    update_shows_its_rows, writes, AttemptStep, Backend, BarAction, BarEvent, Bars, FrameMsg,
    FrameState, MemoryFormat, MouseButton, Screen, Timer, Watch, Zone,
};
use vstd::prelude::*;

verus! {

/// After a scanout the frame shown is the one of the message, field by field, whatever was
/// shown before.
pub proof fn scanout_is_shown_as_it_came(screen: &mut Screen, msg: FrameMsg, res: bool)
    requires
        call_ensures(Screen::receive, (screen, msg), res),
    ensures
        msg matches FrameMsg::Scanout { data, width, height, stride, format } ==> {
            &&& res
            &&& final(screen).frame matches Some(f)
            &&& f.data@ == data@
            &&& f.width == width
            &&& f.height == height
            &&& f.stride == stride
            &&& f.format == format
        },
{
}

/// An update leaves the form of the frame: its width, height, stride and format, and the number
/// of its bytes. Where nothing is shown yet, it shows nothing.
pub proof fn updates_keep_the_form(screen: &mut Screen, msg: FrameMsg, res: bool)
    requires
        msg matches FrameMsg::Update { x, y, w, h, data, stride } && h >= 0 && (h > 0 ==> x >= 0
            && y >= 0 && w >= 0),
        call_ensures(Screen::receive, (screen, msg), res),
    ensures
        res <==> old(screen).frame is Some,
        old(screen).frame is None ==> final(screen).frame is None,
        old(screen).frame matches Some(before) ==> {
            &&& final(screen).frame matches Some(after)
            &&& after.width == before.width
            &&& after.height == before.height
            &&& after.stride == before.stride
            &&& after.format == before.format
            &&& after.data@.len() == before.data@.len()
        },
{
    if let FrameMsg::Update { x, y, w, h, data, stride } = msg {
        if let Some(f) = old(screen).frame {
            update_shows_its_rows(
                patch_of(x, y, w, h, data@, stride),
                f.data@,
                f.stride as int,
            );
        }
    }
}

/// What a screen makes of an update is what the update makes of the frame that is shown.
pub proof fn updates_reach_the_frame(
    screen: &mut Screen,
    fs: &mut FrameState,
    x: i32,
    y: i32,
    w: i32,
    h: i32,
    data: Vec<u8>,
    bytes: &[u8],
    ustride: u32,
    msg: FrameMsg,
    res: bool,
)
    requires
        msg == (FrameMsg::Update { x, y, w, h, data, stride: ustride }),
        bytes@ == data@,
        old(screen).frame == Some(*old(fs)),
        call_ensures(Screen::receive, (screen, msg), res),
        call_ensures(apply_update, (fs, x, y, w, h, bytes, ustride), ()),
    ensures
        final(screen).frame matches Some(f) && f.data@ == final(fs).data@,
{
}

/// Row `row` of an update, of `w` pixels in rows of `ustride` bytes, of which `held` bytes
/// came, fits in a frame of `size` bytes in rows of `stride` bytes, and covers its byte `q`.
pub open spec fn lands(
    x: int,
    y: int,
    w: int,
    ustride: int,
    held: int,
    stride: int,
    size: int,
    row: int,
    q: int,
) -> bool {
    &&& row * ustride + w * 4 <= held
    &&& (y + row) * stride + x * 4 + w * 4 <= size
    &&& (y + row) * stride + x * 4 <= q < (y + row) * stride + x * 4 + w * 4
}

/// An update changes a byte exactly if one of its rows lands there: the byte becomes that of
/// the last such row, and any other byte stays.
pub proof fn updates_write_their_rows(
    fs: &mut FrameState,
    x: i32,
    y: i32,
    w: i32,
    h: i32,
    data: &[u8],
    ustride: u32,
    q: int,
    row: int,
)
    requires
        h >= 0,
        h > 0 ==> x >= 0 && y >= 0 && w >= 0,
        0 <= q < old(fs).data@.len(),
        call_ensures(apply_update, (fs, x, y, w, h, data, ustride), ()),
    ensures
        final(fs).data@.len() == old(fs).data@.len(),
        final(fs).width == old(fs).width,
        final(fs).height == old(fs).height,
        final(fs).stride == old(fs).stride,
        final(fs).format == old(fs).format,
        (forall|k: int|
            0 <= k < h ==> !#[trigger] lands(
                x as int,
                y as int,
                w as int,
                ustride as int,
                data@.len() as int,
                old(fs).stride as int,
                old(fs).data@.len() as int,
                k,
                q,
            )) ==> final(fs).data@[q] == old(fs).data@[q],
        0 <= row < h && lands(
            x as int,
            y as int,
            w as int,
            ustride as int,
            data@.len() as int,
            old(fs).stride as int,
            old(fs).data@.len() as int,
            row,
            q,
        ) && (forall|k: int|
            row < k < h ==> !#[trigger] lands(
                x as int,
                y as int,
                w as int,
                ustride as int,
                data@.len() as int,
                old(fs).stride as int,
                old(fs).data@.len() as int,
                k,
                q,
            )) ==> final(fs).data@[q] == data@[row * ustride + (q - ((y + row) * old(fs).stride + x
            * 4))],
{
    let p = patch_of(x, y, w, h, data@, ustride);
    let stride = old(fs).stride as int;
    let size = old(fs).data@.len() as int;
    update_shows_its_rows(p, old(fs).data@, stride);
    assert forall|k: int| 0 <= k < h implies #[trigger] row_writes(p, stride, size, k, q) == lands(
        x as int,
        y as int,
        w as int,
        ustride as int,
        data@.len() as int,
        stride,
        size,
        k,
        q,
    ) by {}
    assert(forall|k: int| #[trigger] row_writes(p, stride, size, k, q) ==> 0 <= k < h);
    assert(p.rows_on(old(fs).data@, stride, p.h) == final(fs).data@);
    if writes(p, stride, size, q) {
        let k = choose|k: int| #[trigger] row_writes(p, stride, size, k, q);
        assert(0 <= k < h);
    }
    if 0 <= row < h {
        assert(row_writes(p, stride, size, row, q) == lands(
            x as int,
            y as int,
            w as int,
            ustride as int,
            data@.len() as int,
            stride,
            size,
            row,
            q,
        ));
    }
}

/// An update within the width of the frame, whose rows all fit, shows its pixel of row `r` and
/// byte `c` at row `y + r` and byte `4 * x + c` of the frame.
pub proof fn updates_show_in_place(
    fs: &mut FrameState,
    x: i32,
    y: i32,
    w: i32,
    h: i32,
    data: &[u8],
    ustride: u32,
    r: int,
    c: int,
)
    requires
        x >= 0,
        y >= 0,
        w >= 0,
        0 <= r < h,
        0 <= c < 4 * w,
        4 * x + 4 * w <= old(fs).stride,
        r * ustride + 4 * w <= data@.len(),
        (y + r) * old(fs).stride + 4 * x + 4 * w <= old(fs).data@.len(),
        call_ensures(apply_update, (fs, x, y, w, h, data, ustride), ()),
    ensures
        final(fs).data@[(y + r) * old(fs).stride + 4 * x + c] == data@[r * ustride + c],
{
    let p = patch_of(x, y, w, h, data@, ustride);
    let stride = old(fs).stride as int;
    let q = (y + r) * stride + 4 * x + c;
    update_shows_in_its_rectangle(p, old(fs).data@, stride);
    assert(stride * (y + r) == (y + r) * stride) by (nonlinear_arith);
    assert((y + r) * stride >= 0) by (nonlinear_arith)
        requires
            y + r >= 0,
            stride >= 0,
    ;
    vstd::arithmetic::div_mod::lemma_fundamental_div_mod_converse(q, stride, y + r, 4 * x + c);
    assert(covers(p, q / stride, q % stride));
}

/// The size of the screen is that of its frame, width first; without a frame it is 1024 by 768.
pub proof fn size_is_that_of_the_frame(screen: Screen, res: (u32, u32))
    requires
        call_ensures(Screen::size, (&screen,), res),
    ensures
        screen.frame matches Some(f) ==> res.0 == f.width && res.1 == f.height,
        screen.frame is None ==> res.0 == 1024 && res.1 == 768,
{
}

/// A new screen has no frame.
pub proof fn new_screen_is_empty(res: Screen)
    requires
        call_ensures(Screen::new, (), res),
    ensures
        res.frame is None,
{
}

/// The key number that is sent is the entry of the table at the key code, as it stands; none
/// is sent beyond the end of the table and where it holds 0.
pub proof fn key_number_is_the_entry(map: &[u16], keycode: u32, res: Option<u32>)
    requires
        call_ensures(key_number, (Some(map), keycode), res),
    ensures
        res is Some <==> keycode < map@.len() && map@[keycode as int] != 0,
        res matches Some(n) ==> n == map@[keycode as int],
{
}

/// Different entries give different key numbers.
pub proof fn different_entries_give_different_numbers(
    map: &[u16],
    a: u32,
    b: u32,
    of_a: Option<u32>,
    of_b: Option<u32>,
)
    requires
        call_ensures(key_number, (Some(map), a), of_a),
        call_ensures(key_number, (Some(map), b), of_b),
        of_a is Some,
        of_a == of_b,
    ensures
        map@[a as int] == map@[b as int],
{
}

/// Without a table no key number is sent.
pub proof fn no_table_gives_no_number(keycode: u32, res: Option<u32>)
    requires
        call_ensures(key_number, (None::<&[u16]>, keycode), res),
    ensures
        res is None,
{
}

/// A console that was found is used, and one that was not is looked for again, up to the 30th
/// time.
pub proof fn console_is_looked_for_30_times(attempt: u32, found: bool, res: AttemptStep)
    requires
        call_ensures(after_attempt, (attempt, found), res),
    ensures
        res == AttemptStep::Use <==> found,
        res == AttemptStep::Retry <==> !found && attempt + 1 < 30,
        res == AttemptStep::GiveUp <==> !found && attempt + 1 >= 30,
{
}

/// What is to be done after an event says what becomes of the header: it is seen as it was
/// told to be and else as before, and a timer is set where one was started, and else only
/// where it was set, was not cancelled and has not run out.
pub proof fn header_does_what_it_says(bars: &mut Bars, event: BarEvent, res: BarAction)
    requires
        call_ensures(Bars::handle, (bars, event), res),
    ensures
        final(bars).visible == (match res.reveal {
            Some(shown) => shown,
            None => old(bars).visible,
        }),
        final(bars).fullscreen == (match res.fullscreen {
            Some(filled) => filled,
            None => old(bars).fullscreen,
        }),
        res.timer == Timer::Start ==> final(bars).pending,
        res.timer == Timer::Cancel ==> old(bars).pending && !final(bars).pending,
        res.timer == Timer::Keep ==> final(bars).pending == (old(bars).pending && !(event
            is Timeout)),
{
}

/// When each thing is done: the button changes between window and full screen, leaving the full
/// screen shows the header, the top edge shows it on a full screen, the time that ran out hides
/// it, and a timer starts on entering the full screen, and there below the header where it is
/// seen and none is set. Nothing else is done.
pub proof fn header_follows_the_pointer(bars: &mut Bars, event: BarEvent, res: BarAction)
    requires
        call_ensures(Bars::handle, (bars, event), res),
    ensures
        res.fullscreen == (match event {
            BarEvent::Toggle(filled) => Some(!filled),
            _ => None,
        }),
        res.reveal == Some(true) <==> event == BarEvent::Toggle(true) || (old(bars).fullscreen
            && !old(bars).visible && event == BarEvent::Motion(Zone::Top)),
        res.reveal == Some(false) <==> event == BarEvent::Timeout,
        res.timer == Timer::Start <==> event == BarEvent::Toggle(false) || (old(bars).fullscreen
            && old(bars).visible && !old(bars).pending && event == BarEvent::Motion(Zone::Below)),
        res.timer == Timer::Cancel <==> old(bars).pending && (event == BarEvent::Toggle(true) || (
        old(bars).fullscreen && event == BarEvent::Motion(Zone::Top))),
{
}

/// The process runs, and its directory is known to be `dir`.
pub open spec fn at_home(process: QemuProcess, dir: Seq<u8>) -> bool {
    process.cwd matches Some(cwd) && cwd@ == dir
}

proof fn lemma_pid_in(processes: Seq<QemuProcess>, dir: Seq<u8>, i: int)
    requires
        0 <= i < processes.len(),
        at_home(processes[i], dir),
        forall|j: int| 0 <= j < i ==> !at_home(#[trigger] processes[j], dir),
    ensures
        pid_in(processes, dir) == Some(processes[i].pid),
    decreases i,
{
    if i > 0 {
        let rest = processes.skip(1);
        assert(!at_home(processes[0], dir));
        assert forall|j: int| 0 <= j < i - 1 implies !at_home(#[trigger] rest[j], dir) by {
            assert(!at_home(processes[j + 1], dir));
        }
        lemma_pid_in(rest, dir, i - 1);
    }
}

proof fn lemma_no_pid_in(processes: Seq<QemuProcess>, dir: Seq<u8>)
    requires
        forall|j: int| 0 <= j < processes.len() ==> !at_home(#[trigger] processes[j], dir),
    ensures
        pid_in(processes, dir) is None,
    decreases processes.len(),
{
    if processes.len() > 0 {
        let rest = processes.skip(1);
        assert(!at_home(processes[0], dir));
        assert forall|j: int| 0 <= j < rest.len() implies !at_home(#[trigger] rest[j], dir) by {
            assert(!at_home(processes[j + 1], dir));
        }
        lemma_no_pid_in(rest, dir);
    }
}

/// The process that is found is the first one in the directory, and none is found only where
/// none is there.
pub proof fn first_process_is_found(
    processes: &Vec<QemuProcess>,
    dir: &[u8],
    res: Option<u32>,
    i: int,
)
    requires
        call_ensures(find_pid, (processes, dir), res),
    ensures
        (forall|j: int| 0 <= j < processes@.len() ==> !at_home(#[trigger] processes@[j], dir@))
            ==> res is None,
        0 <= i < processes@.len() && at_home(processes@[i], dir@) && (forall|j: int|
            0 <= j < i ==> !at_home(#[trigger] processes@[j], dir@)) ==> res == Some(
            processes@[i].pid,
        ),
{
    if forall|j: int| 0 <= j < processes@.len() ==> !at_home(#[trigger] processes@[j], dir@) {
        lemma_no_pid_in(processes@, dir@);
    }
    if 0 <= i < processes@.len() && at_home(processes@[i], dir@) && (forall|j: int|
        0 <= j < i ==> !at_home(#[trigger] processes@[j], dir@)) {
        lemma_pid_in(processes@, dir@, i);
    }
}

/// A window keeps the process that is found for its machine, and is to be closed where none is
/// found; whether the machine is paused does not change.
pub proof fn window_follows_its_process(
    watch: &mut Watch,
    processes: &Vec<QemuProcess>,
    path: &[u8],
    found: Option<u32>,
    res: bool,
)
    requires
        call_ensures(find_pid, (processes, path), found),
        call_ensures(Watch::look, (watch, processes, path), res),
    ensures
        res <==> found is Some,
        found is Some ==> final(watch).pid == found,
        found is None ==> final(watch).pid == old(watch).pid,
        final(watch).paused == old(watch).paused,
{
}

/// The script looks for the window whose process has the number.
pub proof fn focus_script_names_the_process(pid: u32, number: String, script: String, path: String)
    requires
        call_ensures(decimal_text, (pid as u64,), number),
        call_ensures(focus_script, (pid,), script),
        call_ensures(focus_script_path, (pid,), path),
    ensures
        script@
            == "var ws = workspace.windowList(); for (var i = 0; i < ws.length; i++) { if (ws[i].pid === "@
            + number@ + ") { workspace.activeWindow = ws[i]; break; } }"@,
        path@ == "/tmp/.vm-curator-fs-"@ + number@ + ".js"@,
{
}

/// The bar opens when the pointer enters, closes when the time has run out after it left, and
/// else stays as it is; what is to be done says which.
pub proof fn bar_follows_the_pointer(bar: &mut Hover, event: HoverEvent, res: Option<bool>)
    requires
        call_ensures(Hover::handle, (bar, event), res),
    ensures
        res == Some(true) <==> event == HoverEvent::Enter,
        res == Some(false) <==> event == HoverEvent::Timeout && old(bar).closing,
        final(bar).open == (match res {
            Some(open) => open,
            None => old(bar).open,
        }),
        event == HoverEvent::Enter ==> !final(bar).closing,
        event == HoverEvent::Leave ==> final(bar).closing,
        event == HoverEvent::Timeout ==> final(bar).closing == old(bar).closing,
{
}

/// The directory of each machine that is launched, and the polls that wait for it.
pub open spec fn launched(seen: Seen) -> Seq<(Seq<u8>, Option<u32>)> {
    Seq::new(
        seen.launching@.len(),
        |i: int| (seen.launching@[i].dir@, seen.launching@[i].polls),
    )
}

proof fn lemma_launched(seen: Seen)
    ensures
        launched(seen) == marks_view(seen.launching@),
{
    assert(launched(seen) =~= marks_view(seen.launching@));
}

/// A launch is noted behind those that are there, and waits for its success.
pub proof fn launch_is_noted(seen: &mut Seen, dir: Vec<u8>)
    requires
        call_ensures(Seen::launch, (seen, dir), ()),
    ensures
        final(seen).pids == old(seen).pids,
        launched(*final(seen)) == launched(*old(seen)).push((dir@, None::<u32>)),
{
    lemma_launched(*old(seen));
    lemma_launched(*final(seen));
}

/// A launch that succeeded is waited for during 5 further polls, and every other mark stays.
pub proof fn success_waits_for_polls(seen: &mut Seen, dir: &[u8], i: int)
    requires
        call_ensures(Seen::launch_succeeded, (seen, dir), ()),
        0 <= i < old(seen).launching@.len(),
    ensures
        final(seen).pids == old(seen).pids,
        launched(*final(seen)).len() == launched(*old(seen)).len(),
        launched(*final(seen))[i].0 == launched(*old(seen))[i].0,
        launched(*final(seen))[i].1 == (if launched(*old(seen))[i].0 == dir@ {
            Some(5u32)
        } else {
            launched(*old(seen))[i].1
        }),
{
    lemma_launched(*old(seen));
    lemma_launched(*final(seen));
}

/// The end of a launch takes away the marks of its machine and no other: one mark more before
/// is one mark more after, unless it is for that machine.
pub proof fn ended_launch_is_forgotten(
    fewer: &mut Seen,
    more: &mut Seen,
    dir: &[u8],
    mark: (Seq<u8>, Option<u32>),
)
    requires
        call_ensures(Seen::launch_ended, (fewer, dir), ()),
        call_ensures(Seen::launch_ended, (more, dir), ()),
    ensures
        final(fewer).pids == old(fewer).pids,
        launched(*old(fewer)).len() == 0 ==> launched(*final(fewer)).len() == 0,
        launched(*old(more)) == launched(*old(fewer)).push(mark) ==> launched(*final(more)) == (
        if mark.0 == dir@ {
            launched(*final(fewer))
        } else {
            launched(*final(fewer)).push(mark)
        }),
{
    lemma_launched(*old(fewer));
    lemma_launched(*final(fewer));
    lemma_launched(*old(more));
    lemma_launched(*final(more));
    if launched(*old(more)) == launched(*old(fewer)).push(mark) {
        assert(launched(*old(more)).drop_last() =~= launched(*old(fewer)));
        assert(launched(*old(more)).last() == mark);
    }
}

/// A poll takes one off the polls that a mark waits for and takes away a mark that waits for
/// none; a mark that waits for its success stays. One mark more before gives what becomes of
/// it after.
pub proof fn polls_are_counted(fewer: &mut Seen, more: &mut Seen, mark: (Seq<u8>, Option<u32>))
    requires
        call_ensures(Seen::poll_ended, (fewer,), ()),
        call_ensures(Seen::poll_ended, (more,), ()),
    ensures
        final(fewer).pids == old(fewer).pids,
        launched(*old(fewer)).len() == 0 ==> launched(*final(fewer)).len() == 0,
        launched(*old(more)) == launched(*old(fewer)).push(mark) ==> launched(*final(more)) == (
        match mark.1 {
            None => launched(*final(fewer)).push(mark),
            Some(n) => if n == 0 {
                launched(*final(fewer))
            } else {
                launched(*final(fewer)).push((mark.0, Some((n - 1) as u32)))
            },
        }),
{
    lemma_launched(*old(fewer));
    lemma_launched(*final(fewer));
    lemma_launched(*old(more));
    lemma_launched(*final(more));
    if launched(*old(more)) == launched(*old(fewer)).push(mark) {
        assert(launched(*old(more)).drop_last() =~= launched(*old(fewer)));
        assert(launched(*old(more)).last() == mark);
    }
}

/// A number is forgotten exactly if no process has it, and the others stay in their order: one
/// number more before is one more after, if a process has it.
pub proof fn ended_processes_are_forgotten(
    fewer: &mut Seen,
    more: &mut Seen,
    processes: &Vec<QemuProcess>,
    pid: u32,
)
    requires
        call_ensures(Seen::forget_ended, (fewer, processes), ()),
        call_ensures(Seen::forget_ended, (more, processes), ()),
    ensures
        final(fewer).launching == old(fewer).launching,
        old(fewer).pids@.len() == 0 ==> final(fewer).pids@.len() == 0,
        old(more).pids@ == old(fewer).pids@.push(pid) ==> final(more).pids@ == (if exists|i: int|
            0 <= i < processes@.len() && (#[trigger] processes@[i]).pid == pid {
            final(fewer).pids@.push(pid)
        } else {
            final(fewer).pids@
        }),
        final(fewer).pids@.contains(pid) <==> old(fewer).pids@.contains(pid) && exists|i: int|
            0 <= i < processes@.len() && (#[trigger] processes@[i]).pid == pid,
{
    if old(more).pids@ == old(fewer).pids@.push(pid) {
        assert(old(more).pids@.drop_last() =~= old(fewer).pids@);
        assert(old(more).pids@.last() == pid);
    }
    running_numbers_stay_seen(old(fewer).pids@, processes@, pid);
}

/// A bar is shown for the process that is found for a machine exactly if the process was not
/// seen before and the machine is not launched here; a process that is found counts as seen
/// from then on.
pub proof fn bar_is_for_a_new_process(
    seen: &mut Seen,
    processes: &Vec<QemuProcess>,
    dir: &[u8],
    found: Option<u32>,
    res: Option<u32>,
)
    requires
        call_ensures(find_pid, (processes, dir), found),
        call_ensures(Seen::detect, (seen, processes, dir), res),
    ensures
        final(seen).launching == old(seen).launching,
        found is None ==> res is None && final(seen).pids@ == old(seen).pids@,
        found matches Some(pid) ==> {
            &&& res == (if old(seen).pids@.contains(pid) || (exists|i: int|
                0 <= i < launched(*old(seen)).len() && (#[trigger] launched(*old(seen))[i]).0
                    == dir@) {
                None
            } else {
                found
            })
            &&& final(seen).pids@ == (if old(seen).pids@.contains(pid) {
                old(seen).pids@
            } else {
                old(seen).pids@.push(pid)
            })
        },
{
    lemma_launched(*old(seen));
}

/// A screen can take every scanout, and every update that has a place.
pub proof fn scanouts_and_placed_updates_can_be_taken(
    x: i32,
    y: i32,
    w: i32,
    h: i32,
    data: Vec<u8>,
    stride: u32,
    res: bool,
    screen: &mut Screen,
    msg: FrameMsg,
)
    requires
        call_ensures(has_place, (x, y, w, h), res),
    ensures
        msg is Scanout ==> call_requires(Screen::receive, (screen, msg)),
        res <==> h == 0 || (h > 0 && x >= 0 && y >= 0 && w >= 0),
        res ==> call_requires(
            Screen::receive,
            (screen, (FrameMsg::Update { x, y, w, h, data, stride })),
        ),
{
}

/// One format code carries alpha, and all others do not.
pub proof fn one_format_has_alpha(pixman: u32, res: MemoryFormat)
    requires
        call_ensures(gdk_mem_format, (pixman,), res),
    ensures
        pixman == 0x20208 ==> res == MemoryFormat::B8g8r8a8,
        pixman != 0x20208 ==> res == MemoryFormat::B8g8r8x8,
{
}

/// The buttons 1, 2 and 3 of a mouse are the left, the middle and the right one; no other is
/// known, and no two are the same.
pub proof fn mouse_buttons_are_counted_from_the_left(
    a: u32,
    b: u32,
    of_a: Option<MouseButton>,
    of_b: Option<MouseButton>,
)
    requires
        call_ensures(mouse_button, (a,), of_a),
        call_ensures(mouse_button, (b,), of_b),
    ensures
        of_a is Some <==> 1 <= a <= 3,
        of_a is Some && of_a == of_b ==> a == b,
        a == 1 ==> of_a == Some(MouseButton::Left),
        a == 3 ==> of_a == Some(MouseButton::Right),
{
    match of_a {
        Some(MouseButton::Left) => {},
        Some(MouseButton::Middle) => {},
        Some(MouseButton::Right) => {},
        None => {},
    }
}

/// Keys follow the evdev numbering except on a display that is known to be neither Wayland nor
/// X11.
pub proof fn keys_follow_evdev(display: Option<Backend>, res: bool)
    requires
        call_ensures(has_evdev_keys, (display,), res),
    ensures
        res <==> display is None || display == Some(Backend::Wayland) || display == Some(
            Backend::X11,
        ),
{
    match display {
        Some(Backend::Wayland) => {},
        Some(Backend::X11) => {},
        Some(Backend::Other) => {},
        None => {},
    }
}

/// The labels of the two buttons offer the other state.
pub proof fn labels_offer_the_other_state(
    filled: bool,
    paused: bool,
    screen: &'static str,
    pause: &'static str,
)
    requires
        call_ensures(fullscreen_label, (filled,), screen),
        call_ensures(pause_label, (paused,), pause),
    ensures
        filled ==> screen@ == "Exit Fullscreen"@,
        !filled ==> screen@ == "Fullscreen"@,
        paused ==> pause@ == "Resume"@,
        !paused ==> pause@ == "Pause"@,
{
}

/// The question names the machine, and only its own answer confirms it.
pub proof fn stops_are_confirmed(
    name: &str,
    response: &str,
    stop: String,
    force: String,
    stops: bool,
    forces: bool,
)
    requires
        call_ensures(stop_question, (name,), stop),
        call_ensures(force_stop_question, (name,), force),
        call_ensures(stop_confirmed, (response,), stops),
        call_ensures(force_stop_confirmed, (response,), forces),
    ensures
        stop@ == "Send shutdown signal to \""@ + name@ + "\"? Unsaved guest work may be lost."@,
        force@ == "Force kill \""@ + name@ + "\"? The guest OS will not shut down cleanly."@,
        stops <==> response@ == "stop"@,
        forces <==> response@ == "force"@,
        !(stops && forces),
{
    reveal_strlit("stop");
    reveal_strlit("force");
    assert("stop"@.len() == 4 && "force"@.len() == 5);
}

/// A bar stays exactly while its process counts as seen.
pub proof fn bar_stays_while_its_process_runs(
    seen: &mut Seen,
    processes: &Vec<QemuProcess>,
    pid: u32,
    res: bool,
)
    requires
        old(seen).pids@.contains(pid),
        call_ensures(bar_stays, (processes, pid), res),
        call_ensures(Seen::forget_ended, (seen, processes), ()),
    ensures
        res <==> final(seen).pids@.contains(pid),
{
    running_numbers_stay_seen(old(seen).pids@, processes@, pid);
}

/// The object of a script is named by the number that was printed, without the white space
/// around it; there is none where nothing else was printed.
pub proof fn script_object_has_the_number(
    printed: &str,
    between: String,
    res: Option<String>,
)
    requires
        call_ensures(trimmed, (printed,), between),
        call_ensures(script_object, (printed,), res),
    ensures
        res is None <==> all_space(printed@),
        res matches Some(object) ==> object@ == "/Scripting/Script"@ + between@,
{
    nothing_is_left_of_white_space(printed@);
}

/// At first nothing is known of a machine, its header is seen and does not hide by itself, the
/// bar over it is closed, and no process was seen.
pub proof fn nothing_is_known_at_first(watch: Watch, bars: Bars, bar: Hover, seen: Seen)
    requires
        call_ensures(Watch::new, (), watch),
        call_ensures(Bars::new, (), bars),
        call_ensures(Hover::new, (), bar),
        call_ensures(Seen::new, (), seen),
    ensures
        watch.pid is None && !watch.paused,
        bars.visible && !bars.fullscreen && !bars.pending,
        !bar.open && !bar.closing,
        seen.pids@.len() == 0,
        launched(seen).len() == 0,
{
}

} // verus!
