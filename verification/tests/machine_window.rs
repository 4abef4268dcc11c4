use vm_curator_gtk::process::{find_pid, has_pid, same_bytes, QemuProcess};
use vm_curator_gtk::vm_window::{
    after_attempt, apply_update, force_stop_confirmed, force_stop_question, fullscreen_label,
    gdk_mem_format, has_evdev_keys, has_place, key_number, mouse_button, pause_label,
    stop_confirmed, stop_question, AttemptStep,
    Backend, BarEvent, Bars, FrameMsg, FrameState, MemoryFormat, MouseButton, Screen, Timer, Watch,
    Zone, CONSOLE_ATTEMPTS, CONSOLE_PAUSE_MS,
};

fn frame() -> FrameState {
    FrameState { data: vec![0; 4 * 4 * 3], width: 4, height: 3, stride: 16, format: 0x20024 }
}

fn process(pid: u32, cwd: Option<&str>) -> QemuProcess {
    QemuProcess { pid, cwd: cwd.map(|c| c.as_bytes().to_vec()) }
}

#[test]
fn an_update_shows_in_its_rectangle() {
    let mut fs = frame();
    let data: Vec<u8> = (1..=16).collect();
    apply_update(&mut fs, 1, 1, 2, 2, &data, 8);
    let mut expected = vec![0u8; 48];
    expected[20..28].copy_from_slice(&data[0..8]);
    expected[36..44].copy_from_slice(&data[8..16]);
    assert_eq!(fs.data, expected);
    assert_eq!((fs.width, fs.height, fs.stride, fs.format), (4, 3, 16, 0x20024));
}

#[test]
fn rows_that_do_not_fit_are_left_out() {
    let mut fs = frame();
    let data = vec![9u8; 12];
    apply_update(&mut fs, 3, 1, 1, 5, &data, 4);
    let mut expected = vec![0u8; 48];
    expected[28..32].fill(9);
    expected[44..48].fill(9);
    assert_eq!(fs.data, expected);
    apply_update(&mut fs, 0, 0, 4, 1, &[1; 15], 16);
    assert_eq!(fs.data, expected);
    apply_update(&mut fs, i32::MAX, i32::MAX, i32::MAX, 2, &data, u32::MAX);
    assert_eq!(fs.data, expected);
    apply_update(&mut fs, -1, -1, -1, 0, &data, 4);
    assert_eq!(fs.data, expected);
}

#[test]
fn places_of_updates() {
    assert!(has_place(0, 0, 0, 1));
    assert!(has_place(-1, -1, -1, 0));
    assert!(!has_place(-1, 0, 0, 1));
    assert!(!has_place(0, -1, 0, 1));
    assert!(!has_place(0, 0, -1, 1));
    assert!(!has_place(0, 0, 0, -1));
}

#[test]
fn frames_begin_with_a_scanout() {
    let mut screen = Screen::new();
    assert_eq!(screen.size(), (1024, 768));
    let update = FrameMsg::Update { x: 0, y: 0, w: 1, h: 1, data: vec![7; 4], stride: 4 };
    assert!(!screen.receive(update));
    assert!(screen.frame.is_none());
    let scanout =
        FrameMsg::Scanout { data: vec![0; 16], width: 2, height: 2, stride: 8, format: 0x20208 };
    assert!(screen.receive(scanout));
    assert_eq!(screen.size(), (2, 2));
    let update = FrameMsg::Update { x: 1, y: 1, w: 1, h: 1, data: vec![7; 4], stride: 4 };
    assert!(screen.receive(update));
    let shown = screen.frame.as_ref().unwrap();
    assert_eq!(shown.data, vec![0, 0, 0, 0, 0, 0, 0, 0, 0, 0, 0, 0, 7, 7, 7, 7]);
    let scanout =
        FrameMsg::Scanout { data: vec![1; 4], width: 1, height: 1, stride: 4, format: 0x20024 };
    assert!(screen.receive(scanout));
    assert_eq!(screen.frame.as_ref().unwrap().data, vec![1; 4]);
}

#[test]
fn formats_of_pixels() {
    assert_eq!(gdk_mem_format(0x20024), MemoryFormat::B8g8r8x8);
    assert_eq!(gdk_mem_format(0x20208), MemoryFormat::B8g8r8a8);
    assert_eq!(gdk_mem_format(0), MemoryFormat::B8g8r8x8);
}

#[test]
fn the_console_is_tried_thirty_times() {
    let mut attempt = 0;
    while after_attempt(attempt, false) == AttemptStep::Retry {
        attempt += 1;
    }
    assert_eq!(attempt, 29);
    assert_eq!(after_attempt(attempt, false), AttemptStep::GiveUp);
    assert_eq!(after_attempt(29, true), AttemptStep::Use);
    assert_eq!(after_attempt(0, true), AttemptStep::Use);
    assert_eq!(CONSOLE_ATTEMPTS * CONSOLE_PAUSE_MS, 15_000);
}

#[test]
fn keys_and_buttons() {
    assert!(has_evdev_keys(Some(Backend::Wayland)));
    assert!(has_evdev_keys(Some(Backend::X11)));
    assert!(!has_evdev_keys(Some(Backend::Other)));
    assert!(has_evdev_keys(None));
    let map: [u16; 3] = [0, 5, 0];
    assert_eq!(key_number(Some(&map), 1), Some(5));
    assert_eq!(key_number(Some(&map), 2), None);
    assert_eq!(key_number(Some(&map), 3), None);
    assert_eq!(key_number(None, 1), None);
    assert_eq!(mouse_button(0), None);
    assert_eq!(mouse_button(1), Some(MouseButton::Left));
    assert_eq!(mouse_button(2), Some(MouseButton::Middle));
    assert_eq!(mouse_button(3), Some(MouseButton::Right));
    assert_eq!(mouse_button(4), None);
}

#[test]
fn the_header_hides_and_comes_back() {
    let mut bars = Bars::new();
    let entered = bars.handle(BarEvent::Toggle(false));
    assert_eq!((entered.fullscreen, entered.reveal, entered.timer), (Some(true), None, Timer::Start));
    let hidden = bars.handle(BarEvent::Timeout);
    assert_eq!((hidden.reveal, bars.visible, bars.pending), (Some(false), false, false));
    let back = bars.handle(BarEvent::Motion(Zone::Top));
    assert_eq!((back.reveal, back.timer, bars.visible), (Some(true), Timer::Keep, true));
    assert_eq!(bars.handle(BarEvent::Motion(Zone::Header)).timer, Timer::Keep);
    assert_eq!(bars.handle(BarEvent::Motion(Zone::Below)).timer, Timer::Start);
    assert_eq!(bars.handle(BarEvent::Motion(Zone::Below)).timer, Timer::Keep);
    let kept = bars.handle(BarEvent::Motion(Zone::Top));
    assert_eq!((kept.reveal, kept.timer, bars.pending), (None, Timer::Cancel, false));
    let left = bars.handle(BarEvent::Toggle(true));
    assert_eq!((left.fullscreen, left.reveal, left.timer), (Some(false), Some(true), Timer::Keep));
    assert_eq!(bars, Bars::new());
}

#[test]
fn a_window_ignores_the_pointer() {
    let mut bars = Bars::new();
    for zone in [Zone::Top, Zone::Header, Zone::Below] {
        let action = bars.handle(BarEvent::Motion(zone));
        assert_eq!((action.fullscreen, action.reveal, action.timer), (None, None, Timer::Keep));
        assert_eq!(bars, Bars::new());
    }
}

#[test]
fn leaving_cancels_the_timer() {
    let mut bars = Bars::new();
    bars.handle(BarEvent::Toggle(false));
    assert_eq!(bars.handle(BarEvent::Toggle(true)).timer, Timer::Cancel);
    assert_eq!(bars, Bars::new());
}

#[test]
fn processes_are_found_by_directory() {
    let all = vec![process(1, None), process(2, Some("/vms/b")), process(3, Some("/vms/b"))];
    assert_eq!(find_pid(&all, b"/vms/b"), Some(2));
    assert_eq!(find_pid(&all, b"/vms/a"), None);
    assert!(has_pid(&all, 3));
    assert!(!has_pid(&all, 4));
    assert!(same_bytes(b"ab", b"ab"));
    assert!(!same_bytes(b"ab", b"ac"));
    assert!(!same_bytes(b"ab", b"a"));
}

#[test]
fn the_window_closes_with_its_machine() {
    let mut watch = Watch::new();
    assert!(watch.look(&vec![process(5, Some("/vms/a"))], b"/vms/a"));
    assert_eq!(watch.pid, Some(5));
    assert!(!watch.look(&vec![process(5, Some("/vms/b"))], b"/vms/a"));
    assert_eq!(watch.pid, Some(5));
}

#[test]
fn texts_of_the_window() {
    assert_eq!(fullscreen_label(true), "Exit Fullscreen");
    assert_eq!(fullscreen_label(false), "Fullscreen");
    assert_eq!(pause_label(true), "Resume");
    assert_eq!(pause_label(false), "Pause");
    assert_eq!(
        stop_question("arch"),
        "Send shutdown signal to \"arch\"? Unsaved guest work may be lost."
    );
    assert_eq!(
        force_stop_question("arch"),
        "Force kill \"arch\"? The guest OS will not shut down cleanly."
    );
}

#[test]
fn answers_about_stopping() {
    assert!(stop_confirmed("stop") && !stop_confirmed("cancel"));
    assert!(force_stop_confirmed("force") && !force_stop_confirmed("stop"));
}

#[test]
fn an_update_made_twice_is_one() {
    let data: Vec<u8> = (1..=40).collect();
    let mut once = frame();
    apply_update(&mut once, 1, 1, 2, 5, &data, 8);
    let mut twice = frame();
    apply_update(&mut twice, 1, 1, 2, 5, &data, 8);
    apply_update(&mut twice, 1, 1, 2, 5, &data, 8);
    assert_eq!(once.data, twice.data);
    // Rows that are wider than the frame overlap, and the last one is seen.
    let mut wide = FrameState { data: vec![0; 12], width: 1, height: 3, stride: 4, format: 0 };
    apply_update(&mut wide, 0, 0, 2, 2, &[1, 1, 1, 1, 2, 2, 2, 2, 3, 3, 3, 3, 4, 4, 4, 4], 8);
    assert_eq!(wide.data, vec![1, 1, 1, 1, 3, 3, 3, 3, 4, 4, 4, 4]);
}

#[test]
fn disjoint_updates_commute() {
    let a = vec![7u8; 16];
    let b = vec![9u8; 16];
    let mut ab = frame();
    apply_update(&mut ab, 0, 0, 2, 2, &a, 8);
    apply_update(&mut ab, 2, 1, 2, 2, &b, 8);
    let mut ba = frame();
    apply_update(&mut ba, 2, 1, 2, 2, &b, 8);
    apply_update(&mut ba, 0, 0, 2, 2, &a, 8);
    assert_eq!(ab.data, ba.data);
    assert_eq!(ab.data.iter().filter(|x| **x == 7).count(), 16);
    assert_eq!(ab.data.iter().filter(|x| **x == 9).count(), 16);
}
