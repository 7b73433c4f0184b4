use fgtw_fleet::follow::{Follow, FOLLOW_MAX_TRIES};
use fgtw_fleet::keymap::{
    map_physical, map_position, mod_keys, send_key, ControlKey, Key, KeyEvent, KeyPayload, KeyboardMode, ModifiersState,
    NamedKey,
};
use fgtw_fleet::screen::{argb, clamp_remote, fill_backdrop, hud_colour, FluorHandler, ImageFormat, Wake, BACKDROP, HUD_AMBER, HUD_GREEN, HUD_SHADOW};
use fgtw_fleet::viewer::{
    can_handle, menu, run, ConnType, EventResponse, FluorViewer, MenuEntry, MouseButton, ViewerAction, ViewerEvent, MENU_FULLSCREEN,
    MENU_HOST_NEXT, MENU_HOST_PREV, MENU_HUD, MENU_LOCAL_NEXT, MENU_LOCAL_PREV,
};

const NO_MODS: ModifiersState = ModifiersState { shift: false, ctrl: false, alt: false, meta: false };

#[test]
fn frames_are_packed_for_the_compositor() {
    let mut h = FluorHandler::new();
    let raw = [0x10u8, 0x20, 0x30, 0xFF, 1, 2, 3, 4];
    assert_eq!(h.on_rgba(&raw, 2, 1, ImageFormat::ARGB), Some(Wake::Frame));
    assert_eq!((h.frame.w, h.frame.h, h.frame.gen), (2, 1, 1));
    assert_eq!(h.frame.pixels, vec![argb(0x30, 0x20, 0x10, 0xFF), argb(3, 2, 1, 4)]);
    assert_eq!(h.on_rgba(&raw, 1, 2, ImageFormat::ABGR), Some(Wake::Frame));
    assert_eq!(h.frame.pixels, vec![argb(0x10, 0x20, 0x30, 0xFF), argb(1, 2, 3, 4)]);
    assert_eq!(h.frame.gen, 2);
    assert_eq!(argb(0x10, 0x20, 0x30, 0xFF), 0xFFEF_DFCF);
}

#[test]
fn short_frames_are_ignored() {
    let mut h = FluorHandler::new();
    assert_eq!(h.on_rgba(&[0; 7], 2, 1, ImageFormat::ARGB), None);
    assert_eq!(h.on_rgba(&[0; 8], 0, 1, ImageFormat::ARGB), None);
    assert_eq!(h.on_rgba(&[0; 8], 1, 0, ImageFormat::ARGB), None);
    assert_eq!(h.on_rgba(&[0; 8], usize::MAX, usize::MAX, ImageFormat::ARGB), None);
    assert_eq!((h.frame.w, h.frame.gen), (0, 0));
    h.frame.gen = u64::MAX;
    assert!(h.on_rgba(&[0; 4], 1, 1, ImageFormat::ARGB).is_some());
    assert_eq!(h.frame.gen, 0);
}

#[test]
fn colours_are_what_they_say() {
    assert_eq!(HUD_GREEN, argb(0x30, 0xFF, 0x50, 0xFF));
    assert_eq!(HUD_AMBER, argb(0xFF, 0xC0, 0x20, 0xFF));
    assert_eq!(HUD_SHADOW, argb(0, 0, 0, 0xFF));
    assert_eq!(BACKDROP, 0xFFC0_C0C0);
    assert_eq!([0, 1, 2, 3].map(hud_colour), [HUD_GREEN, HUD_GREEN, HUD_AMBER, HUD_GREEN]);
}

#[test]
fn session_facts_are_kept() {
    let mut h = FluorHandler::new();
    assert_eq!(h.set_cursor_position(3, 4), Wake::Frame);
    assert_eq!(h.close_success(), Wake::Frame);
    h.set_display(10, 20);
    h.set_peer_info(1, "Linux".to_string(), 3);
    assert_eq!((h.cursor, h.display_origin, h.display_idx, h.display_count), ((3, 4), (10, 20), 1, 3));
    assert_eq!(h.peer_platform, "Linux");
    h.switch_display(2, 30, 40);
    assert_eq!((h.display_idx, h.display_origin), (2, (30, 40)));
    h.set_displays(5);
    assert_eq!(h.display_count, 5);
}

#[test]
fn displays_wrap_around() {
    let mut h = FluorHandler::new();
    assert_eq!(h.switch_host_display(1), None);
    h.set_displays(1);
    assert_eq!(h.switch_host_display(1), None);
    h.set_displays(3);
    assert_eq!(h.switch_host_display(1), Some(1));
    assert_eq!(h.switch_host_display(-1), Some(2));
    h.display_idx = 2;
    assert_eq!(h.switch_host_display(1), Some(0));
    h.display_idx = -4;
    assert_eq!(h.switch_host_display(-1), Some((-5i32).rem_euclid(3)));
}

#[test]
fn points_stay_within_the_frame() {
    assert_eq!(clamp_remote(5, 6, 0, 0), None);
    assert_eq!(clamp_remote(5, 6, 10, 10), Some((5, 6)));
    assert_eq!(clamp_remote(-1, 99, 10, 20), Some((0, 19)));
    assert_eq!(clamp_remote(i32::MAX, i32::MIN, 10, 20), Some((9, 0)));
}

#[test]
fn follow_waits_asks_retries_and_gives_up() {
    let mut f = Follow::new();
    let vp = (800, 600);
    let frame = (640, 480);
    let s = f.maybe_follow(vp, frame, 1000);
    assert!(s.pending && s.request.is_none());
    let s = f.maybe_follow(vp, frame, 1299);
    assert!(s.pending && s.request.is_none());
    let mut now = 1300;
    for _ in 0..FOLLOW_MAX_TRIES {
        let s = f.maybe_follow(vp, frame, now);
        assert!(s.pending);
        assert_eq!(s.request, Some((800, 600)));
        let s = f.maybe_follow(vp, frame, now + 1199);
        assert!(s.pending && s.request.is_none() || f.tries == FOLLOW_MAX_TRIES);
        now += 1200;
    }
    let s = f.maybe_follow(vp, frame, now + 100_000);
    assert!(!s.pending && s.request.is_none());
    // Another size starts over; the right frame ends it.
    assert!(f.maybe_follow((801, 600), frame, now).pending);
    assert_eq!(f.tries, 0);
    let s = f.maybe_follow((801, 600), (801, 600), now);
    assert!(!s.pending && f.at.is_none());
    assert!(!f.maybe_follow((0, 600), frame, now).pending);
    assert!(!f.maybe_follow((u32::MAX, 600), frame, now).pending);
}

#[test]
fn positions_become_xorg_codes() {
    assert_eq!(map_physical("Linux", 0x04), Some(38));
    assert_eq!(map_physical("linux", 0x0E), Some(45));
    assert_eq!(map_physical("", 0xE7), Some(134));
    assert_eq!(map_physical("Linux", 0), None);
    assert_eq!(map_physical("Linux", 0x32), None);
    assert_eq!(map_physical("Windows", 0x04), None);
    assert_eq!(map_physical("Mac OS", 0x04), None);
    assert_eq!(map_position("linux", 0x65), Some(135));
    assert_eq!(map_position("windows", 0x65), None);
    assert_eq!(map_position("Windows", 0x65), Some(135));
}

fn said(events: &[KeyEvent]) -> Vec<(KeyboardMode, bool, bool, Vec<ControlKey>, KeyPayload)> {
    events.iter().map(|e| (e.mode, e.down, e.press, e.modifiers.clone(), e.payload)).collect()
}

#[test]
fn modifiers_come_in_a_fixed_order() {
    let all = ModifiersState { shift: true, ctrl: true, alt: true, meta: true };
    assert_eq!(mod_keys(all), vec![ControlKey::Shift, ControlKey::Control, ControlKey::Alt, ControlKey::Meta]);
    assert!(mod_keys(NO_MODS).is_empty());
}

#[test]
fn named_keys_go_down_and_up() {
    let shift = ModifiersState { shift: true, ..NO_MODS };
    let down = send_key(&Key::Named(NamedKey::Enter), true, Some("\r"), shift);
    assert_eq!(
        said(&down),
        vec![(KeyboardMode::Legacy, true, false, vec![ControlKey::Shift], KeyPayload::Control(ControlKey::Return))]
    );
    let up = send_key(&Key::Named(NamedKey::ArrowLeft), false, None, NO_MODS);
    assert_eq!(
        said(&up),
        vec![(KeyboardMode::Legacy, false, false, vec![], KeyPayload::Control(ControlKey::LeftArrow))]
    );
}

#[test]
fn text_is_typed_on_the_way_down() {
    let events = send_key(&Key::Character, true, Some("é\u{7f}\u{9f}b"), NO_MODS);
    assert_eq!(
        said(&events),
        vec![
            (KeyboardMode::Legacy, false, true, vec![], KeyPayload::Unicode('é' as u32)),
            (KeyboardMode::Legacy, false, true, vec![], KeyPayload::Unicode('b' as u32)),
        ]
    );
    assert_eq!(send_key(&Key::Named(NamedKey::Space), true, Some(" "), NO_MODS).len(), 1);
    assert!(send_key(&Key::Character, false, Some("a"), NO_MODS).is_empty());
    assert!(send_key(&Key::Named(NamedKey::Other), true, None, NO_MODS).is_empty());
    for code in 0..0x200u32 {
        let c = char::from_u32(code).unwrap();
        let typed = send_key(&Key::Character, true, Some(&c.to_string()), NO_MODS);
        assert_eq!(typed.is_empty(), c.is_control());
    }
}

/// A viewer whose window already has the frame's size, so that following adds nothing.
fn settled() -> (FluorViewer, FluorHandler) {
    let mut h = FluorHandler::new();
    assert!(h.on_rgba(&[0; 16], 2, 2, ImageFormat::ARGB).is_some());
    h.set_peer_info(0, "Linux".to_string(), 2);
    (FluorViewer::new(), h)
}

fn told(actions: &[ViewerAction]) -> Vec<String> {
    actions
        .iter()
        .map(|a| match a {
            ViewerAction::RequestRedraw => "redraw".to_string(),
            ViewerAction::ChangeResolution(d, w, h) => format!("size {d} {w}x{h}"),
            ViewerAction::SendMouse(m, x, y) => format!("mouse {m} {x},{y}"),
            ViewerAction::SendKey(e) => format!("key {:?} {} {:?}", e.mode, e.down, e.payload),
            ViewerAction::SwitchDisplay(d) => format!("display {d}"),
        })
        .collect()
}

#[test]
fn mouse_events_reach_the_host() {
    let (mut v, h) = settled();
    let mut on = |v: &mut FluorViewer, e| {
        let (r, a) = v.on_event(&h, e, (2, 2), 0);
        assert_eq!(r, EventResponse::Pass);
        told(&a)
    };
    assert_eq!(on(&mut v, ViewerEvent::CursorMoved(Some((1, 0)))), vec!["mouse 0 1,0"]);
    assert!(on(&mut v, ViewerEvent::CursorMoved(None)).is_empty());
    assert_eq!(
        on(&mut v, ViewerEvent::MouseInput(true, MouseButton::Left, Some((1, 1)))),
        vec!["mouse 0 1,1", "mouse 9 1,1"]
    );
    assert_eq!(v.buttons, 1);
    assert_eq!(
        on(&mut v, ViewerEvent::MouseInput(true, MouseButton::Middle, Some((1, 1)))),
        vec!["mouse 8 1,1", "mouse 33 1,1"]
    );
    assert_eq!(v.buttons, 5);
    assert_eq!(
        on(&mut v, ViewerEvent::MouseInput(false, MouseButton::Left, Some((0, 1)))),
        vec!["mouse 40 0,1", "mouse 10 0,1"]
    );
    assert_eq!(v.buttons, 4);
    assert!(on(&mut v, ViewerEvent::MouseInput(true, MouseButton::Right, None)).is_empty());
    assert!(on(&mut v, ViewerEvent::MouseInput(true, MouseButton::Other, Some((0, 0)))).is_empty());
    assert_eq!(v.buttons, 4);
}

#[test]
fn wheel_scrolls_along_the_stronger_direction() {
    let (mut v, h) = settled();
    for ((x, y), want) in [
        ((2, -1), vec!["mouse 3 2,0"]),
        ((1, -2), vec!["mouse 3 0,-2"]),
        ((-3, 3), vec!["mouse 3 -3,0"]),
        ((0, 0), vec![]),
    ] {
        let (_, a) = v.on_event(&h, ViewerEvent::MouseWheel(x, y), (2, 2), 0);
        assert_eq!(told(&a), want);
    }
}

#[test]
fn keys_go_by_position_where_the_host_knows_it() {
    let (mut v, mut h) = settled();
    let press = |key, text: &str, position| {
        ViewerEvent::KeyboardInput(position, true, key, Some(text.to_string()), NO_MODS)
    };
    let (_, a) = v.on_event(&h, press(Key::Character, "a", 0x04), (2, 2), 0);
    assert_eq!(told(&a), vec!["key Position true Chr(38)"]);
    let (_, a) = v.on_event(&h, press(Key::Character, "a", 0x32), (2, 2), 0);
    assert_eq!(told(&a), vec!["key Legacy false Unicode(97)"]);
    h.set_peer_info(0, "Windows".to_string(), 1);
    let (_, a) = v.on_event(&h, press(Key::Named(NamedKey::Tab), "\t", 0x2B), (2, 2), 0);
    assert_eq!(told(&a), vec!["key Legacy true Control(Tab)"]);
}

#[test]
fn menu_items_act_or_answer() {
    let (mut v, h) = settled();
    let mut on = |v: &mut FluorViewer, id| {
        let (r, a) = v.on_event(&h, ViewerEvent::MenuItem(id), (2, 2), 0);
        (r, told(&a))
    };
    assert_eq!(on(&mut v, MENU_FULLSCREEN), (EventResponse::ToggleMaximized, vec![]));
    assert_eq!(on(&mut v, MENU_HUD), (EventResponse::Pass, vec!["redraw".to_string()]));
    assert!(v.hud);
    assert_eq!(on(&mut v, MENU_HOST_NEXT), (EventResponse::Pass, vec!["display 1".to_string()]));
    assert_eq!(on(&mut v, MENU_HOST_PREV), (EventResponse::Pass, vec!["display 1".to_string()]));
    assert_eq!(on(&mut v, MENU_LOCAL_NEXT), (EventResponse::MoveToMonitor(1), vec![]));
    assert_eq!(on(&mut v, MENU_LOCAL_PREV), (EventResponse::MoveToMonitor(-1), vec![]));
    assert_eq!(on(&mut v, 99), (EventResponse::Pass, vec![]));
    let (_, a) = v.on_event(&h, ViewerEvent::CursorMoved(Some((0, 0))), (2, 2), 0);
    assert_eq!(told(&a), vec!["mouse 0 0,0", "redraw"]);
    let (r, a) = v.on_event(&h, ViewerEvent::CloseRequested, (2, 2), 0);
    assert!(r == EventResponse::Close && a.is_empty());
    let (r, a) = v.on_event(&h, ViewerEvent::Other, (2, 2), 0);
    assert!(r == EventResponse::Pass && a.is_empty());
}

#[test]
fn every_event_follows_the_window() {
    let (mut v, mut h) = settled();
    h.display_idx = 4;
    let (_, a) = v.on_event(&h, ViewerEvent::Other, (9, 9), 0);
    assert_eq!(told(&a), vec!["redraw"]);
    let (_, a) = v.on_event(&h, ViewerEvent::CursorMoved(Some((1, 1))), (9, 9), 300);
    assert_eq!(told(&a), vec!["size 4 9x9", "redraw", "mouse 0 1,1"]);
    assert_eq!(told(&v.on_resize(&h, (7, 7), 400)), vec!["redraw"]);
    assert_eq!(v.follow.target, (7, 7));
}

#[test]
fn first_drawing_connects_with_the_size_of_the_window() {
    let h = FluorHandler::new();
    let mut v = FluorViewer::new();
    let plan = v.render(&h, (800, 600), 0);
    assert_eq!(plan.start, Some(Some((800, 600))));
    assert!(!plan.draw_frame && !plan.log);
    let plan = v.render(&h, (800, 600), 0);
    assert_eq!(plan.start, None);
    assert_eq!(FluorViewer::new().render(&h, (0, 600), 0).start, Some(None));
}

#[test]
fn frames_are_drawn_and_odd_sizes_logged_once() {
    let (mut v, h) = settled();
    let plan = v.render(&h, (3, 2), 0);
    assert!(plan.draw_frame && plan.log);
    let plan = v.render(&h, (3, 2), 0);
    assert!(plan.draw_frame && !plan.log && !plan.draw_hud);
    v.hud = true;
    assert!(v.render(&h, (3, 2), 0).draw_hud);
    // There is nothing to draw the figures over without a frame.
    let plan = v.render(&FluorHandler::new(), (3, 2), 0);
    assert!(!plan.draw_frame && !plan.draw_hud);
    let mut v = FluorViewer::new();
    assert!(!v.render(&h, (2, 2), 0).log);
    assert_eq!(v.last_seen_gen, 1);
}

#[test]
fn menus_have_their_lines() {
    let (remote, local) = menu();
    let lines = |items: &Vec<MenuEntry>| -> Vec<Option<(u32, String)>> {
        items
            .iter()
            .map(|e| match e {
                MenuEntry::Action(id, label) => Some((*id, label.clone())),
                MenuEntry::Separator => None,
            })
            .collect()
    };
    assert_eq!(remote.label, "Remote");
    assert_eq!(
        lines(&remote.items),
        vec![Some((3, "Next Host Monitor".to_string())), Some((4, "Previous Host Monitor".to_string()))]
    );
    assert_eq!(local.label, "Local");
    assert_eq!(local.items.len(), 5);
    assert_eq!(lines(&local.items)[2], None);
    assert_eq!(lines(&local.items)[4], Some((2, "Toggle Input HUD".to_string())));
}

#[test]
fn commands_choose_the_connection() {
    let kind = |cmd| run(cmd, &Vec::new()).conn_type;
    assert_eq!(kind("--file-transfer"), ConnType::FileTransfer);
    assert_eq!(kind("--view-camera"), ConnType::ViewCamera);
    assert_eq!(kind("--port-forward"), ConnType::PortForward);
    assert_eq!(kind("--rdp"), ConnType::Rdp);
    assert_eq!(kind("--connect"), ConnType::DefaultConn);
    assert!(!run("", &vec!["--other".to_string()]).force_relay);
    let launch = run("", &vec!["--other".to_string(), "--relay".to_string()]);
    assert!(launch.force_relay && launch.viewer.io_pending && !launch.viewer.hud);
}

#[test]
fn pointer_events_land_on_the_shown_display() {
    let (mut v, mut h) = settled();
    h.display_origin = (1920, 0);
    let mut on = |e| told(&v.on_event(&h, e, (2, 2), 0).1);
    assert_eq!(on(ViewerEvent::CursorMoved(Some((10, 20)))), vec!["mouse 0 1930,20"]);
    assert_eq!(
        on(ViewerEvent::MouseInput(true, MouseButton::Left, Some((10, 20)))),
        vec!["mouse 0 1930,20", "mouse 9 1930,20"]
    );
    assert_eq!(
        on(ViewerEvent::MouseInput(false, MouseButton::Left, Some((0, 1)))),
        vec!["mouse 8 1920,1", "mouse 10 1920,1"]
    );
    // What is scrolled is no place.
    assert_eq!(on(ViewerEvent::MouseWheel(0, 3)), vec!["mouse 3 0,3"]);
    h.display_origin = (-5, i32::MAX);
    assert_eq!(told(&v.on_event(&h, ViewerEvent::CursorMoved(Some((1, 1))), (2, 2), 0).1), vec!["mouse 0 -4,-2147483648"]);
}

#[test]
fn menus_work_at_the_ends_of_the_display_numbers() {
    let (mut v, mut h) = settled();
    for idx in [i32::MIN, i32::MAX] {
        h.display_idx = idx;
        h.display_count = 3;
        for id in [MENU_HUD, MENU_FULLSCREEN, MENU_LOCAL_NEXT, MENU_LOCAL_PREV] {
            assert!(can_handle(&h, &ViewerEvent::MenuItem(id), 0));
            v.on_event(&h, ViewerEvent::MenuItem(id), (2, 2), 0);
        }
        // With one display there is nothing to switch to, and nothing is counted.
        h.display_count = 1;
        for id in [MENU_HOST_NEXT, MENU_HOST_PREV] {
            assert!(can_handle(&h, &ViewerEvent::MenuItem(id), 0));
            assert!(told(&v.on_event(&h, ViewerEvent::MenuItem(id), (2, 2), 0).1).is_empty());
        }
    }
    assert_eq!(h.switch_host_display(1), None);
    h.display_count = 3;
    assert!(!can_handle(&h, &ViewerEvent::MenuItem(MENU_HOST_NEXT), 0));
    assert!(can_handle(&h, &ViewerEvent::MenuItem(MENU_HOST_PREV), 0));
    h.display_idx = i32::MIN;
    assert!(can_handle(&h, &ViewerEvent::MenuItem(MENU_HOST_NEXT), 0));
    assert!(!can_handle(&h, &ViewerEvent::MenuItem(MENU_HOST_PREV), 0));
    assert!(!can_handle(&h, &ViewerEvent::MouseWheel(i32::MIN, 0), 0));
    assert!(!can_handle(&h, &ViewerEvent::Other, u64::MAX));
}

#[test]
fn without_a_frame_everything_is_backdrop() {
    let mut target = vec![1, 2, 3, 4];
    fill_backdrop(&mut target);
    assert_eq!(target, vec![0xFFC0_C0C0; 4]);
    let mut none: Vec<u32> = Vec::new();
    fill_backdrop(&mut none);
    assert!(none.is_empty());
}

#[test]
fn many_drawings_connect_once() {
    let h = FluorHandler::new();
    let mut v = FluorViewer::new();
    let starts: Vec<_> = [(800, 600), (1, 1), (800, 600), (0, 0)].iter().map(|vp| v.render(&h, *vp, 0).start).collect();
    assert_eq!(starts, vec![Some(Some((800, 600))), None, None, None]);
    assert!(!v.io_pending);
}

#[test]
fn an_unmet_size_is_asked_for_five_times_however_often_one_looks() {
    let mut f = Follow::new();
    let mut asked = Vec::new();
    let mut pending_until = 0;
    for now in (0..20_000).step_by(7) {
        let step = f.maybe_follow((800, 600), (640, 480), now);
        if let Some(size) = step.request {
            assert_eq!(size, (800, 600));
            asked.push(now);
        }
        if step.pending {
            pending_until = now;
        }
    }
    assert_eq!(asked.len(), 5);
    assert!(asked[0] >= 300);
    assert!(asked.windows(2).all(|w| w[1] - w[0] >= 1200));
    assert_eq!(pending_until, asked[4]);
}
