//! The remote viewer: what a window event makes it do, what it draws, and how it is started.
use crate::follow::{Follow, FollowStep};
use crate::keymap::{map_physical, send_key, Key, KeyEvent, KeyPayload, KeyboardMode, ModifiersState};
use crate::screen::FluorHandler;
use crate::reach::has_text;
use crate::text::same_text;
use vstd::prelude::*;

verus! {

// ── menu ──

pub const MENU_FULLSCREEN: u32 = 1;

pub const MENU_HUD: u32 = 2;

pub const MENU_HOST_NEXT: u32 = 3;

pub const MENU_HOST_PREV: u32 = 4;

pub const MENU_LOCAL_NEXT: u32 = 5;

pub const MENU_LOCAL_PREV: u32 = 6;

/// A line of a menu.
pub enum MenuEntry {
    Action(u32, String),
    Separator,
}

/// A menu: its label and its lines.
pub struct Menu {
    pub label: String,
    pub items: Vec<MenuEntry>,
}

/// What a line says: the identifier and the label, or nothing for a separator.
pub open spec fn entry_view(entry: MenuEntry) -> Option<(u32, Seq<char>)> {
    match entry {
        MenuEntry::Action(id, label) => Some((id, label@)),
        MenuEntry::Separator => None,
    }
}

/// What a menu's lines say.
pub open spec fn items_view(items: Seq<MenuEntry>) -> Seq<Option<(u32, Seq<char>)>> {
    Seq::new(items.len(), |i: int| entry_view(items[i]))
}

/// The menu bar: one menu about the host's monitors, one about this machine's and the view.
pub fn menu() -> (r: (Menu, Menu))
    ensures
        r.0.label@ == "Remote"@,
        items_view(r.0.items@) == seq![
            Some((MENU_HOST_NEXT, "Next Host Monitor"@)),
            Some((MENU_HOST_PREV, "Previous Host Monitor"@)),
        ],
        r.1.label@ == "Local"@,
        items_view(r.1.items@) == seq![
            Some((MENU_LOCAL_NEXT, "Move to Next Monitor"@)),
            Some((MENU_LOCAL_PREV, "Move to Previous Monitor"@)),
            None,
            Some((MENU_FULLSCREEN, "Toggle Fullscreen"@)),
            Some((MENU_HUD, "Toggle Input HUD"@)),
        ],
{
    let mut remote: Vec<MenuEntry> = Vec::new();
    remote.push(MenuEntry::Action(MENU_HOST_NEXT, "Next Host Monitor".to_owned()));
    remote.push(MenuEntry::Action(MENU_HOST_PREV, "Previous Host Monitor".to_owned()));
    let mut local: Vec<MenuEntry> = Vec::new();
    local.push(MenuEntry::Action(MENU_LOCAL_NEXT, "Move to Next Monitor".to_owned()));
    local.push(MenuEntry::Action(MENU_LOCAL_PREV, "Move to Previous Monitor".to_owned()));
    local.push(MenuEntry::Separator);
    local.push(MenuEntry::Action(MENU_FULLSCREEN, "Toggle Fullscreen".to_owned()));
    local.push(MenuEntry::Action(MENU_HUD, "Toggle Input HUD".to_owned()));
    (Menu { label: "Remote".to_owned(), items: remote }, Menu { label: "Local".to_owned(), items: local })
}

// ── events ──

pub const TYPE_MOVE: u32 = 0;

pub const TYPE_DOWN: u32 = 1;

pub const TYPE_UP: u32 = 2;

pub const TYPE_WHEEL: u32 = 3;

pub const BTN_LEFT: u32 = 1;

pub const BTN_RIGHT: u32 = 2;

pub const BTN_MIDDLE: u32 = 4;

/// A mouse button.
#[derive(Debug, Clone, Copy, PartialEq, Eq, Structural)]
pub enum MouseButton {
    Left,
    Right,
    Middle,
    Other,
}

impl MouseButton {
    /// The button's bit; zero for one that the protocol does not know.
    pub open spec fn spec_mask(&self) -> u32 {
        match self {
            MouseButton::Left => BTN_LEFT,
            MouseButton::Right => BTN_RIGHT,
            MouseButton::Middle => BTN_MIDDLE,
            MouseButton::Other => 0,
        }
    }

    /// The button's bit; zero for one that the protocol does not know.
    pub fn mask(&self) -> (r: u32)
        ensures
            r == self.spec_mask(),
    {
        match self {
            MouseButton::Left => BTN_LEFT,
            MouseButton::Right => BTN_RIGHT,
            MouseButton::Middle => BTN_MIDDLE,
            MouseButton::Other => 0,
        }
    }
}

/// An event of the viewer's window. Where the pointer matters it is given as a point of the remote
/// frame, or as nothing where there is no frame.
pub enum ViewerEvent {
    CloseRequested,
    CursorMoved(Option<(i32, i32)>),
    MouseInput(bool, MouseButton, Option<(i32, i32)>),
    /// Whole lines scrolled to the side and up.
    MouseWheel(i32, i32),
    /// Position, whether down, meaning, text, modifiers.
    KeyboardInput(u16, bool, Key, Option<String>, ModifiersState),
    MenuItem(u32),
    Other,
}

/// What the viewer does.
pub enum ViewerAction {
    RequestRedraw,
    /// Ask the host for a resolution: the display, the width, the height.
    ChangeResolution(i32, i32, i32),
    /// Tell the host about the mouse: the mask, and the point or the lines.
    SendMouse(u32, i32, i32),
    SendKey(KeyEvent),
    SwitchDisplay(i32),
}

/// What the viewer answers its window.
#[derive(Debug, Clone, Copy, PartialEq, Eq, Structural)]
pub enum EventResponse {
    Pass,
    Close,
    ToggleMaximized,
    MoveToMonitor(i32),
}

/// What an action says.
pub ghost enum ActionView {
    Redraw,
    Resolution(i32, i32, i32),
    Mouse(u32, i32, i32),
    Key(crate::keymap::KeyView),
    Display(i32),
}

impl View for ViewerAction {
    type V = ActionView;

    open spec fn view(&self) -> ActionView {
        match self {
            ViewerAction::RequestRedraw => ActionView::Redraw,
            ViewerAction::ChangeResolution(d, w, h) => ActionView::Resolution(*d, *w, *h),
            ViewerAction::SendMouse(m, x, y) => ActionView::Mouse(*m, *x, *y),
            ViewerAction::SendKey(e) => ActionView::Key(e@),
            ViewerAction::SwitchDisplay(d) => ActionView::Display(*d),
        }
    }
}

/// What a row of actions says.
pub open spec fn actions_view(actions: Seq<ViewerAction>) -> Seq<ActionView> {
    Seq::new(actions.len(), |i: int| actions[i]@)
}

/// The viewer's own state.
pub struct FluorViewer {
    pub follow: Follow,
    /// The buttons that are held.
    pub buttons: u32,
    /// The diagnostic lines are shown.
    pub hud: bool,
    /// The last frame that was drawn.
    pub last_seen_gen: u64,
    /// The connection is still to be started.
    pub io_pending: bool,
}

/// What following the window's size makes the viewer do.
pub open spec fn follow_actions(step: FollowStep, display: i32) -> Seq<ActionView> {
    let asked = match step.request {
        Some((w, h)) => seq![ActionView::Resolution(display, w, h)],
        None => Seq::empty(),
    };
    if step.pending {
        asked.push(ActionView::Redraw)
    } else {
        asked
    }
}

/// The lines scrolled along the stronger direction alone; to the side where both are equal.
pub open spec fn dominant(x: i32, y: i32) -> (i32, i32) {
    let ax = if x < 0 { -x } else { x as int };
    let ay = if y < 0 { -y } else { y as int };
    if ax >= ay {
        (x, 0)
    } else {
        (0, y)
    }
}

/// What telling the host to go `delta` displays on makes the viewer do.
pub open spec fn display_actions(handler: FluorHandler, delta: int) -> Seq<ActionView> {
    let count = handler.display_count as i32;
    if count > 1 {
        seq![ActionView::Display(((handler.display_idx + delta) % count as int) as i32)]
    } else {
        Seq::empty()
    }
}

/// The actions that send key events.
pub open spec fn key_actions(events: Seq<crate::keymap::KeyView>) -> Seq<ActionView> {
    Seq::new(events.len(), |i: int| ActionView::Key(events[i]))
}

/// The text of an optional text, or nothing.
pub open spec fn text_made(text: Option<String>) -> Seq<char> {
    match text {
        Some(t) => t@,
        None => Seq::empty(),
    }
}

/// Where a point of the shown display lies on the host's desktop: the display's own origin comes
/// on top, around the ends of the number range.
pub open spec fn on_desktop(handler: FluorHandler, x: i32, y: i32) -> (i32, i32) {
    (x.wrapping_add(handler.display_origin.0), y.wrapping_add(handler.display_origin.1))
}

/// What an event makes the viewer do, with these buttons held and the diagnostic lines shown or not.
/// A pointer event carries a point of the shown display and is sent with its place on the desktop.
pub open spec fn event_actions(handler: FluorHandler, buttons: u32, hud: bool, event: ViewerEvent) -> Seq<ActionView> {
    match event {
        ViewerEvent::CursorMoved(remote) => {
            let moved = match remote {
                Some((x, y)) => {
                    let (dx, dy) = on_desktop(handler, x, y);
                    seq![ActionView::Mouse((buttons << 3) | TYPE_MOVE, dx, dy)]
                },
                None => Seq::empty(),
            };
            if hud {
                moved.push(ActionView::Redraw)
            } else {
                moved
            }
        },
        ViewerEvent::MouseInput(pressed, button, remote) => match remote {
            Some((x, y)) => if button.spec_mask() == 0 {
                Seq::empty()
            } else {
                let ty = if pressed {
                    TYPE_DOWN
                } else {
                    TYPE_UP
                };
                let (dx, dy) = on_desktop(handler, x, y);
                seq![
                    ActionView::Mouse((buttons << 3) | TYPE_MOVE, dx, dy),
                    ActionView::Mouse((button.spec_mask() << 3) | ty, dx, dy),
                ]
            },
            None => Seq::empty(),
        },
        ViewerEvent::MouseWheel(x, y) => {
            let (dx, dy) = dominant(x, y);
            if dx != 0 || dy != 0 {
                seq![ActionView::Mouse(TYPE_WHEEL, dx, dy)]
            } else {
                Seq::empty()
            }
        },
        ViewerEvent::KeyboardInput(position, down, key, text, mods) => match crate::keymap::position_code(
            crate::keymap::lowercase(handler.peer_platform@),
            position,
        ) {
            Some(code) => key_actions(
                seq![(KeyboardMode::Position, down, false, Seq::empty(), KeyPayload::Chr(code))],
            ),
            None => key_actions(crate::keymap::key_events(key, down, text_made(text), mods)),
        },
        ViewerEvent::MenuItem(id) => if id == MENU_HUD {
            seq![ActionView::Redraw]
        } else if id == MENU_HOST_NEXT {
            display_actions(handler, 1)
        } else if id == MENU_HOST_PREV {
            display_actions(handler, -1)
        } else {
            Seq::empty()
        },
        ViewerEvent::CloseRequested => Seq::empty(),
        ViewerEvent::Other => Seq::empty(),
    }
}

/// What an event makes the viewer answer.
pub open spec fn event_response(event: ViewerEvent) -> EventResponse {
    match event {
        ViewerEvent::CloseRequested => EventResponse::Close,
        ViewerEvent::MenuItem(id) => if id == MENU_FULLSCREEN {
            EventResponse::ToggleMaximized
        } else if id == MENU_LOCAL_NEXT {
            EventResponse::MoveToMonitor(1)
        } else if id == MENU_LOCAL_PREV {
            EventResponse::MoveToMonitor(-1i32)
        } else {
            EventResponse::Pass
        },
        _ => EventResponse::Pass,
    }
}

/// The buttons that are held after an event. A click that misses the frame changes nothing.
pub open spec fn buttons_after(buttons: u32, event: ViewerEvent) -> u32 {
    match event {
        ViewerEvent::MouseInput(pressed, button, Some(_)) => if pressed {
            buttons | button.spec_mask()
        } else {
            buttons & !button.spec_mask()
        },
        _ => buttons,
    }
}

/// Whether the diagnostic lines are shown after an event.
pub open spec fn hud_after(hud: bool, event: ViewerEvent) -> bool {
    match event {
        ViewerEvent::MenuItem(id) => if id == MENU_HUD {
            !hud
        } else {
            hud
        },
        _ => hud,
    }
}

/// The event can be handled: what it scrolls has a magnitude, and the display to switch to beside
/// the current one has a number, where there is more than one.
pub open spec fn in_range(handler: FluorHandler, event: ViewerEvent) -> bool {
    match event {
        ViewerEvent::MouseWheel(x, y) => x != i32::MIN && y != i32::MIN,
        ViewerEvent::MenuItem(id) => handler.display_count as i32 > 1 ==> {
            &&& id == MENU_HOST_NEXT ==> handler.display_idx < i32::MAX
            &&& id == MENU_HOST_PREV ==> handler.display_idx > i32::MIN
        },
        _ => true,
    }
}

/// Whether the event can be handled now: it is in range, and the clock has not run out.
pub fn can_handle(handler: &FluorHandler, event: &ViewerEvent, now: u64) -> (r: bool)
    ensures
        r == (in_range(*handler, *event) && now + crate::follow::FOLLOW_RETRY_MS <= u64::MAX),
{
    let fits: bool = match event {
        ViewerEvent::MouseWheel(x, y) => *x != i32::MIN && *y != i32::MIN,
        ViewerEvent::MenuItem(id) => {
            let count: i32 = #[verifier::truncate] (handler.display_count as i32);
            count <= 1 || (*id != MENU_HOST_NEXT || handler.display_idx < i32::MAX) && (*id != MENU_HOST_PREV
                || handler.display_idx > i32::MIN)
        },
        _ => true,
    };
    fits && now <= u64::MAX - crate::follow::FOLLOW_RETRY_MS
}

fn push_follow(actions: &mut Vec<ViewerAction>, step: FollowStep, display: i32)
    ensures
        actions_view(final(actions)@) == actions_view(old(actions)@) + follow_actions(step, display),
{
    let ghost before = actions_view(actions@);
    if let Some((w, h)) = step.request {
        actions.push(ViewerAction::ChangeResolution(display, w, h));
    }
    if step.pending {
        actions.push(ViewerAction::RequestRedraw);
    }
    assert(actions_view(actions@) == before + follow_actions(step, display));
}

fn push_keys(actions: &mut Vec<ViewerAction>, events: Vec<KeyEvent>)
    ensures
        actions_view(final(actions)@) == actions_view(old(actions)@) + key_actions(
            crate::keymap::events_view(events@),
        ),
{
    let ghost before = actions_view(actions@);
    let ghost all = crate::keymap::events_view(events@);
    let ghost sent = events@;
    for event in it: events
        invariant
            it.seq() == sent,
            all == crate::keymap::events_view(sent),
            actions_view(actions@) == before + key_actions(all.take(it.index())),
    {
        let ghost so_far = actions_view(actions@);
        let ghost said = event@;
        proof {
            assert(sent[it.index()]@ == said);
            assert(key_actions(all.take(it.index() + 1)) == key_actions(all.take(it.index())).push(ActionView::Key(said)));
        }
        actions.push(ViewerAction::SendKey(event));
        assert(actions_view(actions@) == so_far.push(ActionView::Key(said)));
    }
    assert(all.take(all.len() as int) == all);
    assert(actions_view(actions@) == before + key_actions(all));
}

impl FluorViewer {
    /// A viewer that has yet to connect.
    pub fn new() -> (r: Self)
        ensures
            r.follow == (Follow { target: (0i32, 0i32), at: None, tries: 0 }),
            r.buttons == 0,
            !r.hud,
            r.last_seen_gen == 0,
            r.io_pending,
    {
        FluorViewer { follow: Follow::new(), buttons: 0, hud: false, last_seen_gen: 0, io_pending: true }
    }

    /// Handle an event of the window. Following the window's size comes first; then the event itself.
    pub fn on_event(&mut self, handler: &FluorHandler, event: ViewerEvent, viewport: (u32, u32), now: u64) -> (r: (
        EventResponse,
        Vec<ViewerAction>,
    ))
        requires
            now + crate::follow::FOLLOW_RETRY_MS <= u64::MAX,
            in_range(*handler, event),
        ensures
            ({
                let (follow, step) = crate::follow::follow_step(
                    old(self).follow,
                    viewport,
                    (handler.frame.w, handler.frame.h),
                    now,
                );
                &&& final(self).follow == follow
                &&& r.0 == event_response(event)
                &&& actions_view(r.1@) == follow_actions(step, handler.display_idx) + event_actions(
                    *handler,
                    old(self).buttons,
                    old(self).hud,
                    event,
                )
            }),
            final(self).buttons == buttons_after(old(self).buttons, event),
            final(self).hud == hud_after(old(self).hud, event),
            final(self).last_seen_gen == old(self).last_seen_gen,
            final(self).io_pending == old(self).io_pending,
    {
        let mut actions: Vec<ViewerAction> = Vec::new();
        let step = self.follow.maybe_follow(viewport, (handler.frame.w, handler.frame.h), now);
        push_follow(&mut actions, step, handler.display_idx);
        let ghost first = follow_actions(step, handler.display_idx);
        assert(actions_view(actions@) == first);
        let ghost want = event_actions(*handler, old(self).buttons, old(self).hud, event);
        let response = match event {
            ViewerEvent::CloseRequested => EventResponse::Close,
            ViewerEvent::CursorMoved(remote) => {
                if let Some((x, y)) = remote {
                    let dx: i32 = x.wrapping_add(handler.display_origin.0);
                    let dy: i32 = y.wrapping_add(handler.display_origin.1);
                    actions.push(ViewerAction::SendMouse((self.buttons << 3) | TYPE_MOVE, dx, dy));
                }
                if self.hud {
                    actions.push(ViewerAction::RequestRedraw);
                }
                EventResponse::Pass
            },
            ViewerEvent::MouseInput(pressed, button, remote) => {
                let btn: u32 = button.mask();
                if btn == 0 {
                    proof {
                        let b = self.buttons;
                        assert(b | 0 == b) by (bit_vector);
                        assert(b & !0u32 == b) by (bit_vector);
                    }
                } else if let Some((x, y)) = remote {
                    let dx: i32 = x.wrapping_add(handler.display_origin.0);
                    let dy: i32 = y.wrapping_add(handler.display_origin.1);
                    actions.push(ViewerAction::SendMouse((self.buttons << 3) | TYPE_MOVE, dx, dy));
                    let ty: u32 = if pressed { TYPE_DOWN } else { TYPE_UP };
                    if pressed {
                        self.buttons = self.buttons | btn;
                    } else {
                        self.buttons = self.buttons & !btn;
                    }
                    actions.push(ViewerAction::SendMouse((btn << 3) | ty, dx, dy));
                }
                EventResponse::Pass
            },
            ViewerEvent::MouseWheel(x, y) => {
                let ax: i32 = if x < 0 { -x } else { x };
                let ay: i32 = if y < 0 { -y } else { y };
                let (dx, dy): (i32, i32) = if ax >= ay { (x, 0) } else { (0, y) };
                if dx != 0 || dy != 0 {
                    actions.push(ViewerAction::SendMouse(TYPE_WHEEL, dx, dy));
                }
                EventResponse::Pass
            },
            ViewerEvent::KeyboardInput(position, down, key, text, mods) => {
                let mut events: Vec<KeyEvent> = Vec::new();
                match map_physical(handler.peer_platform.as_str(), position) {
                    Some(code) => {
                        events.push(
                            KeyEvent {
                                mode: KeyboardMode::Position,
                                down,
                                press: false,
                                modifiers: Vec::new(),
                                payload: KeyPayload::Chr(code),
                            },
                        );
                        proof {
                            let said: crate::keymap::KeyView = (
                                KeyboardMode::Position,
                                down,
                                false,
                                Seq::empty(),
                                KeyPayload::Chr(code),
                            );
                            assert(events@[0]@ == said);
                            assert(crate::keymap::events_view(events@) == seq![said]);
                        }
                    },
                    None => {
                        match &text {
                            Some(t) => {
                                events = send_key(&key, down, Some(t.as_str()), mods);
                            },
                            None => {
                                events = send_key(&key, down, None, mods);
                            },
                        }
                    },
                }
                push_keys(&mut actions, events);
                EventResponse::Pass
            },
            ViewerEvent::MenuItem(id) => {
                if id == MENU_FULLSCREEN {
                    EventResponse::ToggleMaximized
                } else if id == MENU_HUD {
                    self.hud = !self.hud;
                    actions.push(ViewerAction::RequestRedraw);
                    EventResponse::Pass
                } else if id == MENU_HOST_NEXT {
                    if let Some(next) = handler.switch_host_display(1) {
                        actions.push(ViewerAction::SwitchDisplay(next));
                    }
                    EventResponse::Pass
                } else if id == MENU_HOST_PREV {
                    if let Some(next) = handler.switch_host_display(-1) {
                        actions.push(ViewerAction::SwitchDisplay(next));
                    }
                    EventResponse::Pass
                } else if id == MENU_LOCAL_NEXT {
                    EventResponse::MoveToMonitor(1)
                } else if id == MENU_LOCAL_PREV {
                    EventResponse::MoveToMonitor(-1)
                } else {
                    EventResponse::Pass
                }
            },
            ViewerEvent::Other => EventResponse::Pass,
        };
        assert(actions_view(actions@) == first + want);
        (response, actions)
    }
}

// ── drawing ──

/// What one drawing of the window consists of.
pub struct RenderPlan {
    /// Start the connection, asking for this size where the window has one.
    pub start: Option<Option<(i32, i32)>>,
    pub actions: Vec<ViewerAction>,
    /// Draw the frame, centred, over the backdrop; else the backdrop alone.
    pub draw_frame: bool,
    /// Draw the figures over the frame.
    pub draw_hud: bool,
    /// The frame is new and is not of the window's size: worth a line in the log.
    pub log: bool,
}

/// There is a frame to draw.
pub open spec fn has_frame(handler: FluorHandler) -> bool {
    handler.frame.w != 0 && handler.frame.h != 0 && handler.frame.pixels@.len() >= handler.frame.w * handler.frame.h
}

impl FluorViewer {
    /// The window was resized: follow it.
    pub fn on_resize(&mut self, handler: &FluorHandler, viewport: (u32, u32), now: u64) -> (r: Vec<ViewerAction>)
        requires
            now + crate::follow::FOLLOW_RETRY_MS <= u64::MAX,
        ensures
            ({
                let (follow, step) = crate::follow::follow_step(
                    old(self).follow,
                    viewport,
                    (handler.frame.w, handler.frame.h),
                    now,
                );
                &&& *final(self) == (FluorViewer { follow, ..*old(self) })
                &&& actions_view(r@) == follow_actions(step, handler.display_idx)
            }),
    {
        let mut actions: Vec<ViewerAction> = Vec::new();
        let step = self.follow.maybe_follow(viewport, (handler.frame.w, handler.frame.h), now);
        push_follow(&mut actions, step, handler.display_idx);
        assert(actions_view(actions@) == follow_actions(step, handler.display_idx));
        actions
    }

    /// Draw the window. The first drawing starts the connection, because only now the size of the
    /// window is known; every drawing follows that size.
    pub fn render(&mut self, handler: &FluorHandler, viewport: (u32, u32), now: u64) -> (r: RenderPlan)
        requires
            now + crate::follow::FOLLOW_RETRY_MS <= u64::MAX,
            handler.frame.w * handler.frame.h <= usize::MAX,
        ensures
            r.start == start_of(old(self).io_pending, viewport),
            !final(self).io_pending,
            ({
                let (follow, step) = crate::follow::follow_step(
                    old(self).follow,
                    viewport,
                    (handler.frame.w, handler.frame.h),
                    now,
                );
                &&& final(self).follow == follow
                &&& actions_view(r.actions@) == follow_actions(step, handler.display_idx)
            }),
            r.draw_frame == has_frame(*handler),
            r.draw_hud == (has_frame(*handler) && old(self).hud),
            final(self).last_seen_gen == (if has_frame(*handler) { handler.frame.gen } else { old(self).last_seen_gen }),
            r.log == (has_frame(*handler) && old(self).last_seen_gen != handler.frame.gen && (handler.frame.w != viewport.0
                || handler.frame.h != viewport.1)),
            final(self).buttons == old(self).buttons,
            final(self).hud == old(self).hud,
    {
        let start: Option<Option<(i32, i32)>> = if self.io_pending {
            let sized: bool = 0 < viewport.0 && viewport.0 <= 0x7FFF_FFFF && 0 < viewport.1 && viewport.1 <= 0x7FFF_FFFF;
            if sized {
                Some(Some((viewport.0 as i32, viewport.1 as i32)))
            } else {
                Some(None)
            }
        } else {
            None
        };
        self.io_pending = false;
        let mut actions: Vec<ViewerAction> = Vec::new();
        let step = self.follow.maybe_follow(viewport, (handler.frame.w, handler.frame.h), now);
        push_follow(&mut actions, step, handler.display_idx);
        assert(actions_view(actions@) == follow_actions(step, handler.display_idx));
        let (fw, fh): (usize, usize) = (handler.frame.w, handler.frame.h);
        let draw_frame: bool = fw != 0 && fh != 0 && handler.frame.pixels.len() >= fw * fh;
        let mut log: bool = false;
        if draw_frame && self.last_seen_gen != handler.frame.gen {
            self.last_seen_gen = handler.frame.gen;
            log = fw as u64 != viewport.0 as u64 || fh as u64 != viewport.1 as u64;
        }
        RenderPlan { start, actions, draw_frame, draw_hud: draw_frame && self.hud, log }
    }
}

// ── starting ──

/// What a connection is for.
#[derive(Debug, Clone, Copy, PartialEq, Eq, Structural)]
pub enum ConnType {
    DefaultConn,
    FileTransfer,
    ViewCamera,
    PortForward,
    Rdp,
}

/// What the command asks the connection to be for.
pub open spec fn conn_type_of(cmd: Seq<char>) -> ConnType {
    if cmd == "--file-transfer"@ {
        ConnType::FileTransfer
    } else if cmd == "--view-camera"@ {
        ConnType::ViewCamera
    } else if cmd == "--port-forward"@ {
        ConnType::PortForward
    } else if cmd == "--rdp"@ {
        ConnType::Rdp
    } else {
        ConnType::DefaultConn
    }
}

/// What the viewer is started with.
pub struct Launch {
    pub conn_type: ConnType,
    pub force_relay: bool,
    pub viewer: FluorViewer,
}

/// Start a viewer from its command and arguments.
pub fn run(cmd: &str, args: &Vec<String>) -> (r: Launch)
    ensures
        r.conn_type == conn_type_of(cmd@),
        r.force_relay == crate::reach::texts_view(args@).contains("--relay"@),
        r.viewer.follow == (Follow { target: (0i32, 0i32), at: None, tries: 0 }),
        r.viewer.buttons == 0,
        !r.viewer.hud,
        r.viewer.last_seen_gen == 0,
        r.viewer.io_pending,
{
    let conn_type = if same_text(cmd, "--file-transfer") {
        ConnType::FileTransfer
    } else if same_text(cmd, "--view-camera") {
        ConnType::ViewCamera
    } else if same_text(cmd, "--port-forward") {
        ConnType::PortForward
    } else if same_text(cmd, "--rdp") {
        ConnType::Rdp
    } else {
        ConnType::DefaultConn
    };
    Launch { conn_type, force_relay: has_text(args, "--relay"), viewer: FluorViewer::new() }
}

/// What a drawing of a window of this size starts: the connection, with that size, while it is
/// still to be made.
pub open spec fn start_of(pending: bool, viewport: (u32, u32)) -> Option<Option<(i32, i32)>> {
    if pending {
        Some(crate::follow::window_size(viewport))
    } else {
        None
    }
}

/// Whether the connection is still to be made after one drawing for each entry of `viewports`, and
/// what each of them started.
pub open spec fn drawn(pending: bool, viewports: Seq<(u32, u32)>) -> (bool, Seq<Option<Option<(i32, i32)>>>)
    decreases viewports.len(),
{
    if viewports.len() == 0 {
        (pending, Seq::empty())
    } else {
        let (before, starts) = drawn(pending, viewports.drop_last());
        (false, starts.push(start_of(before, viewports.last())))
    }
}

/// However often the window is drawn, the connection is started exactly once, by the first drawing
/// and with the size that the window has in it; from then on none is to be made.
pub proof fn law_connection_starts_once(viewports: Seq<(u32, u32)>)
    requires
        viewports.len() > 0,
    ensures
        !drawn(true, viewports).0,
        drawn(true, viewports).1.len() == viewports.len(),
        drawn(true, viewports).1[0] == Some(crate::follow::window_size(viewports[0])),
        0 < viewports[0].0 <= i32::MAX && 0 < viewports[0].1 <= i32::MAX ==> drawn(true, viewports).1[0] == Some(
            Some((viewports[0].0 as i32, viewports[0].1 as i32)),
        ),
        forall|i: int| 1 <= i < viewports.len() ==> (#[trigger] drawn(true, viewports).1[i]) is None,
    decreases viewports.len(),
{
    reveal_with_fuel(drawn, 2);
    if viewports.len() > 1 {
        law_connection_starts_once(viewports.drop_last());
    }
}

/// Once a button that was pressed inside the frame is released inside it, it is no longer held; and
/// no other button is touched by either.
pub proof fn law_press_and_release(buttons: u32, button: MouseButton, at: (i32, i32), later: (i32, i32))
    requires
        buttons & button.spec_mask() == 0,
    ensures
        buttons_after(
            buttons_after(buttons, ViewerEvent::MouseInput(true, button, Some(at))),
            ViewerEvent::MouseInput(false, button, Some(later)),
        ) == buttons,
{
    let m = button.spec_mask();
    assert((buttons | m) & !m == buttons) by (bit_vector)
        requires
            buttons & m == 0,
    ;
}

// ── what every event does, in numbers ──

/// A pointer that moves over the frame is told to the host with the held buttons, eight to a button's
/// bit, and with its place on the host's desktop, which is the point and the origin of the shown display
/// added up. While the diagnostic lines are shown they are drawn anew. Off the frame nothing is told.
pub proof fn law_pointer_moves(handler: FluorHandler, buttons: u32, hud: bool, x: i32, y: i32)
    requires
        buttons < 0x2000_0000,
        -0x8000_0000 <= x + handler.display_origin.0 <= 0x7FFF_FFFF,
        -0x8000_0000 <= y + handler.display_origin.1 <= 0x7FFF_FFFF,
    ensures
        event_actions(handler, buttons, false, ViewerEvent::CursorMoved(Some((x, y)))) == seq![
            ActionView::Mouse(
                (8 * buttons) as u32,
                (x + handler.display_origin.0) as i32,
                (y + handler.display_origin.1) as i32,
            ),
        ],
        event_actions(handler, buttons, true, ViewerEvent::CursorMoved(Some((x, y)))) == seq![
            ActionView::Mouse(
                (8 * buttons) as u32,
                (x + handler.display_origin.0) as i32,
                (y + handler.display_origin.1) as i32,
            ),
            ActionView::Redraw,
        ],
        event_actions(handler, buttons, false, ViewerEvent::CursorMoved(None)).len() == 0,
        event_actions(handler, buttons, true, ViewerEvent::CursorMoved(None)) == seq![ActionView::Redraw],
        buttons_after(buttons, ViewerEvent::CursorMoved(Some((x, y)))) == buttons,
{
    assert((buttons << 3) | 0 == 8 * buttons) by (bit_vector)
        requires
            buttons < 0x2000_0000,
    ;
}

/// A place beyond either end of the number range goes around to the other end.
pub proof fn law_desktop_goes_around(handler: FluorHandler, x: i32, y: i32)
    ensures
        ({
            let (dx, dy) = on_desktop(handler, x, y);
            let (sx, sy) = (x + handler.display_origin.0, y + handler.display_origin.1);
            &&& dx == sx || dx == sx + 0x1_0000_0000 || dx == sx - 0x1_0000_0000
            &&& dy == sy || dy == sy + 0x1_0000_0000 || dy == sy - 0x1_0000_0000
        }),
{
}

/// A click on the frame is told in two parts: the pointer at its place with the buttons that were held
/// until then, and the button going down (one) or up (two) with its own bit, which is one for the left,
/// two for the right and four for the middle button. Any other button is not told, nor is a click off the
/// frame, and neither changes which buttons are held.
pub proof fn law_clicks(handler: FluorHandler, buttons: u32, hud: bool, pressed: bool, x: i32, y: i32)
    requires
        buttons < 0x2000_0000,
        -0x8000_0000 <= x + handler.display_origin.0 <= 0x7FFF_FFFF,
        -0x8000_0000 <= y + handler.display_origin.1 <= 0x7FFF_FFFF,
    ensures
        ({
            let (dx, dy) = ((x + handler.display_origin.0) as i32, (y + handler.display_origin.1) as i32);
            let kind: u32 = if pressed { 1 } else { 2 };
            let at = Some((x, y));
            let moved = ActionView::Mouse((8 * buttons) as u32, dx, dy);
            &&& event_actions(handler, buttons, hud, ViewerEvent::MouseInput(pressed, MouseButton::Left, at)) == seq![
                moved,
                ActionView::Mouse((8 + kind) as u32, dx, dy),
            ]
            &&& event_actions(handler, buttons, hud, ViewerEvent::MouseInput(pressed, MouseButton::Right, at)) == seq![
                moved,
                ActionView::Mouse((16 + kind) as u32, dx, dy),
            ]
            &&& event_actions(handler, buttons, hud, ViewerEvent::MouseInput(pressed, MouseButton::Middle, at)) == seq![
                moved,
                ActionView::Mouse((32 + kind) as u32, dx, dy),
            ]
            &&& event_actions(handler, buttons, hud, ViewerEvent::MouseInput(pressed, MouseButton::Other, at)).len() == 0
            &&& buttons_after(buttons, ViewerEvent::MouseInput(pressed, MouseButton::Other, at)) == buttons
        }),
        forall|button: MouseButton|
            (#[trigger] event_actions(handler, buttons, hud, ViewerEvent::MouseInput(pressed, button, None))).len() == 0,
        forall|button: MouseButton|
            #[trigger] buttons_after(buttons, ViewerEvent::MouseInput(pressed, button, None)) == buttons,
{
    assert((buttons << 3) | 0 == 8 * buttons) by (bit_vector)
        requires
            buttons < 0x2000_0000,
    ;
    assert((1u32 << 3) | 1 == 9 && (1u32 << 3) | 2 == 10 && (2u32 << 3) | 1 == 17 && (2u32 << 3) | 2 == 18 && (4u32 << 3)
        | 1 == 33 && (4u32 << 3) | 2 == 34) by (bit_vector);
    assert(buttons | 0 == buttons && buttons & !0u32 == buttons) by (bit_vector);
}

/// A button that goes down on the frame is held from then on, one that goes up is not, and the others
/// stay as they were.
pub proof fn law_held_buttons(buttons: u32, at: (i32, i32))
    ensures
        ({
            let left = buttons_after(buttons, ViewerEvent::MouseInput(true, MouseButton::Left, Some(at)));
            let right = buttons_after(buttons, ViewerEvent::MouseInput(true, MouseButton::Right, Some(at)));
            let middle = buttons_after(buttons, ViewerEvent::MouseInput(true, MouseButton::Middle, Some(at)));
            &&& left % 2 == 1 && left / 2 == buttons / 2
            &&& right / 2 % 2 == 1 && right % 2 == buttons % 2 && right / 4 == buttons / 4
            &&& middle / 4 % 2 == 1 && middle % 4 == buttons % 4 && middle / 8 == buttons / 8
        }),
        ({
            let left = buttons_after(buttons, ViewerEvent::MouseInput(false, MouseButton::Left, Some(at)));
            let right = buttons_after(buttons, ViewerEvent::MouseInput(false, MouseButton::Right, Some(at)));
            let middle = buttons_after(buttons, ViewerEvent::MouseInput(false, MouseButton::Middle, Some(at)));
            &&& left % 2 == 0 && left / 2 == buttons / 2
            &&& right / 2 % 2 == 0 && right % 2 == buttons % 2 && right / 4 == buttons / 4
            &&& middle / 4 % 2 == 0 && middle % 4 == buttons % 4 && middle / 8 == buttons / 8
        }),
{
    let b = buttons;
    assert((b | 1) % 2 == 1 && (b | 1) / 2 == b / 2 && (b | 2) / 2 % 2 == 1 && (b | 2) % 2 == b % 2 && (b | 2) / 4 == b / 4
        && (b | 4) / 4 % 2 == 1 && (b | 4) % 4 == b % 4 && (b | 4) / 8 == b / 8) by (bit_vector);
    assert((b & !1u32) % 2 == 0 && (b & !1u32) / 2 == b / 2 && (b & !2u32) / 2 % 2 == 0 && (b & !2u32) % 2 == b % 2 && (b
        & !2u32) / 4 == b / 4 && (b & !4u32) / 4 % 2 == 0 && (b & !4u32) % 4 == b % 4 && (b & !4u32) / 8 == b / 8)
        by (bit_vector);
}

/// Scrolling is told with the number three and with the lines of the stronger direction alone, unless
/// there are none.
pub proof fn law_scrolling(handler: FluorHandler, buttons: u32, hud: bool, x: i32, y: i32)
    ensures
        x * x >= y * y && x != 0 ==> event_actions(handler, buttons, hud, ViewerEvent::MouseWheel(x, y)) == seq![
            ActionView::Mouse(3, x, 0),
        ],
        y * y > x * x ==> event_actions(handler, buttons, hud, ViewerEvent::MouseWheel(x, y)) == seq![
            ActionView::Mouse(3, 0, y),
        ],
        x == 0 && y == 0 ==> event_actions(handler, buttons, hud, ViewerEvent::MouseWheel(x, y)).len() == 0,
        buttons_after(buttons, ViewerEvent::MouseWheel(x, y)) == buttons,
{
    let ax = if x < 0 { -x } else { x as int };
    let ay = if y < 0 { -y } else { y as int };
    assert(x * x == ax * ax && y * y == ay * ay) by (nonlinear_arith)
        requires
            ax == x || ax == -x,
            ay == y || ay == -y,
    ;
    assert((ax * ax >= ay * ay) == (ax >= ay)) by (nonlinear_arith)
        requires
            ax >= 0,
            ay >= 0,
    ;
}

/// A key goes out by its position where the host's machine has a code for that position, down and up as
/// it does here, without modifiers and without text. Else it goes out by its meaning, each event in
/// its turn.
pub proof fn law_keys_are_sent(
    handler: FluorHandler,
    buttons: u32,
    hud: bool,
    position: u16,
    down: bool,
    key: Key,
    text: Option<String>,
    mods: ModifiersState,
)
    ensures
        ({
            let sent = event_actions(handler, buttons, hud, ViewerEvent::KeyboardInput(position, down, key, text, mods));
            let typed = match text {
                Some(t) => t@,
                None => Seq::empty(),
            };
            let meant = crate::keymap::key_events(key, down, typed, mods);
            match crate::keymap::position_code(crate::keymap::lowercase(handler.peer_platform@), position) {
                Some(code) => sent == seq![
                    ActionView::Key((KeyboardMode::Position, down, false, Seq::empty(), KeyPayload::Chr(code))),
                ],
                None => {
                    &&& sent.len() == meant.len()
                    &&& forall|i: int| 0 <= i < meant.len() ==> #[trigger] sent[i] == ActionView::Key(meant[i])
                },
            }
        }),
{
}

/// The menu's six lines: one maximises the window, two shows or hides the diagnostic lines and draws
/// anew, three and four go to the host's next and previous display, five and six move the window to this
/// machine's next and previous monitor. No other number does anything, and no line does more.
pub proof fn law_menu(handler: FluorHandler, buttons: u32, hud: bool, id: u32)
    ensures
        event_response(ViewerEvent::MenuItem(1)) == EventResponse::ToggleMaximized,
        event_response(ViewerEvent::MenuItem(5)) == EventResponse::MoveToMonitor(1),
        event_response(ViewerEvent::MenuItem(6)) == EventResponse::MoveToMonitor(-1i32),
        id != 1 && id != 5 && id != 6 ==> event_response(ViewerEvent::MenuItem(id)) == EventResponse::Pass,
        event_actions(handler, buttons, hud, ViewerEvent::MenuItem(2)) == seq![ActionView::Redraw],
        event_actions(handler, buttons, hud, ViewerEvent::MenuItem(3)) == display_actions(handler, 1),
        event_actions(handler, buttons, hud, ViewerEvent::MenuItem(4)) == display_actions(handler, -1),
        !(2 <= id <= 4) ==> event_actions(handler, buttons, hud, ViewerEvent::MenuItem(id)).len() == 0,
        hud_after(hud, ViewerEvent::MenuItem(2)) == !hud,
        id != 2 ==> hud_after(hud, ViewerEvent::MenuItem(id)) == hud,
        buttons_after(buttons, ViewerEvent::MenuItem(id)) == buttons,
{
}

/// Going on from the last display leads to the first one, going back from the first one to the last;
/// anywhere else it is one up or one down. With a single display, or none known, there is nowhere to go.
pub proof fn law_displays_go_round(handler: FluorHandler)
    requires
        handler.display_count <= 0x7FFF_FFFF,
    ensures
        handler.display_count <= 1 ==> display_actions(handler, 1).len() == 0 && display_actions(handler, -1).len() == 0,
        handler.display_count > 1 && 0 <= handler.display_idx < handler.display_count ==> ({
            let (at, count) = (handler.display_idx as int, handler.display_count as int);
            &&& display_actions(handler, 1) == seq![
                ActionView::Display(if at + 1 == count { 0i32 } else { (at + 1) as i32 }),
            ]
            &&& display_actions(handler, -1) == seq![
                ActionView::Display(if at == 0 { (count - 1) as i32 } else { (at - 1) as i32 }),
            ]
        }),
{
    if handler.display_count > 1 && 0 <= handler.display_idx < handler.display_count {
        let (at, count) = (handler.display_idx as int, handler.display_count as int);
        if at + 1 == count {
            vstd::arithmetic::div_mod::lemma_fundamental_div_mod_converse(at + 1, count, 1, 0);
        } else {
            vstd::arithmetic::div_mod::lemma_small_mod((at + 1) as nat, count as nat);
        }
        if at == 0 {
            vstd::arithmetic::div_mod::lemma_fundamental_div_mod_converse(-1, count, -1, count - 1);
        } else {
            vstd::arithmetic::div_mod::lemma_small_mod((at - 1) as nat, count as nat);
        }
    }
}

/// Closing the window is answered, and does nothing else; events of no interest do nothing at all; and
/// nothing but the menu changes whether the diagnostic lines are shown.
pub proof fn law_other_events(handler: FluorHandler, buttons: u32, hud: bool, event: ViewerEvent)
    ensures
        event is CloseRequested <==> event_response(event) == EventResponse::Close,
        event is CloseRequested || event is Other ==> event_actions(handler, buttons, hud, event).len() == 0,
        !(event is MenuItem) && !(event is CloseRequested) ==> event_response(event) == EventResponse::Pass,
        !(event is MenuItem) ==> hud_after(hud, event) == hud,
        !(event is MouseInput) ==> buttons_after(buttons, event) == buttons,
{
}

/// A wish for a size is sent on with the shown display's number, width before height, and a follow that
/// is not over asks for another drawing, after the wish.
pub proof fn law_follow_is_sent(display: i32, w: i32, h: i32)
    ensures
        follow_actions((FollowStep { pending: true, request: Some((w, h)) }), display) == seq![
            ActionView::Resolution(display, w, h),
            ActionView::Redraw,
        ],
        follow_actions((FollowStep { pending: true, request: None }), display) == seq![ActionView::Redraw],
        follow_actions((FollowStep { pending: false, request: Some((w, h)) }), display) == seq![
            ActionView::Resolution(display, w, h),
        ],
        follow_actions((FollowStep { pending: false, request: None }), display).len() == 0,
{
}

/// The commands that ask for something else than an ordinary session; every other command asks for one.
pub proof fn law_commands(cmd: Seq<char>)
    ensures
        conn_type_of("--file-transfer"@) == ConnType::FileTransfer,
        conn_type_of("--view-camera"@) == ConnType::ViewCamera,
        conn_type_of("--port-forward"@) == ConnType::PortForward,
        conn_type_of("--rdp"@) == ConnType::Rdp,
        cmd != "--file-transfer"@ && cmd != "--view-camera"@ && cmd != "--port-forward"@ && cmd != "--rdp"@
            ==> conn_type_of(cmd) == ConnType::DefaultConn,
{
    reveal_strlit("--file-transfer");
    reveal_strlit("--view-camera");
    reveal_strlit("--port-forward");
    reveal_strlit("--rdp");
    assert("--file-transfer"@.len() == 15);
    assert("--view-camera"@.len() == 13);
    assert("--port-forward"@.len() == 14);
    assert("--rdp"@.len() == 5);
}

/// A frame is drawn when it has a width and a height and a colour for each of its points, and not else.
pub proof fn law_what_is_drawn(handler: FluorHandler)
    ensures
        handler.frame.w == 0 || handler.frame.h == 0 ==> !has_frame(handler),
        handler.frame.w > 0 && handler.frame.h > 0 ==> (has_frame(handler) <==> handler.frame.w * handler.frame.h
            <= handler.frame.pixels@.len()),
{
}

/// What the viewer's actions and the menu's lines say is all of them, in order.
pub proof fn law_what_actions_say(
    actions: Seq<ViewerAction>,
    items: Seq<MenuEntry>,
    event: KeyEvent,
    label: String,
    id: u32,
    a: i32,
    b: i32,
    c: i32,
    i: int,
)
    ensures
        actions_view(actions).len() == actions.len(),
        0 <= i < actions.len() ==> actions_view(actions)[i] == actions[i]@,
        ViewerAction::RequestRedraw@ == ActionView::Redraw,
        ViewerAction::ChangeResolution(a, b, c)@ == ActionView::Resolution(a, b, c),
        ViewerAction::SendMouse(id, a, b)@ == ActionView::Mouse(id, a, b),
        ViewerAction::SendKey(event)@ == ActionView::Key(event@),
        ViewerAction::SwitchDisplay(a)@ == ActionView::Display(a),
        items_view(items).len() == items.len(),
        0 <= i < items.len() ==> items_view(items)[i] == entry_view(items[i]),
        entry_view(MenuEntry::Action(id, label)) == Some((id, label@)),
        entry_view(MenuEntry::Separator) is None,
        MENU_FULLSCREEN == 1 && MENU_HUD == 2 && MENU_HOST_NEXT == 3 && MENU_HOST_PREV == 4 && MENU_LOCAL_NEXT == 5
            && MENU_LOCAL_PREV == 6,
{
}

/// Every event can be handled but these: scrolling by the least number there is, which has no magnitude, and
/// going on from the largest display number or back from the least one where there is more than one display.
pub proof fn law_what_can_be_handled(handler: FluorHandler, event: ViewerEvent, x: i32, y: i32, id: u32)
    requires
        handler.display_count <= 0x7FFF_FFFF,
    ensures
        in_range(handler, ViewerEvent::MouseWheel(x, y)) <==> x > -0x8000_0000 && y > -0x8000_0000,
        in_range(handler, ViewerEvent::MenuItem(id)) <==> !(handler.display_count > 1 && ((id == 3 && handler.display_idx
            == 0x7FFF_FFFF) || (id == 4 && handler.display_idx == -0x8000_0000))),
        !(event is MouseWheel) && !(event is MenuItem) ==> in_range(handler, event),
{
}

} // verus!
