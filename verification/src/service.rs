//! The tracking service's decisions.
//!
//! The service follows the focused window: each focus change closes the
//! previous window's event (its duration is written back) and opens a new one.
//! Storage, clocks and the Hyprland socket stay with the caller, which performs
//! the actions decided here and reports back what happened.

use vstd::prelude::*;
use crate::ipc::HyprlandEvent;
use crate::models::WindowEvent;
use crate::text::string_of;

verus! {

/// The window that has the focus, and the stored event it is being timed in.
#[derive(Debug, Clone)]
pub struct ActiveWindow {
    /// The application (window class).
    pub app_name: String,
    /// The window title.
    pub window_title: String,
    /// The workspace.
    pub workspace: String,
    /// When the window got the focus, in seconds since the epoch.
    pub start_time: i64,
    /// When the window got the focus, on the monotonic clock, in seconds.
    pub start_instant: u64,
    /// The stored event's id.
    pub event_id: Option<i64>,
}

/// A stored event's duration to write back.
#[derive(Debug, Clone, Copy, PartialEq, Eq, Structural)]
pub struct DurationUpdate {
    /// The stored event.
    pub event_id: i64,
    /// Its duration, in seconds.
    pub duration_secs: i64,
}

/// What a focus change asks of the caller: write back the previous window's
/// duration (if any), then store the new event.
#[derive(Debug, Clone)]
pub struct WindowChange {
    /// The previous window's duration, when there is one to write.
    pub update: Option<DurationUpdate>,
    /// The event to store for the newly focused window.
    pub insert: WindowEvent,
}

/// What an incoming event asks of the service.
#[derive(Debug, Clone)]
pub enum ServiceStep {
    /// Nothing (the event only updated the service's own state, if anything).
    Nothing,
    /// Write back the current window's duration so far.
    UpdateCurrent,
    /// The focus moved: record a window change.
    RecordChange { app_name: String, window_title: String, workspace: String },
}

/// The title of the periodic tick that asks for the current window's duration
/// to be written back.
pub open spec fn update_marker() -> Seq<char> {
    "__UPDATE_CURRENT_WINDOW__"@
}

/// Whether an event is the periodic tick: a title change whose title is the
/// update marker.
pub open spec fn is_update_signal(event: HyprlandEvent) -> bool {
    event matches HyprlandEvent::WindowTitleChanged { title, .. } && title@ == update_marker()
}

/// Seconds elapsed on the monotonic clock from `start` to `now`, zero when
/// `now` is earlier, as `Instant::duration_since` saturates.
pub open spec fn elapsed_secs(start: u64, now: u64) -> int {
    if now >= start {
        now - start
    } else {
        0
    }
}

/// Seconds elapsed, as an `i64` (saturating at `i64::MAX`).
pub open spec fn elapsed_i64(start: u64, now: u64) -> i64 {
    if elapsed_secs(start, now) > i64::MAX {
        i64::MAX
    } else {
        elapsed_secs(start, now) as i64
    }
}

fn elapsed(start: u64, now: u64) -> (d: i64)
    ensures
        d == elapsed_i64(start, now),
{
    if now < start {
        0
    } else if now - start > i64::MAX as u64 {
        i64::MAX
    } else {
        (now - start) as i64
    }
}

/// The tracking service's state: the window being timed.
pub struct TailService {
    current_window: Option<ActiveWindow>,
}

impl TailService {
    /// The window being timed.
    pub closed spec fn current(&self) -> Option<ActiveWindow> {
        self.current_window
    }

    /// A service timing no window.
    pub fn new() -> (s: Self)
        ensures
            s.current() is None,
    {
        TailService { current_window: None }
    }

    /// The window being timed.
    pub fn current_window(&self) -> (w: &Option<ActiveWindow>)
        ensures
            *w == self.current(),
    {
        &self.current_window
    }

    /// What an event asks of the service. A focus change asks for a window
    /// change to be recorded; a title change updates the title of the window
    /// being timed; every other event asks for nothing.
    pub fn handle_event(&mut self, event: HyprlandEvent) -> (step: ServiceStep)
        ensures
            match event {
                HyprlandEvent::ActiveWindowChanged { class, title } => {
                    &&& step matches ServiceStep::RecordChange { app_name, window_title, workspace }
                        && app_name@ == class@ && window_title@ == title@ && workspace@
                        == "unknown"@
                    &&& final(self).current() == old(self).current()
                },
                HyprlandEvent::WindowTitleChanged { address, title } => {
                    &&& step is Nothing
                    &&& match old(self).current() {
                        None => final(self).current() is None,
                        Some(w) => final(self).current() == Some(
                            ActiveWindow { window_title: title, ..w },
                        ),
                    }
                },
                _ => step is Nothing && final(self).current() == old(self).current(),
            },
    {
        match event {
            HyprlandEvent::ActiveWindowChanged { class, title } => ServiceStep::RecordChange {
                app_name: class,
                window_title: title,
                workspace: string_of("unknown"),
            },
            HyprlandEvent::WindowTitleChanged { address, title } => {
                match self.current_window.take() {
                    None => {},
                    Some(w) => {
                        self.current_window = Some(ActiveWindow { window_title: title, ..w });
                    },
                }
                ServiceStep::Nothing
            },
            _ => ServiceStep::Nothing,
        }
    }

    /// What the service's loop does with an incoming event: the periodic tick
    /// (a title change with the update marker as title) asks for the current
    /// duration to be written and changes nothing else; every other event
    /// goes to [`Self::handle_event`].
    pub fn next_step(&mut self, event: HyprlandEvent) -> (step: ServiceStep)
        ensures
            if is_update_signal(event) {
                step is UpdateCurrent && final(self).current() == old(self).current()
            } else {
                match event {
                    HyprlandEvent::ActiveWindowChanged { class, title } => {
                        &&& step matches ServiceStep::RecordChange { app_name, window_title, workspace }
                            && app_name@ == class@ && window_title@ == title@ && workspace@
                            == "unknown"@
                        &&& final(self).current() == old(self).current()
                    },
                    HyprlandEvent::WindowTitleChanged { address, title } => {
                        &&& step is Nothing
                        &&& match old(self).current() {
                            None => final(self).current() is None,
                            Some(w) => final(self).current() == Some(
                                ActiveWindow { window_title: title, ..w },
                            ),
                        }
                    },
                    _ => step is Nothing && final(self).current() == old(self).current(),
                }
            },
    {
        let signal = match &event {
            HyprlandEvent::WindowTitleChanged { address, title } => {
                let marker = string_of("__UPDATE_CURRENT_WINDOW__");
                *title == marker
            },
            _ => false,
        };
        if signal {
            ServiceStep::UpdateCurrent
        } else {
            self.handle_event(event)
        }
    }

    /// A focus change to `app_name` at `now` (seconds since the epoch) and
    /// `now_instant` (monotonic seconds): the window being timed is closed, its
    /// duration to be written back when it is positive and the window has a
    /// stored event, and a new event of duration 0 is to be stored. Until
    /// [`Self::window_inserted`] reports the new event stored, no window is timed.
    pub fn record_window_change(
        &mut self,
        app_name: String,
        window_title: String,
        workspace: String,
        now: i64,
        now_instant: u64,
        is_afk: bool,
    ) -> (c: WindowChange)
        ensures
            final(self).current() is None,
            match old(self).current() {
                Some(w) => if elapsed_i64(w.start_instant, now_instant) > 0 && w.event_id is Some {
                    c.update == Some(
                        DurationUpdate {
                            event_id: w.event_id->0,
                            duration_secs: elapsed_i64(w.start_instant, now_instant),
                        },
                    )
                } else {
                    c.update is None
                },
                None => c.update is None,
            },
            c.insert.id is None,
            c.insert.timestamp == now,
            c.insert.app_name == app_name,
            c.insert.window_title == window_title,
            c.insert.workspace == workspace,
            c.insert.duration_secs == 0,
            c.insert.is_afk == is_afk,
    {
        let mut update: Option<DurationUpdate> = None;
        match self.current_window.take() {
            None => {},
            Some(prev) => {
                let d = elapsed(prev.start_instant, now_instant);
                if d > 0 {
                    match prev.event_id {
                        Some(id) => {
                            update = Some(DurationUpdate { event_id: id, duration_secs: d });
                        },
                        None => {},
                    }
                }
            },
        }
        let insert = WindowEvent {
            id: None,
            timestamp: now,
            app_name,
            window_title,
            workspace,
            duration_secs: 0,
            is_afk,
        };
        WindowChange { update, insert }
    }

    /// The event for a focus change was stored under `event_id`: its window is
    /// now the one being timed, from `now_instant`.
    pub fn window_inserted(&mut self, event: WindowEvent, event_id: i64, now_instant: u64)
        ensures
            final(self).current() == Some(
                ActiveWindow {
                    app_name: event.app_name,
                    window_title: event.window_title,
                    workspace: event.workspace,
                    start_time: event.timestamp,
                    start_instant: now_instant,
                    event_id: Some(event_id),
                },
            ),
    {
        self.current_window = Some(
            ActiveWindow {
                app_name: event.app_name,
                window_title: event.window_title,
                workspace: event.workspace,
                start_time: event.timestamp,
                start_instant: now_instant,
                event_id: Some(event_id),
            },
        );
    }

    /// The duration of the window being timed, to write back periodically:
    /// only when positive and the window has a stored event.
    pub fn update_current_window_duration(&self, now_instant: u64) -> (u: Option<DurationUpdate>)
        ensures
            match self.current() {
                Some(w) => if elapsed_i64(w.start_instant, now_instant) > 0 && w.event_id is Some {
                    u == Some(
                        DurationUpdate {
                            event_id: w.event_id->0,
                            duration_secs: elapsed_i64(w.start_instant, now_instant),
                        },
                    )
                } else {
                    u is None
                },
                None => u is None,
            },
    {
        match &self.current_window {
            None => None,
            Some(w) => {
                let d = elapsed(w.start_instant, now_instant);
                if d > 0 {
                    match w.event_id {
                        Some(id) => Some(DurationUpdate { event_id: id, duration_secs: d }),
                        None => None,
                    }
                } else {
                    None
                }
            },
        }
    }

    /// The duration of the window being timed, to write back on shutdown:
    /// whenever the window has a stored event, even when zero.
    pub fn flush_current_window(&self, now_instant: u64) -> (u: Option<DurationUpdate>)
        ensures
            match self.current() {
                Some(w) => match w.event_id {
                    Some(id) => u == Some(
                        DurationUpdate {
                            event_id: id,
                            duration_secs: elapsed_i64(w.start_instant, now_instant),
                        },
                    ),
                    None => u is None,
                },
                None => u is None,
            },
    {
        match &self.current_window {
            None => None,
            Some(w) => match w.event_id {
                Some(id) => Some(
                    DurationUpdate { event_id: id, duration_secs: elapsed(w.start_instant, now_instant) },
                ),
                None => None,
            },
        }
    }
}

} // verus!
