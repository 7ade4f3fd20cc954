//! The state of the alias and daily-goal dialogs, and the settings view's actions.

use vstd::prelude::*;
use crate::models::DailyGoal;
use crate::text::{chars_of, push_signed_decimal, push_str, signed_decimal, string_from, string_of, trim_chars, trimmed};
use crate::theme::ThemeType;

verus! {

/// The longest alias, in characters.
pub const MAX_ALIAS_CHARS: usize = 15;

/// The state of the dialog that sets application aliases.
pub struct AliasDialog {
    /// Whether the dialog is shown.
    pub is_open: bool,
    /// The application being given an alias.
    pub app_name: String,
    /// The alias being edited.
    pub alias: String,
    /// Every application's alias, as `(application, alias)`.
    pub aliases: Vec<(String, String)>,
    /// Whether an existing alias is being edited (rather than a new one set).
    pub is_edit_mode: bool,
    /// Whether the aliases are being loaded.
    pub loading: bool,
}

impl Default for AliasDialog {
    fn default() -> (d: Self)
        ensures
            !d.is_open,
            d.app_name@.len() == 0,
            d.alias@.len() == 0,
            d.aliases@.len() == 0,
            !d.is_edit_mode,
            !d.loading,
    {
        AliasDialog {
            is_open: false,
            app_name: String::new(),
            alias: String::new(),
            aliases: Vec::new(),
            is_edit_mode: false,
            loading: false,
        }
    }
}

impl AliasDialog {
    /// Opens the dialog to set the alias of `app_name`, editing `current_alias`
    /// when it has one.
    pub fn open_for_app(&mut self, app_name: String, current_alias: Option<String>)
        ensures
            final(self).is_open,
            final(self).app_name == app_name,
            final(self).alias@ == match current_alias {
                Some(a) => a@,
                None => Seq::<char>::empty(),
            },
            final(self).is_edit_mode == current_alias is Some,
            final(self).aliases == old(self).aliases,
            final(self).loading == old(self).loading,
    {
        let has_alias = current_alias.is_some();
        self.is_open = true;
        self.app_name = app_name;
        self.alias = match current_alias {
            Some(a) => a,
            None => String::new(),
        };
        self.is_edit_mode = has_alias;
    }

    /// Opens the dialog to manage all aliases: no single application is being
    /// edited, so the list of `aliases` is shown when there are any.
    pub fn open_for_management(&mut self, aliases: Vec<(String, String)>)
        ensures
            final(self).is_open,
            final(self).aliases == aliases,
            !final(self).is_edit_mode,
            final(self).app_name@.len() == 0,
            final(self).alias@.len() == 0,
            final(self).loading == old(self).loading,
    {
        self.is_open = true;
        self.app_name = String::new();
        self.alias = String::new();
        self.aliases = aliases;
        self.is_edit_mode = false;
    }

    /// Closes the dialog and forgets what it held.
    pub fn close(&mut self)
        ensures
            !final(self).is_open,
            final(self).app_name@.len() == 0,
            final(self).alias@.len() == 0,
            final(self).aliases@.len() == 0,
            !final(self).is_edit_mode,
            final(self).loading == old(self).loading,
    {
        self.is_open = false;
        self.app_name = String::new();
        self.alias = String::new();
        self.aliases = Vec::new();
        self.is_edit_mode = false;
    }

    /// Whether the dialog lists all aliases (rather than editing one).
    pub fn is_management_view(&self) -> (b: bool)
        ensures
            b == (self.aliases@.len() > 0 && self.app_name@.len() == 0),
    {
        self.aliases.len() > 0 && self.app_name.as_str().is_empty()
    }

    /// The save button: on an open dialog whose alias may be saved, the
    /// dialog closes and hands back `(application, alias)` to store; otherwise
    /// (a closed dialog among them) nothing happens.
    pub fn submit(&mut self) -> (r: Option<(String, String)>)
        ensures
            if old(self).is_open && old(self).alias@.len() > 0 && old(self).alias@.len() <= MAX_ALIAS_CHARS {
                &&& r matches Some((a, b)) && a@ == old(self).app_name@ && b@ == old(self).alias@
                &&& !final(self).is_open
                &&& final(self).app_name@.len() == 0
                &&& final(self).alias@.len() == 0
                &&& final(self).aliases@.len() == 0
                &&& !final(self).is_edit_mode
                &&& final(self).loading == old(self).loading
            } else {
                r is None && *final(self) == *old(self)
            },
    {
        if self.is_open && self.can_submit() {
            let r = (string_of(self.app_name.as_str()), string_of(self.alias.as_str()));
            self.close();
            Some(r)
        } else {
            None
        }
    }

    /// The delete button of entry `i` of the list: the dialog closes and hands
    /// back `(application, "")`, an empty alias removing the application's
    /// alias; nothing happens on a closed dialog or when there is no entry `i`.
    pub fn delete_alias(&mut self, i: usize) -> (r: Option<(String, String)>)
        ensures
            if old(self).is_open && i < old(self).aliases@.len() {
                &&& r matches Some((a, b)) && a@ == old(self).aliases@[i as int].0@ && b@.len() == 0
                &&& !final(self).is_open
                &&& final(self).app_name@.len() == 0
                &&& final(self).alias@.len() == 0
                &&& final(self).aliases@.len() == 0
                &&& !final(self).is_edit_mode
                &&& final(self).loading == old(self).loading
            } else {
                r is None && *final(self) == *old(self)
            },
    {
        if self.is_open && i < self.aliases.len() {
            let r = (string_of(self.aliases[i].0.as_str()), String::new());
            self.close();
            Some(r)
        } else {
            None
        }
    }

    /// Whether the alias may be saved: not empty, and at most 15 characters.
    pub fn can_submit(&self) -> (b: bool)
        ensures
            b == (self.alias@.len() > 0 && self.alias@.len() <= MAX_ALIAS_CHARS),
    {
        let n = chars_of(self.alias.as_str()).len();
        n > 0 && n <= MAX_ALIAS_CHARS
    }
}

/// The state of the dialog that adds a daily goal.
pub struct AddGoalDialog {
    /// The application.
    pub app_name: String,
    /// The most minutes a day.
    pub max_minutes: i32,
    /// Whether the dialog is shown.
    pub visible: bool,
}

impl Default for AddGoalDialog {
    fn default() -> (d: Self)
        ensures
            d.app_name@.len() == 0,
            d.max_minutes == 60,
            !d.visible,
    {
        AddGoalDialog { app_name: String::new(), max_minutes: 60, visible: false }
    }
}

/// The preview of a limit of `m` minutes: `= H 小时 M 分钟` with a positive
/// number of whole hours, else `= M 分钟` (both truncated toward zero).
pub open spec fn goal_preview(m: int) -> Seq<char> {
    let hours = if m >= 0 { m / 60 } else { -((-m) / 60) };
    let mins = m - 60 * hours;
    if hours > 0 {
        "= "@ + signed_decimal(hours) + " 小时 "@ + signed_decimal(mins) + " 分钟"@
    } else {
        "= "@ + signed_decimal(mins) + " 分钟"@
    }
}

impl AddGoalDialog {
    /// A hidden dialog with an empty name and a limit of 60 minutes.
    pub fn new() -> (d: Self)
        ensures
            d.app_name@.len() == 0,
            d.max_minutes == 60,
            !d.visible,
    {
        Self::default()
    }

    /// Shows the dialog, reset to an empty name and 60 minutes.
    pub fn open(&mut self)
        ensures
            final(self).visible,
            final(self).app_name@.len() == 0,
            final(self).max_minutes == 60,
    {
        self.visible = true;
        self.app_name = String::new();
        self.max_minutes = 60;
    }

    /// Hides the dialog.
    pub fn close(&mut self)
        ensures
            !final(self).visible,
            final(self).app_name == old(self).app_name,
            final(self).max_minutes == old(self).max_minutes,
    {
        self.visible = false;
    }

    /// The limit shown in hours and minutes.
    pub fn time_preview(&self) -> (s: String)
        ensures
            s@ == goal_preview(self.max_minutes as int),
    {
        let m = self.max_minutes;
        let hours: i32 = m / 60;
        let mins: i32 = m % 60;
        assert(hours == (if m >= 0 { m / 60 } else { -((-m) / 60) }));
        let mut s = String::new();
        push_str(&mut s, "= ");
        if hours > 0 {
            push_signed_decimal(&mut s, hours as i64);
            push_str(&mut s, " 小时 ");
        }
        push_signed_decimal(&mut s, mins as i64);
        push_str(&mut s, " 分钟");
        s
    }

    /// The goal the dialog describes, once the name (trimmed of white space)
    /// is not empty; notification is on.
    pub fn goal(&self) -> (g: Option<DailyGoal>)
        ensures
            trimmed(self.app_name@).len() == 0 <==> g is None,
            g matches Some(goal) ==> goal.id is None && goal.app_name@ == trimmed(self.app_name@)
                && goal.max_minutes == self.max_minutes && goal.notify_enabled,
    {
        let v = chars_of(self.app_name.as_str());
        let t = trim_chars(v.as_slice());
        if t.len() == 0 {
            return None;
        }
        let name = string_from(t.as_slice(), 0, t.len());
        assert(t@.subrange(0, t@.len() as int) == t@);
        Some(DailyGoal { id: None, app_name: name, max_minutes: self.max_minutes, notify_enabled: true })
    }

    /// The confirm button: on a shown dialog whose name (trimmed of white
    /// space) is not empty, hands out the goal it describes and hides the
    /// dialog; otherwise nothing happens.
    pub fn confirm(&mut self) -> (g: Option<DailyGoal>)
        ensures
            !old(self).visible ==> g is None && *final(self) == *old(self),
            old(self).visible && trimmed(old(self).app_name@).len() == 0 ==> g is None && *final(self) == *old(
                self,
            ),
            old(self).visible && trimmed(old(self).app_name@).len() > 0 ==> (g matches Some(goal) && goal.id is None
                && goal.app_name@ == trimmed(old(self).app_name@) && goal.max_minutes == old(self).max_minutes
                && goal.notify_enabled),
            g is Some ==> !final(self).visible && final(self).app_name == old(self).app_name
                && final(self).max_minutes == old(self).max_minutes,
    {
        if !self.visible {
            return None;
        }
        let g = self.goal();
        if g.is_some() {
            self.close();
        }
        g
    }
}

/// What the settings view asks of the application.
#[derive(Debug, Clone)]
pub enum SettingsAction {
    /// Open the dialog to add a goal.
    AddGoal,
    /// Delete the goal of an application.
    DeleteGoal(String),
    /// Switch to another theme.
    ChangeTheme(ThemeType),
    /// Nothing.
    Nothing,
}

} // verus!
