//! Colour themes.

use vstd::prelude::*;

verus! {

/// Whether the system asks for a dark theme: `dark_light::detect` gives
/// `Ok(Mode::Dark)`. Light, unspecified and a failed detection count as not
/// dark. The answer depends on the desktop's settings; nothing is stated of it.
#[verifier::external_body]
fn system_is_dark() -> (b: bool) {
    match dark_light::detect() {
        Ok(dark_light::Mode::Dark) => true,
        Ok(_) => false,
        Err(_) => false,
    }
}

/// The available colour themes.
#[derive(Debug, Clone, Copy, PartialEq, Eq, Structural)]
pub enum ThemeType {
    Light,
    Dark,
    CatppuccinMocha,
    Nord,
    TokyoNight,
    Dracula,
    /// Follow the system's light or dark preference.
    Auto,
}

impl Default for ThemeType {
    fn default() -> (t: Self)
        ensures
            t == ThemeType::Dark,
    {
        ThemeType::Dark
    }
}

impl ThemeType {
    /// The theme's display name.
    pub fn name(&self) -> (s: &'static str)
        ensures
            s@ == match self {
                ThemeType::Light => "浅色"@,
                ThemeType::Dark => "深色"@,
                ThemeType::CatppuccinMocha => "Catppuccin Mocha"@,
                ThemeType::Nord => "Nord"@,
                ThemeType::TokyoNight => "Tokyo Night"@,
                ThemeType::Dracula => "Dracula"@,
                ThemeType::Auto => "跟随系统"@,
            },
    {
        match self {
            ThemeType::Light => "浅色",
            ThemeType::Dark => "深色",
            ThemeType::CatppuccinMocha => "Catppuccin Mocha",
            ThemeType::Nord => "Nord",
            ThemeType::TokyoNight => "Tokyo Night",
            ThemeType::Dracula => "Dracula",
            ThemeType::Auto => "跟随系统",
        }
    }

    /// The theme to apply: `Auto` follows the system (dark when
    /// `system_is_dark`, else light); any other theme is itself.
    pub fn resolved(&self, system_is_dark: bool) -> (t: ThemeType)
        ensures
            t == match self {
                ThemeType::Auto => if system_is_dark {
                    ThemeType::Dark
                } else {
                    ThemeType::Light
                },
                _ => *self,
            },
    {
        match self {
            ThemeType::Auto => {
                if system_is_dark {
                    ThemeType::Dark
                } else {
                    ThemeType::Light
                }
            },
            _ => *self,
        }
    }

    /// The theme to apply, asking the system whether it is dark: `Auto` gives
    /// dark or light (see [`Self::resolved`]); any other theme is itself.
    pub fn resolved_by_system(&self) -> (t: ThemeType)
        ensures
            exists|dark: bool| t == #[trigger] self.spec_resolved(dark),
            !(*self is Auto) ==> t == *self,
    {
        let dark = system_is_dark();
        let t = self.resolved(dark);
        assert(t == self.spec_resolved(dark));
        t
    }

    /// What [`Self::resolved`] gives.
    pub open spec fn spec_resolved(&self, system_is_dark: bool) -> ThemeType {
        match self {
            ThemeType::Auto => if system_is_dark {
                ThemeType::Dark
            } else {
                ThemeType::Light
            },
            _ => *self,
        }
    }

    /// Every theme, in menu order.
    pub fn all() -> (v: Vec<ThemeType>)
        ensures
            v@ == seq![
                ThemeType::Light,
                ThemeType::Dark,
                ThemeType::CatppuccinMocha,
                ThemeType::Nord,
                ThemeType::TokyoNight,
                ThemeType::Dracula,
                ThemeType::Auto,
            ],
    {
        vec![
            ThemeType::Light,
            ThemeType::Dark,
            ThemeType::CatppuccinMocha,
            ThemeType::Nord,
            ThemeType::TokyoNight,
            ThemeType::Dracula,
            ThemeType::Auto,
        ]
    }
}

} // verus!
