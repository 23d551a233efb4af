//! Colour themes.

use vstd::prelude::*;

verus! {

/// The selectable colour themes.
#[derive(Debug, Clone, Copy, PartialEq, Eq, Structural)]
pub enum ThemeVariant {
    System,
    RosePineLight,
    RosePineDark,
}

/// The number of themes.
pub const THEME_COUNT: usize = 3;

/// A colour: one of the terminal's own, or one given by red, green and blue.
#[derive(Debug, Clone, Copy, PartialEq, Eq, Structural)]
pub enum Color {
    White,
    Gray,
    Yellow,
    Magenta,
    Green,
    Rgb(u8, u8, u8),
}

/// The colours of one theme, by what they are used for.
#[derive(Debug, Clone, Copy, PartialEq, Eq, Structural)]
pub struct Theme {
    pub tabs: Color,
    pub blocks: Color,
    pub text: Color,
    pub secondary_text: Color,
    pub highlight: Color,
    pub timer_text: Color,
    pub gauge_running: Color,
    pub gauge_paused: Color,
    pub gauge_finished: Color,
    pub rose: Color,
    pub love: Color,
    pub foam: Color,
    pub pine: Color,
    pub vertical_value: Color,
}

impl ThemeVariant {
    /// The place of the theme in the order in which themes are offered.
    pub open spec fn place(self) -> nat {
        match self {
            ThemeVariant::System => 0,
            ThemeVariant::RosePineLight => 1,
            ThemeVariant::RosePineDark => 2,
        }
    }

    /// The theme at the given place, counting round after the last.
    pub open spec fn at_place(place: int) -> ThemeVariant {
        if place % 3 == 0 {
            ThemeVariant::System
        } else if place % 3 == 1 {
            ThemeVariant::RosePineLight
        } else {
            ThemeVariant::RosePineDark
        }
    }

    /// The theme `steps` places before this one (after it, if `steps` is
    /// negative), counting round at both ends.
    pub open spec fn stepped_back(self, steps: int) -> ThemeVariant {
        ThemeVariant::at_place(self.place() - steps)
    }

    /// The place of the theme in the order in which themes are offered.
    pub fn index(&self) -> (i: usize)
        ensures
            i == self.place(),
            i < THEME_COUNT,
    {
        match self {
            ThemeVariant::System => 0,
            ThemeVariant::RosePineLight => 1,
            ThemeVariant::RosePineDark => 2,
        }
    }

    /// The theme `steps` places before this one (after it, if `steps` is
    /// negative), counting round at both ends.
    pub fn step_back(&self, steps: i64) -> (t: ThemeVariant)
        ensures
            t == self.stepped_back(steps as int),
    {
        let place: i128 = self.index() as i128 - steps as i128;
        let third: i128 = place % 3;
        assert(third == place as int % 3 || third == (place as int % 3) - 3) by {
            if place >= 0 {
                assert(third == place as int % 3);
            }
        }
        let r: i128 = if third < 0 {
            third + 3
        } else {
            third
        };
        if r == 0 {
            ThemeVariant::System
        } else if r == 1 {
            ThemeVariant::RosePineLight
        } else {
            ThemeVariant::RosePineDark
        }
    }
}

impl Color {
    /// Whether the colour is one of the terminal's own.
    pub open spec fn is_named(self) -> bool {
        !(self is Rgb)
    }
}

impl Theme {
    /// The colours of a theme.
    pub open spec fn palette(variant: ThemeVariant) -> Theme {
        match variant {
            ThemeVariant::System => Theme {
                tabs: Color::White,
                blocks: Color::White,
                text: Color::White,
                secondary_text: Color::Gray,
                highlight: Color::Yellow,
                timer_text: Color::White,
                gauge_running: Color::Yellow,
                gauge_paused: Color::Magenta,
                gauge_finished: Color::Green,
                rose: Color::Yellow,
                love: Color::White,
                foam: Color::Yellow,
                pine: Color::White,
                vertical_value: Color::White,
            },
            ThemeVariant::RosePineLight => Theme {
                tabs: Color::Rgb(152, 147, 165),
                blocks: Color::Rgb(152, 147, 165),
                text: Color::Rgb(87, 82, 121),
                secondary_text: Color::Rgb(206, 202, 205),
                highlight: Color::Rgb(144, 122, 169),
                timer_text: Color::Rgb(215, 130, 126),
                gauge_running: Color::Rgb(86, 148, 159),
                gauge_paused: Color::Rgb(40, 105, 131),
                gauge_finished: Color::Rgb(86, 148, 159),
                rose: Color::Rgb(235, 188, 186),
                love: Color::Rgb(235, 111, 146),
                foam: Color::Rgb(156, 207, 216),
                pine: Color::Rgb(49, 116, 143),
                vertical_value: Color::Rgb(49, 116, 143),
            },
            ThemeVariant::RosePineDark => Theme {
                tabs: Color::Rgb(57, 53, 82),
                blocks: Color::Rgb(224, 222, 244),
                text: Color::Rgb(224, 222, 244),
                secondary_text: Color::Rgb(82, 79, 103),
                highlight: Color::Rgb(196, 167, 231),
                timer_text: Color::Rgb(156, 207, 216),
                gauge_running: Color::Rgb(234, 154, 151),
                gauge_paused: Color::Rgb(235, 111, 146),
                gauge_finished: Color::Rgb(62, 143, 176),
                rose: Color::Rgb(235, 188, 186),
                love: Color::Rgb(235, 111, 146),
                foam: Color::Rgb(156, 207, 216),
                pine: Color::Rgb(49, 116, 143),
                vertical_value: Color::Rgb(49, 116, 143),
            },
        }
    }

    /// Every colour of the theme is one of the terminal's own.
    pub open spec fn all_named(self) -> bool {
        &&& self.tabs.is_named()
        &&& self.blocks.is_named()
        &&& self.text.is_named()
        &&& self.secondary_text.is_named()
        &&& self.highlight.is_named()
        &&& self.timer_text.is_named()
        &&& self.gauge_running.is_named()
        &&& self.gauge_paused.is_named()
        &&& self.gauge_finished.is_named()
        &&& self.rose.is_named()
        &&& self.love.is_named()
        &&& self.foam.is_named()
        &&& self.pine.is_named()
        &&& self.vertical_value.is_named()
    }

    /// The colours of a theme. The System theme keeps to the terminal's own
    /// colours; the others give every colour by red, green and blue.
    pub fn new(variant: ThemeVariant) -> (t: Theme)
        ensures
            t == Theme::palette(variant),
            variant == ThemeVariant::System <==> t.all_named(),
    {
        match variant {
            ThemeVariant::System => Theme {
                tabs: Color::White,
                blocks: Color::White,
                text: Color::White,
                secondary_text: Color::Gray,
                highlight: Color::Yellow,
                timer_text: Color::White,
                gauge_running: Color::Yellow,
                gauge_paused: Color::Magenta,
                gauge_finished: Color::Green,
                rose: Color::Yellow,
                love: Color::White,
                foam: Color::Yellow,
                pine: Color::White,
                vertical_value: Color::White,
            },
            ThemeVariant::RosePineLight => Theme {
                tabs: Color::Rgb(152, 147, 165),
                blocks: Color::Rgb(152, 147, 165),
                text: Color::Rgb(87, 82, 121),
                secondary_text: Color::Rgb(206, 202, 205),
                highlight: Color::Rgb(144, 122, 169),
                timer_text: Color::Rgb(215, 130, 126),
                gauge_running: Color::Rgb(86, 148, 159),
                gauge_paused: Color::Rgb(40, 105, 131),
                gauge_finished: Color::Rgb(86, 148, 159),
                rose: Color::Rgb(235, 188, 186),
                love: Color::Rgb(235, 111, 146),
                foam: Color::Rgb(156, 207, 216),
                pine: Color::Rgb(49, 116, 143),
                vertical_value: Color::Rgb(49, 116, 143),
            },
            ThemeVariant::RosePineDark => Theme {
                tabs: Color::Rgb(57, 53, 82),
                blocks: Color::Rgb(224, 222, 244),
                text: Color::Rgb(224, 222, 244),
                secondary_text: Color::Rgb(82, 79, 103),
                highlight: Color::Rgb(196, 167, 231),
                timer_text: Color::Rgb(156, 207, 216),
                gauge_running: Color::Rgb(234, 154, 151),
                gauge_paused: Color::Rgb(235, 111, 146),
                gauge_finished: Color::Rgb(62, 143, 176),
                rose: Color::Rgb(235, 188, 186),
                love: Color::Rgb(235, 111, 146),
                foam: Color::Rgb(156, 207, 216),
                pine: Color::Rgb(49, 116, 143),
                vertical_value: Color::Rgb(49, 116, 143),
            },
        }
    }
}

/// Stepping through the themes counts round: a full round comes back to the
/// theme it began with, and a step back followed by a step forward too.
pub proof fn lemma_theme_steps(theme: ThemeVariant, steps: int)
    ensures
        theme.stepped_back(0) == theme,
        theme.stepped_back(steps + THEME_COUNT) == theme.stepped_back(steps),
        theme.stepped_back(steps).stepped_back(-steps) == theme,
        ThemeVariant::at_place(theme.place() as int) == theme,
{
}

} // verus!
