//! Colour schemes
//!
//! A scheme assigns a colour to each role (background, frame, accent, text,
//! ...). The colour type is a parameter: schemes are read and written as sRGB
//! bytes and converted by the renderer for drawing.

use vstd::prelude::*;

verus! {

/// An sRGB colour with alpha, one byte per channel (`[r, g, b, a]`)
#[derive(Clone, Copy, Debug, PartialEq, Eq)]
pub struct Rgba8Srgb(pub [u8; 4]);

impl Rgba8Srgb {
    /// An opaque colour from its red, green and blue bytes
    pub fn opaque(r: u8, g: u8, b: u8) -> (c: Rgba8Srgb)
        ensures
            c.0@ == seq![r, g, b, 255u8],
    {
        let c = Rgba8Srgb([r, g, b, 255]);
        assert(c.0@ =~= seq![r, g, b, 255u8]);
        c
    }
}

/// Input state of a widget, as far as colours depend on it
#[derive(Clone, Copy, Debug, Default, PartialEq, Eq, Structural)]
pub struct InputState {
    pub disabled: bool,
    pub error: bool,
    pub hover: bool,
    pub depress: bool,
    pub nav_focus: bool,
    pub char_focus: bool,
}

/// Provides standard theme colours
#[derive(Clone, Copy, Debug, PartialEq, Eq)]
pub struct Colors<C> {
    /// True if this is a dark theme
    pub is_dark: bool,
    /// Background colour
    pub background: C,
    /// Colour for frames (not always used)
    pub frame: C,
    /// Background colour of an edit box
    pub edit_bg: C,
    /// Background colour of an edit box (disabled state)
    pub edit_bg_disabled: C,
    /// Background colour of an edit box (error state)
    pub edit_bg_error: C,
    /// Theme accent: a bold colour, used for small details
    pub accent: C,
    /// Soft version of accent, used for block elements in some themes
    pub accent_soft: C,
    /// Highlight colour for keyboard navigation
    pub nav_focus: C,
    /// Normal text colour (over background)
    pub text: C,
    /// Opposing text colour (e.g. white if `text` is black)
    pub text_invert: C,
    /// Disabled text colour
    pub text_disabled: C,
    /// Selected text background colour
    pub text_sel_bg: C,
}

/// [`Colors`] parameterised for reading and writing using sRGB
pub type ColorsSrgb = Colors<Rgba8Srgb>;

impl<C: Copy> Colors<C> {
    /// Get colour of a text area, depending on state
    pub fn edit_bg(&self, state: InputState) -> (c: C)
        ensures
            c == if state.disabled {
                self.edit_bg_disabled
            } else if state.error {
                self.edit_bg_error
            } else {
                self.edit_bg
            },
    {
        if state.disabled {
            self.edit_bg_disabled
        } else if state.error {
            self.edit_bg_error
        } else {
            self.edit_bg
        }
    }

    /// Get colour for navigation highlight region, if any
    pub fn nav_region(&self, state: InputState) -> (c: Option<C>)
        ensures
            c == if state.nav_focus && !state.disabled {
                Some(self.nav_focus)
            } else {
                None
            },
    {
        if state.nav_focus && !state.disabled {
            Some(self.nav_focus)
        } else {
            None
        }
    }
}

impl Colors<Rgba8Srgb> {
    /// Default "light" scheme
    pub fn light() -> (c: Self)
        ensures
            !c.is_dark,
            c.background.0@ == seq![0xFAu8, 0xFA, 0xFA, 0xFF],
            c.frame.0@ == seq![0xBCu8, 0xBC, 0xBC, 0xFF],
            c.accent.0@ == seq![0x7Eu8, 0x3F, 0xF2, 0xFF],
            c.accent_soft.0@ == seq![0xB3u8, 0x8D, 0xF9, 0xFF],
            c.nav_focus.0@ == seq![0x7Eu8, 0x3F, 0xF2, 0xFF],
            c.edit_bg.0@ == seq![0xFAu8, 0xFA, 0xFA, 0xFF],
            c.edit_bg_disabled.0@ == seq![0xDCu8, 0xDC, 0xDC, 0xFF],
            c.edit_bg_error.0@ == seq![0xFFu8, 0xBC, 0xBC, 0xFF],
            c.text.0@ == seq![0x00u8, 0x00, 0x00, 0xFF],
            c.text_invert.0@ == seq![0xFFu8, 0xFF, 0xFF, 0xFF],
            c.text_disabled.0@ == seq![0xAAu8, 0xAA, 0xAA, 0xFF],
            c.text_sel_bg.0@ == seq![0xA1u8, 0x72, 0xFA, 0xFF],
    {
        Colors {
            is_dark: false,
            background: Rgba8Srgb::opaque(0xFA, 0xFA, 0xFA),
            frame: Rgba8Srgb::opaque(0xBC, 0xBC, 0xBC),
            accent: Rgba8Srgb::opaque(0x7E, 0x3F, 0xF2),
            accent_soft: Rgba8Srgb::opaque(0xB3, 0x8D, 0xF9),
            nav_focus: Rgba8Srgb::opaque(0x7E, 0x3F, 0xF2),
            edit_bg: Rgba8Srgb::opaque(0xFA, 0xFA, 0xFA),
            edit_bg_disabled: Rgba8Srgb::opaque(0xDC, 0xDC, 0xDC),
            edit_bg_error: Rgba8Srgb::opaque(0xFF, 0xBC, 0xBC),
            text: Rgba8Srgb::opaque(0x00, 0x00, 0x00),
            text_invert: Rgba8Srgb::opaque(0xFF, 0xFF, 0xFF),
            text_disabled: Rgba8Srgb::opaque(0xAA, 0xAA, 0xAA),
            text_sel_bg: Rgba8Srgb::opaque(0xA1, 0x72, 0xFA),
        }
    }

    /// Dark scheme
    pub fn dark() -> (c: Self)
        ensures
            c.is_dark,
            c.background.0@ == seq![0x40u8, 0x40, 0x40, 0xFF],
            c.frame.0@ == seq![0xAAu8, 0xAA, 0xAA, 0xFF],
            c.accent.0@ == seq![0xF7u8, 0x4C, 0x00, 0xFF],
            c.accent_soft.0@ == seq![0xE7u8, 0x73, 0x46, 0xFF],
            c.nav_focus.0@ == seq![0xA3u8, 0x31, 0x00, 0xFF],
            c.edit_bg.0@ == seq![0x30u8, 0x30, 0x30, 0xFF],
            c.edit_bg_disabled.0@ == seq![0x60u8, 0x60, 0x60, 0xFF],
            c.edit_bg_error.0@ == seq![0xFFu8, 0xBC, 0xBC, 0xFF],
            c.text.0@ == seq![0xFFu8, 0xFF, 0xFF, 0xFF],
            c.text_invert.0@ == seq![0x00u8, 0x00, 0x00, 0xFF],
            c.text_disabled.0@ == seq![0xCBu8, 0xCB, 0xCB, 0xFF],
            c.text_sel_bg.0@ == seq![0xE7u8, 0x73, 0x46, 0xFF],
    {
        Colors {
            is_dark: true,
            background: Rgba8Srgb::opaque(0x40, 0x40, 0x40),
            frame: Rgba8Srgb::opaque(0xAA, 0xAA, 0xAA),
            accent: Rgba8Srgb::opaque(0xF7, 0x4C, 0x00),
            accent_soft: Rgba8Srgb::opaque(0xE7, 0x73, 0x46),
            nav_focus: Rgba8Srgb::opaque(0xA3, 0x31, 0x00),
            edit_bg: Rgba8Srgb::opaque(0x30, 0x30, 0x30),
            edit_bg_disabled: Rgba8Srgb::opaque(0x60, 0x60, 0x60),
            edit_bg_error: Rgba8Srgb::opaque(0xFF, 0xBC, 0xBC),
            text: Rgba8Srgb::opaque(0xFF, 0xFF, 0xFF),
            text_invert: Rgba8Srgb::opaque(0x00, 0x00, 0x00),
            text_disabled: Rgba8Srgb::opaque(0xCB, 0xCB, 0xCB),
            text_sel_bg: Rgba8Srgb::opaque(0xE7, 0x73, 0x46),
        }
    }

    /// Blue scheme
    pub fn blue() -> (c: Self)
        ensures
            !c.is_dark,
            c.background.0@ == seq![0xFFu8, 0xFF, 0xFF, 0xFF],
            c.frame.0@ == seq![0xDAu8, 0xDA, 0xDA, 0xFF],
            c.accent.0@ == seq![0x7Cu8, 0xDA, 0xFF, 0xFF],
            c.accent_soft.0@ == seq![0x7Cu8, 0xDA, 0xFF, 0xFF],
            c.nav_focus.0@ == seq![0x3Bu8, 0x69, 0x7A, 0xFF],
            c.edit_bg.0@ == seq![0xFFu8, 0xFF, 0xFF, 0xFF],
            c.edit_bg_disabled.0@ == seq![0xDCu8, 0xDC, 0xDC, 0xFF],
            c.edit_bg_error.0@ == seq![0xFFu8, 0xBC, 0xBC, 0xFF],
            c.text.0@ == seq![0x00u8, 0x00, 0x00, 0xFF],
            c.text_invert.0@ == seq![0xFFu8, 0xFF, 0xFF, 0xFF],
            c.text_disabled.0@ == seq![0xAAu8, 0xAA, 0xAA, 0xFF],
            c.text_sel_bg.0@ == seq![0x6Cu8, 0xC0, 0xE1, 0xFF],
    {
        Colors {
            is_dark: false,
            background: Rgba8Srgb::opaque(0xFF, 0xFF, 0xFF),
            frame: Rgba8Srgb::opaque(0xDA, 0xDA, 0xDA),
            accent: Rgba8Srgb::opaque(0x7C, 0xDA, 0xFF),
            accent_soft: Rgba8Srgb::opaque(0x7C, 0xDA, 0xFF),
            nav_focus: Rgba8Srgb::opaque(0x3B, 0x69, 0x7A),
            edit_bg: Rgba8Srgb::opaque(0xFF, 0xFF, 0xFF),
            edit_bg_disabled: Rgba8Srgb::opaque(0xDC, 0xDC, 0xDC),
            edit_bg_error: Rgba8Srgb::opaque(0xFF, 0xBC, 0xBC),
            text: Rgba8Srgb::opaque(0x00, 0x00, 0x00),
            text_invert: Rgba8Srgb::opaque(0xFF, 0xFF, 0xFF),
            text_disabled: Rgba8Srgb::opaque(0xAA, 0xAA, 0xAA),
            text_sel_bg: Rgba8Srgb::opaque(0x6C, 0xC0, 0xE1),
        }
    }
}

impl Default for Colors<Rgba8Srgb> {
    /// The default scheme: "light"
    fn default() -> (c: Self)
        ensures
            !c.is_dark,
            c.background.0@ == seq![0xFAu8, 0xFA, 0xFA, 0xFF],
            c.accent.0@ == seq![0x7Eu8, 0x3F, 0xF2, 0xFF],
            c.text.0@ == seq![0x00u8, 0x00, 0x00, 0xFF],
    {
        Colors::light()
    }
}

} // verus!
