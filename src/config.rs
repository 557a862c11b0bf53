use vstd::prelude::*;

verus! {

/// Rows shown at once unless the settings say otherwise.
pub const MAX_ITEM_DISPLAY_COUNT: u16 = 9;

/// Space in pixels between the border and the content.
pub const PADDING: u16 = 8;

pub const LINE_SPACING: u16 = 2;

pub const FONT_POINT_SIZE: u16 = 16;

pub const FONT_COLOR: &'static str = "#cdd6f4";

pub const FONT_COLOR_ACTIVE: &'static str = "#1e1e2e";

pub const BACKGROUND_COLOR: &'static str = "#1e1e2e";

pub const BACKGROUND_COLOR_ACTIVE: &'static str = "#89b4fa";

pub const BORDER_SIZE: u8 = 1;

pub const BORDER_COLOR: &'static str = "#585b70";

/// The menu's settings, fixed for a whole session. Colors are `#rrggbb`
/// strings; `display_index` names the monitor to show the menu on.
pub struct RunnerMenuSettings {
    pub font_color: String,
    pub font_color_active: String,
    pub border_color: String,
    pub border_size: u8,
    pub background_color: String,
    pub background_color_active: String,
    pub rows: u16,
    pub font_size: u16,
    pub line_spacing: u16,
    pub display_index: Option<u8>,
    pub font: Option<String>,
}

/// The command line of the launcher, as plain values.
pub struct Arguments {
    pub prompt: String,
    pub font: Option<String>,
    pub font_color: String,
    pub font_color_active: String,
    pub border_color: String,
    pub border_size: u8,
    pub background_color: String,
    pub background_color_active: String,
    pub rows: u16,
    pub font_size: u16,
    pub line_spacing: u16,
    pub display: Option<u8>,
}

impl Arguments {
    /// The prompt and the menu settings that the command line gives.
    pub fn into_settings(self) -> (r: (String, RunnerMenuSettings))
        ensures
            r.0 == self.prompt,
            r.1.font == self.font,
            r.1.font_color == self.font_color,
            r.1.font_color_active == self.font_color_active,
            r.1.border_color == self.border_color,
            r.1.border_size == self.border_size,
            r.1.background_color == self.background_color,
            r.1.background_color_active == self.background_color_active,
            r.1.rows == self.rows,
            r.1.font_size == self.font_size,
            r.1.line_spacing == self.line_spacing,
            r.1.display_index == self.display,
    {
        (
            self.prompt,
            RunnerMenuSettings {
                font_color: self.font_color,
                font_color_active: self.font_color_active,
                border_color: self.border_color,
                border_size: self.border_size,
                background_color: self.background_color,
                background_color_active: self.background_color_active,
                rows: self.rows,
                font_size: self.font_size,
                line_spacing: self.line_spacing,
                display_index: self.display,
                font: self.font,
            },
        )
    }
}

/// The font named in the settings could not be resolved to a file.
#[derive(Debug, Clone)]
pub struct FontFetchError;

} // verus!
