//! Export settings and their defaults.

use vstd::prelude::*;
use vstd::string::StringExecFns;
use crate::text::{chars_of, same_chars};

verus! {

/// The settings of the export, each of which may be left open.
pub struct Settings {
    /// The converter from vector to raster files, by name.
    pub conversion_tool: Option<String>,
    /// Where the second converter is installed.
    pub inkscape_path: Option<String>,
    /// Width of a raster frame in pixels.
    pub frame_resolution: Option<usize>,
    /// How many conversions run at once.
    pub max_threads: Option<usize>,
}

/// The converter that is used.
#[derive(Clone, Copy, Debug, PartialEq, Eq, Structural)]
pub enum Rasterizer {
    /// The converter named `rsvg-convert`, found on the search path.
    RsvgConvert,
    /// The converter at the configured path.
    Inkscape,
}

/// The model of [`Settings`].
pub struct SettingsView {
    pub conversion_tool: Option<Seq<char>>,
    pub inkscape_path: Option<Seq<char>>,
    pub frame_resolution: Option<usize>,
    pub max_threads: Option<usize>,
}

/// The model of an optional string.
pub open spec fn text_of(s: Option<String>) -> Option<Seq<char>> {
    match s {
        Some(s) => Some(s@),
        None => None,
    }
}

impl View for Settings {
    type V = SettingsView;

    open spec fn view(&self) -> SettingsView {
        SettingsView {
            conversion_tool: text_of(self.conversion_tool),
            inkscape_path: text_of(self.inkscape_path),
            frame_resolution: self.frame_resolution,
            max_threads: self.max_threads,
        }
    }
}

impl SettingsView {
    /// The settings with each open one at its default: the first converter,
    /// the usual place of the second, frames 1080 pixels wide, four
    /// conversions at once.
    pub open spec fn completed(self) -> SettingsView {
        SettingsView {
            conversion_tool: Some(
                match self.conversion_tool {
                    Some(t) => t,
                    None => "rsvg-convert"@,
                },
            ),
            inkscape_path: Some(
                match self.inkscape_path {
                    Some(p) => p,
                    None => "C:/Program files/Inkscape/bin/inkscape.exe"@,
                },
            ),
            frame_resolution: Some(
                match self.frame_resolution {
                    Some(r) => r,
                    None => 1080usize,
                },
            ),
            max_threads: Some(
                match self.max_threads {
                    Some(n) => n,
                    None => 4usize,
                },
            ),
        }
    }

    /// The converter that the settings choose: the first one where it is
    /// named or nothing is named, else the second.
    pub open spec fn rasterizer(self) -> Rasterizer {
        match self.conversion_tool {
            Some(t) => if t == "rsvg-convert"@ {
                Rasterizer::RsvgConvert
            } else {
                Rasterizer::Inkscape
            },
            None => Rasterizer::RsvgConvert,
        }
    }
}

impl Settings {
    /// Settings with everything left open.
    pub fn new() -> (s: Settings)
        ensures
            s@ == (SettingsView {
                conversion_tool: None,
                inkscape_path: None,
                frame_resolution: None,
                max_threads: None,
            }),
    {
        Settings {
            conversion_tool: None,
            inkscape_path: None,
            frame_resolution: None,
            max_threads: None,
        }
    }

    /// Fills in the default of each setting that was left open.
    pub fn with_defaults(self) -> (s: Settings)
        ensures
            s@ == self@.completed(),
    {
        Settings {
            conversion_tool: Some(
                match self.conversion_tool {
                    Some(t) => t,
                    None => String::from_str("rsvg-convert"),
                },
            ),
            inkscape_path: Some(
                match self.inkscape_path {
                    Some(p) => p,
                    None => String::from_str("C:/Program files/Inkscape/bin/inkscape.exe"),
                },
            ),
            frame_resolution: Some(
                match self.frame_resolution {
                    Some(r) => r,
                    None => 1080,
                },
            ),
            max_threads: Some(
                match self.max_threads {
                    Some(n) => n,
                    None => 4,
                },
            ),
        }
    }

    /// The converter that the settings choose.
    pub fn rasterizer(&self) -> (r: Rasterizer)
        ensures
            r == self@.rasterizer(),
    {
        match &self.conversion_tool {
            Some(t) => {
                let name = chars_of(t.as_str());
                let first = chars_of("rsvg-convert");
                if same_chars(name.as_slice(), first.as_slice()) {
                    Rasterizer::RsvgConvert
                } else {
                    Rasterizer::Inkscape
                }
            },
            None => Rasterizer::RsvgConvert,
        }
    }
}

} // verus!
