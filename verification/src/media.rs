//! Media settings as the wallpaper tools name them.
use vstd::prelude::*;

verus! {

/// How a still image fills an output.
#[derive(Debug, Clone, Copy, PartialEq, Eq, Structural)]
pub enum ImageMode {
    Fill,
    Fit,
    Center,
}

impl ImageMode {
    pub open spec fn name(self) -> Seq<char> {
        match self {
            ImageMode::Fill => "fill"@,
            ImageMode::Fit => "fit"@,
            ImageMode::Center => "center"@,
        }
    }

    pub fn as_str(self) -> (s: &'static str)
        ensures
            s@ == self.name(),
    {
        match self {
            ImageMode::Fill => "fill",
            ImageMode::Fit => "fit",
            ImageMode::Center => "center",
        }
    }
}

/// Whether a video repeats.
#[derive(Debug, Clone, Copy, PartialEq, Eq, Structural)]
pub enum LoopPolicy {
    Infinite,
    Once,
}

impl LoopPolicy {
    pub open spec fn name(self) -> Seq<char> {
        match self {
            LoopPolicy::Infinite => "infinite"@,
            LoopPolicy::Once => "once"@,
        }
    }

    pub fn as_str(self) -> (s: &'static str)
        ensures
            s@ == self.name(),
    {
        match self {
            LoopPolicy::Infinite => "infinite",
            LoopPolicy::Once => "once",
        }
    }
}

/// A still image assigned to a Wayland output.
#[derive(Debug, Clone, PartialEq, Eq)]
pub struct OutputAssignment {
    pub output_name: String,
    pub image_mode: ImageMode,
}

} // verus!
