//! The configuration as it is written in the configuration file.

use vstd::prelude::*;

verus! {

/// How frames of an output are captured.
#[derive(Debug, Clone, Copy, PartialEq, Eq)]
pub enum Capturer {
    Wlroots,
    /// The output is not captured (`none` in the file).
    Disabled,
}

/// Backend that reduces a captured frame to a lightness percentage.
#[derive(Debug, Clone, Copy, PartialEq, Eq)]
pub enum Processor {
    OpenGL,
    Vulkan,
}

impl Default for Processor {
    fn default() -> (processor: Self)
        ensures
            processor == Processor::Vulkan,
    {
        Processor::Vulkan
    }
}

/// Source of ambient light readings. Threshold tables are kept as the
/// `(key, value)` entries of the file's table, keys still unparsed.
#[derive(Debug, Clone, PartialEq, Eq)]
pub enum Als {
    Iio { path: String, thresholds: Vec<(String, String)> },
    Time { thresholds: Vec<(String, String)> },
    Webcam { video: usize, thresholds: Vec<(String, String)> },
    /// No ambient light source (`none` in the file).
    Disabled,
}

/// An output driven through a backlight device.
#[derive(Debug, Clone, PartialEq, Eq)]
pub struct BacklightOutput {
    pub name: String,
    pub path: String,
    pub capturer: Capturer,
}

/// An external monitor driven through DDC.
#[derive(Debug, Clone, PartialEq, Eq)]
pub struct DdcUtilOutput {
    pub name: String,
    pub capturer: Capturer,
}

/// The outputs of the file, grouped by the way they are driven.
#[derive(Debug, Clone, PartialEq, Eq)]
pub struct OutputByType {
    pub backlight: Vec<BacklightOutput>,
    pub ddcutil: Vec<DdcUtilOutput>,
}

/// A keyboard backlight.
#[derive(Debug, Clone, PartialEq, Eq)]
pub struct Keyboard {
    pub name: String,
    pub path: String,
}

/// The whole configuration file.
#[derive(Debug, Clone, PartialEq, Eq)]
pub struct Config {
    pub als: Als,
    pub output: OutputByType,
    pub keyboard: Vec<Keyboard>,
    pub processor: Processor,
}

} // verus!
