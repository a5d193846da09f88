//! Configuration: the model read from the configuration file and the
//! resolved model the rest of the daemon consumes.

use crate::config::thresholds::{keys_are_numbers, numbered, parse_als_thresholds};
use std::collections::HashMap;
use vstd::prelude::*;

pub mod file;
pub mod thresholds;

verus! {

broadcast use vstd::std_specs::hash::group_hash_axioms;

/// How frames of an output are captured.
#[derive(Debug, Clone, Copy, PartialEq, Eq)]
pub enum Capturer {
    Wlroots,
    /// The output is not captured.
    Disabled,
}

/// Backend that reduces a captured frame to a lightness percentage.
#[derive(Debug, Clone, Copy, PartialEq, Eq)]
pub enum Processor {
    OpenGL,
    Vulkan,
}

/// Source of ambient light readings, with its thresholds keyed by number.
#[derive(Debug, Clone, PartialEq, Eq)]
pub enum Als {
    Iio { path: String, thresholds: HashMap<u64, String> },
    Time { thresholds: HashMap<u64, String> },
    Webcam { video: usize, thresholds: HashMap<u64, String> },
    /// No ambient light source.
    Disabled,
}

/// An output driven through a backlight device.
#[derive(Debug, Clone, PartialEq, Eq)]
pub struct BacklightOutput {
    pub name: String,
    pub path: String,
    pub capturer: Capturer,
    pub min_brightness: u64,
}

/// An external monitor driven through DDC.
#[derive(Debug, Clone, PartialEq, Eq)]
pub struct DdcUtilOutput {
    pub name: String,
    pub capturer: Capturer,
    pub min_brightness: u64,
}

/// Anything whose brightness the daemon adjusts.
#[derive(Debug, Clone, PartialEq, Eq)]
pub enum Output {
    Backlight(BacklightOutput),
    DdcUtil(DdcUtilOutput),
}

/// The resolved configuration.
#[derive(Debug, Clone, PartialEq, Eq)]
pub struct Config {
    pub als: Als,
    pub output: Vec<Output>,
    pub processor: Processor,
}

/// Why a configuration file is not accepted.
#[derive(Debug, Clone, Copy, PartialEq, Eq)]
pub enum ConfigError {
    /// A key of a threshold table is not an unsigned decimal number.
    InvalidThreshold,
    /// Neither an output nor a keyboard is configured.
    NoOutputs,
    /// Two outputs or keyboards share a name.
    DuplicateNames,
}

impl ConfigError {
    /// The text of the message for each error.
    pub open spec fn message_text(self) -> Seq<char> {
        match self {
            ConfigError::InvalidThreshold => "Keys of thresholds must be unsigned numbers"@,
            ConfigError::NoOutputs => "No output or keyboard configured"@,
            ConfigError::DuplicateNames => "Names of all outputs and keyboards are not unique"@,
        }
    }

    /// The message to report the error with.
    pub fn message(&self) -> (message: &'static str)
        ensures
            message@ == self.message_text(),
    {
        match self {
            ConfigError::InvalidThreshold => "Keys of thresholds must be unsigned numbers",
            ConfigError::NoOutputs => "No output or keyboard configured",
            ConfigError::DuplicateNames => "Names of all outputs and keyboards are not unique",
        }
    }
}

/// The capture backend a file entry selects.
pub open spec fn resolved_capturer(capturer: file::Capturer) -> Capturer {
    match capturer {
        file::Capturer::Wlroots => Capturer::Wlroots,
        file::Capturer::Disabled => Capturer::Disabled,
    }
}

/// The processing backend a file selects.
pub open spec fn resolved_processor(processor: file::Processor) -> Processor {
    match processor {
        file::Processor::OpenGL => Processor::OpenGL,
        file::Processor::Vulkan => Processor::Vulkan,
    }
}

/// A backlight entry of the file as an output: it is never dimmed below 1.
pub open spec fn backlight_output(entry: file::BacklightOutput) -> Output {
    Output::Backlight(
        BacklightOutput {
            name: entry.name,
            path: entry.path,
            capturer: resolved_capturer(entry.capturer),
            min_brightness: 1,
        },
    )
}

/// A DDC entry of the file as an output: it is never dimmed below 1.
pub open spec fn ddcutil_output(entry: file::DdcUtilOutput) -> Output {
    Output::DdcUtil(
        DdcUtilOutput {
            name: entry.name,
            capturer: resolved_capturer(entry.capturer),
            min_brightness: 1,
        },
    )
}

/// A keyboard as an output: a backlight that is not captured and may be
/// turned off completely.
pub open spec fn keyboard_output(entry: file::Keyboard) -> Output {
    Output::Backlight(
        BacklightOutput {
            name: entry.name,
            path: entry.path,
            capturer: Capturer::Disabled,
            min_brightness: 0,
        },
    )
}

/// The outputs of a file in their resolved order: backlights, then DDC
/// monitors, then keyboards, each group in file order.
pub open spec fn resolved_outputs(file: file::Config) -> Seq<Output> {
    file.output.backlight@.map_values(|entry: file::BacklightOutput| backlight_output(entry))
        + file.output.ddcutil@.map_values(|entry: file::DdcUtilOutput| ddcutil_output(entry))
        + file.keyboard@.map_values(|entry: file::Keyboard| keyboard_output(entry))
}

/// The threshold table of an ambient light source as written in the file.
pub open spec fn file_thresholds(als: file::Als) -> Seq<(String, String)> {
    match als {
        file::Als::Iio { thresholds, .. } => thresholds@,
        file::Als::Time { thresholds } => thresholds@,
        file::Als::Webcam { thresholds, .. } => thresholds@,
        file::Als::Disabled => Seq::empty(),
    }
}

/// `resolved` is the ambient light source that `als` describes: the same
/// kind and device, with the threshold table keyed by number.
pub open spec fn als_resolves_to(als: file::Als, resolved: Als) -> bool {
    match als {
        file::Als::Iio { path, thresholds } => resolved matches Als::Iio {
            path: resolved_path,
            thresholds: table,
        } && resolved_path == path && table@ == numbered(thresholds@),
        file::Als::Time { thresholds } => resolved matches Als::Time { thresholds: table }
            && table@ == numbered(thresholds@),
        file::Als::Webcam { video, thresholds } => resolved matches Als::Webcam {
            video: resolved_video,
            thresholds: table,
        } && resolved_video == video && table@ == numbered(thresholds@),
        file::Als::Disabled => resolved is Disabled,
    }
}

/// `config` is the resolved form of `file`.
pub open spec fn resolves_to(file: file::Config, config: Config) -> bool {
    &&& config.output@ == resolved_outputs(file)
    &&& als_resolves_to(file.als, config.als)
    &&& config.processor == resolved_processor(file.processor)
}

/// The name by which an output is configured.
pub open spec fn output_name(output: Output) -> Seq<char> {
    match output {
        Output::Backlight(backlight) => backlight.name@,
        Output::DdcUtil(ddcutil) => ddcutil.name@,
    }
}

/// No two outputs share a name.
pub open spec fn names_distinct(outputs: Seq<Output>) -> bool {
    forall|i: int, j: int|
        0 <= i < j < outputs.len() ==> output_name(#[trigger] outputs[i]) != output_name(
            #[trigger] outputs[j],
        )
}

fn convert_capturer(capturer: file::Capturer) -> (resolved: Capturer)
    ensures
        resolved == resolved_capturer(capturer),
{
    match capturer {
        file::Capturer::Wlroots => Capturer::Wlroots,
        file::Capturer::Disabled => Capturer::Disabled,
    }
}

fn convert_processor(processor: file::Processor) -> (resolved: Processor)
    ensures
        resolved == resolved_processor(processor),
{
    match processor {
        file::Processor::OpenGL => Processor::OpenGL,
        file::Processor::Vulkan => Processor::Vulkan,
    }
}

fn convert_als(als: file::Als) -> (resolved: Result<Als, ConfigError>)
    ensures
        keys_are_numbers(file_thresholds(als)) ==> (resolved matches Ok(a) && als_resolves_to(
            als,
            a,
        )),
        !keys_are_numbers(file_thresholds(als)) ==> resolved == Err::<Als, ConfigError>(
            ConfigError::InvalidThreshold,
        ),
{
    match als {
        file::Als::Iio { path, thresholds } => {
            match parse_als_thresholds(thresholds) {
                Ok(table) => Ok(Als::Iio { path, thresholds: table }),
                Err(error) => Err(error),
            }
        },
        file::Als::Time { thresholds } => {
            match parse_als_thresholds(thresholds) {
                Ok(table) => Ok(Als::Time { thresholds: table }),
                Err(error) => Err(error),
            }
        },
        file::Als::Webcam { video, thresholds } => {
            match parse_als_thresholds(thresholds) {
                Ok(table) => Ok(Als::Webcam { video, thresholds: table }),
                Err(error) => Err(error),
            }
        },
        file::Als::Disabled => Ok(Als::Disabled),
    }
}

fn convert_outputs(
    backlight: Vec<file::BacklightOutput>,
    ddcutil: Vec<file::DdcUtilOutput>,
    keyboard: Vec<file::Keyboard>,
) -> (outputs: Vec<Output>)
    ensures
        outputs@ == backlight@.map_values(|entry: file::BacklightOutput| backlight_output(entry))
            + ddcutil@.map_values(|entry: file::DdcUtilOutput| ddcutil_output(entry))
            + keyboard@.map_values(|entry: file::Keyboard| keyboard_output(entry)),
{
    let ghost first = backlight@.map_values(|entry: file::BacklightOutput| backlight_output(entry));
    let ghost second = ddcutil@.map_values(|entry: file::DdcUtilOutput| ddcutil_output(entry));
    let ghost third = keyboard@.map_values(|entry: file::Keyboard| keyboard_output(entry));
    let mut outputs: Vec<Output> = Vec::new();
    for entry in it: backlight.into_iter()
        invariant
            it.seq().map_values(|entry: file::BacklightOutput| backlight_output(entry)) == first,
            outputs@ == first.take(it.index() as int),
    {
        let file::BacklightOutput { name, path, capturer } = entry;
        outputs.push(
            Output::Backlight(
                BacklightOutput {
                    name,
                    path,
                    capturer: convert_capturer(capturer),
                    min_brightness: 1,
                },
            ),
        );
        assert(outputs@ == first.take(it.index() + 1));
    }
    assert(outputs@ == first);
    for entry in it: ddcutil.into_iter()
        invariant
            it.seq().map_values(|entry: file::DdcUtilOutput| ddcutil_output(entry)) == second,
            outputs@ == first + second.take(it.index() as int),
    {
        let file::DdcUtilOutput { name, capturer } = entry;
        outputs.push(
            Output::DdcUtil(
                DdcUtilOutput { name, capturer: convert_capturer(capturer), min_brightness: 1 },
            ),
        );
        assert(outputs@ == first + second.take(it.index() + 1));
    }
    assert(outputs@ == first + second);
    for entry in it: keyboard.into_iter()
        invariant
            it.seq().map_values(|entry: file::Keyboard| keyboard_output(entry)) == third,
            outputs@ == first + second + third.take(it.index() as int),
    {
        let file::Keyboard { name, path } = entry;
        outputs.push(
            Output::Backlight(
                BacklightOutput { name, path, capturer: Capturer::Disabled, min_brightness: 0 },
            ),
        );
        assert(outputs@ == first + second + third.take(it.index() + 1));
    }
    assert(outputs@ == first + second + third);
    outputs
}

/// Resolves a configuration file: lists backlights, DDC monitors and
/// keyboards as outputs, in this order, and keys the threshold table of the
/// ambient light source by number.
///
/// Fails exactly when a key of the threshold table is not a number.
pub fn resolve(file: file::Config) -> (resolved: Result<Config, ConfigError>)
    ensures
        keys_are_numbers(file_thresholds(file.als)) ==> (resolved matches Ok(config)
            && resolves_to(file, config)),
        !keys_are_numbers(file_thresholds(file.als)) ==> resolved == Err::<Config, ConfigError>(
            ConfigError::InvalidThreshold,
        ),
{
    let file::Config { als, output, keyboard, processor } = file;
    let file::OutputByType { backlight, ddcutil } = output;
    let outputs = convert_outputs(backlight, ddcutil, keyboard);
    match convert_als(als) {
        Ok(als) => Ok(Config { als, output: outputs, processor: convert_processor(processor) }),
        Err(error) => Err(error),
    }
}

impl Output {
    /// The name by which the output is configured.
    pub fn name(&self) -> (name: &String)
        ensures
            name@ == output_name(*self),
    {
        match self {
            Output::Backlight(backlight) => &backlight.name,
            Output::DdcUtil(ddcutil) => &ddcutil.name,
        }
    }
}

/// Accepts a configuration that names at least one output and no name
/// twice, and hands it back unchanged.
pub fn validate(config: Config) -> (validated: Result<Config, ConfigError>)
    ensures
        config.output@.len() == 0 ==> validated == Err::<Config, ConfigError>(
            ConfigError::NoOutputs,
        ),
        config.output@.len() > 0 && !names_distinct(config.output@) ==> validated == Err::<
            Config,
            ConfigError,
        >(ConfigError::DuplicateNames),
        config.output@.len() > 0 && names_distinct(config.output@) ==> validated == Ok::<
            Config,
            ConfigError,
        >(config),
{
    let count: usize = config.output.len();
    if count == 0 {
        return Err(ConfigError::NoOutputs);
    }
    let mut later: usize = 1;
    while later < count
        invariant
            count == config.output@.len(),
            1 <= later <= count,
            names_distinct(config.output@.take(later as int)),
        decreases count - later,
    {
        let mut earlier: usize = 0;
        while earlier < later
            invariant
                count == config.output@.len(),
                earlier <= later < count,
                forall|i: int|
                    0 <= i < earlier ==> output_name(#[trigger] config.output@[i]) != output_name(
                        config.output@[later as int],
                    ),
            decreases later - earlier,
        {
            if *config.output[earlier].name() == *config.output[later].name() {
                return Err(ConfigError::DuplicateNames);
            }
            earlier += 1;
        }
        later += 1;
    }
    assert(config.output@.take(count as int) == config.output@);
    Ok(config)
}

/// Resolves a configuration file and validates the result.
///
/// A threshold key that is not a number is reported first, then a
/// configuration without outputs, then a name that occurs twice.
pub fn load(file: file::Config) -> (loaded: Result<Config, ConfigError>)
    ensures
        !keys_are_numbers(file_thresholds(file.als)) ==> loaded == Err::<Config, ConfigError>(
            ConfigError::InvalidThreshold,
        ),
        keys_are_numbers(file_thresholds(file.als)) && resolved_outputs(file).len() == 0
            ==> loaded == Err::<Config, ConfigError>(ConfigError::NoOutputs),
        keys_are_numbers(file_thresholds(file.als)) && resolved_outputs(file).len() > 0
            && !names_distinct(resolved_outputs(file)) ==> loaded == Err::<Config, ConfigError>(
            ConfigError::DuplicateNames,
        ),
        keys_are_numbers(file_thresholds(file.als)) && resolved_outputs(file).len() > 0
            && names_distinct(resolved_outputs(file)) ==> (loaded matches Ok(config)
            && resolves_to(file, config)),
{
    match resolve(file) {
        Ok(config) => validate(config),
        Err(error) => Err(error),
    }
}

} // verus!
