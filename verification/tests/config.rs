use std::collections::HashMap;
use wluma::config::file::{
    Als as FileAls, BacklightOutput as FileBacklight, Capturer as FileCapturer,
    Config as FileConfig, DdcUtilOutput as FileDdcUtil, Keyboard, OutputByType,
    Processor as FileProcessor,
};
use wluma::config::thresholds::parse_als_thresholds;
use wluma::config::{
    load, resolve, validate, Als, BacklightOutput, Capturer, Config, ConfigError, DdcUtilOutput,
    Output, Processor,
};

fn entries(pairs: &[(&str, &str)]) -> Vec<(String, String)> {
    pairs.iter().map(|(key, value)| (key.to_string(), value.to_string())).collect()
}

fn table(pairs: &[(u64, &str)]) -> HashMap<u64, String> {
    pairs.iter().map(|(key, value)| (*key, value.to_string())).collect()
}

fn backlight(name: &str, path: &str, capturer: FileCapturer) -> FileBacklight {
    FileBacklight { name: name.to_string(), path: path.to_string(), capturer }
}

fn ddcutil(name: &str, capturer: FileCapturer) -> FileDdcUtil {
    FileDdcUtil { name: name.to_string(), capturer }
}

fn keyboard(name: &str, path: &str) -> Keyboard {
    Keyboard { name: name.to_string(), path: path.to_string() }
}

fn example() -> FileConfig {
    FileConfig {
        als: FileAls::Iio {
            path: "/sys/bus/iio/devices".to_string(),
            thresholds: entries(&[("0", "night"), ("20", "dark"), ("80", "dim"), ("250", "normal")]),
        },
        output: OutputByType {
            backlight: vec![backlight(
                "eDP-1",
                "/sys/class/backlight/intel_backlight",
                FileCapturer::Wlroots,
            )],
            ddcutil: vec![ddcutil("Dell", FileCapturer::Disabled)],
        },
        keyboard: vec![keyboard("keyboard-dell", "/sys/bus/platform/devices/dell-laptop/leds")],
        processor: FileProcessor::Vulkan,
    }
}

fn resolved_example() -> Config {
    Config {
        als: Als::Iio {
            path: "/sys/bus/iio/devices".to_string(),
            thresholds: table(&[(0, "night"), (20, "dark"), (80, "dim"), (250, "normal")]),
        },
        output: vec![
            Output::Backlight(BacklightOutput {
                name: "eDP-1".to_string(),
                path: "/sys/class/backlight/intel_backlight".to_string(),
                capturer: Capturer::Wlroots,
                min_brightness: 1,
            }),
            Output::DdcUtil(DdcUtilOutput {
                name: "Dell".to_string(),
                capturer: Capturer::Disabled,
                min_brightness: 1,
            }),
            Output::Backlight(BacklightOutput {
                name: "keyboard-dell".to_string(),
                path: "/sys/bus/platform/devices/dell-laptop/leds".to_string(),
                capturer: Capturer::Disabled,
                min_brightness: 0,
            }),
        ],
        processor: Processor::Vulkan,
    }
}

#[test]
fn the_processor_defaults_to_vulkan() {
    assert_eq!(FileProcessor::default(), FileProcessor::Vulkan);
}

#[test]
fn threshold_keys_become_numbers() {
    assert_eq!(parse_als_thresholds(entries(&[])), Ok(HashMap::new()));
    assert_eq!(
        parse_als_thresholds(entries(&[("0", "night"), ("20", "dark"), ("250", "normal")])),
        Ok(table(&[(0, "night"), (20, "dark"), (250, "normal")]))
    );
    assert_eq!(
        parse_als_thresholds(entries(&[("+7", "a"), ("007", "b"), ("18446744073709551615", "c")])),
        Ok(table(&[(7, "b"), (u64::MAX, "c")]))
    );
}

#[test]
fn of_two_keys_for_one_number_the_later_stands() {
    assert_eq!(
        parse_als_thresholds(entries(&[("5", "first"), ("6", "other"), ("05", "second")])),
        Ok(table(&[(5, "second"), (6, "other")]))
    );
    assert_eq!(
        parse_als_thresholds(entries(&[("05", "second"), ("5", "first")])),
        Ok(table(&[(5, "first")]))
    );
}

#[test]
fn keys_that_are_no_numbers_are_refused() {
    for key in [
        "", "+", "-", "-1", "1.5", "1e3", "0x10", " 1", "1 ", "1_000", "++1", "+-1", "night",
        "١٢", "18446744073709551616", "99999999999999999999999",
    ] {
        assert_eq!(
            parse_als_thresholds(entries(&[("1", "a"), (key, "b"), ("2", "c")])),
            Err(ConfigError::InvalidThreshold),
            "key {:?}",
            key
        );
    }
}

#[test]
fn a_file_is_resolved_in_the_order_of_its_kinds() {
    assert_eq!(resolve(example()), Ok(resolved_example()));
}

#[test]
fn outputs_keep_the_order_of_the_file() {
    let mut file = example();
    file.output.backlight = vec![
        backlight("b1", "/p1", FileCapturer::Disabled),
        backlight("b2", "/p2", FileCapturer::Wlroots),
    ];
    file.output.ddcutil = vec![
        ddcutil("d1", FileCapturer::Wlroots),
        ddcutil("d2", FileCapturer::Disabled),
        ddcutil("d3", FileCapturer::Wlroots),
    ];
    file.keyboard = vec![keyboard("k1", "/k1"), keyboard("k2", "/k2")];
    let config = resolve(file).unwrap();
    let names: Vec<&str> = config.output.iter().map(|output| output.name().as_str()).collect();
    assert_eq!(names, vec!["b1", "b2", "d1", "d2", "d3", "k1", "k2"]);
    assert_eq!(
        config.output[1],
        Output::Backlight(BacklightOutput {
            name: "b2".to_string(),
            path: "/p2".to_string(),
            capturer: Capturer::Wlroots,
            min_brightness: 1,
        })
    );
    assert_eq!(
        config.output[2],
        Output::DdcUtil(DdcUtilOutput {
            name: "d1".to_string(),
            capturer: Capturer::Wlroots,
            min_brightness: 1,
        })
    );
    assert_eq!(
        config.output[6],
        Output::Backlight(BacklightOutput {
            name: "k2".to_string(),
            path: "/k2".to_string(),
            capturer: Capturer::Disabled,
            min_brightness: 0,
        })
    );
}

#[test]
fn every_light_source_is_resolved() {
    let mut file = example();
    file.als = FileAls::Time { thresholds: entries(&[("9", "day"), ("21", "night")]) };
    file.processor = FileProcessor::OpenGL;
    let config = resolve(file).unwrap();
    assert_eq!(config.als, Als::Time { thresholds: table(&[(9, "day"), (21, "night")]) });
    assert_eq!(config.processor, Processor::OpenGL);

    let mut file = example();
    file.als = FileAls::Webcam { video: 2, thresholds: entries(&[("15", "dark")]) };
    let config = resolve(file).unwrap();
    assert_eq!(config.als, Als::Webcam { video: 2, thresholds: table(&[(15, "dark")]) });
    assert_eq!(config.processor, Processor::Vulkan);

    let mut file = example();
    file.als = FileAls::Disabled;
    assert_eq!(resolve(file).unwrap().als, Als::Disabled);
}

#[test]
fn a_bad_threshold_key_fails_the_file() {
    let bad = entries(&[("0", "night"), ("bright", "day")]);
    let mut file = example();
    file.als = FileAls::Iio { path: "/sys".to_string(), thresholds: bad.clone() };
    assert_eq!(resolve(file), Err(ConfigError::InvalidThreshold));
    let mut file = example();
    file.als = FileAls::Time { thresholds: bad.clone() };
    assert_eq!(resolve(file), Err(ConfigError::InvalidThreshold));
    let mut file = example();
    file.als = FileAls::Webcam { video: 0, thresholds: bad };
    assert_eq!(load(file), Err(ConfigError::InvalidThreshold));
}

#[test]
fn a_configuration_needs_an_output() {
    let empty = Config { als: Als::Disabled, output: vec![], processor: Processor::OpenGL };
    assert_eq!(validate(empty), Err(ConfigError::NoOutputs));
    let mut file = example();
    file.output = OutputByType { backlight: vec![], ddcutil: vec![] };
    file.keyboard = vec![];
    assert_eq!(load(file), Err(ConfigError::NoOutputs));
}

#[test]
fn names_have_to_differ() {
    let mut file = example();
    file.keyboard.push(keyboard("eDP-1", "/other"));
    assert_eq!(load(file), Err(ConfigError::DuplicateNames));
    let mut file = example();
    file.output.ddcutil.push(ddcutil("Dell", FileCapturer::Wlroots));
    assert_eq!(load(file), Err(ConfigError::DuplicateNames));
    let mut file = example();
    file.output.ddcutil.push(ddcutil("keyboard-dell", FileCapturer::Wlroots));
    assert_eq!(load(file), Err(ConfigError::DuplicateNames));
    let mut config = resolved_example();
    let first = config.output[0].clone();
    config.output.push(first);
    assert_eq!(validate(config), Err(ConfigError::DuplicateNames));
}

#[test]
fn names_that_differ_in_case_are_different() {
    let mut file = example();
    file.keyboard.push(keyboard("edp-1", "/other"));
    file.keyboard.push(keyboard("eDP-1 ", "/other"));
    assert_eq!(load(file).unwrap().output.len(), 5);
}

#[test]
fn a_valid_configuration_is_handed_back() {
    assert_eq!(validate(resolved_example()), Ok(resolved_example()));
    assert_eq!(load(example()), Ok(resolved_example()));
    let single = Config {
        als: Als::Disabled,
        output: vec![Output::DdcUtil(DdcUtilOutput {
            name: String::new(),
            capturer: Capturer::Wlroots,
            min_brightness: 1,
        })],
        processor: Processor::OpenGL,
    };
    assert_eq!(validate(single.clone()), Ok(single));
}

#[test]
fn a_bad_threshold_is_reported_before_the_outputs() {
    let mut file = example();
    file.als = FileAls::Time { thresholds: entries(&[("noon", "day")]) };
    file.output = OutputByType { backlight: vec![], ddcutil: vec![] };
    file.keyboard = vec![];
    assert_eq!(load(file), Err(ConfigError::InvalidThreshold));
    let mut file = example();
    file.als = FileAls::Time { thresholds: entries(&[("noon", "day")]) };
    file.keyboard.push(keyboard("eDP-1", "/other"));
    assert_eq!(load(file), Err(ConfigError::InvalidThreshold));
}

#[test]
fn an_output_is_known_by_its_name() {
    let config = resolved_example();
    assert_eq!(config.output[0].name(), "eDP-1");
    assert_eq!(config.output[1].name(), "Dell");
    assert_eq!(config.output[2].name(), "keyboard-dell");
}

#[test]
fn errors_have_messages() {
    assert_eq!(ConfigError::NoOutputs.message(), "No output or keyboard configured");
    assert_eq!(
        ConfigError::DuplicateNames.message(),
        "Names of all outputs and keyboards are not unique"
    );
    assert_eq!(
        ConfigError::InvalidThreshold.message(),
        "Keys of thresholds must be unsigned numbers"
    );
}
