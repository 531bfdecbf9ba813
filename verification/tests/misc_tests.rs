use libmoshpit::text::{ascii_string, decimal_string};
use libmoshpit::{
    directives, directives_from, exit_report, success, Ending, Stream, to_path_buf, Error, FileLayer, Layer, Level, LevelFilter, Mps, Tracing,
    TracingConfigExt, UuidWrapper,
};

struct TestConfig {
    level: Level,
    directives: Option<String>,
    enable_stdout: bool,
}

impl TestConfig {
    fn with_directives(enable_stdout: bool) -> Self {
        Self {
            level: Level::Info,
            directives: Some("actix_web=error".to_string()),
            enable_stdout,
        }
    }
}

impl Default for TestConfig {
    fn default() -> Self {
        Self {
            level: Level::Info,
            directives: None,
            enable_stdout: false,
        }
    }
}

impl TracingConfigExt for TestConfig {
    fn level(&self) -> Level {
        self.level
    }

    fn enable_stdout(&self) -> bool {
        self.enable_stdout
    }

    fn directives(&self) -> Option<&String> {
        self.directives.as_ref()
    }
}

#[test]
fn test_success() {
    assert_eq!(success(()), 0);
}

#[test]
fn test_to_path_buf() {
    let path_str = String::from("/some/test/path");
    let path_buf = to_path_buf(&path_str).unwrap();
    assert_eq!(path_buf.to_str().unwrap(), "/some/test/path");
}

#[test]
fn test_directives() {
    let config = TestConfig::default();
    let level_filter = LevelFilter::Off;
    let dirs = directives(&config, level_filter);
    assert_eq!(dirs, "info");
    let level_filter = LevelFilter::Trace;
    let dirs = directives(&config, level_filter);
    assert_eq!(dirs, "trace");
    let level_filter = LevelFilter::Debug;
    let dirs = directives(&config, level_filter);
    assert_eq!(dirs, "debug");
    let level_filter = LevelFilter::Warn;
    let dirs = directives(&config, level_filter);
    assert_eq!(dirs, "warn");
    let level_filter = LevelFilter::Error;
    let dirs = directives(&config, level_filter);
    assert_eq!(dirs, "error");
}

#[test]
fn directives_with_additional_ones() {
    let config = TestConfig::with_directives(true);
    assert!(config.enable_stdout());
    assert_eq!(config.level(), Level::Info);
    assert_eq!(directives(&config, LevelFilter::Info), "info,actix_web=error");
    assert_eq!(directives(&config, LevelFilter::Off), "info,actix_web=error");
    assert_eq!(directives(&config, LevelFilter::Trace), "trace,actix_web=error");
}

#[test]
fn directives_from_filter_and_text() {
    assert_eq!(directives_from(LevelFilter::Off, None), "info");
    assert_eq!(directives_from(LevelFilter::Error, None), "error");
    let extra = "hyper=warn,h2=off".to_string();
    assert_eq!(
        directives_from(LevelFilter::Debug, Some(&extra)),
        "debug,hyper=warn,h2=off"
    );
    assert_eq!(directives_from(LevelFilter::Warn, Some(&String::new())), "warn,");
}

#[test]
fn level_filters_and_levels() {
    assert_eq!(LevelFilter::Off.into_level(), None);
    for level in [Level::Error, Level::Warn, Level::Info, Level::Debug, Level::Trace] {
        assert_eq!(LevelFilter::from_level(level).into_level(), Some(level));
    }
}

#[test]
fn config_getters() {
    let mps = Mps::new("127.0.0.1".to_string(), 8080);
    assert_eq!(mps.ip(), "127.0.0.1");
    assert_eq!(mps.port(), 8080);
    assert_eq!(Mps::default().port(), 0);

    let layer = Layer::new(true, false, true, false, true, Some("a=b".to_string()));
    assert!(layer.with_target());
    assert!(!layer.with_thread_ids());
    assert!(layer.with_thread_names());
    assert!(!layer.with_line_number());
    assert!(layer.with_level());
    assert_eq!(layer.directives(), &Some("a=b".to_string()));

    let file = FileLayer::new(1, 2, layer.clone());
    assert_eq!(file.quiet(), 1);
    assert_eq!(file.verbose(), 2);
    assert!(!file.with_ansi());
    assert!(file.with_target());
    assert!(!file.with_thread_ids());
    assert!(file.with_thread_names());
    assert!(!file.with_line_number());
    assert!(file.with_level());
    assert!(!file.enable_stdout());
    assert_eq!(TracingConfigExt::directives(&file), Some(&"a=b".to_string()));
    assert_eq!(directives(&file, LevelFilter::Warn), "warn,a=b");

    let tracing = Tracing::new(Layer::default(), file.clone());
    assert_eq!(tracing.stdout(), &Layer::default());
    assert_eq!(tracing.file(), &file);
}

fn around_info(quiet: u8, verbose: u8) -> Level {
    match (verbose, quiet) {
        (1, _) => Level::Debug,
        (2.., _) => Level::Trace,
        (0, 1) => Level::Warn,
        (0, 2..) => Level::Error,
        (0, 0) => Level::Info,
    }
}

fn up_from_error(verbose: u8) -> Level {
    match verbose {
        0 => Level::Error,
        1 => Level::Warn,
        2 => Level::Info,
        3 => Level::Debug,
        _ => Level::Trace,
    }
}

#[test]
fn file_layer_level_counts_in_one_of_two_ways() {
    let mut all_around_info = true;
    let mut all_up_from_error = true;
    for quiet in [0u8, 1, 2, 3, 255] {
        for verbose in [0u8, 1, 2, 3, 4, 5, 255] {
            let level = FileLayer::new(quiet, verbose, Layer::default()).level();
            let first = around_info(quiet, verbose);
            let second = up_from_error(verbose);
            assert!(level == first || level == second);
            all_around_info &= level == first;
            all_up_from_error &= level == second;
        }
    }
    assert!(all_around_info || all_up_from_error);
    assert_eq!(FileLayer::new(2, 0, Layer::default()).level(), Level::Error);
    assert_eq!(FileLayer::new(0, 4, Layer::default()).level(), Level::Trace);
}

#[test]
fn file_layer_level_is_one_of_the_levels() {
    let file = FileLayer::new(0, 5, Layer::default());
    assert_eq!(file.level(), Level::Trace);
    let level = FileLayer::new(0, 0, Layer::default()).level();
    assert!([Level::Error, Level::Warn, Level::Info, Level::Debug, Level::Trace].contains(&level));
}

#[test]
fn error_messages() {
    assert_eq!(Error::Incomplete.message(), "incomplete data");
    assert_eq!(Error::ConnectionResetByPeer.message(), "connection reset by peer");
    assert_eq!(Error::InvalidFrame.message(), "An invalid frame was received");
    assert_eq!(Error::KeyNotEstablished.message(), "A key has not been established");
    assert_eq!(Error::DecryptionFailed.message(), "Decryption failed");
    assert_eq!(Error::InvalidIpAddress.message(), "An invalid IP address was provided");
}

#[test]
fn uuid_wrapper_keeps_the_identifier() {
    let uuid = uuid::Uuid::from_bytes([
        0x93, 0x6d, 0xa0, 0x1f, 0x9a, 0xbd, 0x4d, 0x9d, 0x80, 0xc7, 0x02, 0xaf, 0x85, 0xc8, 0x22,
        0xa8,
    ]);
    let wrapper = UuidWrapper::new(uuid);
    assert_eq!(wrapper.as_uuid(), uuid);
    assert_eq!(wrapper.as_bytes(), uuid.as_bytes());
    assert_eq!(UuidWrapper::from_bytes(*uuid.as_bytes()), wrapper);
    assert_eq!(wrapper.to_text(), b"936da01f-9abd-4d9d-80c7-02af85c822a8".to_vec());
    assert_eq!(
        UuidWrapper::parse_text(b"936da01f-9abd-4d9d-80c7-02af85c822a8"),
        Some(wrapper)
    );
    assert_eq!(UuidWrapper::parse_text(b"not an identifier"), None);
    assert_eq!(UuidWrapper::parse_text(b""), None);
}

#[test]
fn uuid_wrapper_random_ones_are_of_version_4() {
    for _ in 0..64 {
        let id = UuidWrapper::random();
        let bytes = id.as_bytes();
        assert_eq!(bytes[6] >> 4, 4);
        assert_eq!(bytes[8] >> 6, 2);
        assert_eq!(id.as_uuid().get_version_num(), 4);
        assert_eq!(id.as_uuid().get_variant(), uuid::Variant::RFC4122);
    }
}

#[test]
fn uuid_wrapper_random_ones_differ() {
    let first = UuidWrapper::random();
    let second = UuidWrapper::random();
    assert_ne!(first, second);
    assert_eq!(UuidWrapper::parse_text(&first.to_text()), Some(first));
}

fn ending_of_kind(kind: clap::error::ErrorKind) -> Ending {
    match kind {
        clap::error::ErrorKind::DisplayHelp => Ending::Help,
        clap::error::ErrorKind::DisplayVersion => Ending::Version,
        _ => Ending::Usage,
    }
}

#[test]
fn exit_report_of_each_ending() {
    assert_eq!(exit_report(Ending::Help), (0, Stream::Stdout));
    assert_eq!(exit_report(Ending::Version), (0, Stream::Stdout));
    assert_eq!(exit_report(Ending::Usage), (1, Stream::Stderr));
    assert_eq!(exit_report(Ending::UnknownKind), (1, Stream::Stderr));
    assert_eq!(exit_report(Ending::Failure), (1, Stream::Stderr));
}

#[test]
fn exit_report_of_command_line_errors() {
    let mut cmd = clap::Command::new("libmoshpit");
    let error = cmd.error(clap::error::ErrorKind::DisplayHelp, "help");
    assert_eq!(exit_report(ending_of_kind(error.kind())).0, 0);
    let error = cmd.error(clap::error::ErrorKind::DisplayVersion, "1.0");
    assert_eq!(exit_report(ending_of_kind(error.kind())).0, 0);
    let error = cmd.error(clap::error::ErrorKind::InvalidValue, "Some failure case");
    assert_eq!(exit_report(ending_of_kind(error.kind())).0, 1);
}

fn digit(n: u8) -> u8 {
    if n < 10 {
        b'0' + n
    } else {
        b'a' + (n - 10)
    }
}

fn text_of(bytes: &[u8; 16]) -> Vec<u8> {
    let mut text = Vec::new();
    for (at, byte) in bytes.iter().enumerate() {
        if at == 4 || at == 6 || at == 8 || at == 10 {
            text.push(b'-');
        }
        text.push(digit(byte / 16));
        text.push(digit(byte % 16));
    }
    text
}

#[test]
fn uuid_text_is_lower_case_digits_in_five_groups() {
    let samples: [[u8; 16]; 4] = [
        [0u8; 16],
        [0xffu8; 16],
        [
            0x01, 0x23, 0x45, 0x67, 0x89, 0xab, 0xcd, 0xef, 0xfe, 0xdc, 0xba, 0x98, 0x76, 0x54,
            0x32, 0x10,
        ],
        [
            0x93, 0x6d, 0xa0, 0x1f, 0x9a, 0xbd, 0x4d, 0x9d, 0x80, 0xc7, 0x02, 0xaf, 0x85, 0xc8,
            0x22, 0xa8,
        ],
    ];
    for bytes in samples {
        let text = UuidWrapper::from_bytes(bytes).to_text();
        assert_eq!(text.len(), 36);
        assert_eq!(text, text_of(&bytes));
    }
    assert_eq!(
        UuidWrapper::from_bytes(samples[2]).to_text(),
        b"01234567-89ab-cdef-fedc-ba9876543210".to_vec()
    );
    for _ in 0..32 {
        let id = UuidWrapper::random();
        assert_eq!(id.to_text(), text_of(id.as_bytes()));
    }
}

#[test]
fn decimal_string_of_numbers() {
    for n in [0usize, 1, 9, 10, 11, 99, 100, 101, 4096, 65_535, 1_000_000, usize::MAX] {
        assert_eq!(decimal_string(n), format!("{n}"));
    }
    assert_eq!(decimal_string(0), "0");
    assert_eq!(decimal_string(1203), "1203");
}

#[test]
fn ascii_string_of_bytes() {
    assert_eq!(ascii_string(b""), Some(String::new()));
    assert_eq!(ascii_string(b"hello, world"), Some("hello, world".to_string()));
    assert_eq!(ascii_string(&[0u8, 127]), Some("\u{0}\u{7f}".to_string()));
    assert_eq!(ascii_string(&[b'a', 128]), None);
    assert_eq!(ascii_string(&[0xc3, 0xa9]), None);
    assert_eq!(ascii_string(&[0xff]), None);
}

#[test]
fn uuid_wrapper_as_a_string() {
    let bytes: [u8; 16] = [
        0x93, 0x6d, 0xa0, 0x1f, 0x9a, 0xbd, 0x4d, 0x9d, 0x80, 0xc7, 0x02, 0xaf, 0x85, 0xc8, 0x22,
        0xa8,
    ];
    let id = UuidWrapper::from_bytes(bytes);
    assert_eq!(id.hyphenated(), "936da01f-9abd-4d9d-80c7-02af85c822a8");
    assert_eq!(id.hyphenated(), id.as_uuid().to_string());
    assert_eq!(id.hyphenated().into_bytes(), id.to_text());
    for _ in 0..16 {
        let id = UuidWrapper::random();
        assert_eq!(id.hyphenated(), id.as_uuid().to_string());
    }
}

#[test]
fn uuid_wrapper_from_a_uuid() {
    let uuid = uuid::Uuid::from_bytes([0x5au8; 16]);
    let wrapper = UuidWrapper::from(uuid);
    assert_eq!(wrapper, UuidWrapper::new(uuid));
    assert_eq!(wrapper.as_bytes(), &[0x5au8; 16]);
    let through_into: UuidWrapper = uuid.into();
    assert_eq!(through_into, wrapper);
    let other = UuidWrapper::from(uuid::Uuid::from_bytes([0x5bu8; 16]));
    assert_ne!(other, wrapper);
}
