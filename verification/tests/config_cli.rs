//! Configuration values, their sanity checks, and the argument values.

use mixxx_library_converter::cli::CliArguments;
use mixxx_library_converter::config::Config;
use mixxx_library_converter::config::ConfigError;
use mixxx_library_converter::config::expand_home;

fn config(target_library_root: &str) -> Config {
    Config {
        mixxx_db: String::from("/home/u/.mixxx/mixxxdb.sqlite"),
        target_directory: String::from("~/export"),
        source_library_root: String::from("/home/u/Mixxx"),
        target_library_root: String::from(target_library_root),
        rebase_paths: true,
    }
}

#[test]
fn tilde_expansion() {
    assert_eq!(expand_home("~", "/home/u"), "/home/u");
    assert_eq!(expand_home("~/export", "/home/u"), "/home/u/export");
    assert_eq!(expand_home("/absolute", "/home/u"), "/absolute");
    // A named user is not resolved and passes through unchanged.
    assert_eq!(expand_home("~other/x", "/home/u"), "~other/x");
    assert_eq!(expand_home("", "/home/u"), "");
}

#[test]
fn target_directory_expands_home() {
    let c = config("C:/Users/u/Music");
    assert_eq!(c.target_directory("/home/u"), "/home/u/export");
}

#[test]
fn validate_checks_in_order() {
    let c = config("C:/Users/u/Music");
    assert_eq!(c.validate(false, false), Err(ConfigError::TargetDirectoryMissing));
    assert_eq!(c.validate(true, false), Err(ConfigError::TargetLibraryRootMissing));
    assert_eq!(c.validate(true, true), Ok(()));
}

#[test]
fn validate_rejects_relative_target_root() {
    let c = config("Music/Mixxx");
    assert_eq!(c.validate(true, true), Err(ConfigError::TargetLibraryRootNotAbsolute));
    let unix_rooted = config("/srv/music");
    assert_eq!(unix_rooted.validate(true, true), Ok(()));
}

#[test]
fn cli_argument_values() {
    let args = CliArguments { verbose: 2, json_export: true };
    assert_eq!(args.verbose, 2);
    assert!(args.json_export);
}
