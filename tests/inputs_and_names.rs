use arr::error::ArrError;
use arr::locate::{definition_file_name, eq_ignore_ascii_case, is_definition_file, is_root_marker, is_technique_file};
use arr::overrides::parse_vars;

#[test]
fn overrides_split_at_equals() {
    assert_eq!(parse_vars("msg=hello"), Ok(("msg".to_string(), "hello".to_string())));
    assert_eq!(parse_vars("a=b=c"), Ok(("a".to_string(), "b".to_string())));
    assert_eq!(parse_vars("a="), Ok(("a".to_string(), String::new())));
    assert_eq!(
        parse_vars("novalue"),
        Err("Please specify variables using the VARIABLE=VALUE format (no spaces around '=')".to_string())
    );
}

#[test]
fn file_names_match_without_ascii_case() {
    assert!(eq_ignore_ascii_case("T1574.006.YAML", "t1574.006.yaml"));
    assert!(!eq_ignore_ascii_case("abc", "abd"));
    assert!(!eq_ignore_ascii_case("ß", "SS"));
    assert_eq!(definition_file_name("t1574.006"), "t1574.006.yaml");
    assert!(is_definition_file("T1574.006.yaml", "t1574.006"));
    assert!(!is_definition_file("T1574.006.yml", "t1574.006"));
    assert!(is_root_marker("USED_GUIDS.txt"));
    assert!(!is_root_marker("used_guids.txt.bak"));
    assert!(is_technique_file("T1003.yaml"));
    assert!(!is_technique_file("t1003.yaml"));
    assert!(!is_technique_file("T1003.yml"));
    assert!(!is_technique_file("T"));
}

#[test]
fn error_messages() {
    assert_eq!(ArrError::RootRequired.message(), "Root required");
    assert_eq!(ArrError::OsNotSupported.message(), "The test does not support this OS");
    assert_eq!(ArrError::CannotLocateYamlFile.message(), "Cannot Locate YAML file");
    assert_eq!(ArrError::ArgValueNotFound("x".to_string()).message(), "x");
    assert_eq!(
        ArrError::CommandExecutionFailed.message(),
        "Command ran, but returned an unsuccess return code"
    );
}
