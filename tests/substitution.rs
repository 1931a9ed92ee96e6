use arr::error::ArrError;
use arr::template::{get_vars, lookup_value, parse_command, parse_commands, split_lines, update_path};

fn setup_args() -> Vec<(String, String)> {
    vec![
        ("var1".to_string(), "1".to_string()),
        ("var2".to_string(), "2".to_string()),
        ("var3".to_string(), "3".to_string()),
    ]
}

fn store(pairs: &[(&str, &str)]) -> Vec<(String, String)> {
    pairs.iter().map(|(k, v)| (k.to_string(), v.to_string())).collect()
}

#[test]
fn no_vars() {
    assert_eq!(get_vars(&setup_args(), "abc_123_b_c"), Ok("abc_123_b_c".to_string()));
}

#[test]
fn var_in_middle() {
    assert_eq!(get_vars(&setup_args(), "abc_#{var1}_b_c"), Ok("abc_1_b_c".to_string()));
}

#[test]
fn var_at_beginning() {
    assert_eq!(get_vars(&setup_args(), "#{var1}_b_c"), Ok("1_b_c".to_string()));
}

#[test]
fn just_var() {
    assert_eq!(get_vars(&setup_args(), "#{var1}"), Ok("1".to_string()));
}

#[test]
fn fake_out_var() {
    assert_eq!(get_vars(&setup_args(), "#{var1"), Ok("#{var1".to_string()));
}

#[test]
fn tricky_vars() {
    assert_eq!(
        get_vars(&setup_args(), "abc_##{var1}#_#{var2}_#{var3}"),
        Ok("abc_#1#_2_3".to_string())
    );
}

#[test]
fn multiple_vars() {
    assert_eq!(
        get_vars(&setup_args(), "abc_#{var1}_#{var2}_#{var3}"),
        Ok("abc_1_2_3".to_string())
    );
}

#[test]
fn value_not_found() {
    assert_eq!(
        get_vars(&setup_args(), "abc_#{var1}_#{var9}_#{var3}"),
        Err(ArrError::ArgValueNotFound("var9".to_string()))
    );
}

#[test]
fn test_update_path() {
    assert_eq!(update_path("yolo", "___PathToAtomicsFolder/LOL/123"), "___yolo/LOL/123".to_string());
}

#[test]
fn plain_text_is_unchanged() {
    let t = "echo # {not} a}{ placeholder Path_To";
    assert_eq!(parse_command(t, "/root", &setup_args()), Ok(t.to_string()));
    assert_eq!(parse_command("", "/root", &setup_args()), Ok(String::new()));
}

#[test]
fn known_placeholder_gives_its_value() {
    let vars = store(&[("name", "value with spaces")]);
    assert_eq!(parse_command("#{name}", "/x", &vars), Ok("value with spaces".to_string()));
}

#[test]
fn unknown_placeholder_names_the_variable() {
    assert_eq!(
        parse_command("#{missing}", "/x", &store(&[])),
        Err(ArrError::ArgValueNotFound("missing".to_string()))
    );
}

#[test]
fn unmatched_opener_is_literal() {
    assert_eq!(parse_command("#{abc", "/x", &store(&[])), Ok("#{abc".to_string()));
}

#[test]
fn adjacent_false_starts_keep_hashes() {
    let vars = store(&[("x", "1"), ("y", "2")]);
    assert_eq!(parse_command("a_##{x}#_#{y}", "/x", &vars), Ok("a_#1#_2".to_string()));
}

#[test]
fn empty_placeholder_is_literal() {
    assert_eq!(parse_command("a#{}b", "/x", &store(&[])), Ok("a#{}b".to_string()));
}

#[test]
fn first_missing_variable_is_reported() {
    assert_eq!(
        parse_command("#{a} #{b}", "/x", &store(&[])),
        Err(ArrError::ArgValueNotFound("a".to_string()))
    );
}

#[test]
fn path_token_then_placeholder() {
    let vars = store(&[("f", "file.txt")]);
    assert_eq!(
        parse_command("cat PathToAtomicsFolder/#{f} PathToAtomics", "/data/atomics", &vars),
        Ok("cat /data/atomics/file.txt PathToAtomics".to_string())
    );
}

#[test]
fn path_token_is_not_applied_to_values() {
    let vars = store(&[("f", "PathToAtomicsFolder")]);
    assert_eq!(parse_command("#{f}", "/data", &vars), Ok("PathToAtomicsFolder".to_string()));
}

#[test]
fn substitution_is_idempotent_on_resolved_text() {
    let vars = store(&[("x", "1")]);
    let once = parse_command("echo #{x} PathToAtomicsFolder", "/d", &vars).unwrap();
    assert_eq!(once, "echo 1 /d");
    assert_eq!(parse_command(&once, "/d", &vars), Ok(once.clone()));
}

#[test]
fn later_pair_wins_in_lookup() {
    let vars = store(&[("a", "first"), ("b", "x"), ("a", "second")]);
    assert_eq!(lookup_value(&vars, &"a".to_string()), Some("second".to_string()));
    assert_eq!(lookup_value(&vars, &"c".to_string()), None);
}

#[test]
fn lines_are_split_like_text_lines() {
    assert_eq!(split_lines("a\r\nb\n\nc"), vec!["a", "b", "", "c"]);
    assert_eq!(split_lines("a\n"), vec!["a"]);
    assert_eq!(split_lines("a\r"), vec!["a\r"]);
    assert!(split_lines("").is_empty());
}

#[test]
fn multi_line_templates_are_joined() {
    let vars = store(&[("x", "1")]);
    assert_eq!(
        parse_commands("echo #{x}\r\necho PathToAtomicsFolder\n", "/d", &vars),
        Ok("echo 1;echo /d".to_string())
    );
    assert_eq!(parse_commands("", "/d", &vars), Ok(String::new()));
    assert_eq!(parse_commands("a\n\nb", "/d", &vars), Ok("a;;b".to_string()));
}

#[test]
fn multi_line_failure_names_first_missing() {
    assert_eq!(
        parse_commands("ok\n#{p}\n#{q}", "/d", &store(&[])),
        Err(ArrError::ArgValueNotFound("p".to_string()))
    );
}
