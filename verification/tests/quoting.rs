use runas::windows::{build_parameters, runas_spawn};
use runas::Command;

fn params(args: &[&str]) -> String {
    let owned: Vec<String> = args.iter().map(|a| a.to_string()).collect();
    build_parameters(&owned)
}

#[test]
fn no_arguments_give_an_empty_string() {
    assert_eq!(params(&[]), "");
}

#[test]
fn empty_argument_is_a_pair_of_quotes() {
    assert_eq!(params(&[""]), "\"\"");
}

#[test]
fn plain_argument_is_written_as_it_is() {
    assert_eq!(params(&["plain"]), "plain");
}

#[test]
fn argument_with_space_is_quoted() {
    assert_eq!(params(&["a b"]), "\"a b\"");
}

#[test]
fn argument_with_tab_is_quoted() {
    assert_eq!(params(&["a\tb"]), "\"a\tb\"");
}

#[test]
fn quote_is_escaped() {
    assert_eq!(params(&["a\"b"]), "\"a\\\"b\"");
    assert_eq!(params(&["a\"b"]), r#""a\"b""#);
}

#[test]
fn backslash_is_doubled_only_between_quotes() {
    assert_eq!(params(&["a\\b"]), "a\\b");
    assert_eq!(params(&[r"C:\dir\f"]), r"C:\dir\f");
    assert_eq!(params(&["a \\b"]), "\"a \\\\b\"");
    assert_eq!(params(&[r"a\b c"]), r#""a\\b c""#);
    assert_eq!(params(&["a b\\"]), "\"a b\\\\\"");
}

#[test]
fn arguments_are_separated_by_spaces() {
    assert_eq!(
        params(&["/c", "", "a b", "x\"y", "plain"]),
        "/c \"\" \"a b\" \"x\\\"y\" plain"
    );
    assert_eq!(params(&["x", "", "a\tb"]), "x \"\" \"a\tb\"");
    assert_eq!(params(&["", ""]), "\"\" \"\"");
}

#[test]
fn characters_beyond_ascii_are_kept() {
    assert_eq!(params(&["é", "ü ö"]), "é \"ü ö\"");
}

#[test]
fn request_of_a_shown_command() {
    let mut cmd = Command::new("tool.exe");
    cmd.arg("a b").arg("c");
    let request = runas_spawn(&cmd);
    assert_eq!(request.init, 6);
    assert_eq!(request.verb, "runas");
    assert_eq!(request.file, "tool.exe");
    assert_eq!(request.parameters, "\"a b\" c");
    assert_eq!(request.mask, 0x140);
    assert_eq!(request.show, 1);
}

#[test]
fn request_of_a_hidden_command() {
    let mut cmd = Command::new("tool.exe");
    cmd.set_hide(true);
    let request = runas_spawn(&cmd);
    assert_eq!(request.show, 0);
    assert_eq!(request.parameters, "");
}

#[test]
fn one_empty_argument_is_not_dropped() {
    let mut cmd = Command::new("prog");
    cmd.arg("");
    assert_eq!(runas_spawn(&cmd).parameters, r#""""#);
}
