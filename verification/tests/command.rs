use runas::Command;

#[test]
fn a_new_command_has_no_arguments_and_is_shown() {
    let cmd = Command::new("prog");
    assert_eq!(cmd.command, "prog");
    assert!(cmd.args.is_empty());
    assert!(!cmd.hide);
}

#[test]
fn arguments_keep_their_order() {
    let mut cmd = Command::new("prog");
    cmd.arg("a").args(&["b", "c"]).arg("").args(&[]);
    assert_eq!(cmd.args, vec!["a", "b", "c", ""]);
    assert_eq!(cmd.command, "prog");
}

#[test]
fn the_display_flag_is_the_last_one_set() {
    let mut cmd = Command::new("prog");
    cmd.set_hide(true).arg("x");
    assert!(cmd.hide);
    cmd.set_hide(false);
    assert!(!cmd.hide);
    assert_eq!(cmd.args, vec!["x"]);
}

#[test]
fn characters_are_read_one_by_one() {
    assert_eq!(runas::text::chars_of("aé\t"), vec!['a', 'é', '\t']);
    assert!(runas::text::chars_of("").is_empty());
}
