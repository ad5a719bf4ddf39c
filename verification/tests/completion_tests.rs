use terminal_portfolio::builder::build_default_fs;
use terminal_portfolio::completion::complete;

#[test]
fn unique_command_prefix_completes_with_a_space() {
    let fs = build_default_fs();
    assert_eq!(complete("he", &fs, "~"), "help ");
}

#[test]
fn ambiguous_command_prefix_is_left_alone() {
    let fs = build_default_fs();
    // cat, cd, clear, contact, cowsay all start with "c"
    assert_eq!(complete("c", &fs, "~"), "c");
}

#[test]
fn unknown_command_prefix_is_left_alone() {
    let fs = build_default_fs();
    assert_eq!(complete("zz", &fs, "~"), "zz");
}

#[test]
fn command_completion_is_case_insensitive() {
    let fs = build_default_fs();
    assert_eq!(complete("He", &fs, "~"), "help ");
}

#[test]
fn unique_file_completes_without_slash() {
    let fs = build_default_fs();
    assert_eq!(complete("cat ab", &fs, "~"), "cat about.txt");
}

#[test]
fn unique_directory_completes_with_slash() {
    let fs = build_default_fs();
    assert_eq!(complete("cd sk", &fs, "~"), "cd skills/");
    assert_eq!(complete("cd pro", &fs, "~"), "cd projects/");
}

#[test]
fn path_completion_keeps_the_directory_part() {
    let fs = build_default_fs();
    assert_eq!(complete("cat skills/la", &fs, "~"), "cat skills/languages.txt");
    assert_eq!(complete("cat ~/skills/to", &fs, "~/projects"), "cat ~/skills/tools.txt");
}

#[test]
fn path_completion_uses_the_working_directory() {
    let fs = build_default_fs();
    assert_eq!(complete("cat la", &fs, "~/skills"), "cat languages.txt");
}

#[test]
fn ambiguous_path_prefix_is_left_alone() {
    let fs = build_default_fs();
    // project1, project2, project3 all match
    assert_eq!(complete("cd projects/pro", &fs, "~"), "cd projects/pro");
}

#[test]
fn path_completion_in_a_missing_directory_is_left_alone() {
    let fs = build_default_fs();
    assert_eq!(complete("cat ghost/x", &fs, "~"), "cat ghost/x");
}
