use tim::failure::Failure;
use tim::invocation::InvocationSpec;

fn words(items: &[&str]) -> Vec<String> {
    items.iter().map(|w| w.to_string()).collect()
}

#[test]
fn no_arguments_is_a_usage_failure() {
    let made = InvocationSpec::from_args(Vec::new());
    assert!(matches!(made, Err(Failure::NoCommand)));
}

#[test]
fn command_line_is_words_joined_by_single_spaces() {
    let made = InvocationSpec::from_args(words(&["echo", "hello", "world"]));
    let invocation = made.ok().expect("a command was named");
    assert_eq!(invocation.command_line(), "echo hello world");
}

#[test]
fn single_word_command_line_has_no_space() {
    let invocation = InvocationSpec::from_args(words(&["ls"])).ok().expect("a command was named");
    assert_eq!(invocation.command_line(), "ls");
    assert_eq!(invocation.program(), "ls");
    assert!(invocation.arguments().is_empty());
}

#[test]
fn program_is_first_word_and_arguments_follow() {
    let invocation = InvocationSpec::from_args(words(&["sleep", "0.1"]))
        .ok()
        .expect("a command was named");
    assert_eq!(invocation.program(), "sleep");
    assert_eq!(invocation.arguments().to_vec(), words(&["0.1"]));
}

#[test]
fn arguments_keep_their_order() {
    let invocation = InvocationSpec::from_args(words(&["cc", "-O2", "-o", "out", "main.c"]))
        .ok()
        .expect("a command was named");
    assert_eq!(invocation.program(), "cc");
    assert_eq!(invocation.arguments().to_vec(), words(&["-O2", "-o", "out", "main.c"]));
    assert_eq!(invocation.command_line(), "cc -O2 -o out main.c");
}

#[test]
fn words_are_passed_through_verbatim() {
    let given = words(&["sh", "-c", "echo  two  spaces", "", "tab\there", "caf\u{e9}"]);
    let invocation = InvocationSpec::from_args(given.clone()).ok().expect("a command was named");
    assert_eq!(invocation.arguments().to_vec(), given[1..].to_vec());
    assert_eq!(invocation.command_line(), "sh -c echo  two  spaces  tab\there caf\u{e9}");
    assert_eq!(invocation.command_line(), given.join(" "));
}

#[test]
fn empty_program_name_is_still_a_command() {
    let invocation = InvocationSpec::from_args(words(&[""])).ok().expect("a word was given");
    assert_eq!(invocation.program(), "");
    assert_eq!(invocation.command_line(), "");
}

#[test]
fn usage_failure_exits_with_status_one() {
    let made = InvocationSpec::from_args(Vec::new());
    match made {
        Err(failure) => assert_eq!(failure.exit_code(), 1),
        Ok(_) => panic!("an empty command line names no command"),
    }
}
