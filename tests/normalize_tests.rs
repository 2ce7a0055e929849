use serverless_redis::normalize::normalize_command;

fn cmd(args: &[&str]) -> Vec<String> {
    args.iter().map(|s| s.to_string()).collect()
}

fn normalized(args: &[&str]) -> Vec<String> {
    let mut c = cmd(args);
    normalize_command(&mut c);
    c
}

#[test]
fn evalsha_ro_collapses_to_evalsha() {
    assert_eq!(normalized(&["evalsha_ro", "sha1", "0"]), cmd(&["evalsha", "sha1", "0"]));
}

#[test]
fn zadd_ro_is_left_alone() {
    assert_eq!(normalized(&["zadd_ro", "k", "1", "m"]), cmd(&["zadd_ro", "k", "1", "m"]));
}

#[test]
fn upper_case_eval_ro_collapses_to_lower_case_eval() {
    assert_eq!(normalized(&["EVAL_RO", "return 1", "0"]), cmd(&["eval", "return 1", "0"]));
}

#[test]
fn ro_suffix_without_underscore_collapses() {
    assert_eq!(normalized(&["evalro", "s", "0"]), cmd(&["eval", "s", "0"]));
    assert_eq!(normalized(&["fcall_ro", "f", "0"]), cmd(&["fcall", "f", "0"]));
}

#[test]
fn names_ending_in_ro_outside_the_list_are_kept() {
    assert_eq!(normalized(&["hero"]), cmd(&["hero"]));
    assert_eq!(normalized(&["GET", "k"]), cmd(&["GET", "k"]));
    assert_eq!(normalized(&["eval", "s", "0"]), cmd(&["eval", "s", "0"]));
}

#[test]
fn function_load_script_starts_at_shebang() {
    let out = normalized(&[
        "function",
        "load",
        "\n\n#!lua name=x\nredis.register_function('f', function() return 1 end)",
    ]);
    assert_eq!(
        out,
        cmd(&["function", "load", "#!lua name=x\nredis.register_function('f', function() return 1 end)"])
    );
}

#[test]
fn function_load_takes_the_last_argument_in_any_case() {
    let out = normalized(&["FUNCTION", "Load", "REPLACE", "  #!lua name=y\nbody"]);
    assert_eq!(out, cmd(&["FUNCTION", "Load", "REPLACE", "#!lua name=y\nbody"]));
}

#[test]
fn function_load_without_shebang_is_unchanged() {
    let out = normalized(&["function", "load", "  no marker here"]);
    assert_eq!(out, cmd(&["function", "load", "  no marker here"]));
}

#[test]
fn function_load_needs_a_script_argument() {
    assert_eq!(normalized(&["function", "load"]), cmd(&["function", "load"]));
}

#[test]
fn empty_command_is_unchanged() {
    assert_eq!(normalized(&[]), Vec::<String>::new());
}
