use flg::args::{get_all_floating_args, get_arg, get_floating_arg, Cli, Commands, MissingValue};

fn args(list: &[&str]) -> Vec<String> {
    list.iter().map(|s| s.to_string()).collect()
}

#[test]
fn floating_argument_may_stand_before_or_after_a_flag() {
    assert_eq!(get_floating_arg(&args(&["in", "-o", "out"])), Some("in"));
    assert_eq!(get_floating_arg(&args(&["-o", "out", "in"])), Some("in"));
    assert_eq!(get_floating_arg(&args(&["-o", "out", "in", "more"])), Some("in"));
    assert_eq!(get_floating_arg(&args(&["-v", "-o", "out", "x"])), Some("x"));
}

#[test]
fn floating_argument_may_be_missing() {
    assert_eq!(get_floating_arg(&args(&[])), None);
    assert_eq!(get_floating_arg(&args(&["-o", "out"])), None);
    assert_eq!(get_floating_arg(&args(&["-a", "-b"])), None);
    assert_eq!(get_floating_arg(&args(&["-a", "x", "-b", "y"])), None);
}

#[test]
fn an_empty_argument_floats() {
    assert_eq!(get_floating_arg(&args(&[""])), Some(""));
    assert_eq!(get_floating_arg(&args(&["-o", "", "x"])), Some("x"));
}

#[test]
fn value_of_a_flag_is_the_argument_after_it() {
    assert_eq!(get_arg(&args(&["in", "-o", "out"]), "-o"), Ok(Some("out")));
    assert_eq!(get_arg(&args(&["-o", "a", "-o", "b"]), "-o"), Ok(Some("a")));
    assert_eq!(get_arg(&args(&["-o", "-o"]), "-o"), Ok(Some("-o")));
    assert_eq!(get_arg(&args(&["in"]), "-o"), Ok(None));
    assert_eq!(get_arg(&args(&[]), "-o"), Ok(None));
}

#[test]
fn a_flag_without_value_is_an_error() {
    assert_eq!(get_arg(&args(&["in", "-o"]), "-o"), Err(MissingValue));
    assert_eq!(get_arg(&args(&["-o"]), "-o"), Err(MissingValue));
}

#[test]
fn a_command_with_several_files_is_a_batch() {
    let one = Cli {
        command: Commands::Gen { output: "flamegraph.html".to_string(), files: args(&["a"]) },
    };
    let two = Cli {
        command: Commands::Gen { output: "flamegraph.html".to_string(), files: args(&["a", "b"]) },
    };
    assert!(!one.command.is_batch());
    assert!(two.command.is_batch());
}

#[test]
fn all_floating_arguments_come_in_order() {
    assert_eq!(
        get_all_floating_args(&args(&["a", "-o", "out", "b", "c", "-x"])),
        vec!["a", "b", "c"]
    );
    assert_eq!(get_all_floating_args(&args(&["-o", "out"])), Vec::<&str>::new());
    assert_eq!(get_all_floating_args(&args(&[])), Vec::<&str>::new());
    assert_eq!(get_all_floating_args(&args(&["-a", "-b", "x", "y"])), vec!["y"]);
    let list = args(&["-o", "out", "in", "more"]);
    assert_eq!(get_all_floating_args(&list).first().copied(), get_floating_arg(&list));
}
