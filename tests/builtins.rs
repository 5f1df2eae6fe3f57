use shado::builtin::{cd_destination, cd_target, echo_output, history_path, home_or_root, Builtin, ErrCode};

#[test]
fn keywords_name_builtins() {
    assert_eq!(Builtin::from_keyword("echo"), Some(Builtin::Echo));
    assert_eq!(Builtin::from_keyword("history"), Some(Builtin::History));
    assert_eq!(Builtin::from_keyword("cd"), Some(Builtin::Cd));
    assert_eq!(Builtin::from_keyword("pwd"), Some(Builtin::Pwd));
    assert_eq!(Builtin::from_keyword("ls"), None);
    assert_eq!(Builtin::from_keyword("Echo"), None);
    assert_eq!(Builtin::from_keyword(""), None);
}

#[test]
fn echo_joins_arguments() {
    let args = vec!["one".to_string(), "two".to_string(), "three".to_string()];
    assert_eq!(echo_output(&args), "one two three\n");
    assert_ne!(ErrCode::Success, ErrCode::Error);
}

#[test]
fn echo_without_arguments_is_a_line_break() {
    assert_eq!(echo_output(&Vec::new()), "\n");
}

#[test]
fn cd_goes_to_first_argument() {
    let args = vec!["/tmp".to_string(), "ignored".to_string()];
    assert_eq!(cd_target(&args, Some("/home/u".to_string())), "/tmp");
}

#[test]
fn cd_without_arguments_goes_home_or_to_root() {
    assert_eq!(cd_target(&Vec::new(), Some("/home/u".to_string())), "/home/u");
    assert_eq!(cd_target(&Vec::new(), None), "/");
}

#[test]
fn history_file_lives_in_home() {
    assert_eq!(history_path(Some("/home/u".to_string())), "/home/u/.shadohist");
    assert_eq!(history_path(None), "//.shadohist");
    assert_eq!(home_or_root(None), "/");
}

#[test]
fn cd_destination_takes_the_argument_over_home() {
    let args = vec!["/var/tmp".to_string()];
    assert_eq!(cd_destination(&args), "/var/tmp");
}

#[test]
fn builtins_parse_from_text() {
    assert_eq!("pwd".parse::<Builtin>(), Ok(Builtin::Pwd));
    assert_eq!("cat".parse::<Builtin>(), Err(()));
}
