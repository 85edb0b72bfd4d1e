use modal_edit::commands::{
    get_standard_commands, prepare_command, Command, CommandAction, CommandParameter,
    CommandParameterType,
};

fn table() -> Vec<Command> {
    get_standard_commands()
}

fn typed_table() -> Vec<Command> {
    vec![
        Command::new(
            &["set"],
            &[
                CommandParameterType::IntParameter,
                CommandParameterType::FloatParameter,
                CommandParameterType::OptionalParameter(Box::new(
                    CommandParameterType::IntParameter,
                )),
            ],
            CommandAction::Write,
        ),
        Command::new(&["set", "other"], &[], CommandAction::Quit),
    ]
}

#[test]
fn write_alias_binds_optional_path() {
    let (params, index) = prepare_command(&table(), ":w foo.txt").unwrap();
    assert_eq!(index, 0);
    assert_eq!(params.len(), 1);
    match &params[0] {
        CommandParameter::OptionalParameter(b) => match b.as_ref() {
            Some(CommandParameter::StringParameter(s)) => assert_eq!(s, "foo.txt"),
            other => panic!("unexpected {:?}", other),
        },
        other => panic!("unexpected {:?}", other),
    }
}

#[test]
fn long_name_binds_same_command() {
    let (_, index) = prepare_command(&table(), ":write foo.txt").unwrap();
    assert_eq!(index, 0);
}

#[test]
fn unknown_command_is_reported() {
    let err = prepare_command(&table(), ":bogus").unwrap_err();
    assert_eq!(err, "Could not find command \"bogus\"");
}

#[test]
fn missing_optional_gives_empty_optional() {
    let (params, index) = prepare_command(&table(), ":w").unwrap();
    assert_eq!(index, 0);
    assert_eq!(params.len(), 1);
    assert!(matches!(&params[0], CommandParameter::OptionalParameter(b) if b.is_none()));
}

#[test]
fn missing_required_parameter_fails() {
    let err = prepare_command(&table(), ":e").unwrap_err();
    assert_eq!(err, "Too few parameters provided");
}

#[test]
fn extra_arguments_are_ignored() {
    let (params, index) = prepare_command(&table(), ":q now please").unwrap();
    assert_eq!(index, 2);
    assert!(params.is_empty());
}

#[test]
fn names_are_case_sensitive() {
    assert!(prepare_command(&table(), ":W").is_err());
}

#[test]
fn buffer_commands_bind() {
    assert_eq!(prepare_command(&table(), ":bn").unwrap().1, 3);
    assert_eq!(prepare_command(&table(), ":bprevious").unwrap().1, 4);
}

#[test]
fn typed_parameters_are_coerced() {
    let (params, index) = prepare_command(&typed_table(), ":set -12 2.5e3 7").unwrap();
    assert_eq!(index, 0);
    assert!(matches!(params[0], CommandParameter::IntParameter(-12)));
    assert!(matches!(&params[1], CommandParameter::FloatParameter(s) if s == "2.5e3"));
    match &params[2] {
        CommandParameter::OptionalParameter(b) => {
            assert!(matches!(b.as_ref(), Some(CommandParameter::IntParameter(7))))
        }
        other => panic!("unexpected {:?}", other),
    }
}

#[test]
fn bad_int_fails_whole_parse() {
    let err = prepare_command(&typed_table(), ":set x 1.0").unwrap_err();
    assert_eq!(err, "Could not parse int");
    let err = prepare_command(&typed_table(), ":set 99999999999 1.0").unwrap_err();
    assert_eq!(err, "Could not parse int");
}

#[test]
fn bad_float_fails_whole_parse() {
    let err = prepare_command(&typed_table(), ":set 1 1.2.3").unwrap_err();
    assert_eq!(err, "Could not parse float");
    let err = prepare_command(&typed_table(), ":set 1 e5").unwrap_err();
    assert_eq!(err, "Could not parse float");
}

#[test]
fn float_forms_accepted() {
    for text in ["1", "-1.", ".5", "+3E-2", "inf", "-Infinity", "NaN"] {
        let line = format!(":set 1 {}", text);
        assert!(prepare_command(&typed_table(), &line).is_ok(), "{}", text);
        assert!(text.parse::<f32>().is_ok());
    }
}

#[test]
fn bad_optional_fails_whole_parse() {
    let err = prepare_command(&typed_table(), ":set 1 1 x").unwrap_err();
    assert_eq!(err, "Could not parse int");
}

#[test]
fn first_matching_command_wins() {
    let (_, index) = prepare_command(&typed_table(), ":set 1 2").unwrap();
    assert_eq!(index, 0);
    let (_, index) = prepare_command(&typed_table(), ":other").unwrap();
    assert_eq!(index, 1);
}

#[test]
fn double_space_gives_empty_argument() {
    let (params, _) = prepare_command(&table(), ":w  x").unwrap();
    match &params[0] {
        CommandParameter::OptionalParameter(b) => {
            assert!(matches!(b.as_ref(), Some(CommandParameter::StringParameter(s)) if s.is_empty()))
        }
        other => panic!("unexpected {:?}", other),
    }
}

#[test]
fn empty_line_names_no_command() {
    assert_eq!(
        prepare_command(&table(), "").unwrap_err(),
        "Could not find command \"\""
    );
}

#[test]
fn standard_table_shape() {
    let t = table();
    assert_eq!(t.len(), 5);
    assert_eq!(t[0].names, vec!["w".to_string(), "write".to_string()]);
    assert_eq!(t[1].names, vec!["e".to_string(), "edit".to_string()]);
    assert_eq!(t[2].execute, CommandAction::Quit);
}

#[test]
fn float_rejections_match_std() {
    for text in ["1.2.3", "e5", ".", "1e", "in", "+", "1_0", "0x10", "1e+"] {
        let line = format!(":set 1 {}", text);
        assert_eq!(
            prepare_command(&typed_table(), &line).unwrap_err(),
            "Could not parse float",
            "{}",
            text
        );
        assert!(text.parse::<f32>().is_err(), "{}", text);
    }
}

#[test]
fn int_edges() {
    let min = prepare_command(&typed_table(), ":set -2147483648 0").unwrap().0;
    assert!(matches!(min[0], CommandParameter::IntParameter(i32::MIN)));
    let plus = prepare_command(&typed_table(), ":set +5 0").unwrap().0;
    assert!(matches!(plus[0], CommandParameter::IntParameter(5)));
    assert_eq!(
        prepare_command(&typed_table(), ":set 2147483648 0").unwrap_err(),
        "Could not parse int"
    );
    assert_eq!(
        prepare_command(&typed_table(), ":set - 0").unwrap_err(),
        "Could not parse int"
    );
}
