use iron_dbg::mi::{execution_state, mi_result, parse_stream, user_output, Output};
use iron_dbg::mi_parse::MIRepr;
use iron_dbg::mi_types::{ExecutionState, Frame, MIResult};

#[test]
fn it_works() {
    let result = 2 + 2;
    assert_eq!(result, 4);
}

#[test]
fn test_response_result() {
    assert_eq!(mi_result("done").unwrap().1, MIResult::Done,);
    assert_eq!(
        mi_result("error,msg=\"Alguma mensagem de erro\"").unwrap().1,
        MIResult::Error {
            msg: "Alguma mensagem de erro".to_string(),
            code: None
        },
    );
}

#[test]
fn test_parse() {
    assert_eq!(
        parse_stream("^done").unwrap().1,
        Output::ResultRecord(MIResult::Done, None)
    );
}

#[test]
fn test_from_mi_macro() {
    let f = Frame {
        func: "jjjj".to_string(),
        args: Some(vec![]),
        level: 5,
    };
    assert_eq!(f.func, "jjjj");
    assert_eq!(Frame::field_names(), vec!["func", "level", "args"]);
}

#[test]
fn test_async_exec() {
    let (rest, st) = execution_state(r#"running,thread..."#).unwrap();
    println!("{:?}", st);
    assert_eq!(st, ExecutionState::Running);
    assert_eq!(rest, ",thread...");
    let out = parse_stream(r#"*running,thread-id="all""#).unwrap().1;
    println!("{:?}", out);
    assert_eq!(
        out,
        Output::ExecAsync(
            ExecutionState::Running,
            MIRepr::Tuple(vec![("thread-id".to_string(), MIRepr::Literal("all".to_string()))])
        )
    );
}

#[test]
fn error_result_line() {
    assert_eq!(
        parse_stream("^error,msg=\"Alguma mensagem de erro\"").unwrap().1,
        Output::ResultRecord(
            MIResult::Error {
                msg: "Alguma mensagem de erro".to_string(),
                code: None
            },
            None
        )
    );
}

#[test]
fn error_result_with_code() {
    assert_eq!(
        mi_result("error,msg=\"no\",code=\"undefined-command\"").unwrap().1,
        MIResult::Error {
            msg: "no".to_string(),
            code: Some("undefined-command".to_string())
        },
    );
    assert!(mi_result("error").is_err());
    assert!(mi_result("error,msg=\"a\"b\"").is_err());
    assert!(mi_result("error,msg=\"a\",code=\"b\"c\"").is_err());
    assert!(parse_stream("^error,msg=\"say \"hi\"\"").is_err());
    assert!(mi_result("error,msg=\"a\"\n").is_ok());
    assert!(mi_result("exited").is_ok());
    assert!(mi_result("finished").is_err());
}

#[test]
fn every_marker_gives_its_record() {
    assert_eq!(parse_stream("+download,x=\"1\"").unwrap().1, Output::StatusAsync);
    assert!(matches!(
        parse_stream("*stopped,reason=\"end-stepping-range\"").unwrap().1,
        Output::ExecAsync(ExecutionState::Stopped, _)
    ));
    match parse_stream("=thread-group-added,id=\"i1\"").unwrap().1 {
        Output::NotifyAsync(class, v) => {
            assert_eq!(class, "thread-group-added");
            assert_eq!(
                v,
                MIRepr::Tuple(vec![("id".to_string(), MIRepr::Literal("i1".to_string()))])
            );
        }
        other => panic!("unexpected {other:?}"),
    }
    assert_eq!(
        parse_stream("~\"text\"").unwrap().1,
        Output::ConsoleStream("text".to_string())
    );
    assert_eq!(
        parse_stream("@\"target\"").unwrap().1,
        Output::TargetStream("target".to_string())
    );
    assert_eq!(
        parse_stream("&\"log\"").unwrap().1,
        Output::LogStream("log".to_string())
    );
    assert!(matches!(
        parse_stream("^running").unwrap().1,
        Output::ResultRecord(MIResult::Running, None)
    ));
    assert!(matches!(
        parse_stream("^connected").unwrap().1,
        Output::ResultRecord(MIResult::Connected, None)
    ));
    assert!(matches!(
        parse_stream("^exit").unwrap().1,
        Output::ResultRecord(MIResult::Exit, None)
    ));
}

#[test]
fn unknown_markers_fail() {
    assert_eq!(parse_stream("").unwrap_err().fragment, "");
    assert_eq!(parse_stream("(gdb)").unwrap_err().fragment, "(gdb)");
    assert!(parse_stream("!x").is_err());
    assert!(parse_stream("*nothing,a=\"1\"").is_err());
    assert!(parse_stream("*running").is_err());
    assert!(parse_stream("=no-comma").is_err());
    assert!(parse_stream("~\"bad \\q escape\"").is_err());
}

#[test]
fn result_with_payload_and_rest() {
    let (rest, out) = parse_stream("^done,bkpt={number=\"1\"}\n").unwrap();
    assert_eq!(rest, "\n");
    assert_eq!(
        out,
        Output::ResultRecord(
            MIResult::Done,
            Some(MIRepr::Tuple(vec![(
                "bkpt".to_string(),
                MIRepr::Tuple(vec![("number".to_string(), MIRepr::Literal("1".to_string()))])
            )]))
        )
    );
}

#[test]
fn stream_text_is_unescaped() {
    assert_eq!(
        parse_stream("~\"say \\\"hi\\\"\\n\"").unwrap().1,
        Output::ConsoleStream("say \"hi\"\n".to_string())
    );
}

#[test]
fn console_output_ends_in_one_newline() {
    assert_eq!(user_output("~\"hello\\n\""), Some("hello\n".to_string()));
    assert_eq!(user_output("~\"hello  \\n\\n\""), Some("hello\n".to_string()));
    assert_eq!(user_output("~\"no newline \""), Some("no newline ".to_string()));
    assert_eq!(user_output("~\"\""), Some("".to_string()));
    assert_eq!(user_output("@\"target\\n\""), None);
    assert_eq!(user_output("^done"), None);
    assert_eq!(user_output("garbage"), None);
}
