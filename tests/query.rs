use iron_dbg::mi::{parse_stream, Output};
use iron_dbg::mi_parse::{mi_repr, MIRepr, QueryError};
use iron_dbg::mi_types::{ExecutionState, Frame, MIResult};
use iron_dbg::query::{
    current_file, current_line, frame, frame_args_from_repr, frames, frames_from_repr, get,
    has_exited,
};

fn frame_of(func: &str, level: u32) -> Frame {
    Frame {
        func: func.to_string(),
        level,
        args: None,
    }
}

#[test]
fn test_get() {
    let v = mi_repr(r#"brkpt={reason="breakpoint-hit",line="4"}"#)
        .unwrap()
        .1;
    assert_eq!(
        get(&v, &["brkpt", "line"]),
        Some(MIRepr::Literal(String::from("4")))
    );
}

#[test]
fn test_frames() {
    let v = mi_repr(
        r#"stack=[frame={level="0",addr="0x000000000040115a",func="fib",file="example.c",fullname="/home/gbrls/Programming/iron-dbg/res/example.c",line="10",arch="i386:x86-64"},frame={level="1",addr="0x0000000000401167",func="fib",file="example.c",fullname="/home/gbrls/Programming/iron-dbg/res/example.c",line="10",arch="i386:x86-64"},frame={level="2",addr="0x0000000000401167",func="fib",file="example.c",fullname="/home/gbrls/Programming/iron-dbg/res/example.c",line="10",arch="i386:x86-64"},frame={level="3",addr="0x0000000000401167",func="fib",file="example.c",fullname="/home/gbrls/Programming/iron-dbg/res/example.c",line="10",arch="i386:x86-64"},frame={level="4",addr="0x000000000040119a",func="main",file="example.c",fullname="/home/gbrls/Programming/iron-dbg/res/example.c",line="15",arch="i386:x86-64"}]"#,
    ).unwrap().1;

    let fs = frames_from_repr(&v);
    println!("{:?}", fs);
    assert_eq!(
        fs,
        Ok(Some(vec![
            frame_of("fib", 0),
            frame_of("fib", 1),
            frame_of("fib", 2),
            frame_of("fib", 3),
            frame_of("main", 4),
        ]))
    );
}

#[test]
fn test_frame_args() {
    let v = mi_repr(r#"stack-args=[frame={level="0",args=[{name="a",type="int",value="1"}]},frame={level="1",args=[{name="a",type="int",value="2"}]},frame={level="2",args=[{name="a",type="int",value="3"}]},frame={level="3",args=[{name="a",type="int",value="4"}]},frame={level="4",args=[{name="a",type="int",value="5"}]},frame={level="5",args=[]}]"#)
        .unwrap()
        .1;

    println!("{v:#?}");
    assert_eq!(
        frame_args_from_repr(&v),
        Some(vec![("a".to_string(), "int".to_string(), "1".to_string())])
    );
}

#[test]
fn frame_args_of_a_single_frame_without_values() {
    let v = mi_repr(r#"stack-args=[frame={level="0",args=[{name="s",type="struct S"},{name="n",type="int",value="3"}]}]"#)
        .unwrap()
        .1;
    assert_eq!(
        frame_args_from_repr(&v),
        Some(vec![
            ("s".to_string(), "struct S".to_string(), "".to_string()),
            ("n".to_string(), "int".to_string(), "3".to_string()),
        ])
    );
    let none = mi_repr(r#"stack=[]"#).unwrap().1;
    assert_eq!(frame_args_from_repr(&none), None);
}

#[test]
fn two_frames_in_order() {
    let v = mi_repr(r#"stack=[frame={level="0",func="inner",line="3"},frame={level="1",func="outer",line="9"}]"#)
        .unwrap()
        .1;
    assert_eq!(
        frames_from_repr(&v),
        Ok(Some(vec![frame_of("inner", 0), frame_of("outer", 1)]))
    );
}

#[test]
fn one_frame_and_no_frames() {
    let one = mi_repr(r#"stack=[frame={level="0",func="main"}]"#).unwrap().1;
    assert_eq!(frames_from_repr(&one), Ok(Some(vec![frame_of("main", 0)])));
    let empty = mi_repr(r#"stack=[]"#).unwrap().1;
    assert_eq!(frames_from_repr(&empty), Ok(Some(vec![])));
    let absent = mi_repr(r#"reason="x""#).unwrap().1;
    assert_eq!(frames_from_repr(&absent), Ok(None));
}

#[test]
fn frames_of_the_wrong_shape_are_errors() {
    let scalar = mi_repr(r#"stack="x""#).unwrap().1;
    assert_eq!(frames_from_repr(&scalar), Err(QueryError::BadShape));
    let bad_level = mi_repr(r#"stack=[frame={level="zero",func="main"}]"#).unwrap().1;
    assert_eq!(frames_from_repr(&bad_level), Err(QueryError::NotNumber));
    let no_func = mi_repr(r#"stack=[frame={level="0"}]"#).unwrap().1;
    assert_eq!(frames_from_repr(&no_func), Err(QueryError::BadShape));
}

#[test]
fn stopped_record_gives_line_file_and_frame() {
    let (_, out) = parse_stream(r#"*stopped,reason="breakpoint-hit",frame={func="main",level="0",fullname="/src/a.c",line="12"}"#).unwrap();
    assert_eq!(current_line(&out), Ok(Some(12)));
    assert_eq!(current_file(&out), Ok(Some("/src/a.c".to_string())));
    assert_eq!(frame(&out), Ok(Some(frame_of("main", 0))));
    assert_eq!(has_exited(&out), false);
}

#[test]
fn absent_and_mismatched_fields() {
    let (_, out) = parse_stream(r#"*running,thread-id="all""#).unwrap();
    assert_eq!(current_line(&out), Ok(None));
    assert_eq!(current_file(&out), Ok(None));
    assert_eq!(frame(&out), Ok(None));
    let (_, bad) = parse_stream(r#"*stopped,frame={line={x="1"},fullname=["a"]}"#).unwrap();
    assert_eq!(current_line(&bad), Err(QueryError::NotScalar));
    assert_eq!(current_file(&bad), Err(QueryError::NotScalar));
    let console = Output::ConsoleStream("x".to_string());
    assert_eq!(current_line(&console), Ok(None));
    assert_eq!(frames(&console), Ok(None));
}

#[test]
fn frames_from_a_reply() {
    let (_, out) = parse_stream(r#"^done,stack=[frame={level="0",func="f"},frame={level="1",func="main"}]"#).unwrap();
    assert_eq!(frames(&out), Ok(Some(vec![frame_of("f", 0), frame_of("main", 1)])));
}

#[test]
fn exit_is_recognised() {
    let (_, out) = parse_stream(r#"*stopped,reason="exited-normally""#).unwrap();
    assert!(has_exited(&out));
    let (_, other) = parse_stream(r#"*stopped,reason="exited""#).unwrap();
    assert!(!has_exited(&other));
    let result = Output::ResultRecord(MIResult::Done, None);
    assert!(!has_exited(&result));
    let _ = ExecutionState::Done;
}

#[test]
fn projection_is_repeatable() {
    let v = mi_repr(r#"a={b={c="deep"}},d=["x"]"#).unwrap().1;
    let first = get(&v, &["a", "b", "c"]);
    let second = get(&v, &["a", "b", "c"]);
    assert_eq!(first, second);
    assert_eq!(first, Some(MIRepr::Literal("deep".to_string())));
    assert_eq!(get(&v, &[]), Some(v.clone()));
    assert_eq!(get(&v, &["d", "x"]), None);
    assert_eq!(get(&v, &["missing"]), None);
}
