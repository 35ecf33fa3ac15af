use iron_dbg::mi_parse::{array, literal, mi_repr, name, MIRepr, QueryError};
use iron_dbg::query::get;

fn lit(s: &str) -> MIRepr {
    MIRepr::Literal(s.to_string())
}

fn entry(k: &str, v: MIRepr) -> (String, MIRepr) {
    (k.to_string(), v)
}

#[test]
fn test_name_literal() {
    let (rest, s) = name(r#"reason="breakpoint-hit""#).unwrap();
    assert_eq!(&s, "reason");

    let (_rest, v) = literal(&rest).unwrap();
    assert_eq!(v, MIRepr::Literal("breakpoint-hit".into()));
}

#[test]
fn test_map_array() {
    let (rest, v) = iron_dbg::mi_parse::map(r#"reason="breakpoint-hit",line="4""#).unwrap();
    println!("{v:?}");
    assert_eq!(rest, "");
    assert_eq!(
        v,
        MIRepr::Tuple(vec![entry("reason", lit("breakpoint-hit")), entry("line", lit("4"))])
    );

    let (_rest, v) = iron_dbg::mi_parse::map(r#"brkpt={reason="breakpoint-hit",line="4"}"#).unwrap();
    println!("{v:?}");
    assert_eq!(
        v,
        MIRepr::Tuple(vec![entry(
            "brkpt",
            MIRepr::Tuple(vec![entry("reason", lit("breakpoint-hit")), entry("line", lit("4"))])
        )])
    );

    let (_rest, v) = iron_dbg::mi_parse::map(r#"brkpt=["first","second","third"]"#).unwrap();
    println!("{v:?}");
    assert_eq!(
        v,
        MIRepr::Tuple(vec![entry(
            "brkpt",
            MIRepr::Array(vec![lit("first"), lit("second"), lit("third")])
        )])
    );

    let (_rest, v) =
        iron_dbg::mi_parse::map(r#"brkpt=[{reason="breakpoint-hit",line="4"},{reason="breakpoint-hit",line="8"}]"#)
            .unwrap();
    println!("{v:?}");
    assert_eq!(
        v,
        MIRepr::Tuple(vec![entry(
            "brkpt",
            MIRepr::Array(vec![
                MIRepr::Tuple(vec![entry("reason", lit("breakpoint-hit")), entry("line", lit("4"))]),
                MIRepr::Tuple(vec![entry("reason", lit("breakpoint-hit")), entry("line", lit("8"))]),
            ])
        )])
    );

    let (rest, v) = iron_dbg::mi_parse::map(r#"thread-id="all""#).unwrap();
    println!("{v:?}, rest {rest}");
    assert_eq!(v, MIRepr::Tuple(vec![entry("thread-id", lit("all"))]));
    assert_eq!(rest, "");
}

#[test]
fn test_stack_list_frames() {
    let s = r#"stack=[frame={level="0",addr="0x000000000040114f",func="fib",file="example.c",fullname="/home/gbrls/Programming/iron-dbg/res/example.c",line="8",arch="i386:x86-64"},frame={level="1",addr="0x0000000000401167",func="fib",file="example.c",fullname="/home/gbrls/Programming/iron-dbg/res/example.c",line="10",arch="i386:x86-64"},frame={level="2",addr="0x0000000000401167",func="fib",file="example.c",fullname="/home/gbrls/Programming/iron-dbg/res/example.c",line="10",arch="i386:x86-64"},frame={level="3",addr="0x0000000000401167",func="fib",file="example.c",fullname="/home/gbrls/Programming/iron-dbg/res/example.c",line="10",arch="i386:x86-64"},frame={level="4",addr="0x000000000040119a",func="main",file="example.c",fullname="/home/gbrls/Programming/iron-dbg/res/example.c",line="15",arch="i386:x86-64"}]"#;
    let (_, v) = mi_repr(s).unwrap();
    println!("{v:#?}");
    // The repeated `frame` names inside the brackets read as a list of one-entry maps.
    match get(&v, &["stack"]) {
        Some(MIRepr::Array(outer)) => {
            assert_eq!(outer.len(), 1);
            match &outer[0] {
                MIRepr::Array(inner) => {
                    assert_eq!(inner.len(), 5);
                    for e in inner {
                        match e {
                            MIRepr::Tuple(ps) => {
                                assert_eq!(ps.len(), 1);
                                assert_eq!(ps[0].0, "frame");
                            }
                            other => panic!("unexpected entry {other:?}"),
                        }
                    }
                }
                other => panic!("unexpected entry {other:?}"),
            }
        }
        other => panic!("unexpected stack {other:?}"),
    }
}

#[test]
fn repeated_names_become_a_list_of_single_entry_maps() {
    let (rest, v) = mi_repr(r#"a="1",a="2""#).unwrap();
    assert_eq!(rest, "");
    assert_eq!(
        v,
        MIRepr::Array(vec![
            MIRepr::Tuple(vec![entry("a", lit("1"))]),
            MIRepr::Tuple(vec![entry("a", lit("2"))]),
        ])
    );
}

#[test]
fn distinct_names_stay_one_map() {
    let (_, v) = mi_repr(r#"a="1",b="2""#).unwrap();
    assert_eq!(v, MIRepr::Tuple(vec![entry("a", lit("1")), entry("b", lit("2"))]));
}

#[test]
fn payload_line_projects_to_four() {
    let (_, v) = mi_repr(r#"reason="breakpoint-hit",line="4""#).unwrap();
    let line = get(&v, &["line"]).unwrap();
    assert_eq!(line, MIRepr::Literal("4".to_string()));
    assert_eq!(line.to_u32(), Ok(4));
}

#[test]
fn reading_stops_where_the_grammar_ends() {
    let (rest, v) = mi_repr("a=\"1\",b\n").unwrap();
    assert_eq!(v, MIRepr::Tuple(vec![entry("a", lit("1"))]));
    assert_eq!(rest, ",b\n");
}

#[test]
fn empty_list_and_braced_map() {
    let (rest, v) = array("[]x").unwrap();
    assert_eq!(v, MIRepr::Array(vec![]));
    assert_eq!(rest, "x");
    let (rest, v) = mi_repr("{a=[]}").unwrap();
    assert_eq!(v, MIRepr::Tuple(vec![entry("a", MIRepr::Array(vec![]))]));
    assert_eq!(rest, "");
}

#[test]
fn malformed_payloads_fail() {
    assert_eq!(mi_repr("").unwrap_err().fragment, "");
    assert_eq!(mi_repr("\"x\"").unwrap_err().fragment, "\"x\"");
    assert!(mi_repr("a=\"unterminated").is_err());
    assert!(mi_repr("{a=\"1\"").is_err());
    assert!(name("=x").is_err());
    assert!(literal("x").is_err());
}

#[test]
fn nesting_deeper_than_the_limit_fails() {
    let depth_ok = 63;
    let ok = format!("{}{}", "[".repeat(depth_ok), "]".repeat(depth_ok));
    assert!(mi_repr(&ok).is_ok());
    let too_deep = 65;
    let bad = format!("{}{}", "[".repeat(too_deep), "]".repeat(too_deep));
    assert!(mi_repr(&bad).is_err());
}

#[test]
fn scalar_reads() {
    assert_eq!(lit("0").to_u32(), Ok(0));
    assert_eq!(lit("0042").to_u32(), Ok(42));
    assert_eq!(lit("4294967295").to_u32(), Ok(4294967295));
    assert_eq!(lit("4294967296").to_u32(), Err(QueryError::NotNumber));
    assert_eq!(lit("").to_u32(), Err(QueryError::NotNumber));
    assert_eq!(lit("12a").to_u32(), Err(QueryError::NotNumber));
    assert_eq!(MIRepr::Array(vec![]).to_u32(), Err(QueryError::NotScalar));
    assert_eq!(lit("main").to_string(), Ok("main".to_string()));
    assert_eq!(MIRepr::Tuple(vec![]).to_string(), Err(QueryError::NotScalar));
}

#[test]
fn clone_keeps_the_value() {
    let (_, v) = mi_repr(r#"a={b=["x",{c="y"}]},d="z""#).unwrap();
    assert_eq!(v.clone(), v);
}
