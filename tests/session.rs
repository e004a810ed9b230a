use vizconf::render::to_text;
use vizconf::session::{
    configure_colors, format_of, get_file_content, get_from_stdin, get_indent, input_is_stdin,
    nesting_depth, run, Action, AppError, Event, FileRead, Format, Options, Session,
};
use vizconf::values::{Number, VizValue};

fn options(path: Option<&str>, language: Option<&str>, indent: Option<usize>) -> Options {
    Options {
        path: path.map(|p| p.to_string()),
        language: language.map(|l| l.to_string()),
        indent,
        no_color: false,
        no_color_env: false,
    }
}

fn fail_of(action: Action) -> AppError {
    match action {
        Action::Fail(e) => e,
        other => panic!("expected a failure, got {:?}", other),
    }
}

#[test]
fn indent_eleven_is_refused() {
    assert_eq!(get_indent(Some(11)), Err(AppError::IndentTooLarge));
    let (next, action) = run(
        Session::Reading(options(None, Some("json"), Some(11))),
        Event::StdinRead(Ok("{}".to_string())),
    );
    assert!(matches!(next, Session::Finished));
    assert_eq!(fail_of(action), AppError::IndentTooLarge);
}

#[test]
fn indent_default_and_bounds() {
    assert_eq!(get_indent(None), Ok(2));
    assert_eq!(get_indent(Some(0)), Ok(0));
    assert_eq!(get_indent(Some(10)), Ok(10));
}

#[test]
fn stdin_without_language_is_refused() {
    let (next, action) = run(
        Session::Reading(options(None, None, None)),
        Event::StdinRead(Ok("{}".to_string())),
    );
    assert!(matches!(next, Session::Finished));
    assert_eq!(fail_of(action), AppError::MissingLanguage);
    assert_eq!(get_from_stdin(Ok("x".to_string()), None), Err(AppError::MissingLanguage));
}

#[test]
fn stdin_read_failure_is_reported() {
    assert_eq!(
        get_from_stdin(Err("broken pipe".to_string()), Some("json".to_string())),
        Err(AppError::StdinUnreadable("broken pipe".to_string()))
    );
}

#[test]
fn non_object_root_is_an_internal_error() {
    let (next, action) = run(
        Session::Parsing { colored: false, width: 2 },
        Event::Parsed(Ok(VizValue::Array(vec![VizValue::Null]))),
    );
    assert!(matches!(next, Session::Finished));
    assert_eq!(fail_of(action), AppError::NotAnObject);
    let (_, action) = run(
        Session::Parsing { colored: true, width: 2 },
        Event::Parsed(Ok(VizValue::Number(Number::Int(3)))),
    );
    assert_eq!(fail_of(action), AppError::NotAnObject);
}

#[test]
fn parse_error_is_passed_on() {
    let (_, action) = run(
        Session::Parsing { colored: false, width: 2 },
        Event::Parsed(Err("bad token".to_string())),
    );
    assert_eq!(fail_of(action), AppError::Parse("bad token".to_string()));
}

#[test]
fn start_chooses_stdin_or_file() {
    let (next, action) = run(Session::Start, Event::Begin(options(None, Some("toml"), None)));
    assert!(matches!(next, Session::Reading(_)));
    assert!(matches!(action, Action::ReadStdin));
    let (_, action) = run(Session::Start, Event::Begin(options(Some(""), None, None)));
    assert!(matches!(action, Action::ReadStdin));
    let (_, action) = run(Session::Start, Event::Begin(options(Some("conf.yaml"), None, None)));
    match action {
        Action::ReadFile(p) => assert_eq!(p, "conf.yaml"),
        other => panic!("expected a file read, got {:?}", other),
    }
    assert!(input_is_stdin(&None));
    assert!(!input_is_stdin(&Some("a.json".to_string())));
}

#[test]
fn file_errors() {
    assert_eq!(get_file_content(FileRead::Missing), Err(AppError::FileNotFound));
    assert_eq!(
        get_file_content(FileRead::Failed("denied".to_string())),
        Err(AppError::FileUnreadable("denied".to_string()))
    );
    assert_eq!(
        get_file_content(FileRead::Text { contents: "a".to_string(), extension: None }),
        Err(AppError::UnsupportedFormat)
    );
}

#[test]
fn file_extension_is_lower_cased() {
    let r = get_file_content(FileRead::Text {
        contents: "a = 1".to_string(),
        extension: Some("TOML".to_string()),
    });
    assert_eq!(r, Ok(("a = 1".to_string(), "toml".to_string())));
    let (next, action) = run(
        Session::Reading(options(Some("C.JSON"), None, Some(4))),
        Event::FileRead(FileRead::Text {
            contents: "{}".to_string(),
            extension: Some("JSON".to_string()),
        }),
    );
    assert!(matches!(next, Session::Parsing { colored: true, width: 4 }));
    match action {
        Action::Parse { contents, format } => {
            assert_eq!(contents, "{}");
            assert_eq!(format, Format::Json);
        }
        other => panic!("expected a parse, got {:?}", other),
    }
}

#[test]
fn formats_by_tag() {
    assert_eq!(format_of("json"), Ok(Format::Json));
    assert_eq!(format_of("toml"), Ok(Format::Toml));
    assert_eq!(format_of("yaml"), Ok(Format::Yaml));
    assert_eq!(format_of("yml"), Ok(Format::Yaml));
    assert_eq!(format_of("ini"), Err(AppError::UnsupportedFormat));
    assert_eq!(format_of("JSON"), Err(AppError::UnsupportedFormat));
    assert_eq!(format_of(""), Err(AppError::UnsupportedFormat));
}

#[test]
fn unsupported_format_from_session() {
    let (_, action) = run(
        Session::Reading(options(None, Some("xml"), None)),
        Event::StdinRead(Ok("<a/>".to_string())),
    );
    assert_eq!(fail_of(action), AppError::UnsupportedFormat);
}

#[test]
fn color_switches() {
    assert!(configure_colors(false, false));
    assert!(!configure_colors(false, true));
    assert!(!configure_colors(true, false));
    assert!(!configure_colors(true, true));
}

#[test]
fn full_run_prints_lines() {
    let mut o = options(None, Some("json"), None);
    o.no_color = true;
    let (s1, a1) = run(Session::Start, Event::Begin(o));
    assert!(matches!(a1, Action::ReadStdin));
    let (s2, a2) = run(s1, Event::StdinRead(Ok("{\"a\":1}".to_string())));
    assert!(matches!(a2, Action::Parse { format: Format::Json, .. }));
    let tree = VizValue::Object(vec![("a".to_string(), VizValue::Number(Number::Int(1)))]);
    let (s3, a3) = run(s2, Event::Parsed(Ok(tree)));
    assert!(matches!(s3, Session::Finished));
    match a3 {
        Action::Print { colored, width, lines } => {
            assert!(!colored);
            assert_eq!(width, 2);
            assert_eq!(to_text(&lines, width), "{\n  \"a\": 1\n}\n");
        }
        other => panic!("expected a print, got {:?}", other),
    }
}

#[test]
fn nesting_depth_counts_levels() {
    assert_eq!(nesting_depth(&VizValue::Null), 0);
    let v = VizValue::Object(vec![(
        "a".to_string(),
        VizValue::Array(vec![VizValue::Array(vec![]), VizValue::Bool(true)]),
    )]);
    assert_eq!(nesting_depth(&v), 3);
}
