use wcli::config::{CallConfig, PublishConfig, SubscribeConfig};
use wcli::literal::ParsedArg;
use wcli::request::{
    build_call_request, build_publish_request, build_subscribe_request, parse_args, parse_pairs,
};

fn strings(tokens: &[&str]) -> Vec<String> {
    tokens.iter().map(|t| t.to_string()).collect()
}

#[test]
fn call_request_holds_typed_values_in_order() {
    let config = CallConfig {
        procedure: "io.xconn.echo".to_string(),
        args: strings(&["1", "'1'", "1.5", "true", "x"]),
        kwargs: strings(&["a=1", "broken", "b='two'", "a=3"]),
        options: strings(&["timeout=30", "nopair"]),
        repeat: 1,
        parallel: 1,
        concurrency: 1,
    };
    let request = build_call_request(&config);
    assert_eq!(request.uri, "io.xconn.echo");
    assert_eq!(
        request.args,
        vec![
            ParsedArg::Integer(1),
            ParsedArg::String("1".to_string()),
            ParsedArg::Float("1.5".to_string()),
            ParsedArg::Boolean(true),
            ParsedArg::String("x".to_string()),
        ]
    );
    assert_eq!(
        request.kwargs,
        vec![
            ("a".to_string(), ParsedArg::Integer(1)),
            ("b".to_string(), ParsedArg::String("two".to_string())),
            ("a".to_string(), ParsedArg::Integer(3)),
        ]
    );
    assert_eq!(request.options, vec![("timeout".to_string(), ParsedArg::Integer(30))]);
}

#[test]
fn empty_call_request() {
    let config = CallConfig {
        procedure: "p".to_string(),
        args: vec![],
        kwargs: vec![],
        options: vec![],
        repeat: 1,
        parallel: 1,
        concurrency: 1,
    };
    let request = build_call_request(&config);
    assert_eq!(request.uri, "p");
    assert!(request.args.is_empty());
    assert!(request.kwargs.is_empty());
    assert!(request.options.is_empty());
}

#[test]
fn publish_request_attaches_acknowledge_last() {
    let config = PublishConfig {
        topic: "io.xconn.topic".to_string(),
        args: strings(&["hello"]),
        kwargs: strings(&["k=v"]),
        options: strings(&["exclude_me=false"]),
        repeat: 1,
        parallel: 1,
        concurrency: 1,
        acknowledge: true,
    };
    let request = build_publish_request(&config);
    assert_eq!(request.uri, "io.xconn.topic");
    assert_eq!(request.args, vec![ParsedArg::String("hello".to_string())]);
    assert_eq!(request.kwargs, vec![("k".to_string(), ParsedArg::String("v".to_string()))]);
    assert_eq!(
        request.options,
        vec![
            ("exclude_me".to_string(), ParsedArg::Boolean(false)),
            ("acknowledge".to_string(), ParsedArg::Boolean(true)),
        ]
    );
}

#[test]
fn publish_request_without_acknowledge() {
    let config = PublishConfig {
        topic: "t".to_string(),
        args: vec![],
        kwargs: vec![],
        options: strings(&["acknowledge=false"]),
        repeat: 1,
        parallel: 1,
        concurrency: 1,
        acknowledge: false,
    };
    let request = build_publish_request(&config);
    assert_eq!(request.options, vec![("acknowledge".to_string(), ParsedArg::Boolean(false))]);
}

#[test]
fn subscribe_request_is_the_topic() {
    let config = SubscribeConfig { topic: "io.xconn.topic".to_string(), parallel: 2, concurrency: 1 };
    let request = build_subscribe_request(&config);
    assert_eq!(request.uri, "io.xconn.topic");
    assert!(request.args.is_empty());
    assert!(request.kwargs.is_empty());
    assert!(request.options.is_empty());
}

#[test]
fn one_argument_per_token() {
    let tokens = strings(&["", "=", "0", "a b"]);
    let args = parse_args(&tokens);
    assert_eq!(
        args,
        vec![
            ParsedArg::String("".to_string()),
            ParsedArg::String("=".to_string()),
            ParsedArg::Integer(0),
            ParsedArg::String("a b".to_string()),
        ]
    );
}

#[test]
fn malformed_pairs_are_passed_over() {
    assert!(parse_pairs(&strings(&["a", "b", ""])).is_empty());
    assert_eq!(
        parse_pairs(&strings(&["x", "k=1", "y", "l=2"])),
        vec![("k".to_string(), ParsedArg::Integer(1)), ("l".to_string(), ParsedArg::Integer(2))]
    );
}
