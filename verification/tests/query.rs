use fmq::query::{compile_checked, decimal_text, list_of, syntax_checked};
use fmq::{compile, first_result, is_mutation, json_to_yaml, prepare, yaml_to_json, QueryError};
use jaq_interpret::{Ctx, Filter, FilterT, RcIter, Val};
use serde_json::Value;

fn first_output(filter: &Filter, input: Value) -> Option<Result<Value, String>> {
    let inputs = RcIter::new(core::iter::empty());
    let mut out = filter.run((Ctx::new([], &inputs), Val::from(input)));
    out.next().map(|item| item.map(Value::from).map_err(|e| e.to_string()))
}

fn run(expr: &str, yaml: &str) -> Result<Value, QueryError> {
    let evaluation = prepare(expr, yaml)?;
    first_result(first_output(&evaluation.filter, evaluation.input))
}


#[test]
fn detect_query() {
    assert!(!is_mutation(".title"));
    assert!(!is_mutation(".foo.bar"));
    assert!(!is_mutation(".x == .y"));
}

#[test]
fn detect_mutation() {
    assert!(is_mutation(".title = \"new\""));
    assert!(is_mutation(".count += 1"));
    assert!(is_mutation(".tags |= . + [\"new\"]"));
    assert!(is_mutation("del(.draft)"));
}

#[test]
fn yaml_json_roundtrip() {
    let yaml = "title: Hello\ntags:\n  - rust\n  - cli\n";
    let json = yaml_to_json(yaml).unwrap();
    assert_eq!(json["title"], "Hello");
    assert_eq!(json["tags"][0], "rust");
}

#[test]
fn run_query() {
    let yaml = "title: Hello\n";
    let result = run(".title", yaml).unwrap();
    assert_eq!(result, "Hello");
}

#[test]
fn run_mutation() {
    let yaml = "title: Hello\n";
    let result = run(".title = \"World\"", yaml).unwrap();
    assert_eq!(result["title"], "World");
}

#[test]
fn compound_assignments_are_mutations() {
    assert!(is_mutation(".a |= 1"));
    assert!(is_mutation(".a += 1"));
    assert!(is_mutation(".a -= 1"));
    assert!(is_mutation(".a *= 2"));
    assert!(is_mutation(".a /= 2"));
    assert!(is_mutation(".a %= 2"));
    assert!(is_mutation(".a //= 2"));
}

#[test]
fn compound_assignment_is_found_across_whitespace() {
    assert!(is_mutation(".a | == .b"));
    assert!(is_mutation(".a |\t== .b"));
    assert!(!is_mutation(".a == .b | not"));
}

#[test]
fn mutating_builtins_are_mutations() {
    assert!(is_mutation("delpaths([[\"a\"]])"));
    assert!(is_mutation("setpath([\"a\"]; 1)"));
    assert!(is_mutation("del (.a)"));
    assert!(!is_mutation("delete"));
}

#[test]
fn equality_tests_are_taken_out_in_pairs() {
    assert!(!is_mutation("=="));
    assert!(is_mutation("==="));
    assert!(!is_mutation("===="));
    assert!(is_mutation(".a == .b = 1"));
    assert!(!is_mutation(""));
}

#[test]
fn an_equals_sign_inside_a_string_counts() {
    assert!(is_mutation(".title | test(\"a=b\")"));
}

#[test]
fn not_equal_counts_as_assignment() {
    assert!(is_mutation(".a != .b"));
}

#[test]
fn yaml_decoding_gives_the_value() {
    let json = yaml_to_json("count: 3\nok: true\n").unwrap();
    assert_eq!(json["count"], 3);
    assert_eq!(json["ok"], true);
    assert!(json["missing"].is_null());
}

#[test]
fn yaml_decoding_of_nothing_gives_null() {
    let json = yaml_to_json("").unwrap();
    assert!(json.is_null());
}

#[test]
fn invalid_yaml_is_reported() {
    let err = yaml_to_json("a: [unclosed").unwrap_err();
    assert!(err.0.starts_with("invalid yaml: "));
    assert!(err.0.len() > "invalid yaml: ".len());
    let err = run(".a", "a: [unclosed").unwrap_err();
    assert!(err.0.starts_with("invalid yaml: "));
}

#[test]
fn yaml_encoding_gives_the_text() {
    let json = yaml_to_json("title: World\n").unwrap();
    assert_eq!(json_to_yaml(&json).unwrap().trim_end(), "title: World");
    let json = yaml_to_json("tags: [a, b]\nn: 2\n").unwrap();
    assert_eq!(json_to_yaml(&json).unwrap().trim_end(), "n: 2\ntags:\n  - a\n  - b");
}

#[test]
fn parse_errors_are_reported() {
    let err = run(".title |", "title: Hello\n").unwrap_err();
    assert!(err.0.starts_with("parse error: ["));
    assert!(err.0.ends_with("]"));
}

#[test]
fn compile_errors_are_reported() {
    let err = run("nosuchfilter", "title: Hello\n").unwrap_err();
    assert_eq!(err.0, "compile error: 1 errors");
}

#[test]
fn runtime_errors_are_reported() {
    let err = run("error(\"boom\")", "title: Hello\n").unwrap_err();
    assert!(err.0.starts_with("runtime error: "));
    assert!(err.0.contains("boom"));
}

#[test]
fn no_output_is_reported() {
    let err = run("empty", "title: Hello\n").unwrap_err();
    assert_eq!(err.0, "no output");
}

#[test]
fn only_the_first_output_is_taken() {
    let result = run(".[]", "- 1\n- 2\n- 3\n").unwrap();
    assert_eq!(result, 1);
    let result = run(".a, .b", "a: x\nb: y\n").unwrap();
    assert_eq!(result, "x");
}

#[test]
fn an_error_after_the_first_output_is_not_raised() {
    let result = run(".a, error(\"late\")", "a: x\n").unwrap();
    assert_eq!(result, "x");
}

#[test]
fn standard_library_filters_are_known() {
    let result = run(".tags | map(ascii_upcase) | join(\",\")", "tags:\n  - a\n  - b\n").unwrap();
    assert_eq!(result, "A,B");
}

#[test]
fn first_result_decides_on_each_case() {
    let value = yaml_to_json("7").unwrap();
    assert_eq!(first_result(Some(Ok(value))).unwrap(), 7);
    let err = first_result(Some(Err("bad".to_string()))).unwrap_err();
    assert_eq!(err.0, "runtime error: bad");
    let err = first_result(None).unwrap_err();
    assert_eq!(err.0, "no output");
}

#[test]
fn compile_reports_the_faults_of_an_expression() {
    assert!(compile(".a | length").is_ok());
    assert!(compile(".a |").unwrap_err().0.starts_with("parse error: ["));
    assert_eq!(compile("nosuchfilter").unwrap_err().0, "compile error: 1 errors");
    assert_eq!(compile("nosuch | other").unwrap_err().0, "compile error: 2 errors");
}

#[test]
fn prepare_decodes_before_it_compiles() {
    let err = prepare(".a |", "a: [unclosed").unwrap_err();
    assert!(err.0.starts_with("invalid yaml: "));
    let err = prepare(".a |", "a: 1").unwrap_err();
    assert!(err.0.starts_with("parse error: "));
    let evaluation = prepare(".a", "a: 1").unwrap();
    assert_eq!(evaluation.input["a"], 1);
}

#[test]
fn evaluation_errors_give_their_text() {
    assert_eq!(run("empty", "a: 1").unwrap_err().to_string(), "no output");
}

#[test]
fn syntax_checked_decides_on_each_case() {
    let none: Vec<String> = Vec::new();
    assert_eq!(syntax_checked(Some(5u8), &none).unwrap(), 5);
    let err = syntax_checked::<u8>(None, &none).unwrap_err();
    assert_eq!(err.0, "parse failed");
    let errors = vec!["one".to_string(), "two".to_string()];
    let err = syntax_checked(Some(5u8), &errors).unwrap_err();
    assert_eq!(err.0, "parse error: [one, two]");
    let err = syntax_checked::<u8>(None, &errors).unwrap_err();
    assert_eq!(err.0, "parse error: [one, two]");
}

#[test]
fn compile_checked_decides_on_the_count() {
    assert!(compile_checked(0).is_ok());
    assert_eq!(compile_checked(1).unwrap_err().0, "compile error: 1 errors");
    assert_eq!(compile_checked(12).unwrap_err().0, "compile error: 12 errors");
}

#[test]
fn decimal_text_writes_digits() {
    assert_eq!(decimal_text(0), "0");
    assert_eq!(decimal_text(7), "7");
    assert_eq!(decimal_text(10), "10");
    assert_eq!(decimal_text(409), "409");
    assert_eq!(decimal_text(1234567890), "1234567890");
}

#[test]
fn list_of_writes_a_bracketed_list() {
    assert_eq!(list_of(&Vec::new()), "[]");
    assert_eq!(list_of(&vec!["a".to_string()]), "[a]");
    assert_eq!(list_of(&vec!["a".to_string(), "b".to_string(), "c".to_string()]), "[a, b, c]");
}

#[test]
fn a_value_that_cannot_be_encoded_is_reported() {
    let mut value = serde_json::Value::Null;
    for _ in 0..200 {
        value = serde_json::Value::Array(vec![value]);
    }
    let err = json_to_yaml(&value).unwrap_err();
    assert!(err.0.starts_with("yaml serialization failed: "));
    assert!(err.0.len() > "yaml serialization failed: ".len());
}

#[test]
fn addition_without_assignment_is_a_query() {
    assert!(!is_mutation(". + {topics: [\"ai\"]}"));
    assert!(!is_mutation(".a // \"none\""));
    assert!(!is_mutation(".a | length"));
}

#[test]
fn strings_come_through_the_engine_unchanged() {
    let texts = [
        "x\u{a0}y",
        "\u{1f468}\u{200d}\u{1f469}\u{200d}\u{1f467}",
        "x\u{1}y\u{1f}",
        "x\ty\r\n",
        "\u{301}x",
        "caf\u{e9} \u{1f600}",
        "q\"b\\c'",
        "x\u{0}y",
        "\u{ad}\u{feff}\u{7f}\u{85}",
        "\\u{41}\\0",
        "\u{e0100}\u{10ffff}\u{fffe}",
        "",
    ];
    for text in texts {
        let value = serde_json::Value::String(text.to_string());
        let yaml = json_to_yaml(&value).unwrap();
        let decoded = yaml_to_json(&yaml).unwrap();
        assert_eq!(run(".", &yaml).unwrap(), decoded, "{:?}", text);
        let yaml = json_to_yaml(&serde_json::Value::Array(vec![value.clone()])).unwrap();
        let decoded = yaml_to_json(&yaml).unwrap();
        assert_eq!(run(".[0]", &yaml).unwrap(), decoded[0], "{:?}", text);
        let key = decoded[0].as_str().unwrap();
        assert_eq!(run("{(.[0]): .}", &yaml).unwrap()[key], decoded, "{:?}", text);
    }
}

#[test]
fn numbers_come_through_the_engine_unchanged() {
    for yaml in ["1", "-1", "0", "1.0", "-0.0", "0.1", "1e300", "1.5e-7", "9223372036854775807"] {
        assert_eq!(run(".", yaml).unwrap(), yaml_to_json(yaml).unwrap(), "{}", yaml);
    }
}
