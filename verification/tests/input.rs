use dataset_gen::input::{
    fill_template, load_items, make_item, read_fields, read_line, Fields, InputError, Item,
};
use dataset_gen::json::{look_up, Field};
use serde_json::Value;

fn item(instruction: &str, input: Option<&str>) -> Item {
    Item { instruction: instruction.to_string(), input: input.map(|s| s.to_string()) }
}

fn lines(list: &[&str]) -> Vec<String> {
    list.iter().map(|s| s.to_string()).collect()
}

#[test]
fn looks_up_fields() {
    let mut map = serde_json::Map::new();
    map.insert("a".to_string(), Value::from("text"));
    map.insert("b".to_string(), Value::Null);
    let value = Value::from(map);
    assert_eq!(look_up(&value, "a"), Field::Text("text".to_string()));
    assert_eq!(look_up(&value, "b"), Field::Other);
    assert_eq!(look_up(&value, "c"), Field::Missing);
    assert_eq!(look_up(&Value::from("a"), "a"), Field::Missing);
    assert_eq!(look_up(&Value::from(vec!["a"]), "a"), Field::Missing);
}

#[test]
fn reads_the_three_fields() {
    let mut map = serde_json::Map::new();
    map.insert("instruction".to_string(), Value::from("i"));
    map.insert("text".to_string(), Value::from(1));
    let fields = read_fields(&Value::from(map));
    assert_eq!(fields.instruction, Field::Text("i".to_string()));
    assert_eq!(fields.input, Field::Missing);
    assert_eq!(fields.text, Field::Other);
}

#[test]
fn fills_the_template() {
    assert_eq!(fill_template("Read: {text}.", "book"), "Read: book.");
    assert_eq!(fill_template("Read it.", "book"), "Read it.");
    assert_eq!(fill_template("{text}/{text}", "{text}"), "{text}/{text}");
}

#[test]
fn fills_as_std_replaces() {
    let cases = [
        ("x {text} y", "T"),
        ("{text}{text}", "ab"),
        ("no place", "ab"),
        ("{tex{text}t}", ""),
        ("{{text}}", "a"),
        ("", "ab"),
        ("{text", "ab"),
        ("{text}", "{text}{text}"),
        ("ѣ{text}ъ", "і"),
    ];
    for (template, text) in cases {
        assert_eq!(fill_template(template, text), template.replace("{text}", text));
    }
}

#[test]
fn an_instruction_counts_whatever_it_is() {
    let fields = Fields {
        instruction: Field::Other,
        input: Field::Other,
        text: Field::Text("t".to_string()),
    };
    assert_eq!(make_item(fields, "{text}").unwrap(), item("", None));
}

#[test]
fn a_text_fills_the_template() {
    let fields = Fields {
        instruction: Field::Missing,
        input: Field::Text("kept out".to_string()),
        text: Field::Text("t".to_string()),
    };
    assert_eq!(make_item(fields, "<{text}>").unwrap(), item("<t>", Some("")));
    let fields =
        Fields { instruction: Field::Missing, input: Field::Missing, text: Field::Other };
    assert_eq!(make_item(fields, "<{text}>").unwrap(), item("<>", Some("")));
}

#[test]
fn neither_instruction_nor_text_is_refused() {
    let fields = Fields {
        instruction: Field::Missing,
        input: Field::Text("x".to_string()),
        text: Field::Missing,
    };
    let e = make_item(fields, "{text}").unwrap_err();
    assert!(matches!(e, InputError::NoInstruction));
    assert_eq!(
        e.message().unwrap(),
        "Each input line must have 'text' or 'instruction' field"
    );
}

#[test]
fn reads_a_line() {
    let line = "{\"instruction\": \"sum\", \"input\": \"1 2\", \"more\": [1]}";
    assert_eq!(read_line(line, "{text}").unwrap(), Some(item("sum", Some("1 2"))));
    let line = "  {\"instruction\": \"sum\"} ";
    assert_eq!(read_line(line, "{text}").unwrap(), Some(item("sum", None)));
    let line = "{\"text\": \"\\u0463\\n\"}";
    assert_eq!(read_line(line, "<{text}>").unwrap(), Some(item("<ѣ\n>", Some(""))));
    assert_eq!(read_line(" \t\u{a0}", "{text}").unwrap(), None);
    assert_eq!(read_line("", "{text}").unwrap(), None);
}

#[test]
fn refuses_a_line_that_is_no_json() {
    let e = read_line("not json", "{text}").unwrap_err();
    assert!(e.message().is_none());
    match e {
        InputError::Json(e) => {
            let expected = serde_json::from_str::<Value>("not json").unwrap_err();
            assert_eq!(e.to_string(), expected.to_string());
        }
        InputError::NoInstruction => panic!("a JSON error was due"),
    }
}

#[test]
fn refuses_a_line_that_is_no_object() {
    for line in ["[]", "1", "\"instruction\"", "null", "{}"] {
        let e = read_line(line, "{text}").unwrap_err();
        assert!(matches!(e, InputError::NoInstruction));
    }
}

#[test]
fn reads_a_line_as_deep_as_the_limit() {
    let nested = |depth: usize| {
        format!("{{\"instruction\":\"i\",\"more\":{}{}}}", "[".repeat(depth), "]".repeat(depth))
    };
    assert_eq!(read_line(&nested(126), "{text}").unwrap(), Some(item("i", None)));
    assert!(matches!(read_line(&nested(127), "{text}").unwrap_err(), InputError::Json(_)));
}

#[test]
fn loads_a_file() {
    let file = lines(&["{\"text\":\"a\"}", "", "  ", "{\"instruction\":\"b\",\"input\":\"c\"}"]);
    let items = load_items(&file, "<{text}>").unwrap();
    assert_eq!(items, vec![item("<a>", Some("")), item("b", Some("c"))]);
    assert_eq!(load_items(&lines(&[]), "{text}").unwrap(), vec![]);
}

#[test]
fn a_file_has_the_error_of_its_first_bad_line() {
    let file = lines(&["{\"text\":\"a\"}", "{}", "not json"]);
    assert!(matches!(load_items(&file, "{text}").unwrap_err(), InputError::NoInstruction));
    let file = lines(&["{\"text\":\"a\"}", "not json", "{}"]);
    assert!(matches!(load_items(&file, "{text}").unwrap_err(), InputError::Json(_)));
}
