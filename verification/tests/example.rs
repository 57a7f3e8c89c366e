use dataset_gen::example::{
    make_user_message, parse_format, write_example, write_numbered_example, Format,
};
use dataset_gen::input::{read_line, Item};
use serde_json::Value;

fn turns() -> Vec<[String; 2]> {
    vec![["q1".to_string(), "a1".to_string()], ["q2".to_string(), "a2".to_string()]]
}

#[test]
fn finds_formats() {
    assert_eq!(parse_format("alpaca").unwrap(), Format::Alpaca);
    assert_eq!(parse_format("sharegpt").unwrap(), Format::ShareGpt);
    assert_eq!(parse_format("chatml").unwrap(), Format::ChatMl);
    let e = parse_format("Alpaca").unwrap_err();
    assert_eq!(e.name, "Alpaca");
    assert_eq!(e.message(), "Unknown format: Alpaca");
}

#[test]
fn makes_user_messages() {
    assert_eq!(make_user_message("do", None, None), "do");
    assert_eq!(make_user_message("do", Some("x"), None), "do\n\nInput: x");
    assert_eq!(make_user_message("do", None, Some("t")), "[Topic: t] do");
    assert_eq!(make_user_message("do", Some(""), Some("t")), "[Topic: t] do\n\nInput: ");
}

#[test]
fn alpaca_at_its_least() {
    let mut out = String::new();
    write_example(&mut out, "alpaca", "do", None, "done", None, None, true, &vec![]).unwrap();
    assert_eq!(out, "{\"input\":\"\",\"instruction\":\"do\",\"output\":\"done\"}\n");
}

#[test]
fn alpaca_at_its_most() {
    let mut out = String::from("before\n");
    write_example(
        &mut out,
        "alpaca",
        "do",
        Some("in"),
        "done",
        Some("sys"),
        Some("top"),
        false,
        &turns(),
    )
    .unwrap();
    assert_eq!(
        out,
        "before\n{\"history\":[[\"q1\",\"a1\"],[\"q2\",\"a2\"]],\"input\":\"in\",\
         \"instruction\":\"do\",\"output\":\"done\",\"system\":\"sys\",\"topic\":\"top\"}\n"
    );
}

#[test]
fn sharegpt_with_number() {
    let mut out = String::new();
    write_numbered_example(
        &mut out,
        "sharegpt",
        "do",
        Some("in"),
        "done",
        Some("sys"),
        Some("top"),
        Some(42),
        &turns(),
    )
    .unwrap();
    assert_eq!(
        out,
        "{\"conversations\":[{\"from\":\"system\",\"value\":\"sys\"},\
         {\"from\":\"human\",\"value\":\"q1\"},{\"from\":\"gpt\",\"value\":\"a1\"},\
         {\"from\":\"human\",\"value\":\"q2\"},{\"from\":\"gpt\",\"value\":\"a2\"},\
         {\"from\":\"human\",\"value\":\"[Topic: top] do\\n\\nInput: in\"},\
         {\"from\":\"gpt\",\"value\":\"done\"}],\"id\":\"gen_42\"}\n"
    );
}

#[test]
fn sharegpt_without_number() {
    let mut out = String::new();
    write_example(&mut out, "sharegpt", "do", None, "done", None, None, false, &vec![]).unwrap();
    assert_eq!(
        out,
        "{\"conversations\":[{\"from\":\"human\",\"value\":\"do\"},\
         {\"from\":\"gpt\",\"value\":\"done\"}]}\n"
    );
}

#[test]
fn sharegpt_numbers_are_random() {
    let mut names = Vec::new();
    for _ in 0..8 {
        let mut out = String::new();
        write_example(&mut out, "sharegpt", "do", None, "done", None, None, true, &vec![])
            .unwrap();
        let value: Value = serde_json::from_str(&out).unwrap();
        let name = value["id"].as_str().unwrap().to_string();
        let number: u32 = name.strip_prefix("gen_").unwrap().parse().unwrap();
        assert_eq!(name, format!("gen_{}", number));
        names.push(name);
    }
    names.sort();
    names.dedup();
    assert!(names.len() > 1);
}

#[test]
fn chatml_has_no_number() {
    let mut out = String::new();
    write_numbered_example(
        &mut out,
        "chatml",
        "do",
        Some("in"),
        "done",
        Some("sys"),
        None,
        Some(42),
        &turns(),
    )
    .unwrap();
    assert_eq!(
        out,
        "{\"messages\":[{\"content\":\"sys\",\"role\":\"system\"},\
         {\"content\":\"q1\",\"role\":\"user\"},{\"content\":\"a1\",\"role\":\"assistant\"},\
         {\"content\":\"q2\",\"role\":\"user\"},{\"content\":\"a2\",\"role\":\"assistant\"},\
         {\"content\":\"do\\n\\nInput: in\",\"role\":\"user\"},\
         {\"content\":\"done\",\"role\":\"assistant\"}]}\n"
    );
}

#[test]
fn unknown_format_writes_nothing() {
    let mut out = String::from("kept");
    let e = write_example(&mut out, "csv", "do", None, "done", None, None, true, &vec![])
        .unwrap_err();
    assert_eq!(e.message(), "Unknown format: csv");
    assert_eq!(out, "kept");
}

#[test]
fn examples_stay_on_one_line_and_read_back() {
    let odd = "a\n\"b\"\\\t\u{1}\u{2028}ѣ😀\r\n";
    for format in ["alpaca", "sharegpt", "chatml"] {
        let mut out = String::new();
        write_example(&mut out, format, odd, Some(odd), odd, Some(odd), Some(odd), false, &turns())
            .unwrap();
        assert_eq!(out.matches('\n').count(), 1);
        assert!(out.starts_with('{') && out.ends_with("}\n"));
        let value: Value = serde_json::from_str(&out).unwrap();
        assert_eq!(serde_json::to_string(&value).unwrap() + "\n", out);
        if format == "alpaca" {
            assert_eq!(value["output"], Value::from(odd));
        }
    }
}

#[test]
fn sharegpt_and_chatml_tell_the_same() {
    let mut shared = String::new();
    let mut chat = String::new();
    for (format, out) in [("sharegpt", &mut shared), ("chatml", &mut chat)] {
        write_example(out, format, "do", Some("in"), "done", Some("s"), Some("t"), false, &turns())
            .unwrap();
    }
    let shared: Value = serde_json::from_str(&shared).unwrap();
    let chat: Value = serde_json::from_str(&chat).unwrap();
    let shared = shared["conversations"].as_array().unwrap();
    let chat = chat["messages"].as_array().unwrap();
    assert_eq!(shared.len(), 7);
    assert_eq!(shared.len(), chat.len());
    for (s, c) in shared.iter().zip(chat) {
        assert_eq!(s["value"], c["content"]);
    }
    assert_eq!(shared[6]["from"], Value::from("gpt"));
    assert_eq!(chat[6]["role"], Value::from("assistant"));
}

#[test]
fn an_alpaca_line_asks_again() {
    let mut out = String::new();
    write_example(&mut out, "alpaca", "do\n", None, "done", None, Some("t"), false, &turns())
        .unwrap();
    let again = read_line(&out, "{text}").unwrap().unwrap();
    assert_eq!(
        again,
        Item { instruction: "do\n".to_string(), input: Some("".to_string()) }
    );
}
