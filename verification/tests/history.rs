use dataset_gen::history::parse_history;

fn turn(user: &str, assistant: &str) -> [String; 2] {
    [user.to_string(), assistant.to_string()]
}

#[test]
fn no_history() {
    assert_eq!(parse_history(None).unwrap(), Vec::<[String; 2]>::new());
}

#[test]
fn history_of_turns() {
    let history = parse_history(Some("hi:hello|how are you?:fine")).unwrap();
    assert_eq!(history, vec![turn("hi", "hello"), turn("how are you?", "fine")]);
}

#[test]
fn history_is_cut_at_the_first_colon() {
    let history = parse_history(Some("time:10:30|:|a:")).unwrap();
    assert_eq!(history, vec![turn("time", "10:30"), turn("", ""), turn("a", "")]);
}

#[test]
fn history_without_colon_is_refused() {
    let e = parse_history(Some("a:b|c|d")).unwrap_err();
    assert_eq!(e.piece, "c");
    assert_eq!(e.message(), "Invalid history format: c");
}

#[test]
fn empty_history_is_refused() {
    let e = parse_history(Some("")).unwrap_err();
    assert_eq!(e.piece, "");
    assert_eq!(e.message(), "Invalid history format: ");
    assert_eq!(parse_history(Some("a:b|")).unwrap_err().piece, "");
}

#[test]
fn history_reads_and_writes_back() {
    let written = "Кто вы?:Дворянинъ.|Откуда?:Изъ Москвы: съ Арбата.";
    let history = parse_history(Some(written)).unwrap();
    assert_eq!(history.len(), 2);
    let again: Vec<String> = history.iter().map(|t| format!("{}:{}", t[0], t[1])).collect();
    assert_eq!(again.join("|"), written);
}
