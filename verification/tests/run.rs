use dataset_gen::input::{load_items, Item};
use dataset_gen::persona::Persona;
use dataset_gen::run::{make_prompt, output_line, take_answer, Begin, Job, Outcome, Run, Written};
use dataset_gen::text::split;

fn job(format: &str) -> Job {
    Job {
        persona: None,
        format: format.to_string(),
        system: Some("sys".to_string()),
        topic: Some("top".to_string()),
        sharegpt_id: false,
        history: vec![["q".to_string(), "a".to_string()]],
    }
}

fn item(instruction: &str, input: Option<&str>) -> Item {
    Item { instruction: instruction.to_string(), input: input.map(|s| s.to_string()) }
}

fn persona() -> Persona {
    Persona {
        name: "N".to_string(),
        description: "D".to_string(),
        style: "S".to_string(),
        system_prompt: None,
    }
}

#[test]
fn prompts_without_persona() {
    let job = job("alpaca");
    assert_eq!(make_prompt(&job, &item("do", None)), "do");
    assert_eq!(make_prompt(&job, &item("do", Some("x"))), "Instruction: do\nInput: x");
}

#[test]
fn prompts_with_persona() {
    let mut job = job("alpaca");
    job.persona = Some(persona());
    assert_eq!(
        make_prompt(&job, &item("do", None)),
        "You are N. D. Your style: S. \n\nUser: do\n\nRespond in the style and persona described."
    );
    assert_eq!(
        make_prompt(&job, &item("do", Some("x"))),
        "You are N. D. Your style: S. \n\nUser: do\n\nInput: x\n\n\
         Respond in the style and persona described."
    );
}

#[test]
fn lines_of_answers() {
    assert_eq!(
        output_line(&job("alpaca"), &item("do", Some("x")), " done \n").unwrap(),
        "{\"history\":[[\"q\",\"a\"]],\"input\":\"x\",\"instruction\":\"do\",\
         \"output\":\" done \\n\",\"system\":\"sys\",\"topic\":\"top\"}"
    );
    let e = output_line(&job("xml"), &item("do", None), "done").unwrap_err();
    assert_eq!(e.name, "xml");
}

#[test]
fn answers_are_written_or_dropped() {
    let it = item("do", None);
    match take_answer(&job("chatml"), &it, Ok("done".to_string())) {
        Outcome::Write { line } => {
            assert_eq!(line, output_line(&job("chatml"), &it, "done").unwrap())
        }
        Outcome::Drop { message } => panic!("dropped: {}", message),
    }
    assert_eq!(
        take_answer(&job("chatml"), &it, Err("down".to_string())),
        Outcome::Drop { message: "down".to_string() }
    );
    assert_eq!(
        take_answer(&job("xml"), &it, Ok("done".to_string())),
        Outcome::Drop { message: "format error: Unknown format: xml".to_string() }
    );
}

#[test]
fn numbers_items_in_order() {
    let job = job("alpaca");
    let mut run = Run::new();
    assert_eq!(
        run.begin(&job, &item("a", None)),
        Begin::Ask { number: 1, prompt: "a".to_string() }
    );
    assert_eq!(run.begin(&job, &item("", Some("x"))), Begin::Skip { number: 2 });
    assert_eq!(
        run.begin(&job, &item("b", None)),
        Begin::Ask { number: 3, prompt: "b".to_string() }
    );
    assert_eq!(run, Run { begun: 3, stopped: false });
}

#[test]
fn stops_for_good_when_the_output_fails() {
    let job = job("alpaca");
    let mut run = Run::new();
    assert_eq!(run.written(7, false), Written::Stop);
    assert_eq!(run.begin(&job, &item("a", None)), Begin::Halt);
    assert_eq!(run.written(8, true), Written::Go { flush: false, report: false });
    assert_eq!(run.begin(&job, &item("", None)), Begin::Halt);
    assert_eq!(run, Run { begun: 0, stopped: true });
}

#[test]
fn flushes_and_reports() {
    let mut run = Run::new();
    assert_eq!(run.written(49, true), Written::Go { flush: false, report: false });
    assert_eq!(run.written(50, true), Written::Go { flush: true, report: false });
    assert_eq!(run.written(100, true), Written::Go { flush: true, report: true });
    assert_eq!(run.written(150, true), Written::Go { flush: true, report: false });
    assert!(!run.stopped);
}

#[test]
fn a_file_of_lines_comes_apart_and_asks_again() {
    let job = job("alpaca");
    let items = vec![item("one\ntwo", Some("x")), item("three", None)];
    let mut file = String::new();
    for it in &items {
        file.push_str(&output_line(&job, it, "answer\n").unwrap());
        file.push('\n');
    }
    let mut lines = split(&file, '\n');
    assert_eq!(lines.pop().unwrap(), "");
    assert_eq!(lines.len(), 2);
    let again = load_items(&lines, "{text}").unwrap();
    assert_eq!(again, vec![item("one\ntwo", Some("x")), item("three", Some(""))]);
}
