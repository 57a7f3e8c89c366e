use dataset_gen::json::Field;
use dataset_gen::persona::Persona;
use dataset_gen::provider::{
    answer_preview, llama_answer, llama_args, ollama_answer, ollama_request, ollama_url,
    prompt_preview, select_provider, take_response, Binary, LlamaError, OllamaError, Provider,
    SelectError,
};
use serde_json::Value;

fn binary(exists: bool) -> Option<Binary> {
    Some(Binary { shown: "\"/opt/llama\"".to_string(), exists })
}

#[test]
fn selects_ollama() {
    assert_eq!(select_provider("ollama", &None).unwrap(), Provider::Ollama);
    assert_eq!(select_provider("ollama", &binary(false)).unwrap(), Provider::Ollama);
}

#[test]
fn selects_llama_with_its_program() {
    assert_eq!(select_provider("llamacpp", &binary(true)).unwrap(), Provider::LlamaCpp);
    let e = select_provider("llamacpp", &None).unwrap_err();
    assert_eq!(e, SelectError::NoBinary);
    assert_eq!(e.message(), "--llamacpp-bin required for llamacpp provider");
    let e = select_provider("llamacpp", &binary(false)).unwrap_err();
    assert_eq!(e, SelectError::BinaryNotFound("\"/opt/llama\"".to_string()));
    assert_eq!(e.message(), "llama.cpp binary not found at \"/opt/llama\"");
}

#[test]
fn refuses_an_unknown_provider() {
    let e = select_provider("openai", &binary(true)).unwrap_err();
    assert_eq!(e, SelectError::Unknown("openai".to_string()));
    assert_eq!(e.message(), "Unknown provider: openai");
}

#[test]
fn previews_prompt_and_answer() {
    let long = "ѣ\n".repeat(60);
    assert_eq!(prompt_preview(&long), "ѣ ".repeat(40));
    assert_eq!(prompt_preview("a\nb"), "a b");
    assert_eq!(answer_preview(&long), "ѣ\n".repeat(50));
    assert_eq!(answer_preview("a\nb"), "a\nb");
}

#[test]
fn asks_ollama() {
    assert_eq!(ollama_url("http://localhost:11434"), "http://localhost:11434/api/generate");
    let body = ollama_request("gemma", "hi \"you\"", Value::from(0.5f32), 512);
    assert_eq!(
        serde_json::to_string(&body).unwrap(),
        "{\"model\":\"gemma\",\"options\":{\"num_predict\":512,\"temperature\":0.5},\
         \"prompt\":\"hi \\\"you\\\"\",\"stream\":false}"
    );
}

#[test]
fn takes_the_answer_of_ollama() {
    let body = "{\"model\":\"m\",\"response\":\"Да.\\n\",\"done\":true}";
    assert_eq!(ollama_answer(200, body).unwrap(), "Да.\n");
    assert_eq!(ollama_answer(299, body).unwrap(), "Да.\n");
}

#[test]
fn ollama_without_response() {
    for body in ["{}", "{\"response\":1}", "[]", "null", "\"response\""] {
        let e = ollama_answer(200, body).unwrap_err();
        assert!(matches!(e, OllamaError::NoResponse));
        assert_eq!(e.message().unwrap(), "No 'response' field in Ollama reply");
    }
    assert!(take_response(Field::Missing).is_err());
    assert!(take_response(Field::Other).is_err());
    assert_eq!(take_response(Field::Text("a".to_string())).unwrap(), "a");
}

#[test]
fn ollama_without_json() {
    let e = ollama_answer(200, "").unwrap_err();
    assert!(e.message().is_none());
    match e {
        OllamaError::Json(e) => {
            assert_eq!(e.to_string(), "EOF while parsing a value at line 1 column 0")
        }
        _ => panic!("a JSON error was due"),
    }
}

#[test]
fn ollama_with_another_status() {
    let body = "{\"response\":\"no\"}";
    let e = ollama_answer(404, body).unwrap_err();
    assert_eq!(e.message().unwrap(), "Ollama error 404 Not Found: {\"response\":\"no\"}");
    let e = ollama_answer(300, "").unwrap_err();
    assert_eq!(e.message().unwrap(), "Ollama error 300 Multiple Choices: ");
    let e = ollama_answer(199, "x").unwrap_err();
    assert_eq!(e.message().unwrap(), "Ollama error 199 <unknown status code>: x");
}

#[test]
fn runs_llama() {
    assert_eq!(
        llama_args("m.gguf", "hi", "0.7", 64),
        vec!["-m", "m.gguf", "-p", "hi", "--temp", "0.7", "-n", "64", "--no-display-prompt"]
    );
}

#[test]
fn takes_the_answer_of_llama() {
    assert_eq!(
        llama_answer(true, " \n Да.\n".as_bytes().to_vec(), &vec![]).unwrap(),
        "Да."
    );
    assert_eq!(llama_answer(true, vec![], &b"noise".to_vec()).unwrap(), "");
}

#[test]
fn llama_that_failed() {
    let e = llama_answer(false, b"x".to_vec(), &b"no model\n".to_vec()).unwrap_err();
    assert_eq!(e, LlamaError::Failed("no model\n".to_string()));
    assert_eq!(e.message().unwrap(), "llama.cpp error: no model\n");
    let e = llama_answer(false, vec![], &vec![b'a', 0xff, b'b']).unwrap_err();
    assert_eq!(e.message().unwrap(), "llama.cpp error: a\u{fffd}b");
}

#[test]
fn llama_that_prints_no_utf8() {
    let bytes = vec![b'a', 0xff];
    let e = llama_answer(true, bytes.clone(), &vec![]).unwrap_err();
    assert!(e.message().is_none());
    assert_eq!(e, LlamaError::NotUtf8(String::from_utf8(bytes).unwrap_err()));
}

#[test]
fn formats_the_prompt_of_a_persona() {
    let mut persona = Persona {
        name: "Ivan".to_string(),
        description: "A squire".to_string(),
        style: "old".to_string(),
        system_prompt: None,
    };
    assert_eq!(
        persona.format_prompt("Hello", &Some("topic".to_string())),
        "You are Ivan. A squire. Your style: old. \n\nUser: Hello\n\n\
         Respond in the style and persona described."
    );
    persona.system_prompt = Some("Be brief".to_string());
    assert_eq!(
        persona.format_prompt("Hello", &None),
        "You are Ivan. A squire. Your style: old. System: Be brief\n\nUser: Hello\n\n\
         Respond in the style and persona described."
    );
}
