//! The language models that answer: Ollama, asked over HTTP, and llama.cpp,
//! run as a program. What is sent to them and what is made of their replies.

use crate::json::{
    bool_value, count_value, field_of, json_of, json_parse, look_up, object_value, parse,
    text_value, Field, FieldView, Json,
};
use crate::text::{
    decimal, first_chars, law_decimal_reads_back, law_first_chars, law_on_one_line, law_trimmed,
    number_of, on_one_line, one_line, preview, same_text, texts, trim, trimmed, white_space,
    write_decimal,
};
use serde_json::Value;
use vstd::prelude::*;
use vstd::utf8::{decode_utf8, valid_utf8};

verus! {

/// A provider of answers.
#[derive(Debug, Clone, Copy, PartialEq, Eq, Structural)]
pub enum Provider {
    Ollama,
    LlamaCpp,
}

/// The llama.cpp program that was named: how its path is shown, and whether it
/// is there.
#[derive(Debug, PartialEq, Eq)]
pub struct Binary {
    pub shown: String,
    pub exists: bool,
}

/// Why there is no provider.
#[derive(Debug, PartialEq, Eq)]
pub enum SelectError {
    /// llama.cpp is asked for, and no program is named.
    NoBinary,
    /// llama.cpp is asked for, and the program named is not there.
    BinaryNotFound(String),
    /// There is no provider of this name.
    Unknown(String),
}

impl SelectError {
    /// The message for the user.
    pub fn message(&self) -> (r: String)
        ensures
            r@ == match *self {
                SelectError::NoBinary => "--llamacpp-bin required for llamacpp provider"@,
                SelectError::BinaryNotFound(shown) => "llama.cpp binary not found at "@ + shown@,
                SelectError::Unknown(name) => "Unknown provider: "@ + name@,
            },
    {
        match self {
            SelectError::NoBinary => "--llamacpp-bin required for llamacpp provider".to_string(),
            SelectError::BinaryNotFound(shown) => "llama.cpp binary not found at ".to_string().concat(
                shown.as_str(),
            ),
            SelectError::Unknown(name) => "Unknown provider: ".to_string().concat(name.as_str()),
        }
    }
}

/// Selects the provider with the given name. llama.cpp needs its program, which
/// must be there.
pub fn select_provider(name: &str, binary: &Option<Binary>) -> (r: Result<Provider, SelectError>)
    ensures
        if name@ == "ollama"@ {
            r is Ok && r->Ok_0 == Provider::Ollama
        } else if name@ == "llamacpp"@ {
            match *binary {
                None => r is Err && r->Err_0 is NoBinary,
                Some(b) => if b.exists {
                    r is Ok && r->Ok_0 == Provider::LlamaCpp
                } else {
                    r is Err && r->Err_0 is BinaryNotFound && r->Err_0->BinaryNotFound_0@ == b.shown@
                },
            }
        } else {
            r is Err && r->Err_0 is Unknown && r->Err_0->Unknown_0@ == name@
        },
{
    if same_text(name, "ollama") {
        Ok(Provider::Ollama)
    } else if same_text(name, "llamacpp") {
        match binary {
            None => Err(SelectError::NoBinary),
            Some(b) => if b.exists {
                Ok(Provider::LlamaCpp)
            } else {
                Err(SelectError::BinaryNotFound(b.shown.clone()))
            },
        }
    } else {
        Err(SelectError::Unknown(name.to_string()))
    }
}

/// What is shown of a prompt: its first eighty characters, on one line.
pub fn prompt_preview(prompt: &str) -> (r: String)
    ensures
        r@ == on_one_line(first_chars(prompt@, 80)),
{
    one_line(preview(prompt, 80).as_str())
}

/// What is shown of an answer: its first hundred characters.
pub fn answer_preview(answer: &str) -> (r: String)
    ensures
        r@ == first_chars(answer@, 100),
{
    preview(answer, 100)
}

/// Where Ollama is asked.
pub fn ollama_url(url: &str) -> (r: String)
    ensures
        r@ == url@ + "/api/generate"@,
{
    url.to_string().concat("/api/generate")
}

/// What Ollama is asked.
pub open spec fn request_json(
    model: Seq<char>,
    prompt: Seq<char>,
    temperature: Json,
    max_tokens: nat,
) -> Json {
    let options = Map::empty().insert("temperature"@, temperature).insert(
        "num_predict"@,
        Json::Number(decimal(max_tokens)),
    );
    Json::Object(
        Map::empty().insert("model"@, Json::Text(model)).insert(
            "prompt"@,
            Json::Text(prompt),
        ).insert("stream"@, Json::Bool(false)).insert("options"@, Json::Object(options)),
    )
}

/// Makes the request to Ollama: the model, the prompt, no streaming, and the
/// options.
pub fn ollama_request(model: &str, prompt: &str, temperature: Value, max_tokens: usize) -> (r:
    Value)
    ensures
        json_of(r) == request_json(model@, prompt@, json_of(temperature), max_tokens as nat),
{
    let mut options = serde_json::Map::<String, Value>::new();
    options.insert("temperature".to_string(), temperature);
    options.insert("num_predict".to_string(), count_value(max_tokens));
    let mut body = serde_json::Map::<String, Value>::new();
    body.insert("model".to_string(), text_value(model.to_string()));
    body.insert("prompt".to_string(), text_value(prompt.to_string()));
    body.insert("stream".to_string(), bool_value(false));
    body.insert("options".to_string(), object_value(options));
    object_value(body)
}

/// How reqwest shows the HTTP status `code`.
pub uninterp spec fn status_text(code: u16) -> Seq<char>;

/// `StatusCode::is_success` of reqwest, on the status with the given code: it
/// tells whether the code is within 200-299.
#[verifier::external_body]
fn is_success(code: u16) -> (r: bool)
    requires
        100 <= code <= 999,
    ensures
        r == (200 <= code <= 299),
{
    reqwest::StatusCode::from_u16(code).unwrap().is_success()
}

/// `Display` of reqwest's `StatusCode`, on the status with the given code: the
/// code and the reason that goes with it. `status_text` names it.
#[verifier::external_body]
fn show_status(code: u16) -> (r: String)
    requires
        100 <= code <= 999,
    ensures
        r@ == status_text(code),
{
    reqwest::StatusCode::from_u16(code).unwrap().to_string()
}

/// Why Ollama gave no answer.
#[derive(Debug)]
pub enum OllamaError {
    /// Its status is no success.
    Status { status: String, body: String },
    /// Its reply is no JSON.
    Json(serde_json::Error),
    /// Its reply has no string for a response.
    NoResponse,
}

impl OllamaError {
    /// The message for the user; none where the JSON error has its own.
    pub fn message(&self) -> (r: Option<String>)
        ensures
            match *self {
                OllamaError::Status { status, body } => r is Some && r->0@ == "Ollama error "@
                    + status@ + ": "@ + body@,
                OllamaError::Json(_) => r is None,
                OllamaError::NoResponse => r is Some && r->0@
                    == "No 'response' field in Ollama reply"@,
            },
    {
        match self {
            OllamaError::Status { status, body } => Some(
                "Ollama error ".to_string().concat(status.as_str()).concat(": ").concat(
                    body.as_str(),
                ),
            ),
            OllamaError::Json(_) => None,
            OllamaError::NoResponse => Some("No 'response' field in Ollama reply".to_string()),
        }
    }
}

/// The answer in the response of a reply.
pub fn take_response(response: Field) -> (r: Result<String, OllamaError>)
    ensures
        match response@ {
            FieldView::Text(answer) => r is Ok && r->Ok_0@ == answer,
            _ => r is Err && r->Err_0 is NoResponse,
        },
{
    match response {
        Field::Text(answer) => Ok(answer),
        _ => Err(OllamaError::NoResponse),
    }
}

/// The answer in a reply of Ollama with the given status: the string that its
/// JSON object has for a response.
pub fn ollama_answer(status: u16, body: &str) -> (r: Result<String, OllamaError>)
    requires
        100 <= status <= 999,
    ensures
        if !(200 <= status <= 299) {
            &&& r is Err
            &&& r->Err_0 is Status
            &&& r->Err_0->status@ == status_text(status)
            &&& r->Err_0->body@ == body@
        } else {
            match json_parse(body@) {
                Err(e) => r is Err && r->Err_0 == OllamaError::Json(e),
                Ok(json) => match field_of(json, "response"@) {
                    FieldView::Text(answer) => r is Ok && r->Ok_0@ == answer,
                    _ => r is Err && r->Err_0 is NoResponse,
                },
            }
        },
{
    if !is_success(status) {
        return Err(OllamaError::Status { status: show_status(status), body: body.to_string() });
    }
    match parse(body) {
        Err(e) => Err(OllamaError::Json(e)),
        Ok(reply) => take_response(look_up(&reply, "response")),
    }
}

/// The arguments that llama.cpp is run with.
pub open spec fn llama_arguments(
    model_path: Seq<char>,
    prompt: Seq<char>,
    temperature: Seq<char>,
    max_tokens: nat,
) -> Seq<Seq<char>> {
    seq![
        "-m"@,
        model_path,
        "-p"@,
        prompt,
        "--temp"@,
        temperature,
        "-n"@,
        decimal(max_tokens),
        "--no-display-prompt"@,
    ]
}

/// Makes the arguments that llama.cpp is run with; `temperature` is as it is to
/// be written.
pub fn llama_args(model_path: &str, prompt: &str, temperature: &str, max_tokens: usize) -> (r: Vec<
    String,
>)
    ensures
        texts(r@) == llama_arguments(model_path@, prompt@, temperature@, max_tokens as nat),
{
    let mut args: Vec<String> = Vec::new();
    args.push("-m".to_string());
    args.push(model_path.to_string());
    args.push("-p".to_string());
    args.push(prompt.to_string());
    args.push("--temp".to_string());
    args.push(temperature.to_string());
    args.push("-n".to_string());
    args.push(write_decimal(max_tokens as u64));
    args.push("--no-display-prompt".to_string());
    assert(texts(args@) =~= llama_arguments(
        model_path@,
        prompt@,
        temperature@,
        max_tokens as nat,
    ));
    args
}

/// Why bytes are no UTF-8, as std tells it.
#[verifier::external_type_specification]
#[verifier::external_body]
pub struct ExFromUtf8Error(std::string::FromUtf8Error);

/// What `String::from_utf8` refuses `bytes` with.
pub uninterp spec fn utf8_error(bytes: Seq<u8>) -> std::string::FromUtf8Error;

/// `String::from_utf8` of std: the string that the bytes encode, or an error if
/// and only if they are no UTF-8. The error depends on the bytes alone, and
/// `utf8_error` names it.
pub assume_specification[ String::from_utf8 ](bytes: Vec<u8>) -> (r: Result<
    String,
    std::string::FromUtf8Error,
>)
    ensures
        match r {
            Ok(s) => valid_utf8(bytes@) && s@ == decode_utf8(bytes@),
            Err(e) => !valid_utf8(bytes@) && e == utf8_error(bytes@),
        },
;

/// What `String::from_utf8_lossy` makes of `bytes`.
pub uninterp spec fn lossy_text(bytes: Seq<u8>) -> Seq<char>;

/// `String::from_utf8_lossy` of std: the string that the bytes encode, where
/// they are UTF-8; else one with replacement characters for what is not.
/// `lossy_text` names it.
#[verifier::external_body]
fn decode_lossy(bytes: &Vec<u8>) -> (r: String)
    ensures
        r@ == lossy_text(bytes@),
        valid_utf8(bytes@) ==> r@ == decode_utf8(bytes@),
{
    String::from_utf8_lossy(bytes).into_owned()
}

/// Why llama.cpp gave no answer.
#[derive(Debug, PartialEq, Eq)]
pub enum LlamaError {
    /// It failed, and said this.
    Failed(String),
    /// What it printed is no UTF-8.
    NotUtf8(std::string::FromUtf8Error),
}

impl LlamaError {
    /// The message for the user; none where the UTF-8 error has its own.
    pub fn message(&self) -> (r: Option<String>)
        ensures
            match *self {
                LlamaError::Failed(said) => r is Some && r->0@ == "llama.cpp error: "@ + said@,
                LlamaError::NotUtf8(_) => r is None,
            },
    {
        match self {
            LlamaError::Failed(said) => Some(
                "llama.cpp error: ".to_string().concat(said.as_str()),
            ),
            LlamaError::NotUtf8(_) => None,
        }
    }
}

/// The answer of a run of llama.cpp: what it printed, without the white space
/// around it.
pub fn llama_answer(success: bool, stdout: Vec<u8>, stderr: &Vec<u8>) -> (r: Result<
    String,
    LlamaError,
>)
    ensures
        if !success {
            &&& r is Err
            &&& r->Err_0 is Failed
            &&& r->Err_0->Failed_0@ == lossy_text(stderr@)
            &&& valid_utf8(stderr@) ==> r->Err_0->Failed_0@ == decode_utf8(stderr@)
        } else if valid_utf8(stdout@) {
            r is Ok && r->Ok_0@ == trimmed(decode_utf8(stdout@))
        } else {
            r is Err && r->Err_0 == LlamaError::NotUtf8(utf8_error(stdout@))
        },
{
    if !success {
        return Err(LlamaError::Failed(decode_lossy(stderr)));
    }
    match String::from_utf8(stdout) {
        Err(e) => Err(LlamaError::NotUtf8(e)),
        Ok(printed) => Ok(trim(printed.as_str())),
    }
}

/// A request is an object of the model, the prompt, character for character and
/// whatever its length, no streaming, and the options: the temperature and the
/// number of tokens. It has nothing else.
pub proof fn law_request_holds(
    model: Seq<char>,
    prompt: Seq<char>,
    temperature: Json,
    max_tokens: nat,
)
    ensures
        ({
            let json = request_json(model, prompt, temperature, max_tokens);
            let entries = json->Object_0;
            let options = entries["options"@]->Object_0;
            &&& json is Object
            &&& entries.dom() == set!["model"@, "prompt"@, "stream"@, "options"@]
            &&& entries["model"@] == Json::Text(model)
            &&& entries["prompt"@] == Json::Text(prompt)
            &&& entries["stream"@] == Json::Bool(false)
            &&& entries["options"@] is Object
            &&& options.dom() == set!["temperature"@, "num_predict"@]
            &&& options["temperature"@] == temperature
            &&& options["num_predict"@] == Json::Number(decimal(max_tokens as nat))
            &&& number_of(options["num_predict"@]->Number_0) == max_tokens
        }),
{
    reveal_strlit("model");
    reveal_strlit("prompt");
    reveal_strlit("stream");
    reveal_strlit("options");
    reveal_strlit("temperature");
    reveal_strlit("num_predict");
    assert("model"@.len() == 5 && "prompt"@.len() == 6 && "stream"@.len() == 6);
    assert("options"@.len() == 7 && "temperature"@.len() == 11 && "num_predict"@.len() == 11);
    assert("prompt"@[0] == 'p' && "stream"@[0] == 's');
    assert("temperature"@[0] == 't' && "num_predict"@[0] == 'n');
    law_decimal_reads_back(max_tokens);
    let entries = request_json(model, prompt, temperature, max_tokens)->Object_0;
    assert(entries.dom() =~= set!["model"@, "prompt"@, "stream"@, "options"@]);
    assert(entries["options"@]->Object_0.dom() =~= set!["temperature"@, "num_predict"@]);
}

/// Requests are the same only where the model, the prompt, the temperature and
/// the number of tokens are.
pub proof fn law_requests_differ(
    model: Seq<char>,
    prompt: Seq<char>,
    temperature: Json,
    max_tokens: nat,
    other_model: Seq<char>,
    other_prompt: Seq<char>,
    other_temperature: Json,
    other_max_tokens: nat,
)
    ensures
        request_json(model, prompt, temperature, max_tokens) == request_json(
            other_model,
            other_prompt,
            other_temperature,
            other_max_tokens,
        ) ==> model == other_model && prompt == other_prompt && temperature == other_temperature
            && max_tokens == other_max_tokens,
{
    law_request_holds(model, prompt, temperature, max_tokens);
    law_request_holds(other_model, other_prompt, other_temperature, other_max_tokens);
}

/// The request that is made asks the given model the given prompt.
pub proof fn law_made_request(
    model: &str,
    prompt: &str,
    temperature: Value,
    max_tokens: usize,
    r: Value,
)
    requires
        call_ensures(ollama_request, (model, prompt, temperature, max_tokens), r),
    ensures
        ({
            let entries = json_of(r)->Object_0;
            let options = entries["options"@]->Object_0;
            &&& json_of(r) is Object
            &&& entries.contains_key("prompt"@)
            &&& entries["prompt"@] == Json::Text(prompt@)
            &&& entries.contains_key("model"@)
            &&& entries["model"@] == Json::Text(model@)
            &&& entries.contains_key("stream"@)
            &&& entries["stream"@] == Json::Bool(false)
            &&& entries.contains_key("options"@)
            &&& entries["options"@] is Object
            &&& options.contains_key("temperature"@)
            &&& options["temperature"@] == json_of(temperature)
            &&& options.contains_key("num_predict"@)
            &&& options["num_predict"@] == Json::Number(decimal(max_tokens as nat))
            &&& number_of(options["num_predict"@]->Number_0) == max_tokens
        }),
{
    law_request_holds(model@, prompt@, json_of(temperature), max_tokens as nat);
}

/// What is shown of a prompt is one line, as long as the prompt but no longer
/// than eighty characters, and like the prompt but for line feeds.
pub proof fn law_shown_prompt(prompt: &str, r: String)
    requires
        call_ensures(prompt_preview, (prompt,), r),
    ensures
        r@.len() == if prompt@.len() < 80 {
            prompt@.len()
        } else {
            80
        },
        forall|i: int|
            0 <= i < r@.len() ==> {
                &&& prompt@[i] != '\n' ==> #[trigger] r@[i] == prompt@[i]
                &&& prompt@[i] == '\n' ==> r@[i] == ' '
            },
{
    law_first_chars(prompt@, 80);
    law_on_one_line(first_chars(prompt@, 80));
}

/// What is shown of an answer is its beginning: all of it, or its first hundred
/// characters.
pub proof fn law_shown_answer(answer: &str, r: String)
    requires
        call_ensures(answer_preview, (answer,), r),
    ensures
        r@.is_prefix_of(answer@),
        answer@.len() <= 100 ==> r@ == answer@,
        answer@.len() > 100 ==> r@.len() == 100,
{
    law_first_chars(answer@, 100);
}

/// The answer in a reply is the string that its object has for a response,
/// whole; and a reply of no success has none, whatever is in it.
pub proof fn law_answer_in_reply(status: u16, body: &str, r: Result<String, OllamaError>)
    requires
        call_ensures(ollama_answer, (status, body), r),
        100 <= status <= 999,
    ensures
        r is Ok <==> {
            &&& 200 <= status <= 299
            &&& json_parse(body@) is Ok
            &&& json_parse(body@)->Ok_0 is Object
            &&& json_parse(body@)->Ok_0->Object_0.contains_key("response"@)
            &&& json_parse(body@)->Ok_0->Object_0["response"@] is Text
        },
        r is Ok ==> json_parse(body@)->Ok_0->Object_0["response"@] == Json::Text(r->Ok_0@),
        r is Err ==> (r->Err_0 is Status <==> !(200 <= status <= 299)),
        r is Err && r->Err_0 is Status ==> r->Err_0->body@ == body@,
{
}

/// llama.cpp is given the model, the prompt, the temperature and the number of
/// tokens, each whole and right behind its flag, and is told not to repeat the
/// prompt.
pub proof fn law_made_arguments(
    model_path: &str,
    prompt: &str,
    temperature: &str,
    max_tokens: usize,
    r: Vec<String>,
)
    requires
        call_ensures(llama_args, (model_path, prompt, temperature, max_tokens), r),
    ensures
        r@.len() == 9,
        r@[0]@ == "-m"@ && r@[1]@ == model_path@,
        r@[2]@ == "-p"@ && r@[3]@ == prompt@,
        r@[4]@ == "--temp"@ && r@[5]@ == temperature@,
        r@[6]@ == "-n"@ && r@[7]@ == decimal(max_tokens as nat),
        number_of(r@[7]@) == max_tokens,
        r@[8]@ == "--no-display-prompt"@,
{
    law_decimal_reads_back(max_tokens as nat);
    let args = texts(r@);
    assert(args.len() == 9);
    assert(args[0] == r@[0]@ && args[1] == r@[1]@ && args[2] == r@[2]@);
    assert(args[3] == r@[3]@ && args[4] == r@[4]@ && args[5] == r@[5]@);
    assert(args[6] == r@[6]@ && args[7] == r@[7]@ && args[8] == r@[8]@);
}

/// The answer of llama.cpp is what it printed but for the white space before
/// and after it: a part of what was printed with nothing but white space
/// around, and none at its own ends.
pub proof fn law_answer_printed(
    stdout: Vec<u8>,
    stderr: Vec<u8>,
    success: bool,
    r: Result<String, LlamaError>,
)
    requires
        call_ensures(llama_answer, (success, stdout, &stderr), r),
    ensures
        r is Ok <==> success && valid_utf8(stdout@),
        r is Ok ==> {
            let printed = decode_utf8(stdout@);
            let answer = r->Ok_0@;
            &&& answer.len() > 0 ==> !white_space(answer.first()) && !white_space(answer.last())
            &&& exists|from: int, to: int|
                {
                    &&& 0 <= from <= to <= printed.len()
                    &&& answer == #[trigger] printed.subrange(from, to)
                    &&& forall|i: int|
                        0 <= i < from || to <= i < printed.len() ==> white_space(
                            #[trigger] printed[i],
                        )
                }
        },
        r is Err ==> (r->Err_0 is Failed <==> !success),
{
    law_trimmed(decode_utf8(stdout@));
}

/// A provider is selected if and only if its name is known and, for llama.cpp,
/// its program is named and there; what is selected goes by the name alone.
pub proof fn law_selected(name: &str, binary: Option<Binary>, r: Result<Provider, SelectError>)
    requires
        call_ensures(select_provider, (name, &binary), r),
    ensures
        r is Ok <==> name@ == "ollama"@ || (name@ == "llamacpp"@ && binary is Some
            && binary->0.exists),
        r is Ok ==> (r->Ok_0 is Ollama <==> name@ == "ollama"@),
        r is Err ==> (r->Err_0 is Unknown <==> name@ != "llamacpp"@),
        r is Err ==> (r->Err_0 is BinaryNotFound <==> name@ == "llamacpp"@ && binary is Some),
{
    reveal_strlit("ollama");
    reveal_strlit("llamacpp");
    assert("ollama"@.len() == 6 && "llamacpp"@.len() == 8);
}

/// Ollama is asked under the address that was given.
pub proof fn law_url(url: &str, r: String)
    requires
        call_ensures(ollama_url, (url,), r),
    ensures
        url@.is_prefix_of(r@),
        r@.skip(url@.len() as int) == "/api/generate"@,
{
    assert(r@.skip(url@.len() as int) =~= "/api/generate"@);
}

} // verus!
