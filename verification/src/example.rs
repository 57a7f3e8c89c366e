//! One example of the data set, written as a line of JSON in the layout of
//! Alpaca, ShareGPT or ChatML.

use crate::history::{turns_of, Turn};
use crate::json::{
    depth_limit, entries_of, field_of, json_of, json_parse, json_text, jsons_of, list_value,
    object_value, plain, print, reads_as, text_value, FieldView, Json,
};
use crate::text::{decimal, law_decimals_differ, lemma_middle, opt_text, same_text, write_decimal};
use serde_json::Value;
use vstd::prelude::*;

verus! {

/// The layout of an example.
#[derive(Debug, Clone, Copy, PartialEq, Eq, Structural)]
pub enum Format {
    Alpaca,
    ShareGpt,
    ChatMl,
}

/// The layout with the given name.
pub open spec fn format_of(name: Seq<char>) -> Option<Format> {
    if name == "alpaca"@ {
        Some(Format::Alpaca)
    } else if name == "sharegpt"@ {
        Some(Format::ShareGpt)
    } else if name == "chatml"@ {
        Some(Format::ChatMl)
    } else {
        None
    }
}

/// The name of a layout that there is not.
#[derive(Debug, PartialEq, Eq)]
pub struct UnknownFormat {
    pub name: String,
}

impl UnknownFormat {
    /// The message for the user.
    pub fn message(&self) -> (r: String)
        ensures
            r@ == "Unknown format: "@ + self.name@,
    {
        "Unknown format: ".to_string().concat(self.name.as_str())
    }
}

/// Finds the layout with the given name.
pub fn parse_format(name: &str) -> (r: Result<Format, UnknownFormat>)
    ensures
        match format_of(name@) {
            Some(format) => r == Ok::<Format, UnknownFormat>(format),
            None => r is Err && r->Err_0.name@ == name@,
        },
{
    if same_text(name, "alpaca") {
        Ok(Format::Alpaca)
    } else if same_text(name, "sharegpt") {
        Ok(Format::ShareGpt)
    } else if same_text(name, "chatml") {
        Ok(Format::ChatMl)
    } else {
        Err(UnknownFormat { name: name.to_string() })
    }
}

/// What goes into an example.
pub struct ExampleView {
    pub instruction: Seq<char>,
    pub input: Option<Seq<char>>,
    pub output: Seq<char>,
    pub system: Option<Seq<char>>,
    pub topic: Option<Seq<char>>,
    pub history: Seq<Turn>,
}

/// The example that the arguments stand for.
pub open spec fn example_of(
    instruction: &str,
    input_text: Option<&str>,
    output: &str,
    system: Option<&str>,
    topic: Option<&str>,
    history: &Vec<[String; 2]>,
) -> ExampleView {
    ExampleView {
        instruction: instruction@,
        input: opt_text(input_text),
        output: output@,
        system: opt_text(system),
        topic: opt_text(topic),
        history: turns_of(history@),
    }
}

/// Who says a message.
#[derive(Debug, Clone, Copy, PartialEq, Eq, Structural)]
pub enum Speaker {
    System,
    User,
    Assistant,
}

/// `entries` and, where there is a `text`, that text under `key`.
pub open spec fn with_text(
    entries: Map<Seq<char>, Json>,
    key: Seq<char>,
    text: Option<Seq<char>>,
) -> Map<Seq<char>, Json> {
    match text {
        Some(t) => entries.insert(key, Json::Text(t)),
        None => entries,
    }
}

/// Turns as a list of pairs.
pub open spec fn history_json(history: Seq<Turn>) -> Json {
    Json::List(
        history.map_values(|turn: Turn| Json::List(seq![Json::Text(turn.0), Json::Text(turn.1)])),
    )
}

/// An example in the layout of Alpaca: an absent input is an empty one; an
/// absent system message or topic, and an empty history, are left out.
pub open spec fn alpaca_json(e: ExampleView) -> Json {
    let input = match e.input {
        Some(text) => text,
        None => Seq::empty(),
    };
    let base = Map::empty().insert("instruction"@, Json::Text(e.instruction)).insert(
        "input"@,
        Json::Text(input),
    ).insert("output"@, Json::Text(e.output));
    let opened = with_text(base, "system"@, e.system);
    let told = if e.history.len() > 0 {
        opened.insert("history"@, history_json(e.history))
    } else {
        opened
    };
    Json::Object(with_text(told, "topic"@, e.topic))
}

/// What the user says: the topic in brackets, where there is one, the
/// instruction, and the input, where there is one.
pub open spec fn user_message(
    instruction: Seq<char>,
    input: Option<Seq<char>>,
    topic: Option<Seq<char>>,
) -> Seq<char> {
    let asked = match topic {
        Some(t) => "[Topic: "@ + t + "] "@ + instruction,
        None => instruction,
    };
    match input {
        Some(i) => asked + "\n\nInput: "@ + i,
        None => asked,
    }
}

/// The messages of earlier turns.
pub open spec fn told(history: Seq<Turn>) -> Seq<(Speaker, Seq<char>)>
    decreases history.len(),
{
    if history.len() == 0 {
        Seq::empty()
    } else {
        told(history.drop_last()).push((Speaker::User, history.last().0)).push(
            (Speaker::Assistant, history.last().1),
        )
    }
}

/// The messages of an example: the system message, where there is one, the
/// earlier turns, what the user says and what is answered.
pub open spec fn conversation(e: ExampleView) -> Seq<(Speaker, Seq<char>)> {
    let opening = match e.system {
        Some(s) => seq![(Speaker::System, s)],
        None => Seq::empty(),
    };
    (opening + told(e.history)).push(
        (Speaker::User, user_message(e.instruction, e.input, e.topic)),
    ).push((Speaker::Assistant, e.output))
}

/// The key of the speaker, the key of the message and the name of the speaker.
pub open spec fn naming(format: Format, speaker: Speaker) -> (Seq<char>, Seq<char>, Seq<char>) {
    if format == Format::ShareGpt {
        let name = match speaker {
            Speaker::System => "system"@,
            Speaker::User => "human"@,
            Speaker::Assistant => "gpt"@,
        };
        ("from"@, "value"@, name)
    } else {
        let name = match speaker {
            Speaker::System => "system"@,
            Speaker::User => "user"@,
            Speaker::Assistant => "assistant"@,
        };
        ("role"@, "content"@, name)
    }
}

/// A message as an object of two entries.
pub open spec fn message_json(format: Format, message: (Speaker, Seq<char>)) -> Json {
    let names = naming(format, message.0);
    Json::Object(
        Map::empty().insert(names.0, Json::Text(names.2)).insert(names.1, Json::Text(message.1)),
    )
}

/// Messages as values.
pub open spec fn messages_json(format: Format, messages: Seq<(Speaker, Seq<char>)>) -> Seq<Json> {
    messages.map_values(|m: (Speaker, Seq<char>)| message_json(format, m))
}

/// The messages of an example as a list.
pub open spec fn conversation_json(format: Format, e: ExampleView) -> Json {
    Json::List(messages_json(format, conversation(e)))
}

/// How a numbered example is called.
pub open spec fn example_name(id: u32) -> Seq<char> {
    "gen_"@ + decimal(id as nat)
}

/// An example in the layout of ShareGPT, under a name where it has a number.
pub open spec fn sharegpt_json(e: ExampleView, id: Option<u32>) -> Json {
    let name = match id {
        Some(n) => Some(example_name(n)),
        None => None,
    };
    Json::Object(
        with_text(Map::empty(), "id"@, name).insert(
            "conversations"@,
            conversation_json(Format::ShareGpt, e),
        ),
    )
}

/// An example in the layout of ChatML.
pub open spec fn chatml_json(e: ExampleView) -> Json {
    Json::Object(Map::empty().insert("messages"@, conversation_json(Format::ChatMl, e)))
}

/// An example in the given layout. Only ShareGPT has a place for the number.
pub open spec fn example_json(format: Format, e: ExampleView, id: Option<u32>) -> Json {
    match format {
        Format::Alpaca => alpaca_json(e),
        Format::ShareGpt => sharegpt_json(e, id),
        Format::ChatMl => chatml_json(e),
    }
}

/// Whether `line` is how `json` is written in a file of one object per line:
/// it is the text of `json`, it is an object on one line, and it reads back
/// as `json`.
pub open spec fn is_line_of(line: Seq<char>, json: Json) -> bool {
    &&& line == json_text(json)
    &&& !line.contains('\n')
    &&& line.len() >= 2
    &&& line.first() == '{'
    &&& line.last() == '}'
    &&& reads_as(line, json)
}

/// `serde_json::to_value` on a list of pairs of strings, which always has a
/// value: the list of lists of two strings, in the same order.
#[verifier::external_body]
fn history_value(history: &Vec<[String; 2]>) -> (r: Result<Value, serde_json::Error>)
    ensures
        r is Ok,
        json_of(r->Ok_0) == history_json(turns_of(history@)),
{
    serde_json::to_value(history)
}

/// `rand::random` for a `u32`: any number.
#[verifier::external_body]
fn random_id() -> (r: u32) {
    rand::random::<u32>()
}

/// Puts `text`, where there is one, under `key`.
fn add_text(entries: &mut serde_json::Map<String, Value>, key: &str, text: Option<&str>)
    ensures
        entries_of(*final(entries)) == with_text(entries_of(*old(entries)), key@, opt_text(text)),
{
    if let Some(t) = text {
        entries.insert(key.to_string(), text_value(t.to_string()));
    }
}

/// An example in the layout of Alpaca.
fn alpaca(
    instruction: &str,
    input_text: Option<&str>,
    output: &str,
    system: Option<&str>,
    topic: Option<&str>,
    history: &Vec<[String; 2]>,
) -> (r: Value)
    ensures
        json_of(r) == alpaca_json(
            example_of(instruction, input_text, output, system, topic, history),
        ),
{
    let mut obj = serde_json::Map::<String, Value>::new();
    add_text(&mut obj, "instruction", Some(instruction));
    let input = match input_text {
        Some(text) => text,
        None => "",
    };
    assert(input_text is None ==> input@ == Seq::<char>::empty()) by {
        reveal_strlit("");
    }
    add_text(&mut obj, "input", Some(input));
    add_text(&mut obj, "output", Some(output));
    add_text(&mut obj, "system", system);
    if !history.is_empty() {
        let pairs = history_value(history).unwrap();
        obj.insert("history".to_string(), pairs);
    }
    add_text(&mut obj, "topic", topic);
    object_value(obj)
}

/// What the user says.
pub fn make_user_message(instruction: &str, input_text: Option<&str>, topic: Option<&str>) -> (r:
    String)
    ensures
        r@ == user_message(instruction@, opt_text(input_text), opt_text(topic)),
{
    let mut message = String::new();
    if let Some(t) = topic {
        message.append("[Topic: ");
        message.append(t);
        message.append("] ");
    }
    message.append(instruction);
    assert(topic is None ==> message@ =~= instruction@);
    assert(topic is Some ==> message@ =~= "[Topic: "@ + topic->0@ + "] "@ + instruction@);
    if let Some(inp) = input_text {
        message.append("\n\nInput: ");
        message.append(inp);
    }
    message
}

/// A message as an object of two entries.
fn message_value(format: Format, speaker: Speaker, text: &str) -> (r: Value)
    ensures
        json_of(r) == message_json(format, (speaker, text@)),
{
    let mut obj = serde_json::Map::<String, Value>::new();
    if format == Format::ShareGpt {
        let name = match speaker {
            Speaker::System => "system",
            Speaker::User => "human",
            Speaker::Assistant => "gpt",
        };
        add_text(&mut obj, "from", Some(name));
        add_text(&mut obj, "value", Some(text));
    } else {
        let name = match speaker {
            Speaker::System => "system",
            Speaker::User => "user",
            Speaker::Assistant => "assistant",
        };
        add_text(&mut obj, "role", Some(name));
        add_text(&mut obj, "content", Some(text));
    }
    object_value(obj)
}

/// Adds a message at the end of a list.
fn add_message(list: &mut Vec<Value>, format: Format, speaker: Speaker, text: &str)
    ensures
        jsons_of(final(list)@) == jsons_of(old(list)@).push(message_json(format, (speaker, text@))),
{
    list.push(message_value(format, speaker, text));
    assert(jsons_of(list@) =~= jsons_of(old(list)@).push(message_json(format, (speaker, text@))));
}

/// The messages of an example as a list.
fn conversation_value(
    format: Format,
    instruction: &str,
    input_text: Option<&str>,
    output: &str,
    system: Option<&str>,
    topic: Option<&str>,
    history: &Vec<[String; 2]>,
) -> (r: Value)
    ensures
        json_of(r) == conversation_json(
            format,
            example_of(instruction, input_text, output, system, topic, history),
        ),
{
    let mut list: Vec<Value> = Vec::new();
    let ghost mut messages: Seq<(Speaker, Seq<char>)> = Seq::empty();
    let ghost turns = turns_of(history@);
    assert(jsons_of(list@) =~= messages_json(format, messages));
    if let Some(sys) = system {
        add_message(&mut list, format, Speaker::System, sys);
        proof {
            messages = seq![(Speaker::System, sys@)];
        }
        assert(jsons_of(list@) =~= messages_json(format, messages));
    }
    let ghost opening = messages;
    let mut i: usize = 0;
    assert(opening + told(turns.take(0)) =~= opening);
    while i < history.len()
        invariant
            i <= history@.len(),
            turns == turns_of(history@),
            messages == opening + told(turns.take(i as int)),
            jsons_of(list@) == messages_json(format, messages),
        decreases history@.len() - i,
    {
        let ghost turn = turns[i as int];
        assert(turns.take(i + 1).drop_last() =~= turns.take(i as int));
        assert(turns.take(i + 1).last() == turn);
        add_message(&mut list, format, Speaker::User, history[i][0].as_str());
        add_message(&mut list, format, Speaker::Assistant, history[i][1].as_str());
        proof {
            let grown = messages.push((Speaker::User, turn.0)).push((Speaker::Assistant, turn.1));
            assert(jsons_of(list@) =~= messages_json(format, grown));
            assert(grown =~= opening + told(turns.take(i + 1)));
            messages = grown;
        }
        i = i + 1;
    }
    assert(turns.take(turns.len() as int) =~= turns);
    let user_msg = make_user_message(instruction, input_text, topic);
    add_message(&mut list, format, Speaker::User, user_msg.as_str());
    add_message(&mut list, format, Speaker::Assistant, output);
    assert(jsons_of(list@) =~= messages_json(
        format,
        conversation(example_of(instruction, input_text, output, system, topic, history)),
    ));
    list_value(list)
}

/// A message has no numbers and is one object deep.
proof fn lemma_message_plain(format: Format, message: (Speaker, Seq<char>), depth: nat)
    requires
        depth > 0,
    ensures
        plain(message_json(format, message), depth),
{
    reveal_with_fuel(plain, 3);
}

/// Conversations have no numbers and are two deep.
proof fn lemma_conversation_plain(format: Format, e: ExampleView, depth: nat)
    requires
        depth > 1,
    ensures
        plain(conversation_json(format, e), depth),
{
    let list = messages_json(format, conversation(e));
    assert forall|i: int| 0 <= i < list.len() implies plain(
        #[trigger] list[i],
        (depth - 1) as nat,
    ) by {
        lemma_message_plain(format, conversation(e)[i], (depth - 1) as nat);
    }
}

/// A list of turns has no numbers and is two deep.
proof fn lemma_history_plain(history: Seq<Turn>, depth: nat)
    requires
        depth > 1,
    ensures
        plain(history_json(history), depth),
{
    reveal_with_fuel(plain, 4);
}

/// What a plain object holds is plain.
proof fn lemma_entry_plain(json: Json, key: Seq<char>, depth: nat)
    requires
        plain(json, depth),
        json is Object,
        json->Object_0.contains_key(key),
    ensures
        plain(json->Object_0[key], (depth - 1) as nat),
{
}

/// Entries that are plain stay so with a text among them.
proof fn lemma_with_text_plain(
    entries: Map<Seq<char>, Json>,
    key: Seq<char>,
    text: Option<Seq<char>>,
    depth: nat,
)
    requires
        plain(Json::Object(entries), depth),
    ensures
        plain(Json::Object(with_text(entries, key, text)), depth),
{
    let grown = with_text(entries, key, text);
    assert forall|k: Seq<char>| grown.contains_key(k) implies plain(
        #[trigger] grown[k],
        (depth - 1) as nat,
    ) by {
        if entries.contains_key(k) {
            lemma_entry_plain(Json::Object(entries), k, depth);
        }
    }
}

/// An example has no numbers and is no deeper than a reader goes.
proof fn lemma_example_plain(format: Format, e: ExampleView, id: Option<u32>)
    ensures
        plain(example_json(format, e, id), depth_limit()),
        example_json(format, e, id) is Object,
{
    let none = Map::<Seq<char>, Json>::empty();
    let d = depth_limit();
    assert(plain(Json::Object(none), d));
    match format {
        Format::Alpaca => {
            let input = match e.input {
                Some(text) => text,
                None => Seq::empty(),
            };
            lemma_with_text_plain(none, "instruction"@, Some(e.instruction), d);
            let one = with_text(none, "instruction"@, Some(e.instruction));
            lemma_with_text_plain(one, "input"@, Some(input), d);
            let two = with_text(one, "input"@, Some(input));
            lemma_with_text_plain(two, "output"@, Some(e.output), d);
            let three = with_text(two, "output"@, Some(e.output));
            lemma_with_text_plain(three, "system"@, e.system, d);
            let opened = with_text(three, "system"@, e.system);
            let told = if e.history.len() > 0 {
                opened.insert("history"@, history_json(e.history))
            } else {
                opened
            };
            lemma_history_plain(e.history, (d - 1) as nat);
            assert forall|k: Seq<char>| told.contains_key(k) implies plain(
                #[trigger] told[k],
                (d - 1) as nat,
            ) by {
                if opened.contains_key(k) {
                    lemma_entry_plain(Json::Object(opened), k, d);
                }
            }
            lemma_with_text_plain(told, "topic"@, e.topic, d);
        },
        Format::ShareGpt => {
            let name = match id {
                Some(n) => Some(example_name(n)),
                None => None,
            };
            lemma_with_text_plain(none, "id"@, name, d);
            lemma_conversation_plain(format, e, (d - 1) as nat);
            let named = with_text(none, "id"@, name);
            let all = named.insert("conversations"@, conversation_json(format, e));
            assert forall|k: Seq<char>| all.contains_key(k) implies plain(
                #[trigger] all[k],
                (d - 1) as nat,
            ) by {
                if named.contains_key(k) {
                    lemma_entry_plain(Json::Object(named), k, d);
                }
            }
        },
        Format::ChatMl => {
            lemma_conversation_plain(format, e, (d - 1) as nat);
        },
    }
}

/// Writes an example as a line of JSON at the end of `writer`, in the layout
/// named `format`, under the number `id` where the layout has a place for one.
pub fn write_numbered_example(
    writer: &mut String,
    format: &str,
    instruction: &str,
    input_text: Option<&str>,
    output: &str,
    system: Option<&str>,
    topic: Option<&str>,
    id: Option<u32>,
    history: &Vec<[String; 2]>,
) -> (r: Result<(), UnknownFormat>)
    ensures
        match format_of(format@) {
            Some(layout) => {
                let json = example_json(
                    layout,
                    example_of(instruction, input_text, output, system, topic, history),
                    id,
                );
                &&& r is Ok
                &&& final(writer)@ == old(writer)@ + json_text(json).push('\n')
                &&& is_line_of(json_text(json), json)
            },
            None => r is Err && r->Err_0.name@ == format@ && final(writer)@ == old(writer)@,
        },
{
    let layout = match parse_format(format) {
        Ok(layout) => layout,
        Err(e) => return Err(e),
    };
    let value = match layout {
        Format::Alpaca => alpaca(instruction, input_text, output, system, topic, history),
        Format::ShareGpt => {
            let list = conversation_value(
                layout,
                instruction,
                input_text,
                output,
                system,
                topic,
                history,
            );
            let mut obj = serde_json::Map::<String, Value>::new();
            if let Some(n) = id {
                let name = "gen_".to_string().concat(write_decimal(n as u64).as_str());
                add_text(&mut obj, "id", Some(name.as_str()));
            }
            obj.insert("conversations".to_string(), list);
            object_value(obj)
        },
        Format::ChatMl => {
            let list = conversation_value(
                layout,
                instruction,
                input_text,
                output,
                system,
                topic,
                history,
            );
            let mut obj = serde_json::Map::<String, Value>::new();
            obj.insert("messages".to_string(), list);
            object_value(obj)
        },
    };
    proof {
        lemma_example_plain(
            layout,
            example_of(instruction, input_text, output, system, topic, history),
            id,
        );
    }
    assert(json_of(value) == example_json(
        layout,
        example_of(instruction, input_text, output, system, topic, history),
        id,
    ));
    let line = print(&value).unwrap();
    assert(is_line_of(line@, json_of(value)));
    writer.append(line.as_str());
    writer.push('\n');
    assert(writer@ =~= old(writer)@ + line@.push('\n'));
    Ok(())
}

/// Writes an example as a line of JSON at the end of `writer`, in the layout
/// named `format`. With `sharegpt_id` an example in the layout of ShareGPT gets
/// a random number.
pub fn write_example(
    writer: &mut String,
    format: &str,
    instruction: &str,
    input_text: Option<&str>,
    output: &str,
    system: Option<&str>,
    topic: Option<&str>,
    sharegpt_id: bool,
    history: &Vec<[String; 2]>,
) -> (r: Result<(), UnknownFormat>)
    ensures
        match format_of(format@) {
            Some(layout) => r is Ok && exists|id: Option<u32>|
                {
                    let json = #[trigger] example_json(
                        layout,
                        example_of(instruction, input_text, output, system, topic, history),
                        id,
                    );
                    &&& id is Some <==> sharegpt_id && layout == Format::ShareGpt
                    &&& final(writer)@ == old(writer)@ + json_text(json).push('\n')
                    &&& is_line_of(json_text(json), json)
                },
            None => r is Err && r->Err_0.name@ == format@ && final(writer)@ == old(writer)@,
        },
{
    let id = if sharegpt_id && same_text(format, "sharegpt") {
        Some(random_id())
    } else {
        None
    };
    write_numbered_example(
        writer,
        format,
        instruction,
        input_text,
        output,
        system,
        topic,
        id,
        history,
    )
}

/// The keys of the layouts differ.
proof fn lemma_keys_differ()
    ensures
        "instruction"@ != "input"@,
        "instruction"@ != "output"@,
        "instruction"@ != "system"@,
        "instruction"@ != "history"@,
        "instruction"@ != "topic"@,
        "input"@ != "output"@,
        "input"@ != "system"@,
        "input"@ != "history"@,
        "input"@ != "topic"@,
        "output"@ != "system"@,
        "output"@ != "history"@,
        "output"@ != "topic"@,
        "system"@ != "history"@,
        "system"@ != "topic"@,
        "history"@ != "topic"@,
        "from"@ != "value"@,
        "role"@ != "content"@,
        "id"@ != "conversations"@,
{
    reveal_strlit("instruction");
    reveal_strlit("input");
    reveal_strlit("output");
    reveal_strlit("system");
    reveal_strlit("history");
    reveal_strlit("topic");
    reveal_strlit("from");
    reveal_strlit("value");
    reveal_strlit("role");
    reveal_strlit("content");
    reveal_strlit("id");
    reveal_strlit("conversations");
    assert("instruction"@.len() == 11);
    assert("input"@.len() == 5);
    assert("output"@.len() == 6);
    assert("system"@.len() == 6);
    assert("history"@.len() == 7);
    assert("topic"@.len() == 5);
    assert("from"@.len() == 4);
    assert("value"@.len() == 5);
    assert("role"@.len() == 4);
    assert("content"@.len() == 7);
    assert("id"@.len() == 2);
    assert("conversations"@.len() == 13);
    assert("input"@[0] == 'i' && "topic"@[0] == 't');
    assert("output"@[0] == 'o' && "system"@[0] == 's');
}

/// What an object has under `key` where it is to hold `text` or nothing.
pub open spec fn field_for(text: Option<Seq<char>>) -> FieldView {
    match text {
        Some(t) => FieldView::Text(t),
        None => FieldView::Missing,
    }
}

/// An example in the layout of Alpaca has the instruction, the input and the
/// output; it has the system message and the topic if and only if there are
/// such, and the history if and only if it is not empty.
pub proof fn law_alpaca_fields(e: ExampleView)
    ensures
        field_of(alpaca_json(e), "instruction"@) == FieldView::Text(e.instruction),
        field_of(alpaca_json(e), "input"@) == FieldView::Text(
            match e.input {
                Some(text) => text,
                None => Seq::empty(),
            },
        ),
        field_of(alpaca_json(e), "output"@) == FieldView::Text(e.output),
        field_of(alpaca_json(e), "system"@) == field_for(e.system),
        field_of(alpaca_json(e), "topic"@) == field_for(e.topic),
        alpaca_json(e)->Object_0.contains_key("history"@) <==> e.history.len() > 0,
        e.history.len() > 0 ==> alpaca_json(e)->Object_0["history"@] == history_json(e.history),
{
    lemma_keys_differ();
}

/// A conversation is the system message, where there is one, and then user and
/// assistant by turns: a pair for each earlier turn and a last one, which ends
/// in the output.
pub proof fn law_conversation_alternates(e: ExampleView)
    ensures
        ({
            let all = conversation(e);
            let first: int = if e.system is Some {
                1
            } else {
                0
            };
            &&& all.len() == first + 2 * e.history.len() + 2
            &&& e.system is Some ==> all[0] == (Speaker::System, e.system->0)
            &&& forall|k: int|
                0 <= k < e.history.len() ==> {
                    &&& all[first + 2 * k] == (Speaker::User, (#[trigger] e.history[k]).0)
                    &&& all[first + 2 * k + 1] == (Speaker::Assistant, e.history[k].1)
                }
            &&& all[all.len() - 2] == (
                Speaker::User,
                user_message(e.instruction, e.input, e.topic),
            )
            &&& all.last() == (Speaker::Assistant, e.output)
        }),
{
    lemma_told(e.history);
}

/// Earlier turns are told in pairs.
proof fn lemma_told(history: Seq<Turn>)
    ensures
        told(history).len() == 2 * history.len(),
        forall|k: int|
            0 <= k < history.len() ==> {
                &&& told(history)[2 * k] == (Speaker::User, (#[trigger] history[k]).0)
                &&& told(history)[2 * k + 1] == (Speaker::Assistant, history[k].1)
            },
    decreases history.len(),
{
    if history.len() > 0 {
        let short = history.drop_last();
        lemma_told(short);
        assert forall|k: int| 0 <= k < history.len() implies {
            &&& told(history)[2 * k] == (Speaker::User, (#[trigger] history[k]).0)
            &&& told(history)[2 * k + 1] == (Speaker::Assistant, history[k].1)
        } by {
            if k < short.len() {
                assert(short[k] == history[k]);
            }
        }
    }
}

/// ShareGPT and ChatML tell the same conversation: message by message they
/// hold the same text, said by the same speaker under the name that each
/// layout has for that speaker.
pub proof fn law_layouts_tell_the_same(e: ExampleView, k: int)
    requires
        0 <= k < conversation(e).len(),
    ensures
        ({
            let shared = messages_json(Format::ShareGpt, conversation(e));
            let chat = messages_json(Format::ChatMl, conversation(e));
            let speaker = conversation(e)[k].0;
            &&& shared.len() == chat.len() == conversation(e).len()
            &&& field_of(shared[k], "value"@) == field_of(chat[k], "content"@)
            &&& field_of(shared[k], "value"@) == FieldView::Text(conversation(e)[k].1)
            &&& field_of(shared[k], "from"@) == FieldView::Text(
                naming(Format::ShareGpt, speaker).2,
            )
            &&& field_of(chat[k], "role"@) == FieldView::Text(naming(Format::ChatMl, speaker).2)
        }),
{
    lemma_keys_differ();
}

/// An example in the layout of ShareGPT has its conversation, and a name if and
/// only if it has a number; in the layout of ChatML it has its conversation
/// alone.
pub proof fn law_conversation_fields(e: ExampleView, id: Option<u32>)
    ensures
        sharegpt_json(e, id)->Object_0["conversations"@] == conversation_json(Format::ShareGpt, e),
        sharegpt_json(e, id)->Object_0.contains_key("conversations"@),
        field_of(sharegpt_json(e, id), "id"@) == match id {
            Some(n) => FieldView::Text(example_name(n)),
            None => FieldView::Missing,
        },
        chatml_json(e)->Object_0 == Map::empty().insert(
            "messages"@,
            conversation_json(Format::ChatMl, e),
        ),
{
    lemma_keys_differ();
}

/// Three names are known, each that of another layout, and no other is.
pub proof fn law_format_names(name: Seq<char>)
    ensures
        format_of(name) is Some <==> (name == "alpaca"@ || name == "sharegpt"@ || name
            == "chatml"@),
        name == "alpaca"@ ==> format_of(name) == Some(Format::Alpaca),
        name == "sharegpt"@ ==> format_of(name) == Some(Format::ShareGpt),
        name == "chatml"@ ==> format_of(name) == Some(Format::ChatMl),
{
    reveal_strlit("alpaca");
    reveal_strlit("sharegpt");
    reveal_strlit("chatml");
    assert("alpaca"@.len() == 6 && "sharegpt"@.len() == 8 && "chatml"@.len() == 6);
    assert("alpaca"@[0] == 'a' && "chatml"@[0] == 'c');
}

/// An example is made of its arguments, each in its place and whole.
pub proof fn law_example_of(
    instruction: &str,
    input_text: Option<&str>,
    output: &str,
    system: Option<&str>,
    topic: Option<&str>,
    history: &Vec<[String; 2]>,
)
    ensures
        ({
            let e = example_of(instruction, input_text, output, system, topic, history);
            &&& e.instruction == instruction@
            &&& e.output == output@
            &&& e.input is Some <==> input_text is Some
            &&& input_text is Some ==> e.input->0 == input_text->0@
            &&& e.system is Some <==> system is Some
            &&& system is Some ==> e.system->0 == system->0@
            &&& e.topic is Some <==> topic is Some
            &&& topic is Some ==> e.topic->0 == topic->0@
            &&& e.history.len() == history@.len()
            &&& forall|k: int|
                0 <= k < history@.len() ==> {
                    &&& (#[trigger] e.history[k]).0 == history@[k]@[0]@
                    &&& e.history[k].1 == history@[k]@[1]@
                }
        }),
{
}

/// What the user says holds the instruction whole, whatever the input: it
/// begins with the instruction, behind the topic in brackets where there is
/// one. Behind the instruction is nothing where there is no input, and else
/// the input, be it empty or not.
pub proof fn law_user_message(
    instruction: Seq<char>,
    input: Option<Seq<char>>,
    topic: Option<Seq<char>>,
)
    ensures
        ({
            let said = user_message(instruction, input, topic);
            let before = match topic {
                None => Seq::empty(),
                Some(t) => "[Topic: "@ + t + "] "@,
            };
            let at = before.len() as int;
            let end = (before.len() + instruction.len()) as int;
            &&& before.is_prefix_of(said)
            &&& end <= said.len()
            &&& said.subrange(at, end) == instruction
            &&& input is None ==> said.len() == end
            &&& input is Some ==> said.skip(end) == "\n\nInput: "@ + input->0
        }),
{
    let said = user_message(instruction, input, topic);
    let before = match topic {
        None => Seq::empty(),
        Some(t) => "[Topic: "@ + t + "] "@,
    };
    let at = before.len() as int;
    let end = (before.len() + instruction.len()) as int;
    let behind = match input {
        None => Seq::empty(),
        Some(i) => "\n\nInput: "@ + i,
    };
    assert(said =~= before + instruction + behind);
    assert(said.subrange(at, end) =~= instruction);
    assert(said.skip(end) =~= behind);
}

/// Under the same topic and with the same input, different instructions make
/// different messages; and so do different inputs with the same instruction,
/// an absent one and an empty one among them.
pub proof fn law_user_messages_differ(
    a: Seq<char>,
    b: Seq<char>,
    i: Option<Seq<char>>,
    j: Option<Seq<char>>,
    topic: Option<Seq<char>>,
)
    ensures
        a != b ==> user_message(a, i, topic) != user_message(b, i, topic),
        i != j ==> user_message(a, i, topic) != user_message(a, j, topic),
{
    reveal_strlit("\n\nInput: ");
    assert("\n\nInput: "@.len() == 9);
    law_user_message(a, i, topic);
    law_user_message(b, i, topic);
    law_user_message(a, j, topic);
    let before = match topic {
        None => Seq::empty(),
        Some(t) => "[Topic: "@ + t + "] "@,
    };
    let end = (before.len() + a.len()) as int;
    if a != b {
        let behind = match i {
            None => Seq::empty(),
            Some(text) => "\n\nInput: "@ + text,
        };
        assert(user_message(a, i, topic) =~= before + a + behind);
        assert(user_message(b, i, topic) =~= before + b + behind);
        lemma_middle(before, a, b, behind);
    }
    if i is Some && j is Some && i->0 != j->0 {
        let said = user_message(a, i, topic);
        let other = user_message(a, j, topic);
        if said == other {
            assert(said.skip(end).skip(9) =~= i->0);
            assert(other.skip(end).skip(9) =~= j->0);
        }
    }
}

/// The message that is made holds the instruction, the input and the topic that
/// were given, each whole.
pub proof fn law_made_user_message(
    instruction: &str,
    input_text: Option<&str>,
    topic: Option<&str>,
    r: String,
)
    requires
        call_ensures(make_user_message, (instruction, input_text, topic), r),
    ensures
        match (topic, input_text) {
            (None, None) => r@ == instruction@,
            (None, Some(i)) => r@ == instruction@ + "\n\nInput: "@ + i@,
            (Some(t), None) => r@ == "[Topic: "@ + t@ + "] "@ + instruction@,
            (Some(t), Some(i)) => r@ == "[Topic: "@ + t@ + "] "@ + instruction@ + "\n\nInput: "@
                + i@,
        },
{
}

/// Whether `message` is an object that has under `key` who speaks, under
/// `text_key` what is said, and nothing else.
pub open spec fn says(
    message: Json,
    key: Seq<char>,
    name: Seq<char>,
    text_key: Seq<char>,
    text: Seq<char>,
) -> bool {
    &&& message is Object
    &&& message->Object_0.dom() == set![key, text_key]
    &&& message->Object_0[key] == Json::Text(name)
    &&& message->Object_0[text_key] == Json::Text(text)
}

/// A message in the layout of ShareGPT is from the system, a human or gpt, and
/// has what is said for its value; in the layout of ChatML it has the role of
/// system, user or assistant, and what is said for its content.
pub proof fn law_messages(text: Seq<char>)
    ensures
        says(
            message_json(Format::ShareGpt, (Speaker::System, text)),
            "from"@,
            "system"@,
            "value"@,
            text,
        ),
        says(
            message_json(Format::ShareGpt, (Speaker::User, text)),
            "from"@,
            "human"@,
            "value"@,
            text,
        ),
        says(
            message_json(Format::ShareGpt, (Speaker::Assistant, text)),
            "from"@,
            "gpt"@,
            "value"@,
            text,
        ),
        says(
            message_json(Format::ChatMl, (Speaker::System, text)),
            "role"@,
            "system"@,
            "content"@,
            text,
        ),
        says(
            message_json(Format::ChatMl, (Speaker::User, text)),
            "role"@,
            "user"@,
            "content"@,
            text,
        ),
        says(
            message_json(Format::ChatMl, (Speaker::Assistant, text)),
            "role"@,
            "assistant"@,
            "content"@,
            text,
        ),
{
    lemma_keys_differ();
    assert(message_json(Format::ShareGpt, (Speaker::System, text))->Object_0.dom()
        =~= set!["from"@, "value"@]);
    assert(message_json(Format::ShareGpt, (Speaker::User, text))->Object_0.dom()
        =~= set!["from"@, "value"@]);
    assert(message_json(Format::ShareGpt, (Speaker::Assistant, text))->Object_0.dom()
        =~= set!["from"@, "value"@]);
    assert(message_json(Format::ChatMl, (Speaker::System, text))->Object_0.dom()
        =~= set!["role"@, "content"@]);
    assert(message_json(Format::ChatMl, (Speaker::User, text))->Object_0.dom()
        =~= set!["role"@, "content"@]);
    assert(message_json(Format::ChatMl, (Speaker::Assistant, text))->Object_0.dom()
        =~= set!["role"@, "content"@]);
}

/// Whether `list` tells `e` under the given keys and names: the system message,
/// where there is one, then each earlier turn, the user before the assistant,
/// then what the user says, and last the output.
pub open spec fn tells(
    list: Seq<Json>,
    e: ExampleView,
    key: Seq<char>,
    text_key: Seq<char>,
    user: Seq<char>,
    assistant: Seq<char>,
) -> bool {
    let first: int = if e.system is Some {
        1
    } else {
        0
    };
    &&& list.len() == first + 2 * e.history.len() + 2
    &&& e.system is Some ==> says(list[0], key, "system"@, text_key, e.system->0)
    &&& forall|k: int|
        0 <= k < e.history.len() ==> {
            &&& says(list[first + 2 * k], key, user, text_key, (#[trigger] e.history[k]).0)
            &&& says(list[first + 2 * k + 1], key, assistant, text_key, e.history[k].1)
        }
    &&& says(
        list[list.len() - 2],
        key,
        user,
        text_key,
        user_message(e.instruction, e.input, e.topic),
    )
    &&& says(list.last(), key, assistant, text_key, e.output)
}

/// An example in the layout of ShareGPT tells the example between a human and
/// gpt, and ends in the output. It has a name if and only if it has a number,
/// and nothing else.
pub proof fn law_sharegpt_tells(e: ExampleView, id: Option<u32>)
    ensures
        ({
            let json = example_json(Format::ShareGpt, e, id);
            let entries = json->Object_0;
            &&& json is Object
            &&& entries.contains_key("conversations"@)
            &&& entries["conversations"@] is List
            &&& tells(
                entries["conversations"@]->List_0,
                e,
                "from"@,
                "value"@,
                "human"@,
                "gpt"@,
            )
            &&& entries.contains_key("id"@) <==> id is Some
            &&& id is Some ==> entries["id"@] == Json::Text("gen_"@ + decimal(id->0 as nat))
            &&& forall|key: Seq<char>| #[trigger]
                entries.contains_key(key) ==> key == "id"@ || key == "conversations"@
        }),
{
    lemma_keys_differ();
    lemma_tells(Format::ShareGpt, e);
}

/// An example in the layout of ChatML tells the example between user and
/// assistant, and ends in the output. It has nothing else.
pub proof fn law_chatml_tells(e: ExampleView, id: Option<u32>)
    ensures
        ({
            let json = example_json(Format::ChatMl, e, id);
            let entries = json->Object_0;
            &&& json is Object
            &&& entries.dom() == set!["messages"@]
            &&& entries["messages"@] is List
            &&& tells(
                entries["messages"@]->List_0,
                e,
                "role"@,
                "content"@,
                "user"@,
                "assistant"@,
            )
        }),
{
    lemma_tells(Format::ChatMl, e);
    assert(example_json(Format::ChatMl, e, id)->Object_0.dom() =~= set!["messages"@]);
}

/// The messages of an example tell it.
proof fn lemma_tells(format: Format, e: ExampleView)
    ensures
        format == Format::ShareGpt ==> tells(
            messages_json(format, conversation(e)),
            e,
            "from"@,
            "value"@,
            "human"@,
            "gpt"@,
        ),
        format == Format::ChatMl ==> tells(
            messages_json(format, conversation(e)),
            e,
            "role"@,
            "content"@,
            "user"@,
            "assistant"@,
        ),
{
    let all = conversation(e);
    law_conversation_alternates(e);
    if e.system is Some {
        law_messages(e.system->0);
    }
    law_messages(user_message(e.instruction, e.input, e.topic));
    law_messages(e.output);
    assert forall|k: int| 0 <= k < e.history.len() implies {
        let first: int = if e.system is Some {
            1
        } else {
            0
        };
        let list = messages_json(format, all);
        let turn = #[trigger] e.history[k];
        &&& format == Format::ShareGpt ==> {
            &&& says(list[first + 2 * k], "from"@, "human"@, "value"@, turn.0)
            &&& says(list[first + 2 * k + 1], "from"@, "gpt"@, "value"@, turn.1)
        }
        &&& format == Format::ChatMl ==> {
            &&& says(list[first + 2 * k], "role"@, "user"@, "content"@, turn.0)
            &&& says(list[first + 2 * k + 1], "role"@, "assistant"@, "content"@, turn.1)
        }
    } by {
        law_messages(e.history[k].0);
        law_messages(e.history[k].1);
    }
}

/// An example in the layout of Alpaca has the instruction, the input, empty
/// where there is none, and the output. The system message and the topic are
/// there if and only if they were given, the history if and only if it has
/// turns: a list of pairs in the same order. Nothing else is.
pub proof fn law_alpaca_holds(e: ExampleView, id: Option<u32>)
    ensures
        ({
            let json = example_json(Format::Alpaca, e, id);
            let entries = json->Object_0;
            let turns = entries["history"@]->List_0;
            &&& json is Object
            &&& entries.contains_key("instruction"@)
            &&& entries["instruction"@] == Json::Text(e.instruction)
            &&& entries.contains_key("input"@)
            &&& e.input is Some ==> entries["input"@] == Json::Text(e.input->0)
            &&& e.input is None ==> entries["input"@] == Json::Text(Seq::empty())
            &&& entries.contains_key("output"@)
            &&& entries["output"@] == Json::Text(e.output)
            &&& entries.contains_key("system"@) <==> e.system is Some
            &&& e.system is Some ==> entries["system"@] == Json::Text(e.system->0)
            &&& entries.contains_key("topic"@) <==> e.topic is Some
            &&& e.topic is Some ==> entries["topic"@] == Json::Text(e.topic->0)
            &&& entries.contains_key("history"@) <==> e.history.len() > 0
            &&& e.history.len() > 0 ==> {
                &&& entries["history"@] is List
                &&& turns.len() == e.history.len()
                &&& forall|k: int|
                    0 <= k < turns.len() ==> {
                        &&& (#[trigger] turns[k]) is List
                        &&& turns[k]->List_0.len() == 2
                        &&& turns[k]->List_0[0] == Json::Text(e.history[k].0)
                        &&& turns[k]->List_0[1] == Json::Text(e.history[k].1)
                    }
            }
            &&& forall|key: Seq<char>| #[trigger]
                entries.contains_key(key) ==> {
                    ||| key == "instruction"@
                    ||| key == "input"@
                    ||| key == "output"@
                    ||| key == "system"@
                    ||| key == "history"@
                    ||| key == "topic"@
                }
        }),
{
    lemma_keys_differ();
}

/// Different numbers make different names.
pub proof fn law_example_names_differ(a: u32, b: u32)
    requires
        a != b,
    ensures
        example_name(a) != example_name(b),
{
    law_decimals_differ(a as nat, b as nat);
    let none = Seq::<char>::empty();
    lemma_middle("gen_"@, decimal(a as nat), decimal(b as nat), none);
    assert(example_name(a) =~= "gen_"@ + decimal(a as nat) + none);
    assert(example_name(b) =~= "gen_"@ + decimal(b as nat) + none);
}

/// What is written is one line, an object in braces, from which the same value
/// is read again, and no other.
pub proof fn law_line_reads_back(line: Seq<char>, json: Json, other: Json)
    requires
        is_line_of(line, json),
    ensures
        json_parse(line) is Ok,
        json_parse(line)->Ok_0 == json,
        forall|i: int| 0 <= i < line.len() ==> #[trigger] line[i] != '\n',
        line.len() >= 2,
        line.first() == '{',
        line.last() == '}',
        is_line_of(line, other) ==> other == json,
{
    assert forall|i: int| 0 <= i < line.len() implies #[trigger] line[i] != '\n' by {
        assert(line.contains(line[i]));
    }
}

} // verus!
