//! The lines that are read: each is a JSON object with an instruction, or with
//! a text from which the instruction is made.

use crate::example::{alpaca_json, is_line_of, law_alpaca_fields, ExampleView};
use crate::json::{field_of, json_of, json_parse, look_up, parse, Field, FieldView, Json};
use crate::text::{
    law_replace_first, law_replace_nothing, law_replace_once, law_trimmed_to_nothing,
    lemma_middle, occurs, occurs_at, opt_string, replace, replaced, texts, trim, trimmed,
    white_space,
};
use serde_json::Value;
use vstd::prelude::*;

verus! {

/// What is asked for: an instruction, and an input where there is one.
#[derive(Debug, PartialEq, Eq)]
pub struct Item {
    pub instruction: String,
    pub input: Option<String>,
}

/// What an `Item` holds.
pub struct ItemView {
    pub instruction: Seq<char>,
    pub input: Option<Seq<char>>,
}

impl View for Item {
    type V = ItemView;

    open spec fn view(&self) -> ItemView {
        ItemView { instruction: self.instruction@, input: opt_string(self.input) }
    }
}

/// What a list of items holds.
pub open spec fn items_of(items: Seq<Item>) -> Seq<ItemView> {
    items.map_values(|item: Item| item@)
}

/// Why a line is refused.
#[derive(Debug)]
pub enum InputError {
    /// It is no JSON.
    Json(serde_json::Error),
    /// It has neither an instruction nor a text.
    NoInstruction,
}

impl InputError {
    /// The message for the user; none where the JSON error has its own.
    pub fn message(&self) -> (r: Option<String>)
        ensures
            match *self {
                InputError::Json(_) => r is None,
                InputError::NoInstruction => r is Some && r->0@
                    == "Each input line must have 'text' or 'instruction' field"@,
            },
    {
        match self {
            InputError::Json(_) => None,
            InputError::NoInstruction => Some(
                "Each input line must have 'text' or 'instruction' field".to_string(),
            ),
        }
    }
}

/// What a line has under the keys that matter.
#[derive(Debug, PartialEq, Eq)]
pub struct Fields {
    pub instruction: Field,
    pub input: Field,
    pub text: Field,
}

/// What `Fields` hold.
pub struct FieldsView {
    pub instruction: FieldView,
    pub input: FieldView,
    pub text: FieldView,
}

impl View for Fields {
    type V = FieldsView;

    open spec fn view(&self) -> FieldsView {
        FieldsView { instruction: self.instruction@, input: self.input@, text: self.text@ }
    }
}

/// What `json` has under the keys that matter.
pub open spec fn fields_of(json: Json) -> FieldsView {
    FieldsView {
        instruction: field_of(json, "instruction"@),
        input: field_of(json, "input"@),
        text: field_of(json, "text"@),
    }
}

/// The text of a field; none where it has no string.
pub open spec fn text_in(field: FieldView) -> Option<Seq<char>> {
    match field {
        FieldView::Text(text) => Some(text),
        _ => None,
    }
}

/// The text of a field; empty where it has no string.
pub open spec fn text_or_empty(field: FieldView) -> Seq<char> {
    match field {
        FieldView::Text(text) => text,
        _ => Seq::empty(),
    }
}

/// The instruction that `template` makes of `text`.
pub open spec fn filled(template: Seq<char>, text: Seq<char>) -> Seq<char> {
    replaced(template, "{text}"@, text)
}

/// What is asked for in a line with the given fields. An instruction that is
/// there counts, whatever it is; without one the template is filled with the
/// text, and the input is empty; without either nothing is asked for.
pub open spec fn item_of(fields: FieldsView, template: Seq<char>) -> Option<ItemView> {
    if fields.instruction is Missing {
        if fields.text is Missing {
            None
        } else {
            Some(
                ItemView {
                    instruction: filled(template, text_or_empty(fields.text)),
                    input: Some(Seq::empty()),
                },
            )
        }
    } else {
        Some(
            ItemView {
                instruction: text_or_empty(fields.instruction),
                input: text_in(fields.input),
            },
        )
    }
}

/// What is asked for in a line: nothing in a blank one.
pub open spec fn line_item(line: Seq<char>, template: Seq<char>) -> Result<
    Option<ItemView>,
    InputError,
> {
    if trimmed(line).len() == 0 {
        Ok(None)
    } else {
        match json_parse(line) {
            Err(e) => Err(InputError::Json(e)),
            Ok(json) => match item_of(fields_of(json), template) {
                Some(item) => Ok(Some(item)),
                None => Err(InputError::NoInstruction),
            },
        }
    }
}

/// What is asked for in a file: the items of its lines, or the error of the
/// first line that is refused.
pub open spec fn file_items(lines: Seq<Seq<char>>, template: Seq<char>) -> Result<
    Seq<ItemView>,
    InputError,
>
    decreases lines.len(),
{
    if lines.len() == 0 {
        Ok(Seq::empty())
    } else {
        match file_items(lines.drop_last(), template) {
            Err(e) => Err(e),
            Ok(before) => match line_item(lines.last(), template) {
                Err(e) => Err(e),
                Ok(None) => Ok(before),
                Ok(Some(item)) => Ok(before.push(item)),
            },
        }
    }
}

/// The text of a field; empty where it has no string.
fn take_text(field: Field) -> (r: String)
    ensures
        r@ == text_or_empty(field@),
{
    match field {
        Field::Text(text) => text,
        _ => String::new(),
    }
}

/// Fills the template with the text.
pub fn fill_template(template: &str, text: &str) -> (r: String)
    ensures
        r@ == filled(template@, text@),
{
    proof {
        reveal_strlit("{text}");
    }
    replace(template, "{text}", text)
}

/// Makes an item of the fields of a line.
pub fn make_item(fields: Fields, template: &str) -> (r: Result<Item, InputError>)
    ensures
        match item_of(fields@, template@) {
            Some(item) => r is Ok && r->Ok_0@ == item,
            None => r is Err && r->Err_0 == InputError::NoInstruction,
        },
{
    match fields.instruction {
        Field::Missing => match fields.text {
            Field::Missing => Err(InputError::NoInstruction),
            found => {
                let text = take_text(found);
                Ok(
                    Item {
                        instruction: fill_template(template, text.as_str()),
                        input: Some(String::new()),
                    },
                )
            },
        },
        found => {
            let input = match fields.input {
                Field::Text(text) => Some(text),
                _ => None,
            };
            Ok(Item { instruction: take_text(found), input })
        },
    }
}

/// Reads the fields of a line.
pub fn read_fields(value: &Value) -> (r: Fields)
    ensures
        r@ == fields_of(json_of(*value)),
{
    Fields {
        instruction: look_up(value, "instruction"),
        input: look_up(value, "input"),
        text: look_up(value, "text"),
    }
}

/// Reads one line. A blank line asks for nothing.
pub fn read_line(line: &str, template: &str) -> (r: Result<Option<Item>, InputError>)
    ensures
        match line_item(line@, template@) {
            Ok(Some(item)) => r is Ok && r->Ok_0 is Some && r->Ok_0->0@ == item,
            Ok(None) => r is Ok && r->Ok_0 is None,
            Err(e) => r is Err && r->Err_0 == e,
        },
{
    if trim(line).as_str().is_empty() {
        return Ok(None);
    }
    match parse(line) {
        Err(e) => Err(InputError::Json(e)),
        Ok(value) => match make_item(read_fields(&value), template) {
            Ok(item) => Ok(Some(item)),
            Err(e) => Err(e),
        },
    }
}

/// An error among the first lines is the error of all of them.
proof fn lemma_first_error(lines: Seq<Seq<char>>, template: Seq<char>, n: int)
    requires
        0 <= n <= lines.len(),
        file_items(lines.take(n), template) is Err,
    ensures
        file_items(lines, template) == file_items(lines.take(n), template),
    decreases lines.len(),
{
    if n == lines.len() {
        assert(lines.take(n) == lines);
    } else {
        assert(lines.drop_last().take(n) == lines.take(n));
        lemma_first_error(lines.drop_last(), template, n);
    }
}

/// Reads the lines of a file, up to the first that is refused.
pub fn load_items(lines: &Vec<String>, template: &str) -> (r: Result<Vec<Item>, InputError>)
    ensures
        match file_items(texts(lines@), template@) {
            Ok(items) => r is Ok && items_of(r->Ok_0@) == items,
            Err(e) => r is Err && r->Err_0 == e,
        },
{
    let ghost all = texts(lines@);
    let mut items: Vec<Item> = Vec::new();
    let mut i: usize = 0;
    assert(items_of(items@) =~= Seq::empty());
    while i < lines.len()
        invariant
            i <= lines@.len(),
            all == texts(lines@),
            file_items(all.take(i as int), template@) is Ok,
            file_items(all.take(i as int), template@)->Ok_0 == items_of(items@),
        decreases lines@.len() - i,
    {
        assert(all.take(i + 1).drop_last() == all.take(i as int));
        assert(all.take(i + 1).last() == lines@[i as int]@);
        match read_line(lines[i].as_str(), template) {
            Ok(None) => {},
            Ok(Some(item)) => {
                let ghost before = items_of(items@);
                items.push(item);
                assert(items_of(items@) =~= before.push(item@));
            },
            Err(e) => {
                proof {
                    lemma_first_error(all, template@, i + 1);
                }
                return Err(e);
            },
        }
        i = i + 1;
    }
    assert(all.take(all.len() as int) == all);
    Ok(items)
}

/// A template without the placeholder is the instruction, whatever the text.
pub proof fn law_template_without_placeholder(template: Seq<char>, text: Seq<char>)
    requires
        !occurs(template, "{text}"@),
    ensures
        filled(template, text) == template,
{
    law_replace_nothing(template, "{text}"@, text);
}

/// In a template with one placeholder the text stands in its place.
pub proof fn law_template_with_placeholder(before: Seq<char>, after: Seq<char>, text: Seq<char>)
    requires
        !occurs(before, "{text}"@),
        !occurs(after, "{text}"@),
    ensures
        filled(before + "{text}"@ + after, text) == before + text + after,
{
    reveal_strlit("{text}");
    let pattern = "{text}"@;
    assert(pattern.len() == 6);
    assert(pattern[0] == '{');
    assert(pattern[1] == 't' && pattern[2] == 'e' && pattern[3] == 'x' && pattern[4] == 't'
        && pattern[5] == '}');
    law_replace_once(before, pattern, after, text);
}

/// Blank lines do not matter, wherever they stand: lines of white space alone.
pub proof fn law_blank_line(
    before: Seq<Seq<char>>,
    blank: Seq<char>,
    after: Seq<Seq<char>>,
    template: Seq<char>,
)
    requires
        forall|i: int| 0 <= i < blank.len() ==> white_space(#[trigger] blank[i]),
    ensures
        file_items(before.push(blank) + after, template) == file_items(before + after, template),
    decreases after.len(),
{
    if after.len() == 0 {
        law_trimmed_to_nothing(blank);
        assert(before.push(blank) + after =~= before.push(blank));
        assert(before + after =~= before);
        assert(before.push(blank).drop_last() =~= before);
    } else {
        law_blank_line(before, blank, after.drop_last(), template);
        assert((before.push(blank) + after).drop_last() =~= before.push(blank)
            + after.drop_last());
        assert((before + after).drop_last() =~= before + after.drop_last());
    }
}

/// A file is refused if and only if one of its lines is, and then with the
/// error of the first such line.
pub proof fn law_file_refused(lines: Seq<Seq<char>>, template: Seq<char>)
    ensures
        file_items(lines, template) is Err <==> exists|i: int|
            0 <= i < lines.len() && line_item(#[trigger] lines[i], template) is Err,
        forall|i: int|
            0 <= i < lines.len() && line_item(#[trigger] lines[i], template) is Err && (forall|
                k: int,
            |
                0 <= k < i ==> line_item(#[trigger] lines[k], template) is Ok) ==> file_items(
                lines,
                template,
            ) is Err && file_items(lines, template)->Err_0 == line_item(lines[i], template)->Err_0,
    decreases lines.len(),
{
    if lines.len() > 0 {
        let short = lines.drop_last();
        law_file_refused(short, template);
        assert(forall|i: int| 0 <= i < short.len() ==> #[trigger] short[i] == lines[i]);
        if file_items(short, template) is Err {
            let i = choose|i: int|
                0 <= i < short.len() && line_item(#[trigger] short[i], template) is Err;
            assert(line_item(lines[i], template) is Err);
        } else {
            assert forall|i: int|
                0 <= i < lines.len() - 1 implies line_item(#[trigger] lines[i], template) is Ok by {
                assert(line_item(short[i], template) is Ok);
            }
            if line_item(lines.last(), template) is Err {
                assert(line_item(lines[lines.len() - 1], template) is Err);
            }
        }
        assert forall|i: int|
            0 <= i < lines.len() && line_item(#[trigger] lines[i], template) is Err && (forall|
                k: int,
            |
                0 <= k < i ==> line_item(#[trigger] lines[k], template) is Ok) implies file_items(
            lines,
            template,
        ) is Err && file_items(lines, template)->Err_0 == line_item(lines[i], template)->Err_0 by {
            if i < short.len() {
                assert(line_item(short[i], template) is Err);
                assert forall|k: int| 0 <= k < i implies line_item(
                    #[trigger] short[k],
                    template,
                ) is Ok by {
                    assert(line_item(lines[k], template) is Ok);
                }
            }
        }
    }
}

/// A file without blank lines, once read, has one item for each line, in their
/// order.
pub proof fn law_one_item_per_line(lines: Seq<Seq<char>>, template: Seq<char>)
    requires
        file_items(lines, template) is Ok,
        forall|i: int| 0 <= i < lines.len() ==> trimmed(#[trigger] lines[i]).len() > 0,
    ensures
        file_items(lines, template)->Ok_0.len() == lines.len(),
        forall|i: int|
            0 <= i < lines.len() ==> {
                &&& line_item(#[trigger] lines[i], template) is Ok
                &&& line_item(lines[i], template)->Ok_0 == Some(
                    file_items(lines, template)->Ok_0[i],
                )
            },
    decreases lines.len(),
{
    if lines.len() > 0 {
        let short = lines.drop_last();
        assert(forall|i: int| 0 <= i < short.len() ==> #[trigger] short[i] == lines[i]);
        law_one_item_per_line(short, template);
        assert(trimmed(lines[lines.len() - 1]).len() > 0);
        assert forall|i: int| 0 <= i < lines.len() implies {
            &&& line_item(#[trigger] lines[i], template) is Ok
            &&& line_item(lines[i], template)->Ok_0 == Some(file_items(lines, template)->Ok_0[i])
        } by {
            if i < short.len() {
                assert(line_item(short[i], template) is Ok);
            }
        }
    }
}

/// What an example in the layout of Alpaca asks for: its instruction and its
/// input, which is empty where the example has none.
pub open spec fn asked_by(e: ExampleView) -> ItemView {
    ItemView {
        instruction: e.instruction,
        input: Some(
            match e.input {
                Some(text) => text,
                None => Seq::empty(),
            },
        ),
    }
}

/// What was written can be read: a line in the layout of Alpaca asks for the
/// instruction and the input that it was written with, whatever the template.
pub proof fn law_alpaca_line_asks_again(line: Seq<char>, e: ExampleView, template: Seq<char>)
    requires
        is_line_of(line, alpaca_json(e)),
    ensures
        line_item(line, template) is Ok,
        line_item(line, template)->Ok_0 == Some(asked_by(e)),
{
    law_trimmed_to_nothing(line);
    assert(!white_space(line[0]));
    law_alpaca_fields(e);
}

/// What was written can be read, line by line: a file in the layout of Alpaca
/// asks for what its examples were made of, in the same order.
pub proof fn law_alpaca_file_asks_again(
    lines: Seq<Seq<char>>,
    examples: Seq<ExampleView>,
    template: Seq<char>,
)
    requires
        lines.len() == examples.len(),
        forall|i: int|
            0 <= i < lines.len() ==> is_line_of(#[trigger] lines[i], alpaca_json(examples[i])),
    ensures
        file_items(lines, template) is Ok,
        file_items(lines, template)->Ok_0 == examples.map_values(|e: ExampleView| asked_by(e)),
    decreases lines.len(),
{
    let items = examples.map_values(|e: ExampleView| asked_by(e));
    if lines.len() == 0 {
        assert(items =~= Seq::empty());
    } else {
        let short = examples.drop_last();
        assert forall|i: int| 0 <= i < lines.len() - 1 implies is_line_of(
            #[trigger] lines.drop_last()[i],
            alpaca_json(short[i]),
        ) by {
            assert(is_line_of(lines[i], alpaca_json(examples[i])));
        }
        law_alpaca_file_asks_again(lines.drop_last(), short, template);
        assert(is_line_of(lines[lines.len() - 1], alpaca_json(examples.last())));
        law_alpaca_line_asks_again(lines.last(), examples.last(), template);
        assert(short.map_values(|e: ExampleView| asked_by(e)).push(asked_by(examples.last()))
            =~= items);
    }
}

/// An item shows its instruction, and its input if and only if it has one.
pub proof fn law_item_view(item: Item)
    ensures
        item@.instruction == item.instruction@,
        item@.input is Some <==> item.input is Some,
        item.input is Some ==> item@.input->0 == item.input->0@,
{
}

/// A list of items shows each of them, in the same order.
pub proof fn law_items(items: Seq<Item>)
    ensures
        items_of(items).len() == items.len(),
        forall|i: int| 0 <= i < items.len() ==> #[trigger] items_of(items)[i] == items[i]@,
{
}

/// The fields of a line show what each of them holds, each in its place.
pub proof fn law_fields_view(fields: Fields)
    ensures
        fields@.instruction == fields.instruction@,
        fields@.input == fields.input@,
        fields@.text == fields.text@,
{
}

/// Where a template begins without a placeholder, that beginning stays, the
/// text stands whole in the place of the first placeholder, and the rest of the
/// template is filled with the same text.
pub proof fn law_template_fills_each(before: Seq<char>, after: Seq<char>, text: Seq<char>)
    requires
        !occurs(before, "{text}"@),
    ensures
        filled(before + "{text}"@ + after, text) == before + text + filled(after, text),
{
    reveal_strlit("{text}");
    let pattern = "{text}"@;
    assert(pattern.len() == 6);
    assert(pattern[0] == '{');
    assert(pattern[1] == 't' && pattern[2] == 'e' && pattern[3] == 'x' && pattern[4] == 't'
        && pattern[5] == '}');
    let s = before + pattern + after;
    assert forall|j: int| 0 <= j < before.len() implies !#[trigger] occurs_at(s, pattern, j) by {
        if occurs_at(s, pattern, j) {
            let found = s.subrange(j, j + pattern.len());
            if j + pattern.len() <= before.len() {
                assert(before.subrange(j, j + pattern.len()) =~= found);
                assert(occurs_at(before, pattern, j));
            } else {
                assert(found[before.len() - j] == s[before.len() as int]);
            }
        }
    }
    law_replace_first(before, pattern, after, text);
}

/// A line whose object has an instruction asks for it, whole, whatever the
/// template and the text: for nothing where it is no string. The input is that
/// of the object, whole, where it is a string, and else there is none.
pub proof fn law_line_with_instruction(
    line: Seq<char>,
    template: Seq<char>,
    entries: Map<Seq<char>, Json>,
)
    requires
        trimmed(line).len() > 0,
        json_parse(line) is Ok,
        json_parse(line)->Ok_0 == Json::Object(entries),
        entries.contains_key("instruction"@),
    ensures
        ({
            let r = line_item(line, template);
            let item = r->Ok_0->0;
            let given = entries.contains_key("input"@) && entries["input"@] is Text;
            &&& r is Ok
            &&& r->Ok_0 is Some
            &&& entries["instruction"@] is Text ==> Json::Text(item.instruction)
                == entries["instruction"@]
            &&& !(entries["instruction"@] is Text) ==> item.instruction.len() == 0
            &&& item.input is Some <==> given
            &&& given ==> Json::Text(item.input->0) == entries["input"@]
        }),
{
}

/// A line whose object has a text and no instruction asks for the template with
/// the whole text in the place of its placeholder, whatever the length of the
/// text, and has an empty input.
pub proof fn law_line_with_text(
    line: Seq<char>,
    before: Seq<char>,
    after: Seq<char>,
    entries: Map<Seq<char>, Json>,
    text: Seq<char>,
)
    requires
        trimmed(line).len() > 0,
        json_parse(line) is Ok,
        json_parse(line)->Ok_0 == Json::Object(entries),
        !entries.contains_key("instruction"@),
        entries.contains_key("text"@),
        entries["text"@] == Json::Text(text),
        !occurs(before, "{text}"@),
        !occurs(after, "{text}"@),
    ensures
        ({
            let r = line_item(line, before + "{text}"@ + after);
            &&& r is Ok
            &&& r->Ok_0 is Some
            &&& r->Ok_0->0.instruction == before + text + after
            &&& r->Ok_0->0.input is Some
            &&& r->Ok_0->0.input->0.len() == 0
        }),
{
    law_template_with_placeholder(before, after, text);
}

/// A line whose object has a text and no instruction asks for the template as
/// it is filled: with the text where that is a string, and with nothing where
/// it is another value.
pub proof fn law_line_fills_template(
    line: Seq<char>,
    template: Seq<char>,
    entries: Map<Seq<char>, Json>,
)
    requires
        trimmed(line).len() > 0,
        json_parse(line) is Ok,
        json_parse(line)->Ok_0 == Json::Object(entries),
        !entries.contains_key("instruction"@),
        entries.contains_key("text"@),
    ensures
        ({
            let r = line_item(line, template);
            let text = if entries["text"@] is Text {
                entries["text"@]->Text_0
            } else {
                Seq::empty()
            };
            &&& r is Ok
            &&& r->Ok_0 is Some
            &&& r->Ok_0->0.instruction == replaced(template, "{text}"@, text)
            &&& r->Ok_0->0.input == Some(Seq::<char>::empty())
        }),
{
}

/// A line that is not blank is refused if and only if it is no JSON, with the
/// error of the reader, or holds neither an instruction nor a text. Only a
/// blank line asks for nothing.
pub proof fn law_line_refused(line: Seq<char>, template: Seq<char>)
    ensures
        ({
            let r = line_item(line, template);
            let read = json_parse(line);
            let json = read->Ok_0;
            let blank = forall|i: int| 0 <= i < line.len() ==> white_space(#[trigger] line[i]);
            let asks = json is Object && (json->Object_0.contains_key("instruction"@)
                || json->Object_0.contains_key("text"@));
            &&& (r is Ok && r->Ok_0 is None) <==> blank
            &&& (r is Ok && r->Ok_0 is Some) <==> !blank && read is Ok && asks
            &&& r is Err && read is Err ==> r->Err_0 == InputError::Json(read->Err_0)
            &&& r is Err && read is Ok ==> r->Err_0 is NoInstruction
        }),
{
    law_trimmed_to_nothing(line);
}

/// The item that is made of fields has the instruction among them, whole, and
/// the input where that is a string. Without an instruction it has the template
/// with the whole text in the place of its placeholder, and an empty input.
/// Without either there is no item.
pub proof fn law_made_item(
    fields: Fields,
    template: &str,
    before: Seq<char>,
    after: Seq<char>,
    r: Result<Item, InputError>,
)
    requires
        call_ensures(make_item, (fields, template), r),
        template@ == before + "{text}"@ + after,
        !occurs(before, "{text}"@),
        !occurs(after, "{text}"@),
    ensures
        r is Err <==> fields.instruction is Missing && fields.text is Missing,
        fields.instruction is Missing && fields.text is Text ==> {
            &&& r->Ok_0.instruction@ == before + fields.text->Text_0@ + after
            &&& r->Ok_0.input is Some
            &&& r->Ok_0.input->0@.len() == 0
        },
        fields.instruction is Missing && fields.text is Other ==> {
            &&& r->Ok_0.instruction@ == before + after
            &&& r->Ok_0.input is Some
            &&& r->Ok_0.input->0@.len() == 0
        },
        fields.instruction is Text ==> r->Ok_0.instruction@ == fields.instruction->Text_0@,
        fields.instruction is Other ==> r->Ok_0.instruction@.len() == 0,
        !(fields.instruction is Missing) ==> {
            &&& r->Ok_0.input is Some <==> fields.input is Text
            &&& fields.input is Text ==> r->Ok_0.input->0@ == fields.input->Text_0@
        },
{
    let none = Seq::<char>::empty();
    law_template_with_placeholder(before, after, none);
    assert(before + none + after =~= before + after);
    if fields.text is Text {
        law_template_with_placeholder(before, after, fields.text->Text_0@);
    }
}

/// Through the same template, which has a placeholder, different texts make
/// different instructions.
pub proof fn law_instructions_differ(
    before: Seq<char>,
    after: Seq<char>,
    a: Seq<char>,
    b: Seq<char>,
)
    requires
        !occurs(before, "{text}"@),
        !occurs(after, "{text}"@),
        a != b,
    ensures
        filled(before + "{text}"@ + after, a) != filled(before + "{text}"@ + after, b),
{
    law_template_with_placeholder(before, after, a);
    law_template_with_placeholder(before, after, b);
    lemma_middle(before, a, b, after);
}

} // verus!
