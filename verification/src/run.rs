//! The run over all items: which are asked, what each is asked, what is
//! written, and when the run stops.

use crate::example::{
    example_json, format_of, is_line_of, law_alpaca_holds, law_chatml_tells, law_format_names,
    law_line_reads_back, law_sharegpt_tells, says, tells, write_example, ExampleView, Format,
    UnknownFormat,
};
use crate::history::turns_of;
use crate::input::{Item, ItemView};
use crate::json::{json_parse, json_text, Json};
use crate::persona::{law_prompts_differ_by_text, Persona};
use crate::text::{
    joined, law_split_undoes_join, lemma_middle, opt_string, opt_text, pieces, trim_end,
    trimmed_end, white_space,
};
use vstd::prelude::*;

verus! {

/// What a run does with each item.
#[derive(Debug, PartialEq, Eq)]
pub struct Job {
    pub persona: Option<Persona>,
    pub format: String,
    pub system: Option<String>,
    pub topic: Option<String>,
    pub sharegpt_id: bool,
    pub history: Vec<[String; 2]>,
}

/// What is asked for an item. A persona is asked to answer the instruction and
/// the input; without one they are asked as they are.
pub open spec fn item_prompt(persona: Option<Persona>, item: ItemView) -> Seq<char> {
    match persona {
        Some(p) => p.prompt(
            match item.input {
                Some(input) => item.instruction + "\n\nInput: "@ + input,
                None => item.instruction,
            },
        ),
        None => match item.input {
            Some(input) => "Instruction: "@ + item.instruction + "\nInput: "@ + input,
            None => item.instruction,
        },
    }
}

/// Makes the prompt for an item.
pub fn make_prompt(job: &Job, item: &Item) -> (r: String)
    ensures
        r@ == item_prompt(job.persona, item@),
{
    match &job.persona {
        Some(p) => {
            let mut combined = item.instruction.clone();
            if let Some(input) = &item.input {
                combined.append("\n\nInput: ");
                combined.append(input.as_str());
            }
            p.format_prompt(combined.as_str(), &job.topic)
        },
        None => match &item.input {
            Some(input) => {
                "Instruction: ".to_string().concat(item.instruction.as_str()).concat(
                    "\nInput: ",
                ).concat(input.as_str())
            },
            None => item.instruction.clone(),
        },
    }
}

/// The example that an answered item makes.
pub open spec fn answered(job: Job, item: ItemView, answer: Seq<char>) -> ExampleView {
    ExampleView {
        instruction: item.instruction,
        input: item.input,
        output: answer,
        system: opt_string(job.system),
        topic: opt_string(job.topic),
        history: turns_of(job.history@),
    }
}

/// The slice of an optional string.
fn slice_of(o: &Option<String>) -> (r: Option<&str>)
    ensures
        opt_text(r) == opt_string(*o),
{
    match o {
        Some(s) => Some(s.as_str()),
        None => None,
    }
}

/// What ends in a brace and a line feed is trimmed to the brace.
proof fn lemma_line_trimmed(line: Seq<char>)
    requires
        line.len() > 0,
        line.last() == '}',
    ensures
        trimmed_end(line.push('\n')) == line,
{
    reveal_with_fuel(trimmed_end, 2);
    assert(line.push('\n').drop_last() =~= line);
    assert(white_space('\n'));
    assert(!white_space('}'));
}

/// The line that is written for an answered item. Where the job asks for
/// numbers, an example in the layout of ShareGPT gets a random one.
pub fn output_line(job: &Job, item: &Item, answer: &str) -> (r: Result<String, UnknownFormat>)
    ensures
        match format_of(job.format@) {
            Some(layout) => r is Ok && exists|id: Option<u32>|
                {
                    &&& id is Some <==> job.sharegpt_id && layout == Format::ShareGpt
                    &&& is_line_of(
                        r->Ok_0@,
                        #[trigger] example_json(layout, answered(*job, item@, answer@), id),
                    )
                },
            None => r is Err && r->Err_0.name@ == job.format@,
        },
{
    let mut written = String::new();
    match write_example(
        &mut written,
        job.format.as_str(),
        item.instruction.as_str(),
        slice_of(&item.input),
        answer,
        slice_of(&job.system),
        slice_of(&job.topic),
        job.sharegpt_id,
        &job.history,
    ) {
        Err(e) => Err(e),
        Ok(()) => {
            let line = trim_end(written.as_str());
            proof {
                let layout = format_of(job.format@)->0;
                let e = answered(*job, item@, answer@);
                let id = choose|id: Option<u32>|
                    {
                        let json = #[trigger] example_json(layout, e, id);
                        &&& id is Some <==> job.sharegpt_id && layout == Format::ShareGpt
                        &&& written@ == Seq::<char>::empty() + json_text(json).push('\n')
                        &&& is_line_of(json_text(json), json)
                    };
                let text = json_text(example_json(layout, e, id));
                assert(written@ =~= text.push('\n'));
                lemma_line_trimmed(text);
            }
            Ok(line)
        },
    }
}

/// What becomes of an item that was asked for.
#[derive(Debug, PartialEq, Eq)]
pub enum Outcome {
    /// This line is to be written.
    Write { line: String },
    /// Nothing is written, for the reason in the message; the run goes on.
    Drop { message: String },
}

/// Takes the answer for an item, or the message of the error in its place.
pub fn take_answer(job: &Job, item: &Item, answer: Result<String, String>) -> (r: Outcome)
    ensures
        match answer {
            Err(message) => r is Drop && r->message@ == message@,
            Ok(text) => match format_of(job.format@) {
                None => r is Drop && r->message@ == "format error: "@ + ("Unknown format: "@
                    + job.format@),
                Some(layout) => r is Write && exists|id: Option<u32>|
                    {
                        &&& id is Some <==> job.sharegpt_id && layout == Format::ShareGpt
                        &&& is_line_of(
                            r->line@,
                            #[trigger] example_json(layout, answered(*job, item@, text@), id),
                        )
                    },
            },
        },
{
    match answer {
        Err(message) => Outcome::Drop { message },
        Ok(text) => match output_line(job, item, text.as_str()) {
            Ok(line) => Outcome::Write { line },
            Err(e) => Outcome::Drop {
                message: "format error: ".to_string().concat(e.message().as_str()),
            },
        },
    }
}

/// The text of a file that `lines` were written to.
pub open spec fn file_text(lines: Seq<Seq<char>>) -> Seq<char>
    decreases lines.len(),
{
    if lines.len() == 0 {
        Seq::empty()
    } else {
        file_text(lines.drop_last()) + lines.last().push('\n')
    }
}

/// The lines that were written come apart again: between the line feeds of the
/// file stand those lines, and nothing after the last.
pub proof fn law_lines_come_apart(lines: Seq<Seq<char>>)
    requires
        forall|i: int| 0 <= i < lines.len() ==> !(#[trigger] lines[i]).contains('\n'),
    ensures
        pieces(file_text(lines), '\n') == lines.push(Seq::empty()),
{
    let parts = lines.push(Seq::empty());
    lemma_file_joined(lines);
    assert forall|i: int| 0 <= i < parts.len() implies !(#[trigger] parts[i]).contains('\n') by {
        if i < lines.len() {
            assert(parts[i] == lines[i]);
        }
    }
    law_split_undoes_join(parts, '\n');
}

/// A file is its lines and an empty one, joined.
proof fn lemma_file_joined(lines: Seq<Seq<char>>)
    ensures
        joined(lines.push(Seq::empty()), '\n') == file_text(lines),
    decreases lines.len(),
{
    let parts = lines.push(Seq::empty());
    assert(parts.drop_last() =~= lines);
    if lines.len() > 0 {
        let short = lines.drop_last();
        lemma_file_joined(short);
        let shorter = short.push(Seq::empty());
        assert(shorter.drop_last() =~= short);
        if short.len() == 0 {
            assert(joined(lines, '\n') == lines[0]);
            assert(joined(parts, '\n') =~= file_text(lines));
        } else {
            assert(joined(shorter, '\n') == joined(short, '\n').push('\n') + Seq::empty());
            assert(joined(lines, '\n') == joined(short, '\n').push('\n') + lines.last());
            assert(joined(parts, '\n') =~= file_text(lines));
        }
    }
}

/// The state of a run: how many items it has begun and whether it has stopped.
#[derive(Debug, PartialEq, Eq)]
pub struct Run {
    pub begun: usize,
    pub stopped: bool,
}

/// What the state of a run stands for.
pub struct RunView {
    pub begun: nat,
    pub stopped: bool,
}

impl View for Run {
    type V = RunView;

    open spec fn view(&self) -> RunView {
        RunView { begun: self.begun as nat, stopped: self.stopped }
    }
}

/// What happens in a run.
pub enum Event {
    /// An item has its turn.
    Begin,
    /// A line was handed to the output, which took it or did not.
    Written { ok: bool },
}

/// The state of a run after an event.
pub open spec fn after(run: RunView, event: Event) -> RunView {
    match event {
        Event::Begin => if run.stopped {
            run
        } else {
            RunView { begun: run.begun + 1, ..run }
        },
        Event::Written { ok } => if ok {
            run
        } else {
            RunView { stopped: true, ..run }
        },
    }
}

/// What is to be done with an item that has its turn.
#[derive(Debug, PartialEq, Eq)]
pub enum Begin {
    /// Nothing: the run has stopped.
    Halt,
    /// Nothing: item `number` has no instruction.
    Skip { number: usize },
    /// Ask for item `number`.
    Ask { number: usize, prompt: String },
}

/// What is to be done once a line was handed to the output.
#[derive(Debug, Clone, Copy, PartialEq, Eq, Structural)]
pub enum Written {
    /// The output failed, and the run stops.
    Stop,
    /// The run goes on; the output may have to be flushed, and the progress
    /// reported.
    Go { flush: bool, report: bool },
}

impl Run {
    /// A run that has begun nothing.
    pub fn new() -> (r: Run)
        ensures
            r@ == (RunView { begun: 0, stopped: false }),
            r.begun == 0,
            !r.stopped,
    {
        Run { begun: 0, stopped: false }
    }

    /// Gives an item its turn. The items are numbered from one, in the order in
    /// which they have their turns; a run that has stopped begins none.
    pub fn begin(&mut self, job: &Job, item: &Item) -> (r: Begin)
        requires
            old(self).stopped || old(self).begun < usize::MAX,
        ensures
            final(self)@ == after(old(self)@, Event::Begin),
            final(self).stopped == old(self).stopped,
            final(self).begun == if old(self).stopped {
                old(self).begun as int
            } else {
                old(self).begun + 1
            },
            if old(self).stopped {
                r is Halt
            } else if item.instruction@.len() == 0 {
                r is Skip && r->Skip_number == final(self).begun
            } else {
                &&& r is Ask
                &&& r->Ask_number == final(self).begun
                &&& r->prompt@ == item_prompt(job.persona, item@)
            },
    {
        if self.stopped {
            return Begin::Halt;
        }
        self.begun = self.begun + 1;
        let number = self.begun;
        if item.instruction.as_str().is_empty() {
            return Begin::Skip { number };
        }
        Begin::Ask { number, prompt: make_prompt(job, item) }
    }

    /// Takes note of whether the output took the line of item `number`. It is
    /// flushed with each fiftieth item, and each hundredth is reported.
    pub fn written(&mut self, number: usize, ok: bool) -> (r: Written)
        ensures
            final(self)@ == after(old(self)@, Event::Written { ok }),
            final(self).begun == old(self).begun,
            final(self).stopped == (old(self).stopped || !ok),
            r == if ok {
                Written::Go { flush: number % 50 == 0, report: number % 100 == 0 }
            } else {
                Written::Stop
            },
    {
        if !ok {
            self.stopped = true;
            return Written::Stop;
        }
        Written::Go { flush: number % 50 == 0, report: number % 100 == 0 }
    }
}

/// The state of a run after events, one by one.
pub open spec fn after_all(run: RunView, events: Seq<Event>) -> RunView
    decreases events.len(),
{
    if events.len() == 0 {
        run
    } else {
        after(after_all(run, events.drop_last()), events.last())
    }
}

/// A run that has stopped stays so: whatever happens, it begins nothing more.
pub proof fn law_stopped_for_good(run: RunView, events: Seq<Event>)
    requires
        run.stopped,
    ensures
        after_all(run, events) == run,
    decreases events.len(),
{
    if events.len() > 0 {
        law_stopped_for_good(run, events.drop_last());
    }
}

/// A run stops if and only if the output failed.
pub proof fn law_stops_on_failure(run: RunView, events: Seq<Event>)
    requires
        !run.stopped,
    ensures
        after_all(run, events).stopped <==> exists|i: int|
            0 <= i < events.len() && #[trigger] events[i] == (Event::Written { ok: false }),
    decreases events.len(),
{
    if events.len() > 0 {
        let short = events.drop_last();
        law_stops_on_failure(run, short);
        if after_all(run, short).stopped {
            let i = choose|i: int|
                0 <= i < short.len() && #[trigger] short[i] == (Event::Written { ok: false });
            assert(events[i] == (Event::Written { ok: false }));
        } else {
            assert forall|i: int| 0 <= i < events.len() - 1 implies #[trigger] events[i] != (
            Event::Written { ok: false }) by {
                assert(short[i] != (Event::Written { ok: false }));
            }
            if after_all(run, events).stopped {
                assert(events[events.len() - 1] == (Event::Written { ok: false }));
            }
        }
    }
}

/// How many items had their turn.
pub open spec fn turns_taken(events: Seq<Event>) -> nat
    decreases events.len(),
{
    if events.len() == 0 {
        0
    } else {
        turns_taken(events.drop_last()) + if events.last() is Begin {
            1nat
        } else {
            0
        }
    }
}

/// No number is left out: while a run goes on, it has begun as many items as
/// had their turn.
pub proof fn law_numbers_in_order(run: RunView, events: Seq<Event>)
    requires
        !after_all(run, events).stopped,
    ensures
        after_all(run, events).begun == run.begun + turns_taken(events),
    decreases events.len(),
{
    if events.len() > 0 {
        law_numbers_in_order(run, events.drop_last());
    }
}

/// What happens later neither lets a stopped run go on nor takes a turn back.
proof fn lemma_earlier(run: RunView, events: Seq<Event>, n: int)
    requires
        0 <= n <= events.len(),
    ensures
        after_all(run, events.take(n)).stopped ==> after_all(run, events).stopped,
        turns_taken(events.take(n)) <= turns_taken(events),
    decreases events.len(),
{
    if n == events.len() {
        assert(events.take(n) =~= events);
    } else {
        assert(events.drop_last().take(n) =~= events.take(n));
        lemma_earlier(run, events.drop_last(), n);
    }
}

/// No two items have the same number: of two that have their turns while the
/// run goes on, the later one has the greater.
pub proof fn law_numbers_differ(run: RunView, events: Seq<Event>, i: int, j: int)
    requires
        0 <= i < j < events.len(),
        events[i] is Begin,
        events[j] is Begin,
        !after_all(run, events.take(j + 1)).stopped,
    ensures
        after_all(run, events.take(i + 1)).begun < after_all(run, events.take(j + 1)).begun,
{
    let later = events.take(j + 1);
    assert(later.take(i + 1) =~= events.take(i + 1));
    assert(later.drop_last() =~= events.take(j));
    assert(events.take(j).take(i + 1) =~= events.take(i + 1));
    lemma_earlier(run, later, i + 1);
    lemma_earlier(run, events.take(j), i + 1);
    law_numbers_in_order(run, later);
    law_numbers_in_order(run, events.take(i + 1));
}

/// Without a persona the prompt is the instruction, where there is no input;
/// and with an input, be it empty or not, it is the instruction and the input,
/// each whole and under its heading.
pub proof fn law_prompt_without_persona(item: ItemView)
    ensures
        ({
            let prompt = item_prompt(None, item);
            let head = "Instruction: "@;
            let end = (head.len() + item.instruction.len()) as int;
            &&& item.input is None ==> prompt == item.instruction
            &&& item.input is Some ==> {
                &&& head.is_prefix_of(prompt)
                &&& end <= prompt.len()
                &&& prompt.subrange(head.len() as int, end) == item.instruction
                &&& prompt.skip(end) == "\nInput: "@ + item.input->0
            }
        }),
{
    if let Some(input) = item.input {
        let prompt = item_prompt(None, item);
        let head = "Instruction: "@;
        let end = (head.len() + item.instruction.len()) as int;
        assert(prompt.take(head.len() as int) =~= head);
        assert(prompt.subrange(head.len() as int, end) =~= item.instruction);
        assert(prompt.skip(end) =~= "\nInput: "@ + input);
    }
}

/// With a persona the prompt is that of the persona for a text that begins with
/// the whole instruction, and goes on with the whole input, where there is one,
/// be it empty or not.
pub proof fn law_prompt_with_persona(persona: Persona, item: ItemView)
    ensures
        ({
            let prompt = item_prompt(Some(persona), item);
            let respond = "\n\nRespond in the style and persona described."@;
            let asked = match item.input {
                None => "\n\nUser: "@ + item.instruction + respond,
                Some(input) => "\n\nUser: "@ + item.instruction + "\n\nInput: "@ + input + respond,
            };
            let rest = prompt.take(prompt.len() - asked.len());
            let head = "You are "@ + persona.name@ + ". "@ + persona.description@
                + ". Your style: "@ + persona.style@ + ". "@;
            &&& asked.is_suffix_of(prompt)
            &&& persona.system_prompt is None ==> rest == head
            &&& persona.system_prompt is Some ==> rest == head + "System: "@
                + persona.system_prompt->0@
        }),
{
    let prompt = item_prompt(Some(persona), item);
    let respond = "\n\nRespond in the style and persona described."@;
    let asked = match item.input {
        None => "\n\nUser: "@ + item.instruction + respond,
        Some(input) => "\n\nUser: "@ + item.instruction + "\n\nInput: "@ + input + respond,
    };
    let head = "You are "@ + persona.name@ + ". "@ + persona.description@ + ". Your style: "@
        + persona.style@ + ". "@;
    let rest = match persona.system_prompt {
        None => head,
        Some(s) => head + "System: "@ + s@,
    };
    assert(prompt =~= rest + asked);
    assert(prompt.take(prompt.len() - asked.len()) =~= rest);
    assert(prompt.skip(prompt.len() - asked.len()) =~= asked);
}

/// Items with the same input and different instructions have different prompts,
/// with a persona and without; and so have items with the same instruction and
/// different inputs.
pub proof fn law_prompts_differ(persona: Option<Persona>, a: ItemView, b: ItemView)
    requires
        (a.input == b.input && a.instruction != b.instruction) || (a.instruction == b.instruction
            && a.input is Some && b.input is Some && a.input->0 != b.input->0),
    ensures
        item_prompt(persona, a) != item_prompt(persona, b),
{
    let none = Seq::<char>::empty();
    let plain_heading = "Instruction: "@;
    if a.input == b.input {
        match a.input {
            None => {
                if let Some(p) = persona {
                    law_prompts_differ_by_text(p, a.instruction, b.instruction);
                }
            },
            Some(input) => {
                let asked = "\n\nInput: "@ + input;
                lemma_middle(none, a.instruction, b.instruction, asked);
                let x = a.instruction + "\n\nInput: "@ + input;
                let y = b.instruction + "\n\nInput: "@ + input;
                assert(x =~= none + a.instruction + asked);
                assert(y =~= none + b.instruction + asked);
                let under = "\nInput: "@ + input;
                lemma_middle(plain_heading, a.instruction, b.instruction, under);
                assert(plain_heading + a.instruction + "\nInput: "@ + input =~= plain_heading
                    + a.instruction + under);
                assert(plain_heading + b.instruction + "\nInput: "@ + input =~= plain_heading
                    + b.instruction + under);
                if let Some(p) = persona {
                    law_prompts_differ_by_text(p, x, y);
                }
            },
        }
    } else {
        let i = a.input->0;
        let j = b.input->0;
        let asked = a.instruction + "\n\nInput: "@;
        lemma_middle(asked, i, j, none);
        assert(asked + i + none =~= asked + i);
        assert(asked + j + none =~= asked + j);
        let under = plain_heading + a.instruction + "\nInput: "@;
        lemma_middle(under, i, j, none);
        assert(under + i + none =~= under + i);
        assert(under + j + none =~= under + j);
        if let Some(p) = persona {
            law_prompts_differ_by_text(p, asked + i, asked + j);
        }
    }
}

/// The prompt that is made for an item without a persona holds the instruction
/// and the input of the item, each whole.
pub proof fn law_made_prompt(job: Job, item: Item, r: String)
    requires
        call_ensures(make_prompt, (&job, &item), r),
        job.persona is None,
    ensures
        match item.input {
            None => r@ == item.instruction@,
            Some(input) => r@ == "Instruction: "@ + item.instruction@ + "\nInput: "@ + input@,
        },
{
}

/// The prompts that are made for two items of the same input and different
/// instructions differ, whatever the job.
pub proof fn law_made_prompts_differ(job: Job, a: Item, b: Item, r: String, s: String)
    requires
        call_ensures(make_prompt, (&job, &a), r),
        call_ensures(make_prompt, (&job, &b), s),
        a.input == b.input,
        a.instruction@ != b.instruction@,
    ensures
        r@ != s@,
{
    law_prompts_differ(job.persona, a@, b@);
}

/// An answered item makes an example that has the answer for its output, the
/// instruction and the input of the item, and the system message, the topic and
/// the history of the job, whatever the layout.
pub proof fn law_answered(job: Job, item: Item, answer: Seq<char>)
    ensures
        ({
            let e = answered(job, item@, answer);
            &&& e.output == answer
            &&& e.instruction == item.instruction@
            &&& e.input is Some <==> item.input is Some
            &&& item.input is Some ==> e.input->0 == item.input->0@
            &&& e.system is Some <==> job.system is Some
            &&& job.system is Some ==> e.system->0 == job.system->0@
            &&& e.topic is Some <==> job.topic is Some
            &&& job.topic is Some ==> e.topic->0 == job.topic->0@
            &&& e.history.len() == job.history@.len()
            &&& forall|k: int|
                0 <= k < job.history@.len() ==> {
                    &&& (#[trigger] e.history[k]).0 == job.history@[k]@[0]@
                    &&& e.history[k].1 == job.history@[k]@[1]@
                }
        }),
{
}

/// The line that is written for an answered item in the layout of Alpaca, read
/// again, has the answer for its output, the instruction and the input of the
/// item, and the system message, the topic and the history of the job.
pub proof fn law_alpaca_line_holds_answer(
    job: Job,
    item: Item,
    answer: &str,
    r: Result<String, UnknownFormat>,
)
    requires
        call_ensures(output_line, (&job, &item, answer), r),
        job.format@ == "alpaca"@,
    ensures
        r is Ok,
        json_parse(r->Ok_0@) is Ok,
        json_parse(r->Ok_0@)->Ok_0 is Object,
        ({
            let entries = json_parse(r->Ok_0@)->Ok_0->Object_0;
            let turns = entries["history"@]->List_0;
            &&& entries.contains_key("output"@)
            &&& entries["output"@] == Json::Text(answer@)
            &&& entries.contains_key("instruction"@)
            &&& entries["instruction"@] == Json::Text(item.instruction@)
            &&& entries.contains_key("input"@)
            &&& item.input is Some ==> entries["input"@] == Json::Text(item.input->0@)
            &&& item.input is None ==> entries["input"@] == Json::Text(Seq::empty())
            &&& entries.contains_key("history"@) <==> job.history@.len() > 0
            &&& job.history@.len() > 0 ==> {
                &&& entries["history"@] is List
                &&& turns.len() == job.history@.len()
                &&& forall|k: int|
                    0 <= k < turns.len() ==> {
                        &&& (#[trigger] turns[k]) is List
                        &&& turns[k]->List_0.len() == 2
                        &&& turns[k]->List_0[0] == Json::Text(job.history@[k]@[0]@)
                        &&& turns[k]->List_0[1] == Json::Text(job.history@[k]@[1]@)
                    }
            }
            &&& job.system is None ==> !entries.contains_key("system"@)
            &&& job.system is Some ==> entries.contains_key("system"@) && entries["system"@]
                == Json::Text(job.system->0@)
            &&& job.topic is None ==> !entries.contains_key("topic"@)
            &&& job.topic is Some ==> entries.contains_key("topic"@) && entries["topic"@]
                == Json::Text(job.topic->0@)
        }),
{
    law_format_names(job.format@);
    law_answered(job, item, answer@);
    let e = answered(job, item@, answer@);
    let id = choose|id: Option<u32>|
        is_line_of(r->Ok_0@, #[trigger] example_json(Format::Alpaca, e, id));
    law_alpaca_holds(e, id);
    law_line_reads_back(
        r->Ok_0@,
        example_json(Format::Alpaca, e, id),
        example_json(Format::Alpaca, e, id),
    );
}

/// The line that is written for an answered item in the layout of ShareGPT, read
/// again, tells the item under the system message, the topic and the history of
/// the job, and ends in the answer. It has a name if and only if the job asks
/// for numbers.
pub proof fn law_sharegpt_line_ends_in_answer(
    job: Job,
    item: Item,
    answer: &str,
    r: Result<String, UnknownFormat>,
)
    requires
        call_ensures(output_line, (&job, &item, answer), r),
        job.format@ == "sharegpt"@,
    ensures
        r is Ok,
        json_parse(r->Ok_0@) is Ok,
        json_parse(r->Ok_0@)->Ok_0 is Object,
        ({
            let entries = json_parse(r->Ok_0@)->Ok_0->Object_0;
            let list = entries["conversations"@]->List_0;
            let e = answered(job, item@, answer@);
            &&& entries.contains_key("conversations"@)
            &&& entries["conversations"@] is List
            &&& tells(list, e, "from"@, "value"@, "human"@, "gpt"@)
            &&& list.len() >= 2
            &&& says(list.last(), "from"@, "gpt"@, "value"@, answer@)
            &&& entries.contains_key("id"@) <==> job.sharegpt_id
        }),
{
    law_format_names(job.format@);
    law_answered(job, item, answer@);
    let e = answered(job, item@, answer@);
    let id = choose|id: Option<u32>|
        {
            &&& id is Some <==> job.sharegpt_id
            &&& is_line_of(r->Ok_0@, #[trigger] example_json(Format::ShareGpt, e, id))
        };
    law_sharegpt_tells(e, id);
    law_line_reads_back(
        r->Ok_0@,
        example_json(Format::ShareGpt, e, id),
        example_json(Format::ShareGpt, e, id),
    );
}

/// The line that is written for an answered item in the layout of ChatML, read
/// again, tells the item under the system message, the topic and the history of
/// the job, and ends in the answer.
pub proof fn law_chatml_line_ends_in_answer(
    job: Job,
    item: Item,
    answer: &str,
    r: Result<String, UnknownFormat>,
)
    requires
        call_ensures(output_line, (&job, &item, answer), r),
        job.format@ == "chatml"@,
    ensures
        r is Ok,
        json_parse(r->Ok_0@) is Ok,
        json_parse(r->Ok_0@)->Ok_0 is Object,
        ({
            let entries = json_parse(r->Ok_0@)->Ok_0->Object_0;
            let list = entries["messages"@]->List_0;
            let e = answered(job, item@, answer@);
            &&& entries.contains_key("messages"@)
            &&& entries["messages"@] is List
            &&& tells(list, e, "role"@, "content"@, "user"@, "assistant"@)
            &&& list.len() >= 2
            &&& says(list.last(), "role"@, "assistant"@, "content"@, answer@)
        }),
{
    law_format_names(job.format@);
    law_answered(job, item, answer@);
    let e = answered(job, item@, answer@);
    let id = choose|id: Option<u32>|
        is_line_of(r->Ok_0@, #[trigger] example_json(Format::ChatMl, e, id));
    law_chatml_tells(e, id);
    law_line_reads_back(
        r->Ok_0@,
        example_json(Format::ChatMl, e, id),
        example_json(Format::ChatMl, e, id),
    );
}

/// A turn that is begun counts one, unless the run has stopped; a line that the
/// output took changes nothing, and one that it did not take stops the run and
/// changes nothing else.
pub proof fn law_events(run: RunView)
    ensures
        after(run, Event::Begin).stopped == run.stopped,
        !run.stopped ==> after(run, Event::Begin).begun == run.begun + 1,
        run.stopped ==> after(run, Event::Begin).begun == run.begun,
        after(run, Event::Written { ok: true }) == run,
        after(run, Event::Written { ok: false }).stopped,
        after(run, Event::Written { ok: false }).begun == run.begun,
{
}

/// A line is written for an item if and only if it was answered and the layout
/// is known; else the message says why not, and that of an error is kept whole.
pub proof fn law_taken_answer(job: Job, item: Item, answer: Result<String, String>, r: Outcome)
    requires
        call_ensures(take_answer, (&job, &item, answer), r),
    ensures
        r is Write <==> answer is Ok && (job.format@ == "alpaca"@ || job.format@ == "sharegpt"@
            || job.format@ == "chatml"@),
        answer is Err ==> r is Drop && r->message@ == answer->Err_0@,
        answer is Ok && r is Drop ==> job.format@.is_suffix_of(r->message@),
{
    law_format_names(job.format@);
    if answer is Ok && r is Drop {
        let said = r->message@;
        assert(said.skip(said.len() - job.format@.len()) =~= job.format@);
    }
}

} // verus!
