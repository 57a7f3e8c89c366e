//! The persona that answers.

use crate::text::lemma_middle;
use vstd::prelude::*;

verus! {

/// Who answers, and how.
#[derive(Debug, PartialEq, Eq)]
pub struct Persona {
    pub name: String,
    pub description: String,
    pub style: String,
    pub system_prompt: Option<String>,
}

impl Persona {
    /// The prompt that asks this persona to answer `user_text`.
    pub open spec fn prompt(self, user_text: Seq<char>) -> Seq<char> {
        let system = match self.system_prompt {
            Some(s) => "System: "@ + s@,
            None => Seq::empty(),
        };
        "You are "@ + self.name@ + ". "@ + self.description@ + ". Your style: "@ + self.style@
            + ". "@ + system + "\n\nUser: "@ + user_text
            + "\n\nRespond in the style and persona described."@
    }

    /// Makes the prompt that asks this persona to answer `user_text`. The topic
    /// does not enter it.
    pub fn format_prompt(&self, user_text: &str, _topic: &Option<String>) -> (r: String)
        ensures
            r@ == self.prompt(user_text@),
    {
        let mut prompt = String::new();
        prompt.append("You are ");
        prompt.append(self.name.as_str());
        prompt.append(". ");
        prompt.append(self.description.as_str());
        prompt.append(". Your style: ");
        prompt.append(self.style.as_str());
        prompt.append(". ");
        let mut system = String::new();
        if let Some(s) = &self.system_prompt {
            system.append("System: ");
            system.append(s.as_str());
        }
        prompt.append(system.as_str());
        prompt.append("\n\nUser: ");
        prompt.append(user_text);
        prompt.append("\n\nRespond in the style and persona described.");
        assert(prompt@ =~= self.prompt(user_text@));
        prompt
    }
}

/// A prompt begins with who the persona is, ends with the user's text and the
/// demand to respond, each whole, and has the system prompt between them, where
/// the persona has one, and nothing where it has none.
pub proof fn law_prompt_parts(persona: Persona, user_text: Seq<char>)
    ensures
        ({
            let prompt = persona.prompt(user_text);
            let head = "You are "@ + persona.name@ + ". "@ + persona.description@
                + ". Your style: "@ + persona.style@ + ". "@;
            let tail = "\n\nUser: "@ + user_text
                + "\n\nRespond in the style and persona described."@;
            let between = prompt.subrange(head.len() as int, prompt.len() - tail.len());
            &&& head.is_prefix_of(prompt)
            &&& tail.is_suffix_of(prompt)
            &&& prompt.len() >= head.len() + tail.len()
            &&& persona.system_prompt is None ==> between.len() == 0
            &&& persona.system_prompt is Some ==> between == "System: "@
                + persona.system_prompt->0@
        }),
{
    let prompt = persona.prompt(user_text);
    let head = "You are "@ + persona.name@ + ". "@ + persona.description@ + ". Your style: "@
        + persona.style@ + ". "@;
    let tail = "\n\nUser: "@ + user_text + "\n\nRespond in the style and persona described."@;
    let system = match persona.system_prompt {
        Some(s) => "System: "@ + s@,
        None => Seq::empty(),
    };
    assert(prompt =~= head + system + tail);
    assert(prompt.subrange(head.len() as int, prompt.len() - tail.len()) =~= system);
    assert(prompt.skip(prompt.len() - tail.len()) =~= tail);
}

/// A persona is asked differently for different texts.
pub proof fn law_prompts_differ_by_text(persona: Persona, a: Seq<char>, b: Seq<char>)
    requires
        a != b,
    ensures
        persona.prompt(a) != persona.prompt(b),
{
    let system = match persona.system_prompt {
        Some(s) => "System: "@ + s@,
        None => Seq::empty(),
    };
    let before = "You are "@ + persona.name@ + ". "@ + persona.description@ + ". Your style: "@
        + persona.style@ + ". "@ + system + "\n\nUser: "@;
    let after = "\n\nRespond in the style and persona described."@;
    lemma_middle(before, a, b, after);
    assert(persona.prompt(a) =~= before + a + after);
    assert(persona.prompt(b) =~= before + b + after);
}

/// The topic makes no difference to the prompt.
pub proof fn law_topic_does_not_matter(
    persona: Persona,
    user_text: &str,
    one: Option<String>,
    other: Option<String>,
    r: String,
    s: String,
)
    requires
        call_ensures(Persona::format_prompt, (&persona, user_text, &one), r),
        call_ensures(Persona::format_prompt, (&persona, user_text, &other), s),
    ensures
        r@ == s@,
{
}

} // verus!
