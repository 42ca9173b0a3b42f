//! Composed answers: the ordered script of content blocks handed to the
//! chat transport for delivery.

use vstd::prelude::*;

verus! {

/// One block of an answer: free text, or one image given by its URL.
#[derive(Debug, Clone)]
pub enum Content {
    Text(String),
    Image(String),
}

/// The answer to send to a chat: its blocks are delivered in order,
/// best-effort — a failure partway does not roll back earlier blocks.
#[derive(Debug, Clone)]
pub struct Answer {
    script: Vec<Content>,
}

/// A helper to build composed answers.
pub struct AnswerBuilder {
    answer: Answer,
}

impl Answer {
    /// The script of blocks, in delivery order.
    pub closed spec fn script(self) -> Seq<Content> {
        self.script@
    }

    /// Build a simple one-text answer.
    pub fn simple_text(text: String) -> (r: Answer)
        ensures
            r.script() =~= seq![Content::Text(text)],
    {
        let mut script: Vec<Content> = Vec::new();
        script.push(Content::Text(text));
        Answer { script }
    }

    /// The blocks to deliver, in order.
    pub fn parts(&self) -> (r: &Vec<Content>)
        ensures
            r@ == self.script(),
    {
        &self.script
    }
}

impl Default for AnswerBuilder {
    fn default() -> (r: Self)
        ensures
            r.script().len() == 0,
    {
        AnswerBuilder { answer: Answer { script: Vec::new() } }
    }
}

impl AnswerBuilder {
    /// The script composed so far.
    pub closed spec fn script(self) -> Seq<Content> {
        self.answer.script@
    }

    /// Append a text block.
    pub fn text(self, text: String) -> (r: Self)
        ensures
            r.script() == self.script().push(Content::Text(text)),
    {
        let mut answer = self.answer;
        answer.script.push(Content::Text(text));
        AnswerBuilder { answer }
    }

    /// Append an image block.
    pub fn image(self, url: String) -> (r: Self)
        ensures
            r.script() == self.script().push(Content::Image(url)),
    {
        let mut answer = self.answer;
        answer.script.push(Content::Image(url));
        AnswerBuilder { answer }
    }

    /// Finalize the builder.
    pub fn finalize(self) -> (r: Answer)
        ensures
            r.script() == self.script(),
    {
        self.answer
    }
}

/// The birthday wish text for `name`.
pub fn birthday_wish(name: &str) -> (r: String)
    ensures
        r@ == "Buon compleanno "@ + name@ + "!"@,
{
    let mut s = String::from_str("Buon compleanno ");
    s.append(name);
    s.append("!");
    s
}

/// The answer a birthday dispatch sends: the day's image, then the wish.
pub fn happy_birthday_answer(image_url: String, name: &str) -> (r: Answer)
    ensures
        r.script().len() == 2,
        r.script()[0] == Content::Image(image_url),
        r.script()[1] matches Content::Text(t) && t@ == "Buon compleanno "@ + name@ + "!"@,
{
    AnswerBuilder::default().image(image_url).text(birthday_wish(name)).finalize()
}

} // verus!
