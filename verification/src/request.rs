//! What is asked of the translation service for one entry.

use crate::entry::{models, Entry, EntryModel};
use vstd::prelude::*;

verus! {

/// The values of a [`Request`].
pub struct RequestModel {
    pub text: Seq<char>,
    pub lang: Seq<char>,
    pub above: Seq<char>,
    pub below: Seq<char>,
}

/// One call of the translation service: the text to translate, the
/// language to translate it to, and the text that stands before and after
/// it in the source, which is context and not to be translated.
#[derive(Debug, PartialEq, Eq)]
pub struct Request {
    pub text: String,
    pub lang: String,
    pub above: String,
    pub below: String,
}

impl View for Request {
    type V = RequestModel;

    open spec fn view(&self) -> RequestModel {
        RequestModel {
            text: self.text@,
            lang: self.lang@,
            above: self.above@,
            below: self.below@,
        }
    }
}

/// The text of the entry before `index` in `source`; empty for the first.
pub open spec fn above_of(source: Seq<EntryModel>, index: int) -> Seq<char> {
    if index > 0 {
        source[index - 1].text
    } else {
        Seq::empty()
    }
}

/// The text of the entry after `index` in `source`; empty for the last.
pub open spec fn below_of(source: Seq<EntryModel>, index: int) -> Seq<char> {
    if index + 1 < source.len() {
        source[index + 1].text
    } else {
        Seq::empty()
    }
}

/// The request for the entry at `index` of `source`. Its context is the
/// text of the source's own neighbours, whatever has been translated so far.
pub open spec fn request_of(source: Seq<EntryModel>, index: int, lang: Seq<char>) -> RequestModel {
    RequestModel {
        text: source[index].text,
        lang,
        above: above_of(source, index),
        below: below_of(source, index),
    }
}

/// The text before and the text after the entry at `index`, as they stand
/// in `source`.
pub fn context_at(source: &Vec<Entry>, index: usize) -> (context: (String, String))
    requires
        index < source.len(),
    ensures
        context.0@ == above_of(models(source@), index as int),
        context.1@ == below_of(models(source@), index as int),
{
    let above = if index > 0 {
        source[index - 1].text.clone()
    } else {
        String::new()
    };
    let below = if index + 1 < source.len() {
        source[index + 1].text.clone()
    } else {
        String::new()
    };
    (above, below)
}

/// The request for the entry at `index` of `source`, to be translated to
/// `lang`.
pub fn request_for(source: &Vec<Entry>, index: usize, lang: &str) -> (request: Request)
    requires
        index < source.len(),
    ensures
        request@ == request_of(models(source@), index as int, lang@),
{
    let (above, below) = context_at(source, index);
    Request { text: source[index].text.clone(), lang: String::from_str(lang), above, below }
}

/// The prompt that carries a request to a completion service: the four
/// values, each under its heading, and the instruction to keep everything
/// that is not text and to answer with the translation alone.
pub open spec fn prompt_of(request: RequestModel) -> Seq<char> {
    "Translate this subtitle to "@ + request.lang + ":\n"@ + request.text
        + "\n\nContext (not to be translated):\nPrevious: "@ + request.above + "\nNext: "@
        + request.below
        + "\n\nImportant: Preserve all formatting, numbers, special characters, and non-text elements from the original subtitle exactly as they appear. Only translate the actual text content.\n\nOnly output the translation, nothing else."@
}

/// Writes the prompt for `request`.
pub fn prompt_text(request: &Request) -> (prompt: String)
    ensures
        prompt@ == prompt_of(request@),
{
    String::from_str("Translate this subtitle to ").concat(
        request.lang.as_str(),
    ).concat(":\n").concat(request.text.as_str()).concat(
        "\n\nContext (not to be translated):\nPrevious: ",
    ).concat(request.above.as_str()).concat("\nNext: ").concat(request.below.as_str()).concat(
        "\n\nImportant: Preserve all formatting, numbers, special characters, and non-text elements from the original subtitle exactly as they appear. Only translate the actual text content.\n\nOnly output the translation, nothing else.",
    )
}

} // verus!
