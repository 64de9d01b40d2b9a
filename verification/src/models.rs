//! Data model for one decoded lexical record and its nested parts. Every
//! list or string field defaults to empty; downstream code never sees an
//! absent field.

use vstd::prelude::*;

verus! {

/// One head template expansion attached to a record.
#[derive(Debug, Clone)]
pub struct HeadTemplate {
    pub expansion: String,
}

/// One pronunciation attached to a record.
#[derive(Debug, Clone)]
pub struct Sound {
    pub ipa: String,
    pub tags: Vec<String>,
    pub note: String,
}

/// One usage example inside a sense.
#[derive(Debug, Clone)]
pub struct Example {
    pub text: String,
    pub translation: String,
}

/// A reference to the headword a form belongs to.
#[derive(Debug, Clone)]
pub struct AltForm {
    pub word: String,
}

/// One sense of a record: its glosses, examples, lemma references and tags.
#[derive(Debug, Clone)]
pub struct Sense {
    pub glosses: Vec<String>,
    pub examples: Vec<Example>,
    pub form_of: Vec<AltForm>,
    pub tags: Vec<String>,
}

/// One inflected form of a record, with its grammatical tags.
#[derive(Debug, Clone)]
pub struct Form {
    pub form: String,
    pub tags: Vec<String>,
}

/// One lexical entry decoded from a single input line.
#[derive(Debug, Clone)]
pub struct WordEntry {
    pub word: String,
    pub pos: String,
    pub lang_code: String,
    pub head_templates: Vec<HeadTemplate>,
    pub etymology_text: String,
    pub sounds: Vec<Sound>,
    pub senses: Vec<Sense>,
    pub forms: Vec<Form>,
    pub form_of: Vec<AltForm>,
}

/// A record with every field empty, as used for absent input fields.
pub open spec fn spec_empty_entry(e: WordEntry) -> bool {
    &&& e.word@.len() == 0
    &&& e.pos@.len() == 0
    &&& e.lang_code@.len() == 0
    &&& e.head_templates@.len() == 0
    &&& e.etymology_text@.len() == 0
    &&& e.sounds@.len() == 0
    &&& e.senses@.len() == 0
    &&& e.forms@.len() == 0
    &&& e.form_of@.len() == 0
}

impl Default for WordEntry {
    /// The schema-tolerant default: all fields empty.
    fn default() -> (r: Self)
        ensures
            spec_empty_entry(r),
    {
        WordEntry {
            word: String::new(),
            pos: String::new(),
            lang_code: String::new(),
            head_templates: Vec::new(),
            etymology_text: String::new(),
            sounds: Vec::new(),
            senses: Vec::new(),
            forms: Vec::new(),
            form_of: Vec::new(),
        }
    }
}

} // verus!
