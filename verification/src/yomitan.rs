//! The exported entry types and their JSON shape. An entry is either a term
//! bank row or a term metadata row; the writer only ever looks at the kind.

use vstd::prelude::*;

use crate::jsonout::{i64_string, json_string, json_string_array, spec_dec_int, spec_json_string,
    spec_json_string_array};
use crate::strutil::{join_strs, spec_join};

verus! {

broadcast use vstd::string::group_string_axioms;

/// One dictionary headword row: term, reading, definition tags, inflection
/// rule hint, score, glosses, sequence number and term tags.
#[derive(Debug)]
pub struct TermEntry {
    pub term: String,
    pub reading: String,
    pub definition_tags: Vec<String>,
    pub rules: String,
    pub score: i64,
    pub glosses: Vec<String>,
    pub sequence: i64,
    pub term_tags: Vec<String>,
}

/// One per-term metadata row: term, a mode label and an opaque data payload.
#[derive(Debug)]
pub struct TermMetaEntry {
    pub term: String,
    pub mode: String,
    pub data: String,
}

/// One exported entry, tagged with its kind.
#[derive(Debug)]
pub enum YomitanEntry {
    TermBank(TermEntry),
    TermBankMeta(TermMetaEntry),
}

/// The file name prefix of an entry's kind.
pub open spec fn spec_kind_prefix(e: YomitanEntry) -> Seq<char> {
    match e {
        YomitanEntry::TermBank(_) => "term_bank"@,
        YomitanEntry::TermBankMeta(_) => "term_meta_bank"@,
    }
}

/// The JSON row of a headword entry: an eight-element array with the tag
/// lists rendered space-joined.
pub open spec fn spec_term_entry_json(e: TermEntry) -> Seq<char> {
    seq!['['] + spec_json_string(e.term@) + seq![','] + spec_json_string(e.reading@) + seq![',']
        + spec_json_string(spec_join(e.definition_tags.deep_view(), " "@)) + seq![',']
        + spec_json_string(e.rules@) + seq![','] + spec_dec_int(e.score as int) + seq![',']
        + spec_json_string_array(e.glosses.deep_view()) + seq![','] + spec_dec_int(
        e.sequence as int,
    ) + seq![','] + spec_json_string(spec_join(e.term_tags.deep_view(), " "@)) + seq![']']
}

/// The JSON row of a metadata entry: a three-element array.
pub open spec fn spec_term_meta_json(e: TermMetaEntry) -> Seq<char> {
    seq!['['] + spec_json_string(e.term@) + seq![','] + spec_json_string(e.mode@) + seq![',']
        + spec_json_string(e.data@) + seq![']']
}

/// The JSON row of an entry of either kind.
pub open spec fn spec_entry_json(e: YomitanEntry) -> Seq<char> {
    match e {
        YomitanEntry::TermBank(t) => spec_term_entry_json(t),
        YomitanEntry::TermBankMeta(m) => spec_term_meta_json(m),
    }
}

/// The file name prefix an entry's kind selects.
pub fn kind_prefix(e: &YomitanEntry) -> (r: &'static str)
    ensures
        r@ == spec_kind_prefix(*e),
{
    match e {
        YomitanEntry::TermBank(_) => "term_bank",
        YomitanEntry::TermBankMeta(_) => "term_meta_bank",
    }
}

/// Render one entry as its JSON row.
pub fn entry_json(e: &YomitanEntry) -> (r: String)
    ensures
        r@ == spec_entry_json(*e),
{
    proof {
        reveal_strlit("[");
        reveal_strlit("]");
        reveal_strlit(",");
        assert("["@ =~= seq!['[']);
        assert("]"@ =~= seq![']']);
        assert(","@ =~= seq![',']);
    }
    match e {
        YomitanEntry::TermBank(t) => {
            let mut s = String::from_str("[");
            s.append(json_string(t.term.as_str()).as_str());
            s.append(",");
            s.append(json_string(t.reading.as_str()).as_str());
            s.append(",");
            s.append(json_string(join_strs(&t.definition_tags, " ").as_str()).as_str());
            s.append(",");
            s.append(json_string(t.rules.as_str()).as_str());
            s.append(",");
            s.append(i64_string(t.score).as_str());
            s.append(",");
            s.append(json_string_array(&t.glosses).as_str());
            s.append(",");
            s.append(i64_string(t.sequence).as_str());
            s.append(",");
            s.append(json_string(join_strs(&t.term_tags, " ").as_str()).as_str());
            s.append("]");
            proof {
                assert(s@ =~= spec_term_entry_json(*t));
            }
            s
        },
        YomitanEntry::TermBankMeta(m) => {
            let mut s = String::from_str("[");
            s.append(json_string(m.term.as_str()).as_str());
            s.append(",");
            s.append(json_string(m.mode.as_str()).as_str());
            s.append(",");
            s.append(json_string(m.data.as_str()).as_str());
            s.append("]");
            proof {
                assert(s@ =~= spec_term_meta_json(*m));
            }
            s
        },
    }
}

} // verus!
