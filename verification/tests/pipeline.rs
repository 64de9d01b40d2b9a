use kty::banks::{write_banks, write_yomitan, OutputFile, BANK_SIZE};
use kty::cli::{ArgsLang, ArgsOptions, DictionaryType, FilterKey, PathManager};
use kty::dict::{DGlossary, DIpa, DMain};
use kty::lang::{EditionLang, Lang};
use kty::models::{Form, Sense, Sound, WordEntry};
use kty::tags::{get_tag_bank_as_tag_info, tag_bank};
use kty::yomitan::{entry_json, TermMetaEntry, YomitanEntry};
use kty::{rejected, Pipeline, SourceEvent, StepOutcome};

fn entry_with(word: &str, pos: &str, lang_code: &str) -> WordEntry {
    let mut e = WordEntry::default();
    e.word = word.to_string();
    e.pos = pos.to_string();
    e.lang_code = lang_code.to_string();
    e
}

fn meta(term: &str, data: &str) -> YomitanEntry {
    YomitanEntry::TermBankMeta(TermMetaEntry {
        term: term.to_string(),
        mode: "ipa".to_string(),
        data: data.to_string(),
    })
}

fn options_with(
    filter: Vec<(FilterKey, String)>,
    reject: Vec<(FilterKey, String)>,
) -> ArgsOptions {
    let mut o = ArgsOptions::default();
    o.filter = filter;
    o.reject = reject;
    o
}

#[test]
fn filter_and_accepts_only_matching_pos() {
    let o = options_with(vec![(FilterKey::Pos, "adv".to_string())], vec![]);
    assert!(!rejected(&entry_with("now", "adv", "en"), &o));
    assert!(rejected(&entry_with("cat", "noun", "en"), &o));
}

#[test]
fn empty_filter_list_rejects_nothing() {
    let o = options_with(vec![], vec![]);
    assert!(!rejected(&entry_with("now", "adv", "en"), &o));
    assert!(!rejected(&entry_with("", "", ""), &o));
}

#[test]
fn two_filters_on_one_field_accept_nothing() {
    // Filters AND together, so two different values for the same field can
    // never both hold; this corner case is kept as it is.
    let o = options_with(
        vec![
            (FilterKey::Pos, "adv".to_string()),
            (FilterKey::Pos, "noun".to_string()),
        ],
        vec![],
    );
    assert!(rejected(&entry_with("now", "adv", "en"), &o));
    assert!(rejected(&entry_with("cat", "noun", "en"), &o));
}

#[test]
fn reject_wins_over_matching_filter() {
    let o = options_with(
        vec![(FilterKey::Pos, "adv".to_string())],
        vec![(FilterKey::Word, "now".to_string())],
    );
    // Matches the filter and a reject constraint: the reject wins.
    assert!(rejected(&entry_with("now", "adv", "en"), &o));
    // Same filter, no reject match: accepted.
    assert!(!rejected(&entry_with("then", "adv", "en"), &o));
}

#[test]
fn bank_splitting_25001_makes_two_files() {
    let mut entries: Vec<YomitanEntry> = Vec::new();
    for _ in 0..(BANK_SIZE + 1) {
        entries.push(meta("w", "x"));
    }
    let mut bank_index: usize = 0;
    let files = write_banks(&entries, &mut bank_index, false);
    assert_eq!(files.len(), 2);
    assert_eq!(bank_index, 2);
    assert_eq!(files[0].name, "term_meta_bank_1.json");
    assert_eq!(files[1].name, "term_meta_bank_2.json");
    // Every row is ["w","ipa","x"] (17 bytes); the first file holds 25,000 of
    // them, the second exactly one: the concatenation in index order is the
    // original sequence.
    let row = "[\"w\",\"ipa\",\"x\"]";
    assert_eq!(entry_json(&entries[0]), row);
    let expected_first = 2 + row.len() * BANK_SIZE + (BANK_SIZE - 1);
    assert_eq!(files[0].contents.len(), expected_first);
    assert_eq!(files[1].contents, format!("[{row}]"));
}

#[test]
fn bank_round_trip_preserves_order() {
    let entries: Vec<YomitanEntry> = vec![meta("a", "1"), meta("b", "2"), meta("c", "3")];
    let mut bank_index: usize = 7;
    let files = write_banks(&entries, &mut bank_index, false);
    assert_eq!(files.len(), 1);
    assert_eq!(bank_index, 8);
    assert_eq!(files[0].name, "term_meta_bank_8.json");
    assert_eq!(
        files[0].contents,
        "[[\"a\",\"ipa\",\"1\"],[\"b\",\"ipa\",\"2\"],[\"c\",\"ipa\",\"3\"]]"
    );
}

#[test]
fn pretty_banks_are_indented() {
    let entries: Vec<YomitanEntry> = vec![meta("a", "1"), meta("b", "2")];
    let mut bank_index: usize = 0;
    let files = write_banks(&entries, &mut bank_index, true);
    assert_eq!(
        files[0].contents,
        "[\n  [\"a\",\"ipa\",\"1\"],\n  [\"b\",\"ipa\",\"2\"]\n]"
    );
}

fn test_pm() -> PathManager {
    let lang = ArgsLang {
        edition: Lang::El,
        source: Lang::El,
        target: Lang::El,
    };
    let options = ArgsOptions::default();
    PathManager::new(DictionaryType::Ipa, "kty", &lang, &options)
}

#[test]
fn empty_groups_produce_no_output_files() {
    let options = ArgsOptions::default();
    let pm = test_pm();
    let tag_info = get_tag_bank_as_tag_info(&tag_bank());
    let groups: Vec<(String, Vec<YomitanEntry>)> = vec![
        ("term".to_string(), Vec::new()),
        ("term_meta".to_string(), Vec::new()),
    ];
    let files = write_yomitan(Lang::El, Lang::El, &options, &pm, &tag_info, &groups);
    assert!(files.is_empty());
    let files = write_yomitan(Lang::El, Lang::El, &options, &pm, &tag_info, &Vec::new());
    assert!(files.is_empty());
}

#[test]
fn package_holds_sidecars_then_banks() {
    let options = ArgsOptions::default();
    let pm = test_pm();
    let tag_info = get_tag_bank_as_tag_info(&tag_bank());
    let groups = vec![("term_meta".to_string(), vec![meta("a", "1")])];
    let files = write_yomitan(Lang::El, Lang::El, &options, &pm, &tag_info, &groups);
    let names: Vec<&str> = files.iter().map(|f| f.name.as_str()).collect();
    assert_eq!(
        names,
        vec!["index.json", "styles.css", "tag_bank_1.json", "term_meta_bank_1.json"]
    );
    assert_eq!(
        files[0].contents,
        "{\"title\":\"kty-el-el-ipa\",\"format\":3,\"revision\":\"el-el\"}"
    );
    // The tag reference file is always indented, whatever the bank format.
    assert!(files[2]
        .contents
        .starts_with("[\n  [\"masc\",\"gender\",3,\"masculine\",0],\n  "));
    assert!(files[2].contents.ends_with("\n]"));
}

#[test]
fn keep_files_run_plans_banks_only() {
    let mut options = ArgsOptions::default();
    options.keep_files = true;
    let pm = test_pm();
    let tag_info = get_tag_bank_as_tag_info(&tag_bank());
    let groups = vec![("term_meta".to_string(), vec![meta("a", "1")])];
    let files: Vec<OutputFile> =
        write_yomitan(Lang::El, Lang::El, &options, &pm, &tag_info, &groups);
    assert_eq!(files.len(), 1);
    assert_eq!(files[0].name, "term_meta_bank_1.json");
}

#[test]
fn malformed_line_aborts_and_yields_nothing() {
    let options = ArgsOptions::default();
    let mut p = Pipeline::new(DIpa);
    let mut e = entry_with("cat", "noun", "en");
    e.sounds.push(Sound {
        ipa: "kat".to_string(),
        tags: Vec::new(),
        note: String::new(),
    });
    let r = p.feed(EditionLang::En, Lang::En, Lang::En, SourceEvent::Decoded(e), &options);
    assert_eq!(r, StepOutcome::Continue);
    let r = p.feed(EditionLang::En, Lang::En, Lang::En, SourceEvent::Malformed, &options);
    assert_eq!(r, StepOutcome::Abort);
    let out = p.finish(EditionLang::En, Lang::En, Lang::En, &options);
    assert!(out.is_none());
}

#[test]
fn empty_run_completes_with_no_groups() {
    let options = ArgsOptions::default();
    let p = Pipeline::new(DIpa);
    assert!(p.finish(EditionLang::En, Lang::En, Lang::En, &options).is_none());
}

#[test]
fn accepted_cap_includes_the_capped_record() {
    let mut options = ArgsOptions::default();
    options.first = 2;
    let mut p = Pipeline::new(DIpa);
    let mut sounds_entry = entry_with("cat", "noun", "en");
    sounds_entry.sounds.push(Sound {
        ipa: "kat".to_string(),
        tags: Vec::new(),
        note: String::new(),
    });
    let r = p.feed(
        EditionLang::En,
        Lang::En,
        Lang::En,
        SourceEvent::Decoded(sounds_entry.clone()),
        &options,
    );
    assert_eq!(r, StepOutcome::Continue);
    let r = p.feed(
        EditionLang::En,
        Lang::En,
        Lang::En,
        SourceEvent::Decoded(sounds_entry),
        &options,
    );
    // The second accepted record reaches the cap and is already folded in.
    assert_eq!(r, StepOutcome::SourceDone);
    let groups = p
        .finish(EditionLang::En, Lang::En, Lang::En, &options)
        .expect("two records were accepted");
    assert_eq!(groups.len(), 1);
    assert_eq!(groups[0].1.len(), 2);
}

#[test]
fn main_dictionary_normalizes_form_tags() {
    let options = ArgsOptions::default();
    let mut p = Pipeline::new(DMain::new());
    let mut e = entry_with("walk", "v", "en");
    e.forms.push(Form {
        form: "walks".to_string(),
        tags: vec![
            "second-person".to_string(),
            "plural".to_string(),
            "present".to_string(),
            "canonical".to_string(),
        ],
    });
    let r = p.feed(EditionLang::En, Lang::En, Lang::En, SourceEvent::Decoded(e), &options);
    assert_eq!(r, StepOutcome::Continue);
    let groups = p
        .finish(EditionLang::En, Lang::En, Lang::En, &options)
        .expect("one record was accepted");
    assert_eq!(groups[0].1.len(), 1);
    // The blacklisted tag is dropped, the lone person marker keeps its own
    // merged token, and the form points back at its lemma.
    assert_eq!(
        entry_json(&groups[0].1[0]),
        "[\"walks\",\"\",\"plural present second-person\",\"\",0,[\"walk\"],0,\"\"]"
    );
}

#[test]
fn glossary_run_end_to_end() {
    let options = ArgsOptions::default();
    let mut p = Pipeline::new(DGlossary::new());
    let mut e = entry_with("now", "adv", "el");
    e.senses.push(Sense {
        glosses: vec!["at this moment".to_string()],
        examples: Vec::new(),
        form_of: Vec::new(),
        tags: vec!["present".to_string(), "singular".to_string()],
    });
    let r = p.feed(EditionLang::El, Lang::El, Lang::El, SourceEvent::Decoded(e), &options);
    assert_eq!(r, StepOutcome::Continue);
    let groups = p
        .finish(EditionLang::El, Lang::El, Lang::El, &options)
        .expect("one record was accepted");
    let pm = test_pm();
    let tag_info = get_tag_bank_as_tag_info(&tag_bank());
    let files = write_yomitan(Lang::El, Lang::El, &options, &pm, &tag_info, &groups);
    assert_eq!(files.len(), 4);
    assert_eq!(files[3].name, "term_bank_1.json");
    assert_eq!(
        files[3].contents,
        "[[\"now\",\"\",\"singular present\",\"\",0,[\"at this moment\"],0,\"\"]]"
    );
}
