use kty::cli::{parse_tuple, validate_edition, ArgsLang, ArgsOptions, DictionaryType, FilterKey,
    PathManager};
use kty::dict::locale::localize_examples_string;
use kty::jsonout::{i64_string, json_string, u64_string};
use kty::lang::{EditionLang, Lang};
use kty::locale::get_locale_examples_string;
use kty::models::WordEntry;
use kty::strutil::{join_strs, split_str, str_eq};

#[test]
fn filter_keys_decode() {
    assert!(matches!(FilterKey::try_from("pos"), Ok(FilterKey::Pos)));
    assert!(matches!(FilterKey::try_from("word"), Ok(FilterKey::Word)));
    assert!(matches!(FilterKey::try_from("lang_code"), Ok(FilterKey::LangCode)));
    assert!(FilterKey::try_from("foo").is_err());
}

#[test]
fn field_value_selects_the_right_field() {
    let mut e = WordEntry::default();
    e.word = "now".to_string();
    e.pos = "adv".to_string();
    e.lang_code = "el".to_string();
    assert_eq!(FilterKey::Word.field_value(&e), "now");
    assert_eq!(FilterKey::Pos.field_value(&e), "adv");
    assert_eq!(FilterKey::LangCode.field_value(&e), "el");
}

#[test]
fn tuples_parse_or_fail() {
    let (k, v) = parse_tuple("word,hello").expect("well-formed pair");
    assert!(matches!(k, FilterKey::Word));
    assert_eq!(v, "hello");
    let (k, v) = parse_tuple(" pos , adv ").expect("parts are trimmed");
    assert!(matches!(k, FilterKey::Pos));
    assert_eq!(v, "adv");
    assert!(parse_tuple("foo,bar").is_err());
    assert!(parse_tuple("word").is_err());
    assert!(parse_tuple("word,a,b").is_err());
}

#[test]
fn editions_validate() {
    assert!(matches!(validate_edition("en"), Ok(Lang::En)));
    assert!(matches!(validate_edition("el"), Ok(Lang::El)));
    assert!(validate_edition("grc").is_err());
    assert!(validate_edition("xx").is_err());
    assert!(EditionLang::try_from_lang(Lang::Grc).is_none());
    assert_eq!(EditionLang::try_from_lang(Lang::Fr), Some(EditionLang::Fr));
}

#[test]
fn has_filter_params_reflects_options() {
    let mut o = ArgsOptions::default();
    assert!(!o.has_filter_params());
    o.first = 5;
    assert!(o.has_filter_params());
    let mut o = ArgsOptions::default();
    o.reject.push((FilterKey::Pos, "name".to_string()));
    assert!(o.has_filter_params());
}

fn pm(dict_ty: DictionaryType) -> PathManager {
    let lang = ArgsLang {
        edition: Lang::El,
        source: Lang::El,
        target: Lang::En,
    };
    let options = ArgsOptions::default();
    PathManager::new(dict_ty, "kty", &lang, &options)
}

#[test]
fn paths_follow_the_layout() {
    let pm = pm(DictionaryType::Main);
    assert_eq!(pm.dir_kaik(), "data/kaikki");
    assert_eq!(pm.dir_dict(), "data/dict/el/en");
    assert_eq!(pm.dir_temp(), "data/dict/el/en/temp-main");
    assert_eq!(pm.dir_tidy(), "data/dict/el/en/temp-main/tidy");
    assert_eq!(pm.dir_temp_dict(), "data/dict/el/en/temp-main/dict");
    assert_eq!(pm.dir_diagnostics(), "data/dict/el/en/temp-main/diagnostics");
    assert_eq!(pm.path_jsonl_raw(), "data/kaikki/el-extract.jsonl");
    assert_eq!(pm.path_jsonl(Lang::En, Lang::El), "data/kaikki/en-el-extract.jsonl");
    assert_eq!(pm.path_lemmas(), "data/dict/el/en/temp-main/tidy/el-en-lemmas.json");
    assert_eq!(pm.path_forms(), "data/dict/el/en/temp-main/tidy/el-en-forms.json");
    assert_eq!(pm.dict_name_expanded(), "kty-el-en");
    assert_eq!(pm.path_dict(), "data/dict/el/en/kty-el-en.zip");
}

#[test]
fn english_edition_reads_pair_dump() {
    let lang = ArgsLang {
        edition: Lang::En,
        source: Lang::De,
        target: Lang::En,
    };
    let options = ArgsOptions::default();
    let pm = PathManager::new(DictionaryType::Main, "kty", &lang, &options);
    assert_eq!(pm.path_jsonl_raw(), "data/kaikki/de-en-extract.jsonl");
}

#[test]
fn variant_suffixes_expand_the_name() {
    assert_eq!(pm(DictionaryType::Glossary).dict_name_expanded(), "kty-el-en-gloss");
    assert_eq!(pm(DictionaryType::Ipa).dict_name_expanded(), "kty-el-en-ipa");
    assert_eq!(pm(DictionaryType::Ipa).path_dict(), "data/dict/el/en/kty-el-en-ipa.zip");
}

#[test]
fn locale_labels_are_exact() {
    assert_eq!(get_locale_examples_string(&Lang::En, 1), "1 example");
    assert_eq!(get_locale_examples_string(&Lang::En, 3), "3 examples");
    assert_eq!(get_locale_examples_string(&Lang::Fr, 1), "1 exemple");
    assert_eq!(get_locale_examples_string(&Lang::De, 2), "2 Beispiele");
    assert_eq!(get_locale_examples_string(&Lang::Ru, 5), "5 \u{43f}\u{440}\u{438}\u{43c}\u{435}\u{440}\u{44b}");
    assert_eq!(get_locale_examples_string(&Lang::Ja, 2), "2 \u{4f8b}");
    assert_eq!(localize_examples_string(EditionLang::Es, 0), "0 ejemplos");
}

#[test]
fn numbers_render_in_decimal() {
    assert_eq!(u64_string(0), "0");
    assert_eq!(u64_string(25000), "25000");
    assert_eq!(i64_string(-42), "-42");
    assert_eq!(i64_string(i64::MIN), "-9223372036854775808");
    assert_eq!(i64_string(i64::MAX), "9223372036854775807");
}

#[test]
fn json_strings_escape_specials() {
    assert_eq!(json_string("plain"), "\"plain\"");
    assert_eq!(json_string("a\"b\\c"), "\"a\\\"b\\\\c\"");
    assert_eq!(json_string("x\ny\t\r"), "\"x\\ny\\t\\r\"");
    assert_eq!(json_string("\u{1}"), "\"\\u0001\"");
    assert_eq!(json_string("\u{1f}"), "\"\\u001f\"");
    assert_eq!(json_string(""), "\"\"");
}

#[test]
fn split_and_join_are_inverses_on_tags() {
    let parts = split_str("first-person singular present", ' ');
    assert_eq!(parts, vec!["first-person", "singular", "present"]);
    assert_eq!(join_strs(&parts, " "), "first-person singular present");
    assert_eq!(split_str("", ' '), vec![""]);
    assert_eq!(split_str("a  b", ' '), vec!["a", "", "b"]);
    assert!(str_eq("abc", "abc"));
    assert!(!str_eq("abc", "abd"));
}
