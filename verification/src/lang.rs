//! The languages the pipeline knows: source and target identifiers, and the
//! subset that has a dictionary edition of its own.

use vstd::prelude::*;

verus! {

broadcast use vstd::string::group_string_axioms;

/// A language identifier.
#[derive(Debug, Clone, Copy, PartialEq, Eq, Structural, Hash)]
pub enum Lang {
    El,
    En,
    Fr,
    De,
    Es,
    Ru,
    Zh,
    Ja,
    Grc,
}

/// The two-or-three-letter code of a language.
pub open spec fn spec_lang_code(l: Lang) -> Seq<char> {
    match l {
        Lang::El => "el"@,
        Lang::En => "en"@,
        Lang::Fr => "fr"@,
        Lang::De => "de"@,
        Lang::Es => "es"@,
        Lang::Ru => "ru"@,
        Lang::Zh => "zh"@,
        Lang::Ja => "ja"@,
        Lang::Grc => "grc"@,
    }
}

/// Whether a language has a dictionary edition of its own.
pub open spec fn spec_has_edition(l: Lang) -> bool {
    l != Lang::Grc
}

impl Lang {
    /// Decode a language code; any other string is unknown.
    pub fn from_code(s: &str) -> (r: Option<Lang>)
        ensures
            s@ == "el"@ ==> r == Some(Lang::El),
            s@ == "en"@ ==> r == Some(Lang::En),
            s@ == "fr"@ ==> r == Some(Lang::Fr),
            s@ == "de"@ ==> r == Some(Lang::De),
            s@ == "es"@ ==> r == Some(Lang::Es),
            s@ == "ru"@ ==> r == Some(Lang::Ru),
            s@ == "zh"@ ==> r == Some(Lang::Zh),
            s@ == "ja"@ ==> r == Some(Lang::Ja),
            s@ == "grc"@ ==> r == Some(Lang::Grc),
            r matches Some(l) ==> s@ == spec_lang_code(l),
            r is None ==> s@ != "el"@ && s@ != "en"@ && s@ != "fr"@ && s@ != "de"@ && s@ != "es"@
                && s@ != "ru"@ && s@ != "zh"@ && s@ != "ja"@ && s@ != "grc"@,
    {
        proof {
            reveal_strlit("el");
            reveal_strlit("en");
            reveal_strlit("fr");
            reveal_strlit("de");
            reveal_strlit("es");
            reveal_strlit("ru");
            reveal_strlit("zh");
            reveal_strlit("ja");
            reveal_strlit("grc");
            assert("el"@.len() == 2 && "en"@.len() == 2 && "fr"@.len() == 2 && "de"@.len() == 2
                && "es"@.len() == 2 && "ru"@.len() == 2 && "zh"@.len() == 2 && "ja"@.len() == 2
                && "grc"@.len() == 3);
            assert("el"@[0] == 'e' && "el"@[1] == 'l');
            assert("en"@[0] == 'e' && "en"@[1] == 'n');
            assert("fr"@[0] == 'f');
            assert("de"@[0] == 'd');
            assert("es"@[0] == 'e' && "es"@[1] == 's');
            assert("ru"@[0] == 'r');
            assert("zh"@[0] == 'z');
            assert("ja"@[0] == 'j');
        }
        if crate::strutil::str_eq(s, "el") {
            Some(Lang::El)
        } else if crate::strutil::str_eq(s, "en") {
            Some(Lang::En)
        } else if crate::strutil::str_eq(s, "fr") {
            Some(Lang::Fr)
        } else if crate::strutil::str_eq(s, "de") {
            Some(Lang::De)
        } else if crate::strutil::str_eq(s, "es") {
            Some(Lang::Es)
        } else if crate::strutil::str_eq(s, "ru") {
            Some(Lang::Ru)
        } else if crate::strutil::str_eq(s, "zh") {
            Some(Lang::Zh)
        } else if crate::strutil::str_eq(s, "ja") {
            Some(Lang::Ja)
        } else if crate::strutil::str_eq(s, "grc") {
            Some(Lang::Grc)
        } else {
            None
        }
    }

    /// The code of this language, as it appears in paths and file names.
    pub fn code(&self) -> (r: String)
        ensures
            r@ == spec_lang_code(*self),
    {
        match self {
            Lang::El => String::from_str("el"),
            Lang::En => String::from_str("en"),
            Lang::Fr => String::from_str("fr"),
            Lang::De => String::from_str("de"),
            Lang::Es => String::from_str("es"),
            Lang::Ru => String::from_str("ru"),
            Lang::Zh => String::from_str("zh"),
            Lang::Ja => String::from_str("ja"),
            Lang::Grc => String::from_str("grc"),
        }
    }

    /// Whether this language has a dictionary edition of its own.
    pub fn has_edition(&self) -> (r: bool)
        ensures
            r == spec_has_edition(*self),
    {
        match self {
            Lang::Grc => false,
            _ => true,
        }
    }

    /// The hint shown when a target language has no edition.
    pub fn has_edition_help_message() -> String {
        String::from_str("not every language has its own edition; pick one that does")
    }
}

impl Default for Lang {
    /// The default language.
    fn default() -> (r: Self)
        ensures
            r == Lang::En,
    {
        Lang::En
    }
}

/// A language that has a dictionary edition of its own.
#[derive(Debug, Clone, Copy, PartialEq, Eq, Structural, Hash)]
pub enum EditionLang {
    El,
    En,
    Fr,
    De,
    Es,
    Ru,
    Zh,
    Ja,
}

/// The language an edition belongs to.
pub open spec fn spec_edition_lang(e: EditionLang) -> Lang {
    match e {
        EditionLang::El => Lang::El,
        EditionLang::En => Lang::En,
        EditionLang::Fr => Lang::Fr,
        EditionLang::De => Lang::De,
        EditionLang::Es => Lang::Es,
        EditionLang::Ru => Lang::Ru,
        EditionLang::Zh => Lang::Zh,
        EditionLang::Ja => Lang::Ja,
    }
}

impl EditionLang {
    /// The edition of a language, when it has one.
    pub fn try_from_lang(l: Lang) -> (r: Option<EditionLang>)
        ensures
            spec_has_edition(l) ==> (r matches Some(e) && spec_edition_lang(e) == l),
            !spec_has_edition(l) ==> r is None,
    {
        match l {
            Lang::El => Some(EditionLang::El),
            Lang::En => Some(EditionLang::En),
            Lang::Fr => Some(EditionLang::Fr),
            Lang::De => Some(EditionLang::De),
            Lang::Es => Some(EditionLang::Es),
            Lang::Ru => Some(EditionLang::Ru),
            Lang::Zh => Some(EditionLang::Zh),
            Lang::Ja => Some(EditionLang::Ja),
            Lang::Grc => None,
        }
    }

    /// The language this edition belongs to.
    pub fn lang(&self) -> (r: Lang)
        ensures
            r == spec_edition_lang(*self),
    {
        match self {
            EditionLang::El => Lang::El,
            EditionLang::En => Lang::En,
            EditionLang::Fr => Lang::Fr,
            EditionLang::De => Lang::De,
            EditionLang::Es => Lang::Es,
            EditionLang::Ru => Lang::Ru,
            EditionLang::Zh => Lang::Zh,
            EditionLang::Ja => Lang::Ja,
        }
    }
}

impl Default for EditionLang {
    /// The default edition.
    fn default() -> (r: Self)
        ensures
            r == EditionLang::En,
    {
        EditionLang::En
    }
}

} // verus!
