//! Configuration surface consumed by the pipeline: filter constraints and the
//! option set, together with their validation. Parsing of the actual process
//! arguments happens outside the library; everything here works on plain
//! values.

use vstd::prelude::*;

use crate::models::WordEntry;

verus! {

broadcast use vstd::string::group_string_axioms;

/// The closed set of record fields a filter or reject constraint may select.
#[derive(Debug, Clone, Copy, PartialEq, Eq, Structural)]
pub enum FilterKey {
    LangCode,
    Word,
    Pos,
}

impl FilterKey {
    /// The field of `entry` that `key` selects.
    pub open spec fn spec_field_value(key: FilterKey, entry: WordEntry) -> Seq<char> {
        match key {
            FilterKey::LangCode => entry.lang_code@,
            FilterKey::Word => entry.word@,
            FilterKey::Pos => entry.pos@,
        }
    }

    /// Select the constrained field out of a record.
    pub fn field_value<'a>(&self, entry: &'a WordEntry) -> (r: &'a str)
        ensures
            r@ == FilterKey::spec_field_value(*self, *entry),
    {
        match self {
            FilterKey::LangCode => entry.lang_code.as_str(),
            FilterKey::Word => entry.word.as_str(),
            FilterKey::Pos => entry.pos.as_str(),
        }
    }

    /// Decode a filter key name; any other name is a configuration error.
    pub fn try_from(s: &str) -> (r: Result<FilterKey, String>)
        ensures
            s@ == "lang_code"@ ==> r == Result::<FilterKey, String>::Ok(FilterKey::LangCode),
            s@ == "word"@ ==> r == Result::<FilterKey, String>::Ok(FilterKey::Word),
            s@ == "pos"@ ==> r == Result::<FilterKey, String>::Ok(FilterKey::Pos),
            s@ != "lang_code"@ && s@ != "word"@ && s@ != "pos"@ ==> r is Err,
    {
        proof {
            reveal_strlit("lang_code");
            reveal_strlit("word");
            reveal_strlit("pos");
            assert("lang_code"@.len() == 9);
            assert("word"@.len() == 4);
            assert("pos"@.len() == 3);
        }
        if crate::strutil::str_eq(s, "lang_code") {
            Ok(FilterKey::LangCode)
        } else if crate::strutil::str_eq(s, "word") {
            Ok(FilterKey::Word)
        } else if crate::strutil::str_eq(s, "pos") {
            Ok(FilterKey::Pos)
        } else {
            Err(String::from_str("unknown filter key. Choose between: lang_code | word | pos"))
        }
    }
}

/// The option set the pipeline consumes. `first == -1` disables the accepted
/// record cap.
#[derive(Debug, Clone)]
pub struct ArgsOptions {
    pub keep_files: bool,
    pub redownload: bool,
    pub first: i32,
    pub filter: Vec<(FilterKey, String)>,
    pub reject: Vec<(FilterKey, String)>,
    pub pretty: bool,
    pub quiet: bool,
    pub experimental: bool,
    pub skip_yomitan: bool,
    pub root_dir: String,
}

impl Default for ArgsOptions {
    /// Defaults: no constraints, unbounded cap, compact output, data root.
    fn default() -> (r: Self)
        ensures
            r.first == -1,
            r.filter@.len() == 0,
            r.reject@.len() == 0,
            !r.keep_files && !r.redownload && !r.pretty && !r.quiet && !r.experimental
                && !r.skip_yomitan,
            r.root_dir@ == "data"@,
    {
        ArgsOptions {
            keep_files: false,
            redownload: false,
            first: -1,
            filter: Vec::new(),
            reject: Vec::new(),
            pretty: false,
            quiet: false,
            experimental: false,
            skip_yomitan: false,
            root_dir: String::from_str("data"),
        }
    }
}

impl ArgsOptions {
    /// Whether any debug filtering option is active.
    pub fn has_filter_params(&self) -> (r: bool)
        ensures
            r == (self.filter@.len() > 0 || self.reject@.len() > 0 || self.first != -1),
    {
        self.filter.len() > 0 || self.reject.len() > 0 || self.first != -1
    }
}

} // verus!

verus! {

use crate::lang::{spec_has_edition, spec_lang_code, Lang};
use crate::strutil::{spec_split, spec_trim, split_str, trim_spaces};

/// Validate a target language: it must name a language that has an edition.
pub fn validate_edition(s: &str) -> (r: Result<Lang, String>)
    ensures
        match r {
            Ok(l) => s@ == spec_lang_code(l) && spec_has_edition(l),
            Err(_) => forall|l: Lang|
                s@ == #[trigger] spec_lang_code(l) ==> !spec_has_edition(l),
        },
{
    match Lang::from_code(s) {
        None => Err(String::from_str("unknown language code")),
        Some(l) => {
            if l.has_edition() {
                Ok(l)
            } else {
                let mut msg = String::from_str("this language has no edition of its own. ");
                msg.append(Lang::has_edition_help_message().as_str());
                Err(msg)
            }
        },
    }
}

/// Parse one `key,value` constraint; a malformed pair or an unknown key is a
/// configuration error.
pub fn parse_tuple(s: &str) -> (r: Result<(FilterKey, String), String>)
    ensures
        match r {
            Ok((k, v)) => spec_split(s@, ',').len() == 2 && FilterKey::try_from_spec_ok(
                spec_trim(spec_split(s@, ',')[0]),
                k,
            ) && v@ == spec_trim(spec_split(s@, ',')[1]),
            Err(_) => spec_split(s@, ',').len() != 2 || (forall|k: FilterKey|
                !(#[trigger] FilterKey::try_from_spec_ok(spec_trim(spec_split(s@, ',')[0]), k))),
        },
{
    let parts = split_str(s, ',');
    if parts.len() != 2 {
        return Err(String::from_str("expected two comma-separated values"));
    }
    proof {
        assert(parts.deep_view()[0] == parts@[0]@);
        assert(parts.deep_view()[1] == parts@[1]@);
    }
    let key_part = trim_spaces(parts[0].as_str());
    let value_part = trim_spaces(parts[1].as_str());
    match FilterKey::try_from(key_part.as_str()) {
        Ok(k) => Ok((k, value_part)),
        Err(e) => Err(e),
    }
}

impl FilterKey {
    /// Whether `try_from` maps the name `s` to the key `k`.
    pub open spec fn try_from_spec_ok(s: Seq<char>, k: FilterKey) -> bool {
        match k {
            FilterKey::LangCode => s == "lang_code"@,
            FilterKey::Word => s == "word"@,
            FilterKey::Pos => s == "pos"@,
        }
    }
}

/// The skip switches; only the main dictionary consults them.
#[derive(Debug, Clone)]
pub struct ArgsSkip {
    pub filtering: bool,
    pub tidy: bool,
    pub yomitan: bool,
}

impl Default for ArgsSkip {
    /// Nothing is skipped by default.
    fn default() -> (r: Self)
        ensures
            !r.filtering && !r.tidy && !r.yomitan,
    {
        ArgsSkip { filtering: false, tidy: false, yomitan: false }
    }
}

/// The edition, source and target languages of one run.
#[derive(Debug, Clone)]
pub struct ArgsLang {
    pub edition: Lang,
    pub source: Lang,
    pub target: Lang,
}

impl Default for ArgsLang {
    /// All three default to the default language.
    fn default() -> (r: Self)
        ensures
            r.edition == Lang::En && r.source == Lang::En && r.target == Lang::En,
    {
        ArgsLang { edition: Lang::En, source: Lang::En, target: Lang::En }
    }
}

/// The full argument set of the main dictionary command.
#[derive(Debug, Clone)]
pub struct Args {
    pub lang: ArgsLang,
    pub dict_name: String,
    pub options: ArgsOptions,
    pub skip: ArgsSkip,
}

/// The argument set of the simpler dictionary commands.
#[derive(Debug, Clone)]
pub struct SimpleArgs {
    pub lang: ArgsLang,
    pub dict_name: String,
    pub options: ArgsOptions,
}

/// One invocation: a dictionary command with its arguments.
#[derive(Debug, Clone)]
pub enum Command {
    Main(Args),
    Glossary(SimpleArgs),
    Ipa(SimpleArgs),
}

/// The whole command line.
#[derive(Debug, Clone)]
pub struct Cli {
    pub command: Command,
    pub verbose: bool,
}

/// The closed set of dictionary variants a run can build.
#[derive(Debug, Clone, Copy, PartialEq, Eq, Structural)]
pub enum DictionaryType {
    Main,
    Glossary,
    Ipa,
}

/// The label of a dictionary variant, as used in paths and names.
pub open spec fn spec_dict_ty_label(t: DictionaryType) -> Seq<char> {
    match t {
        DictionaryType::Main => "main"@,
        DictionaryType::Glossary => "glossary"@,
        DictionaryType::Ipa => "ipa"@,
    }
}

impl DictionaryType {
    /// The variant a command selects.
    pub fn from_command(cmd: &Command) -> (r: DictionaryType)
        ensures
            r == (match cmd {
                Command::Main(_) => DictionaryType::Main,
                Command::Glossary(_) => DictionaryType::Glossary,
                Command::Ipa(_) => DictionaryType::Ipa,
            }),
    {
        match cmd {
            Command::Main(_) => DictionaryType::Main,
            Command::Glossary(_) => DictionaryType::Glossary,
            Command::Ipa(_) => DictionaryType::Ipa,
        }
    }

    /// The variant's label.
    pub fn label(&self) -> (r: String)
        ensures
            r@ == spec_dict_ty_label(*self),
    {
        match self {
            DictionaryType::Main => String::from_str("main"),
            DictionaryType::Glossary => String::from_str("glossary"),
            DictionaryType::Ipa => String::from_str("ipa"),
        }
    }
}

/// Where one run reads and writes: every path the pipeline uses is derived
/// from this little bundle.
#[derive(Debug, Clone)]
pub struct PathManager {
    pub dict_name: String,
    pub dict_ty: DictionaryType,
    pub edition: Lang,
    pub source: Lang,
    pub target: Lang,
    pub root_dir: String,
    pub keep_files: bool,
}

/// `<root>/kaikki`
pub open spec fn spec_dir_kaik(pm: PathManager) -> Seq<char> {
    pm.root_dir@ + "/kaikki"@
}

/// `<root>/dict/<source>/<target>`
pub open spec fn spec_dir_dict(pm: PathManager) -> Seq<char> {
    pm.root_dir@ + "/dict/"@ + spec_lang_code(pm.source) + "/"@ + spec_lang_code(pm.target)
}

/// `<root>/dict/<source>/<target>/temp-<variant>`
pub open spec fn spec_dir_temp(pm: PathManager) -> Seq<char> {
    spec_dir_dict(pm) + "/temp-"@ + spec_dict_ty_label(pm.dict_ty)
}

/// `<dict-name>-<source>-<target>`, with the variant's suffix where one is
/// used.
pub open spec fn spec_dict_name_expanded(pm: PathManager) -> Seq<char> {
    let base = pm.dict_name@ + "-"@ + spec_lang_code(pm.source) + "-"@ + spec_lang_code(pm.target);
    match pm.dict_ty {
        DictionaryType::Main => base,
        DictionaryType::Glossary => base + "-gloss"@,
        DictionaryType::Ipa => base + "-ipa"@,
    }
}

impl PathManager {
    /// Bundle one run's identity out of its arguments.
    pub fn new(dict_ty: DictionaryType, dict_name: &str, lang: &ArgsLang, options: &ArgsOptions)
        -> (r: PathManager)
        ensures
            r.dict_name@ == dict_name@,
            r.dict_ty == dict_ty,
            r.edition == lang.edition,
            r.source == lang.source,
            r.target == lang.target,
            r.root_dir@ == options.root_dir@,
            r.keep_files == options.keep_files,
    {
        PathManager {
            dict_name: dict_name.to_owned(),
            dict_ty,
            edition: lang.edition,
            source: lang.source,
            target: lang.target,
            root_dir: options.root_dir.clone(),
            keep_files: options.keep_files,
        }
    }

    /// Bundle a main-dictionary run.
    pub fn from_args(dict_ty: DictionaryType, args: &Args) -> (r: PathManager)
        ensures
            r.dict_name@ == args.dict_name@,
            r.dict_ty == dict_ty,
            r.edition == args.lang.edition,
            r.source == args.lang.source,
            r.target == args.lang.target,
            r.root_dir@ == args.options.root_dir@,
            r.keep_files == args.options.keep_files,
    {
        PathManager::new(dict_ty, args.dict_name.as_str(), &args.lang, &args.options)
    }

    /// Bundle a simple-command run.
    pub fn from_simple_args(dict_ty: DictionaryType, args: &SimpleArgs) -> (r: PathManager)
        ensures
            r.dict_name@ == args.dict_name@,
            r.dict_ty == dict_ty,
            r.edition == args.lang.edition,
            r.source == args.lang.source,
            r.target == args.lang.target,
            r.root_dir@ == args.options.root_dir@,
            r.keep_files == args.options.keep_files,
    {
        PathManager::new(dict_ty, args.dict_name.as_str(), &args.lang, &args.options)
    }

    /// The edition, source and target languages of this run.
    pub fn langs(&self) -> (r: (Lang, Lang, Lang))
        ensures
            r == (self.edition, self.source, self.target),
    {
        (self.edition, self.source, self.target)
    }

    /// The directory the raw dumps live in.
    pub fn dir_kaik(&self) -> (r: String)
        ensures
            r@ == spec_dir_kaik(*self),
    {
        let mut s = self.root_dir.clone();
        s.append("/kaikki");
        s
    }

    /// The directory the finished package lands in.
    pub fn dir_dict(&self) -> (r: String)
        ensures
            r@ == spec_dir_dict(*self),
    {
        let mut s = self.root_dir.clone();
        s.append("/dict/");
        s.append(self.source.code().as_str());
        s.append("/");
        s.append(self.target.code().as_str());
        s
    }

    /// The working directory of this run's variant.
    pub fn dir_temp(&self) -> (r: String)
        ensures
            r@ == spec_dir_temp(*self),
    {
        let mut s = self.dir_dict();
        s.append("/temp-");
        s.append(self.dict_ty.label().as_str());
        s
    }

    /// Where the intermediate representation is persisted when kept.
    pub fn dir_tidy(&self) -> (r: String)
        ensures
            r@ == spec_dir_temp(*self) + "/tidy"@,
    {
        let mut s = self.dir_temp();
        s.append("/tidy");
        s
    }

    /// The raw dump this run reads. English editions are per language pair;
    /// the others are one dump per edition.
    pub fn path_jsonl_raw(&self) -> (r: String)
        ensures
            self.edition == Lang::En ==> r@ == spec_dir_kaik(*self) + "/"@ + spec_lang_code(
                self.source,
            ) + "-"@ + spec_lang_code(self.target) + "-extract.jsonl"@,
            self.edition != Lang::En ==> r@ == spec_dir_kaik(*self) + "/"@ + spec_lang_code(
                self.edition,
            ) + "-extract.jsonl"@,
    {
        let mut s = self.dir_kaik();
        s.append("/");
        match self.edition {
            Lang::En => {
                s.append(self.source.code().as_str());
                s.append("-");
                s.append(self.target.code().as_str());
            },
            _ => {
                s.append(self.edition.code().as_str());
            },
        }
        s.append("-extract.jsonl");
        s
    }

    /// The dump of an explicit language pair.
    pub fn path_jsonl(&self, source: Lang, target: Lang) -> (r: String)
        ensures
            r@ == spec_dir_kaik(*self) + "/"@ + spec_lang_code(source) + "-"@ + spec_lang_code(
                target,
            ) + "-extract.jsonl"@,
    {
        let mut s = self.dir_kaik();
        s.append("/");
        s.append(source.code().as_str());
        s.append("-");
        s.append(target.code().as_str());
        s.append("-extract.jsonl");
        s
    }

    /// The persisted lemma table of this run.
    pub fn path_lemmas(&self) -> (r: String)
        ensures
            r@ == spec_dir_temp(*self) + "/tidy/"@ + spec_lang_code(self.source) + "-"@
                + spec_lang_code(self.target) + "-lemmas.json"@,
    {
        let mut s = self.dir_temp();
        s.append("/tidy/");
        s.append(self.source.code().as_str());
        s.append("-");
        s.append(self.target.code().as_str());
        s.append("-lemmas.json");
        s
    }

    /// The persisted form table of this run.
    pub fn path_forms(&self) -> (r: String)
        ensures
            r@ == spec_dir_temp(*self) + "/tidy/"@ + spec_lang_code(self.source) + "-"@
                + spec_lang_code(self.target) + "-forms.json"@,
    {
        let mut s = self.dir_temp();
        s.append("/tidy/");
        s.append(self.source.code().as_str());
        s.append("-");
        s.append(self.target.code().as_str());
        s.append("-forms.json");
        s
    }

    /// The directory that holds loose bank files while debugging.
    pub fn dir_temp_dict(&self) -> (r: String)
        ensures
            r@ == spec_dir_temp(*self) + "/dict"@,
    {
        let mut s = self.dir_temp();
        s.append("/dict");
        s
    }

    /// The package name of this run, with the variant's suffix.
    pub fn dict_name_expanded(&self) -> (r: String)
        ensures
            r@ == spec_dict_name_expanded(*self),
    {
        let mut s = self.dict_name.clone();
        s.append("-");
        s.append(self.source.code().as_str());
        s.append("-");
        s.append(self.target.code().as_str());
        match self.dict_ty {
            DictionaryType::Main => {},
            DictionaryType::Glossary => {
                s.append("-gloss");
            },
            DictionaryType::Ipa => {
                s.append("-ipa");
            },
        }
        s
    }

    /// Where the archive of this run is written.
    pub fn path_dict(&self) -> (r: String)
        ensures
            r@ == spec_dir_dict(*self) + "/"@ + spec_dict_name_expanded(*self) + ".zip"@,
    {
        let mut s = self.dir_dict();
        s.append("/");
        s.append(self.dict_name_expanded().as_str());
        s.append(".zip");
        s
    }

    /// Where diagnostics are written.
    pub fn dir_diagnostics(&self) -> (r: String)
        ensures
            r@ == spec_dir_temp(*self) + "/diagnostics"@,
    {
        let mut s = self.dir_temp();
        s.append("/diagnostics");
        s
    }
}

} // verus!
