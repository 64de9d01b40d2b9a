//! The dictionary variants: the closed set of strategies that turn decoded
//! records into exportable entries. Each variant owns the fixed tables it
//! normalizes tags with.

pub mod locale;

use vstd::prelude::*;

use crate::cli::ArgsOptions;
use crate::lang::{EditionLang, Lang};
use crate::locale::spec_examples_string;
use crate::models::{Form, Sense, WordEntry};
use crate::strutil::{clone_strings, contains_str, lemma_filter_take_step, spec_contains_word};
use crate::tags::{blacklisted_tags, keep_fn, merge_person_tags, remove_redundant_tags, sort_tags,
    spec_merge_person_tags, spec_sort_tags, tag_order};
use crate::yomitan::{TermEntry, TermMetaEntry, YomitanEntry};
use crate::{Dictionary, Intermediate};

verus! {

broadcast use vstd::string::group_string_axioms;

/// The definition tags of a sense: its tags with redundant ones removed, in
/// canonical order.
pub open spec fn spec_def_tags(order: Seq<Seq<char>>, tags: Seq<Seq<char>>) -> Seq<Seq<char>> {
    spec_sort_tags(order, tags.filter(keep_fn(tags)))
}

/// The glosses of a sense entry: the sense's own glosses, and a localized
/// example-count line when the sense carries examples.
pub open spec fn spec_sense_glosses(s: Sense, target: Lang) -> Seq<Seq<char>> {
    s.glosses.deep_view() + if s.examples@.len() > 0 {
        seq![spec_examples_string(target, s.examples@.len() as nat)]
    } else {
        Seq::<Seq<char>>::empty()
    }
}

/// The headword entry one sense exports.
pub open spec fn spec_is_sense_entry(
    order: Seq<Seq<char>>,
    target: Lang,
    e: WordEntry,
    s: Sense,
    y: YomitanEntry,
) -> bool {
    match y {
        YomitanEntry::TermBank(t) => {
            &&& t.term@ == e.word@
            &&& t.reading@.len() == 0
            &&& t.rules@.len() == 0
            &&& t.score == 0
            &&& t.sequence == 0
            &&& t.term_tags@.len() == 0
            &&& t.definition_tags.deep_view() == spec_def_tags(order, s.tags.deep_view())
            &&& t.glosses.deep_view() == spec_sense_glosses(s, target)
        },
        YomitanEntry::TermBankMeta(_) => false,
    }
}

/// One headword entry per sense of the record, in sense order.
pub fn sense_entries(word_entry: &WordEntry, target: Lang, order: &Vec<String>) -> (r: Vec<
    YomitanEntry,
>)
    ensures
        r@.len() == word_entry.senses@.len(),
        forall|i: int|
            0 <= i < r@.len() ==> spec_is_sense_entry(
                order.deep_view(),
                target,
                *word_entry,
                word_entry.senses@[i],
                #[trigger] r@[i],
            ),
{
    let mut r: Vec<YomitanEntry> = Vec::new();
    let mut i: usize = 0;
    while i < word_entry.senses.len()
        invariant
            0 <= i <= word_entry.senses@.len(),
            r@.len() == i,
            forall|j: int|
                0 <= j < i ==> spec_is_sense_entry(
                    order.deep_view(),
                    target,
                    *word_entry,
                    word_entry.senses@[j],
                    #[trigger] r@[j],
                ),
        decreases word_entry.senses@.len() - i,
    {
        let s = &word_entry.senses[i];
        let mut tags = clone_strings(&s.tags);
        remove_redundant_tags(&mut tags);
        sort_tags(&mut tags, order);
        let mut glosses = clone_strings(&s.glosses);
        if s.examples.len() > 0 {
            glosses.push(crate::locale::get_locale_examples_string(&target, s.examples.len()));
        }
        proof {
            assert(glosses.deep_view() =~= spec_sense_glosses(
                word_entry.senses@[i as int],
                target,
            ));
        }
        r.push(
            YomitanEntry::TermBank(
                TermEntry {
                    term: word_entry.word.clone(),
                    reading: String::new(),
                    definition_tags: tags,
                    rules: String::new(),
                    score: 0,
                    glosses,
                    sequence: 0,
                    term_tags: Vec::new(),
                },
            ),
        );
        i = i + 1;
    }
    r
}

/// The tags a form keeps, packaged for `Seq::filter`: everything not on the
/// blacklist.
pub open spec fn blacklist_keep_fn(bl: Seq<Seq<char>>) -> spec_fn(Seq<char>) -> bool {
    |t: Seq<char>| !spec_contains_word(bl, t)
}

/// The definition tags of a form: its tags with blacklisted ones dropped and
/// grammatical persons merged.
pub open spec fn spec_form_tags(
    order: Seq<Seq<char>>,
    bl: Seq<Seq<char>>,
    tags: Seq<Seq<char>>,
) -> Seq<Seq<char>> {
    spec_merge_person_tags(order, tags.filter(blacklist_keep_fn(bl)))
}

/// The entry one inflected form exports: the form as its own headword,
/// glossed with the lemma it belongs to.
pub open spec fn spec_is_form_entry(
    order: Seq<Seq<char>>,
    bl: Seq<Seq<char>>,
    e: WordEntry,
    f: Form,
    y: YomitanEntry,
) -> bool {
    match y {
        YomitanEntry::TermBank(t) => {
            &&& t.term@ == f.form@
            &&& t.reading@.len() == 0
            &&& t.rules@.len() == 0
            &&& t.score == 0
            &&& t.sequence == 0
            &&& t.term_tags@.len() == 0
            &&& t.definition_tags.deep_view() == spec_form_tags(order, bl, f.tags.deep_view())
            &&& t.glosses.deep_view() == seq![e.word@]
        },
        YomitanEntry::TermBankMeta(_) => false,
    }
}

/// One entry per inflected form of the record, in form order.
pub fn form_entries(word_entry: &WordEntry, order: &Vec<String>, blacklist: &Vec<String>) -> (r:
    Vec<YomitanEntry>)
    ensures
        r@.len() == word_entry.forms@.len(),
        forall|i: int|
            0 <= i < r@.len() ==> spec_is_form_entry(
                order.deep_view(),
                blacklist.deep_view(),
                *word_entry,
                word_entry.forms@[i],
                #[trigger] r@[i],
            ),
{
    let ghost bl = blacklist.deep_view();
    let mut r: Vec<YomitanEntry> = Vec::new();
    let mut i: usize = 0;
    while i < word_entry.forms.len()
        invariant
            bl == blacklist.deep_view(),
            0 <= i <= word_entry.forms@.len(),
            r@.len() == i,
            forall|j: int|
                0 <= j < i ==> spec_is_form_entry(
                    order.deep_view(),
                    bl,
                    *word_entry,
                    word_entry.forms@[j],
                    #[trigger] r@[j],
                ),
        decreases word_entry.forms@.len() - i,
    {
        let f = &word_entry.forms[i];
        let ghost ft = f.tags.deep_view();
        let mut kept: Vec<String> = Vec::new();
        let mut k: usize = 0;
        proof {
            assert(ft.take(0).filter(blacklist_keep_fn(bl)) =~= Seq::<Seq<char>>::empty());
        }
        while k < f.tags.len()
            invariant
                bl == blacklist.deep_view(),
                ft == f.tags.deep_view(),
                ft.len() == f.tags@.len(),
                0 <= k <= f.tags@.len(),
                kept.deep_view() == ft.take(k as int).filter(blacklist_keep_fn(bl)),
            decreases f.tags@.len() - k,
        {
            proof {
                assert(ft[k as int] == f.tags@[k as int]@);
            }
            if !contains_str(blacklist, f.tags[k].as_str()) {
                kept.push(f.tags[k].clone());
            }
            k = k + 1;
            proof {
                lemma_filter_take_step(ft, blacklist_keep_fn(bl), k - 1);
                assert(blacklist_keep_fn(bl)(ft[k - 1]) == !spec_contains_word(bl, ft[k - 1]));
            }
        }
        proof {
            assert(ft.take(ft.len() as int) =~= ft);
        }
        let merged = merge_person_tags(&kept, order);
        let mut glosses: Vec<String> = Vec::new();
        glosses.push(word_entry.word.clone());
        proof {
            assert(glosses.deep_view() =~= seq![word_entry.word@]);
        }
        r.push(
            YomitanEntry::TermBank(
                TermEntry {
                    term: f.form.clone(),
                    reading: String::new(),
                    definition_tags: merged,
                    rules: String::new(),
                    score: 0,
                    glosses,
                    sequence: 0,
                    term_tags: Vec::new(),
                },
            ),
        );
        i = i + 1;
    }
    r
}

/// The sounds a record exports, packaged for `Seq::filter`: those that carry
/// a transcription.
pub open spec fn ipa_keep_fn() -> spec_fn(crate::models::Sound) -> bool {
    |s: crate::models::Sound| s.ipa@.len() > 0
}

/// One metadata entry per transcribed sound of the record, in sound order.
pub fn ipa_entries(word_entry: &WordEntry) -> (r: Vec<YomitanEntry>)
    ensures
        ({
            let kept = word_entry.sounds@.filter(ipa_keep_fn());
            &&& r@.len() == kept.len()
            &&& forall|i: int|
                0 <= i < kept.len() ==> match #[trigger] r@[i] {
                    YomitanEntry::TermBankMeta(m) => m.term@ == word_entry.word@ && m.mode@
                        == "ipa"@ && m.data@ == kept[i].ipa@,
                    YomitanEntry::TermBank(_) => false,
                }
        }),
{
    let ghost sounds = word_entry.sounds@;
    let mut r: Vec<YomitanEntry> = Vec::new();
    let mut i: usize = 0;
    proof {
        reveal(Seq::filter);
        assert(sounds.take(0).filter(ipa_keep_fn()) =~= Seq::<crate::models::Sound>::empty());
    }
    while i < word_entry.sounds.len()
        invariant
            sounds == word_entry.sounds@,
            0 <= i <= sounds.len(),
            ({
                let kept = sounds.take(i as int).filter(ipa_keep_fn());
                &&& r@.len() == kept.len()
                &&& forall|j: int|
                    0 <= j < kept.len() ==> match #[trigger] r@[j] {
                        YomitanEntry::TermBankMeta(m) => m.term@ == word_entry.word@ && m.mode@
                            == "ipa"@ && m.data@ == kept[j].ipa@,
                        YomitanEntry::TermBank(_) => false,
                    }
            }),
        decreases sounds.len() - i,
    {
        let s = &word_entry.sounds[i];
        if s.ipa.as_str().unicode_len() > 0 {
            r.push(
                YomitanEntry::TermBankMeta(
                    TermMetaEntry {
                        term: word_entry.word.clone(),
                        mode: String::from_str("ipa"),
                        data: s.ipa.clone(),
                    },
                ),
            );
        }
        i = i + 1;
        proof {
            lemma_filter_take_step(sounds, ipa_keep_fn(), i - 1);
            assert(ipa_keep_fn()(sounds[i - 1]) == (sounds[i - 1].ipa@.len() > 0));
        }
    }
    proof {
        assert(sounds.take(sounds.len() as int) =~= sounds);
    }
    r
}

/// The main dictionary: headword entries per sense, plus one entry per
/// inflected form with its tags normalized.
pub struct DMain {
    pub order: Vec<String>,
    pub blacklist: Vec<String>,
}

impl DMain {
    /// A main dictionary with the standard tables.
    pub fn new() -> DMain {
        DMain { order: tag_order(), blacklist: blacklisted_tags() }
    }
}

impl Dictionary for DMain {
    type I = Vec<YomitanEntry>;

    /// The working copy and the accumulator pass through unchanged.
    open spec fn preprocess_spec(
        &self,
        edition: EditionLang,
        source: Lang,
        target: Lang,
        entry_before: WordEntry,
        entry_after: WordEntry,
        ir_before: Vec<YomitanEntry>,
        ir_after: Vec<YomitanEntry>,
    ) -> bool {
        entry_after == entry_before && ir_after == ir_before
    }

    /// One headword entry per sense, then one entry per inflected form, all
    /// appended behind what was accumulated before.
    open spec fn process_spec(
        &self,
        edition: EditionLang,
        source: Lang,
        target: Lang,
        entry: WordEntry,
        ir_before: Vec<YomitanEntry>,
        ir_after: Vec<YomitanEntry>,
    ) -> bool {
        let n = ir_before@.len() as int;
        let ns = entry.senses@.len() as int;
        let nf = entry.forms@.len() as int;
        &&& ir_after@.len() == n + ns + nf
        &&& ir_after@.subrange(0, n) == ir_before@
        &&& forall|i: int|
            0 <= i < ns ==> spec_is_sense_entry(
                self.order.deep_view(),
                target,
                entry,
                entry.senses@[i],
                #[trigger] ir_after@[n + i],
            )
        &&& forall|i: int|
            0 <= i < nf ==> spec_is_form_entry(
                self.order.deep_view(),
                self.blacklist.deep_view(),
                entry,
                entry.forms@[i],
                #[trigger] ir_after@[n + ns + i],
            )
    }

    /// The accumulator passes through unchanged.
    open spec fn postprocess_spec(
        &self,
        ir_before: Vec<YomitanEntry>,
        ir_after: Vec<YomitanEntry>,
    ) -> bool {
        ir_after == ir_before
    }

    /// The whole accumulator as one labelled group.
    open spec fn to_yomitan_spec(
        &self,
        edition: EditionLang,
        source: Lang,
        target: Lang,
        options: ArgsOptions,
        irs: Vec<YomitanEntry>,
        r: Vec<(String, Vec<YomitanEntry>)>,
    ) -> bool {
        r@.len() == 1 && r@[0].0@ == "term"@ && r@[0].1 == irs
    }

    fn preprocess(
        &self,
        edition: EditionLang,
        source: Lang,
        target: Lang,
        word_entry: &mut WordEntry,
        options: &ArgsOptions,
        irs: &mut Vec<YomitanEntry>,
    ) {
    }

    fn process(
        &self,
        edition: EditionLang,
        source: Lang,
        target: Lang,
        word_entry: &WordEntry,
        irs: &mut Vec<YomitanEntry>,
    ) {
        let ghost before = irs@;
        let mut es = sense_entries(word_entry, target, &self.order);
        let ghost esv = es@;
        irs.append(&mut es);
        let mut fs = form_entries(word_entry, &self.order, &self.blacklist);
        let ghost fsv = fs@;
        irs.append(&mut fs);
        proof {
            let n = before.len() as int;
            let ns = word_entry.senses@.len() as int;
            assert(irs@ == before + esv + fsv);
            assert(irs@.subrange(0, n) =~= before);
            assert forall|i: int| 0 <= i < ns implies spec_is_sense_entry(
                self.order.deep_view(),
                target,
                *word_entry,
                word_entry.senses@[i],
                #[trigger] irs@[n + i],
            ) by {
                assert(irs@[n + i] == esv[i]);
            }
            assert forall|i: int| 0 <= i < word_entry.forms@.len() as int implies spec_is_form_entry(
                self.order.deep_view(),
                self.blacklist.deep_view(),
                *word_entry,
                word_entry.forms@[i],
                #[trigger] irs@[n + ns + i],
            ) by {
                assert(irs@[n + ns + i] == fsv[i]);
            }
        }
    }

    fn postprocess(&self, irs: &mut Vec<YomitanEntry>) {
    }

    fn write_ir(&self) -> bool {
        true
    }

    fn to_yomitan(
        &self,
        edition: EditionLang,
        source: Lang,
        target: Lang,
        options: &ArgsOptions,
        irs: Vec<YomitanEntry>,
    ) -> (r: Vec<(String, Vec<YomitanEntry>)>)
    {
        one_group("term", irs)
    }
}

/// The glossary: one short headword entry per sense.
pub struct DGlossary {
    pub order: Vec<String>,
}

impl DGlossary {
    /// A glossary with the standard canonical order.
    pub fn new() -> DGlossary {
        DGlossary { order: tag_order() }
    }
}

impl Dictionary for DGlossary {
    type I = Vec<YomitanEntry>;

    /// The working copy and the accumulator pass through unchanged.
    open spec fn preprocess_spec(
        &self,
        edition: EditionLang,
        source: Lang,
        target: Lang,
        entry_before: WordEntry,
        entry_after: WordEntry,
        ir_before: Vec<YomitanEntry>,
        ir_after: Vec<YomitanEntry>,
    ) -> bool {
        entry_after == entry_before && ir_after == ir_before
    }

    /// One headword entry per sense, appended behind what was accumulated
    /// before.
    open spec fn process_spec(
        &self,
        edition: EditionLang,
        source: Lang,
        target: Lang,
        entry: WordEntry,
        ir_before: Vec<YomitanEntry>,
        ir_after: Vec<YomitanEntry>,
    ) -> bool {
        let n = ir_before@.len() as int;
        &&& ir_after@.len() == n + entry.senses@.len()
        &&& ir_after@.subrange(0, n) == ir_before@
        &&& forall|i: int|
            0 <= i < entry.senses@.len() ==> spec_is_sense_entry(
                self.order.deep_view(),
                target,
                entry,
                entry.senses@[i],
                #[trigger] ir_after@[n + i],
            )
    }

    /// The accumulator passes through unchanged.
    open spec fn postprocess_spec(
        &self,
        ir_before: Vec<YomitanEntry>,
        ir_after: Vec<YomitanEntry>,
    ) -> bool {
        ir_after == ir_before
    }

    /// The whole accumulator as one labelled group.
    open spec fn to_yomitan_spec(
        &self,
        edition: EditionLang,
        source: Lang,
        target: Lang,
        options: ArgsOptions,
        irs: Vec<YomitanEntry>,
        r: Vec<(String, Vec<YomitanEntry>)>,
    ) -> bool {
        r@.len() == 1 && r@[0].0@ == "term"@ && r@[0].1 == irs
    }

    fn preprocess(
        &self,
        edition: EditionLang,
        source: Lang,
        target: Lang,
        word_entry: &mut WordEntry,
        options: &ArgsOptions,
        irs: &mut Vec<YomitanEntry>,
    ) {
    }

    fn process(
        &self,
        edition: EditionLang,
        source: Lang,
        target: Lang,
        word_entry: &WordEntry,
        irs: &mut Vec<YomitanEntry>,
    ) {
        let ghost before = irs@;
        let mut es = sense_entries(word_entry, target, &self.order);
        let ghost esv = es@;
        irs.append(&mut es);
        proof {
            let n = before.len() as int;
            assert(irs@.subrange(0, n) =~= before);
            assert forall|i: int| 0 <= i < word_entry.senses@.len() implies spec_is_sense_entry(
                self.order.deep_view(),
                target,
                *word_entry,
                word_entry.senses@[i],
                #[trigger] irs@[n + i],
            ) by {
                assert(irs@[n + i] == esv[i]);
            }
        }
    }

    fn postprocess(&self, irs: &mut Vec<YomitanEntry>) {
    }

    fn write_ir(&self) -> bool {
        false
    }

    fn to_yomitan(
        &self,
        edition: EditionLang,
        source: Lang,
        target: Lang,
        options: &ArgsOptions,
        irs: Vec<YomitanEntry>,
    ) -> (r: Vec<(String, Vec<YomitanEntry>)>)
    {
        one_group("term", irs)
    }
}

/// The phonetic dictionary: one metadata entry per transcription.
pub struct DIpa;

impl Dictionary for DIpa {
    type I = Vec<YomitanEntry>;

    /// The working copy and the accumulator pass through unchanged.
    open spec fn preprocess_spec(
        &self,
        edition: EditionLang,
        source: Lang,
        target: Lang,
        entry_before: WordEntry,
        entry_after: WordEntry,
        ir_before: Vec<YomitanEntry>,
        ir_after: Vec<YomitanEntry>,
    ) -> bool {
        entry_after == entry_before && ir_after == ir_before
    }

    /// One metadata entry per transcribed sound, appended behind what was
    /// accumulated before.
    open spec fn process_spec(
        &self,
        edition: EditionLang,
        source: Lang,
        target: Lang,
        entry: WordEntry,
        ir_before: Vec<YomitanEntry>,
        ir_after: Vec<YomitanEntry>,
    ) -> bool {
        let n = ir_before@.len() as int;
        let kept = entry.sounds@.filter(ipa_keep_fn());
        &&& ir_after@.len() == n + kept.len()
        &&& ir_after@.subrange(0, n) == ir_before@
        &&& forall|i: int|
            0 <= i < kept.len() ==> match #[trigger] ir_after@[n + i] {
                YomitanEntry::TermBankMeta(m) => m.term@ == entry.word@ && m.mode@ == "ipa"@
                    && m.data@ == kept[i].ipa@,
                YomitanEntry::TermBank(_) => false,
            }
    }

    /// The accumulator passes through unchanged.
    open spec fn postprocess_spec(
        &self,
        ir_before: Vec<YomitanEntry>,
        ir_after: Vec<YomitanEntry>,
    ) -> bool {
        ir_after == ir_before
    }

    /// The whole accumulator as one labelled group.
    open spec fn to_yomitan_spec(
        &self,
        edition: EditionLang,
        source: Lang,
        target: Lang,
        options: ArgsOptions,
        irs: Vec<YomitanEntry>,
        r: Vec<(String, Vec<YomitanEntry>)>,
    ) -> bool {
        r@.len() == 1 && r@[0].0@ == "term_meta"@ && r@[0].1 == irs
    }

    fn preprocess(
        &self,
        edition: EditionLang,
        source: Lang,
        target: Lang,
        word_entry: &mut WordEntry,
        options: &ArgsOptions,
        irs: &mut Vec<YomitanEntry>,
    ) {
    }

    fn process(
        &self,
        edition: EditionLang,
        source: Lang,
        target: Lang,
        word_entry: &WordEntry,
        irs: &mut Vec<YomitanEntry>,
    ) {
        let ghost before = irs@;
        let mut es = ipa_entries(word_entry);
        let ghost esv = es@;
        irs.append(&mut es);
        proof {
            let n = before.len() as int;
            let kept = word_entry.sounds@.filter(ipa_keep_fn());
            assert(irs@.subrange(0, n) =~= before);
            assert forall|i: int| 0 <= i < kept.len() implies match #[trigger] irs@[n + i] {
                YomitanEntry::TermBankMeta(m) => m.term@ == word_entry.word@ && m.mode@ == "ipa"@
                    && m.data@ == kept[i].ipa@,
                YomitanEntry::TermBank(_) => false,
            } by {
                assert(irs@[n + i] == esv[i]);
            }
        }
    }

    fn postprocess(&self, irs: &mut Vec<YomitanEntry>) {
    }

    fn write_ir(&self) -> bool {
        false
    }

    fn to_yomitan(
        &self,
        edition: EditionLang,
        source: Lang,
        target: Lang,
        options: &ArgsOptions,
        irs: Vec<YomitanEntry>,
    ) -> (r: Vec<(String, Vec<YomitanEntry>)>)
    {
        one_group("term_meta", irs)
    }
}

/// Wrap one entry list as a single labelled group.
fn one_group(label: &str, irs: Vec<YomitanEntry>) -> (r: Vec<(String, Vec<YomitanEntry>)>)
    ensures
        crate::banks::spec_total_entries(r@) <= usize::MAX,
        r@.len() == 1,
        r@[0].0@ == label@,
        r@[0].1 == irs,
{
    let ghost n = irs@.len();
    let irs_len = irs.len();
    proof {
        assert(irs_len == n);
        assert(n <= usize::MAX);
    }
    let mut r: Vec<(String, Vec<YomitanEntry>)> = Vec::new();
    r.push((label.to_owned(), irs));
    proof {
        assert(r@.skip(1).len() == 0);
        assert(crate::banks::spec_total_entries(r@.skip(1)) == 0);
        assert(crate::banks::spec_total_entries(r@) == n);
    }
    r
}

} // verus!
