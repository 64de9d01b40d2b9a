//! Transform pipeline for line-delimited lexical dictionary dumps: record
//! filtering, tag normalization, per-variant transforms, and batched bank
//! output planning.

#![allow(unused_imports)]

pub mod banks;
pub mod cli;
pub mod dict;
pub mod lang;
pub mod locale;
pub mod jsonout;
pub mod models;
pub mod strutil;
pub mod tags;
pub mod yomitan;

use vstd::prelude::*;

use crate::models::WordEntry;

verus! {

use crate::cli::{ArgsOptions, FilterKey};

/// Whether `entry` matches the single constraint `(key, value)`.
pub open spec fn spec_matches(entry: WordEntry, key: FilterKey, value: Seq<char>) -> bool {
    FilterKey::spec_field_value(key, entry) == value
}

/// A record is rejected when it matches any reject constraint (OR), or when it
/// fails any filter constraint (AND over the filter list).
pub open spec fn spec_rejected(entry: WordEntry, options: ArgsOptions) -> bool {
    (exists|i: int|
        0 <= i < options.reject@.len() && spec_matches(
            entry,
            options.reject@[i].0,
            options.reject@[i].1@,
        )) || !(forall|i: int|
        0 <= i < options.filter@.len() ==> spec_matches(
            entry,
            options.filter@[i].0,
            options.filter@[i].1@,
        ))
}

/// Decide whether a decoded record is dropped by the configured include and
/// exclude constraints. Reject constraints take precedence over filters.
pub fn rejected(entry: &WordEntry, options: &ArgsOptions) -> (r: bool)
    ensures
        r == spec_rejected(*entry, *options),
{
    let mut i: usize = 0;
    while i < options.reject.len()
        invariant
            0 <= i <= options.reject@.len(),
            forall|j: int|
                0 <= j < i ==> !spec_matches(*entry, options.reject@[j].0, options.reject@[j].1@),
        decreases options.reject@.len() - i,
    {
        let (k, v) = &options.reject[i];
        if crate::strutil::str_eq(k.field_value(entry), v.as_str()) {
            return true;
        }
        i = i + 1;
    }
    let mut i: usize = 0;
    while i < options.filter.len()
        invariant
            0 <= i <= options.filter@.len(),
            forall|j: int|
                0 <= j < options.reject@.len() ==> !spec_matches(
                    *entry,
                    options.reject@[j].0,
                    options.reject@[j].1@,
                ),
            forall|j: int|
                0 <= j < i ==> spec_matches(*entry, options.filter@[j].0, options.filter@[j].1@),
        decreases options.filter@.len() - i,
    {
        let (k, v) = &options.filter[i];
        if !crate::strutil::str_eq(k.field_value(entry), v.as_str()) {
            return true;
        }
        i = i + 1;
    }
    false
}

/// Every accepted record satisfies each filter constraint, and with an empty
/// filter list no record is rejected on account of the filters.
pub proof fn lemma_filter_and(entry: WordEntry, options: ArgsOptions, i: int)
    requires
        !spec_rejected(entry, options),
        0 <= i < options.filter@.len(),
    ensures
        spec_matches(entry, options.filter@[i].0, options.filter@[i].1@),
{
}

/// With no filter constraints, only a reject constraint can drop a record.
pub proof fn lemma_empty_filter_accepts(entry: WordEntry, options: ArgsOptions)
    requires
        options.filter@.len() == 0,
        forall|i: int|
            0 <= i < options.reject@.len() ==> !spec_matches(
                entry,
                options.reject@[i].0,
                options.reject@[i].1@,
            ),
    ensures
        !spec_rejected(entry, options),
{
}

/// A record matching a reject constraint is dropped, whatever the filters say.
pub proof fn lemma_reject_precedence(entry: WordEntry, options: ArgsOptions, i: int)
    requires
        0 <= i < options.reject@.len(),
        spec_matches(entry, options.reject@[i].0, options.reject@[i].1@),
    ensures
        spec_rejected(entry, options),
{
}

} // verus!

verus! {

use crate::lang::{EditionLang, Lang};
use crate::yomitan::YomitanEntry;

/// The accumulator a run folds accepted records into. The simplest form is a
/// plain list of exported entries; a variant may keep a richer structure for
/// cross-record merging.
pub trait Intermediate: Sized {
    /// The number of items accumulated so far.
    spec fn spec_len(&self) -> nat;

    /// A fresh, empty accumulator.
    fn empty() -> (r: Self)
        ensures
            r.spec_len() == 0,
    ;

    /// How many items have been accumulated.
    fn len(&self) -> (r: usize)
        ensures
            r == self.spec_len(),
    ;

    /// Whether nothing has been accumulated.
    fn is_empty(&self) -> (r: bool)
        ensures
            r == (self.spec_len() == 0),
    ;
}

impl<T> Intermediate for Vec<T> {
    open spec fn spec_len(&self) -> nat {
        self@.len()
    }

    fn empty() -> (r: Self)
        ensures
            r.spec_len() == 0,
    {
        Vec::new()
    }

    fn len(&self) -> (r: usize)
        ensures
            r == self.spec_len(),
    {
        Vec::len(self)
    }

    fn is_empty(&self) -> (r: bool)
        ensures
            r == (self.spec_len() == 0),
    {
        Vec::len(self) == 0
    }
}

/// One dictionary variant: the hooks the pipeline drives for every accepted
/// record and once at the end of a run. Each hook carries a spec predicate
/// the variant defines, so the pipeline's own contract can say that the
/// hooks, and nothing else, put data into the accumulator.
pub trait Dictionary: Sized {
    /// The intermediate representation this variant accumulates.
    type I: Intermediate;

    /// What `preprocess` does: how the working copy of the record and the
    /// accumulator after the call relate to the ones before it.
    spec fn preprocess_spec(
        &self,
        edition: EditionLang,
        source: Lang,
        target: Lang,
        entry_before: WordEntry,
        entry_after: WordEntry,
        ir_before: Self::I,
        ir_after: Self::I,
    ) -> bool;

    /// What `process` does: how the accumulator after folding one record in
    /// relates to the one before.
    spec fn process_spec(
        &self,
        edition: EditionLang,
        source: Lang,
        target: Lang,
        entry: WordEntry,
        ir_before: Self::I,
        ir_after: Self::I,
    ) -> bool;

    /// What `postprocess` does to the whole accumulator.
    spec fn postprocess_spec(&self, ir_before: Self::I, ir_after: Self::I) -> bool;

    /// What `to_yomitan` exports for a given accumulator.
    spec fn to_yomitan_spec(
        &self,
        edition: EditionLang,
        source: Lang,
        target: Lang,
        options: ArgsOptions,
        irs: Self::I,
        r: Vec<(String, Vec<YomitanEntry>)>,
    ) -> bool;

    /// Adjust a working copy of the record before it is processed.
    fn preprocess(
        &self,
        edition: EditionLang,
        source: Lang,
        target: Lang,
        word_entry: &mut WordEntry,
        options: &ArgsOptions,
        irs: &mut Self::I,
    )
        ensures
            self.preprocess_spec(
                edition,
                source,
                target,
                *old(word_entry),
                *final(word_entry),
                *old(irs),
                *final(irs),
            ),
    ;

    /// Fold one accepted record into the accumulator.
    fn process(
        &self,
        edition: EditionLang,
        source: Lang,
        target: Lang,
        word_entry: &WordEntry,
        irs: &mut Self::I,
    )
        ensures
            self.process_spec(edition, source, target, *word_entry, *old(irs), *final(irs)),
    ;

    /// Rework the whole accumulator once every source is consumed.
    fn postprocess(&self, irs: &mut Self::I)
        ensures
            self.postprocess_spec(*old(irs), *final(irs)),
    ;

    /// Whether the accumulator should be persisted when intermediate files
    /// are kept.
    fn write_ir(&self) -> bool;

    /// Turn the accumulator into labelled entry groups for the writer.
    fn to_yomitan(
        &self,
        edition: EditionLang,
        source: Lang,
        target: Lang,
        options: &ArgsOptions,
        irs: Self::I,
    ) -> (r: Vec<(String, Vec<YomitanEntry>)>)
        ensures
            crate::banks::spec_total_entries(r@) <= usize::MAX,
            self.to_yomitan_spec(edition, source, target, *options, irs, r),
    ;
}

/// What the stream hands the pipeline for one input line: a decoded record,
/// or the fact that the line did not decode.
pub enum SourceEvent {
    Decoded(WordEntry),
    Malformed,
}

/// What the pipeline asks of the stream after one line.
#[derive(Debug, Clone, Copy, PartialEq, Eq, Structural)]
pub enum StepOutcome {
    Continue,
    SourceDone,
    Abort,
}

/// One run's streaming state: the variant, its accumulator, the count of
/// accepted records and whether the run has failed. A failed run never
/// produces output.
pub struct Pipeline<D: Dictionary> {
    pub dict: D,
    pub entries: D::I,
    pub accepted: usize,
    pub failed: bool,
}

impl<D: Dictionary> Pipeline<D> {
    /// Start a run with a fresh accumulator.
    pub fn new(dict: D) -> (r: Self)
        ensures
            r.accepted == 0,
            !r.failed,
            r.entries.spec_len() == 0,
    {
        Pipeline { dict, entries: Intermediate::empty(), accepted: 0, failed: false }
    }

    /// Fold one line of a source into the run: a malformed line fails the
    /// whole run at once; a rejected record is dropped and not counted; an
    /// accepted record is handed to the hooks and counted, and when it
    /// reaches the configured cap the source is cut off with the record
    /// already included.
    pub fn feed(
        &mut self,
        edition: EditionLang,
        source: Lang,
        target: Lang,
        ev: SourceEvent,
        options: &ArgsOptions,
    ) -> (r: StepOutcome)
        requires
            !old(self).failed,
            old(self).accepted < usize::MAX,
        ensures
            final(self).dict == old(self).dict,
            final(self).failed == (ev is Malformed),
            ev is Malformed ==> r == StepOutcome::Abort && final(self).entries == old(
                self,
            ).entries,
            (match ev {
                SourceEvent::Decoded(e) => {
                    &&& spec_rejected(e, *options) ==> {
                        &&& r == StepOutcome::Continue
                        &&& final(self).accepted == old(self).accepted
                        &&& final(self).entries == old(self).entries
                    }
                    &&& !spec_rejected(e, *options) ==> {
                        &&& final(self).accepted == old(self).accepted + 1
                        &&& (r == StepOutcome::SourceDone <==> (options.first >= 0 && old(
                            self,
                        ).accepted + 1 == options.first))
                        &&& exists|e2: WordEntry, mid: <D as Dictionary>::I|
                            {
                                &&& #[trigger] old(self).dict.preprocess_spec(
                                    edition,
                                    source,
                                    target,
                                    e,
                                    e2,
                                    old(self).entries,
                                    mid,
                                )
                                &&& old(self).dict.process_spec(
                                    edition,
                                    source,
                                    target,
                                    e2,
                                    mid,
                                    final(self).entries,
                                )
                            }
                    }
                },
                SourceEvent::Malformed => true,
            }),
    {
        match ev {
            SourceEvent::Malformed => {
                self.failed = true;
                StepOutcome::Abort
            },
            SourceEvent::Decoded(e) => {
                if rejected(&e, options) {
                    return StepOutcome::Continue;
                }
                let ghost e0 = e;
                let mut e = e;
                self.accepted = self.accepted + 1;
                self.dict.preprocess(edition, source, target, &mut e, options, &mut self.entries);
                let ghost e2 = e;
                let ghost mid = self.entries;
                self.dict.process(edition, source, target, &e, &mut self.entries);
                proof {
                    assert(old(self).dict.preprocess_spec(
                        edition,
                        source,
                        target,
                        e0,
                        e2,
                        old(self).entries,
                        mid,
                    ));
                    assert(old(self).dict.process_spec(
                        edition,
                        source,
                        target,
                        e2,
                        mid,
                        self.entries,
                    ));
                }
                if options.first >= 0 && self.accepted == (options.first as usize) {
                    StepOutcome::SourceDone
                } else {
                    StepOutcome::Continue
                }
            },
        }
    }

    /// Close the streaming half of the run: a failed run and a run that
    /// accepted nothing yield nothing at all; otherwise the postprocessed
    /// accumulator comes back with its variant, ready for export.
    pub fn close(self) -> (r: Option<(D, D::I)>)
        ensures
            self.failed ==> r is None,
            !self.failed && self.entries.spec_len() == 0 ==> r is None,
            !self.failed && self.entries.spec_len() > 0 ==> (r matches Some(p) && p.0 == self.dict
                && self.dict.postprocess_spec(self.entries, p.1)),
    {
        if self.failed {
            return None;
        }
        let Pipeline { dict, mut entries, accepted: _, failed: _ } = self;
        if entries.is_empty() {
            return None;
        }
        dict.postprocess(&mut entries);
        Some((dict, entries))
    }

    /// Close the run and export it: a failed run and a run that accepted
    /// nothing yield no labelled groups at all.
    pub fn finish(self, edition: EditionLang, source: Lang, target: Lang, options: &ArgsOptions)
        -> (r: Option<Vec<(String, Vec<YomitanEntry>)>>)
        ensures
            self.failed ==> r is None,
            !self.failed && self.entries.spec_len() == 0 ==> r is None,
            r matches Some(groups) ==> crate::banks::spec_total_entries(groups@) <= usize::MAX,
            !self.failed && self.entries.spec_len() > 0 ==> (r matches Some(groups)
                && exists|ir: <D as Dictionary>::I|
                {
                    &&& #[trigger] self.dict.postprocess_spec(self.entries, ir)
                    &&& self.dict.to_yomitan_spec(edition, source, target, *options, ir, groups)
                }),
    {
        let ghost me = self;
        match self.close() {
            None => None,
            Some((dict, entries)) => {
                let ghost ir = entries;
                let groups = dict.to_yomitan(edition, source, target, options, entries);
                proof {
                    assert(me.dict.postprocess_spec(me.entries, ir));
                    assert(me.dict.to_yomitan_spec(edition, source, target, *options, ir, groups));
                }
                Some(groups)
            },
        }
    }
}

} // verus!
