//! The output bank writer: exported entries are cut into size-bounded,
//! kind-homogeneous chunks, each rendered as one JSON array file under a
//! globally increasing index; the package sidecar files are produced once per
//! run. This module only decides what bytes go into which logical file.

use vstd::prelude::*;

use crate::cli::{spec_dict_name_expanded, ArgsOptions, PathManager};
use crate::jsonout::{i64_string, json_string, spec_dec_int, spec_dec_nat, spec_json_string,
    usize_string};
use crate::lang::{spec_lang_code, Lang};
use crate::strutil::{join_strs, spec_join};
use crate::tags::TagInformation;
use crate::yomitan::{entry_json, kind_prefix, spec_entry_json, spec_kind_prefix, YomitanEntry};

verus! {

broadcast use vstd::string::group_string_axioms;

/// The most entries one bank file may hold.
pub const BANK_SIZE: usize = 25000;

/// One logical output file: its name inside the package and its bytes.
#[derive(Debug)]
pub struct OutputFile {
    pub name: String,
    pub contents: String,
}

/// The contiguous chunks a list of entries is cut into, in order, each of at
/// most `BANK_SIZE` entries and only the last one shorter.
pub open spec fn spec_chunks(entries: Seq<YomitanEntry>) -> Seq<Seq<YomitanEntry>>
    decreases entries.len(),
{
    if entries.len() == 0 {
        Seq::empty()
    } else if entries.len() <= BANK_SIZE {
        seq![entries]
    } else {
        seq![entries.take(BANK_SIZE as int)] + spec_chunks(entries.skip(BANK_SIZE as int))
    }
}

/// Concatenating the chunks in order reconstructs the original entry list
/// exactly: nothing is lost, duplicated or reordered by bank splitting.
pub proof fn lemma_chunks_round_trip(entries: Seq<YomitanEntry>)
    ensures
        spec_chunks(entries).flatten() == entries,
    decreases entries.len(),
{
    if entries.len() == 0 {
        assert(spec_chunks(entries).flatten() =~= entries);
    } else if entries.len() <= BANK_SIZE {
        assert(spec_chunks(entries) == seq![entries]);
        assert(seq![entries].flatten() =~= entries) by {
            assert(seq![entries].drop_first() =~= Seq::<Seq<YomitanEntry>>::empty());
            assert(Seq::<Seq<YomitanEntry>>::empty().flatten() =~= Seq::<YomitanEntry>::empty());
        }
    } else {
        let b = BANK_SIZE as int;
        lemma_chunks_round_trip(entries.skip(b));
        let c = spec_chunks(entries);
        assert(c == seq![entries.take(b)] + spec_chunks(entries.skip(b)));
        assert(c.drop_first() =~= spec_chunks(entries.skip(b)));
        assert(c.first() == entries.take(b));
        assert(c.flatten() == c.first() + c.drop_first().flatten());
        assert(entries.take(b) + entries.skip(b) =~= entries);
    }
}

/// Every chunk is nonempty and at most `BANK_SIZE` long.
pub proof fn lemma_chunks_sizes(entries: Seq<YomitanEntry>)
    ensures
        forall|i: int|
            0 <= i < spec_chunks(entries).len() ==> 1 <= (#[trigger] spec_chunks(entries)[i]).len()
                <= BANK_SIZE,
    decreases entries.len(),
{
    if entries.len() == 0 {
    } else if entries.len() <= BANK_SIZE {
    } else {
        let b = BANK_SIZE as int;
        lemma_chunks_sizes(entries.skip(b));
        let c = spec_chunks(entries);
        assert forall|i: int| 0 <= i < c.len() implies 1 <= (#[trigger] c[i]).len() <= BANK_SIZE by {
            if i > 0 {
                assert(c[i] == spec_chunks(entries.skip(b))[i - 1]);
            }
        }
    }
}

/// The rendered JSON array of one chunk, compact or indented.
pub open spec fn spec_bank_json(entries: Seq<YomitanEntry>, pretty: bool) -> Seq<char> {
    let parts = entries.map_values(|e: YomitanEntry| spec_entry_json(e));
    if pretty {
        "[\n  "@ + spec_join(parts, ",\n  "@) + "\n]"@
    } else {
        "["@ + spec_join(parts, ","@) + "]"@
    }
}

/// The file name of a chunk: the kind prefix of its first entry and the
/// global index.
pub open spec fn spec_bank_name(chunk: Seq<YomitanEntry>, index: int) -> Seq<char> {
    spec_kind_prefix(chunk[0]) + "_"@ + spec_dec_nat(index as nat) + ".json"@
}

/// The named bank files of one entry list, indices counting up from
/// `start + 1`.
pub open spec fn spec_bank_files(entries: Seq<YomitanEntry>, start: int, pretty: bool) -> Seq<
    (Seq<char>, Seq<char>),
>
    decreases entries.len(),
{
    if entries.len() == 0 {
        Seq::empty()
    } else {
        let b = if entries.len() <= BANK_SIZE {
            entries.len() as int
        } else {
            BANK_SIZE as int
        };
        seq![
            (spec_bank_name(entries.take(b), start + 1), spec_bank_json(entries.take(b), pretty)),
        ] + spec_bank_files(entries.skip(b), start + 1, pretty)
    }
}

/// There are never more bank files than entries.
pub proof fn lemma_bank_files_len(entries: Seq<YomitanEntry>, start: int, pretty: bool)
    ensures
        spec_bank_files(entries, start, pretty).len() <= entries.len(),
    decreases entries.len(),
{
    if entries.len() > 0 {
        let b = if entries.len() <= BANK_SIZE {
            entries.len() as int
        } else {
            BANK_SIZE as int
        };
        lemma_bank_files_len(entries.skip(b), start + 1, pretty);
    }
}

/// The bank files describe exactly the chunks, in order.
pub proof fn lemma_bank_files_chunks(entries: Seq<YomitanEntry>, start: int, pretty: bool)
    ensures
        spec_bank_files(entries, start, pretty).len() == spec_chunks(entries).len(),
        forall|i: int|
            0 <= i < spec_chunks(entries).len() ==> #[trigger] spec_bank_files(
                entries,
                start,
                pretty,
            )[i] == (
                spec_bank_name(spec_chunks(entries)[i], start + 1 + i),
                spec_bank_json(spec_chunks(entries)[i], pretty),
            ),
    decreases entries.len(),
{
    if entries.len() == 0 {
    } else if entries.len() <= BANK_SIZE {
        assert(entries.take(entries.len() as int) =~= entries);
        assert(entries.skip(entries.len() as int) =~= Seq::<YomitanEntry>::empty());
        assert(spec_bank_files(Seq::<YomitanEntry>::empty(), start + 1, pretty) =~= Seq::<
            (Seq<char>, Seq<char>),
        >::empty());
        assert(spec_bank_files(entries, start, pretty).len() == 1);
    } else {
        let b = BANK_SIZE as int;
        lemma_bank_files_chunks(entries.skip(b), start + 1, pretty);
        let fs = spec_bank_files(entries, start, pretty);
        let cs = spec_chunks(entries);
        assert forall|i: int| 0 <= i < cs.len() implies #[trigger] fs[i] == (
            spec_bank_name(cs[i], start + 1 + i),
            spec_bank_json(cs[i], pretty),
        ) by {
            if i > 0 {
                assert(fs[i] == spec_bank_files(entries.skip(b), start + 1, pretty)[i - 1]);
                assert(cs[i] == spec_chunks(entries.skip(b))[i - 1]);
            }
        }
    }
}

/// Render the entries between `from` and `to` as one JSON array.
fn bank_json_range(entries: &Vec<YomitanEntry>, from: usize, to: usize, pretty: bool) -> (r:
    String)
    requires
        from <= to <= entries@.len(),
    ensures
        r@ == spec_bank_json(entries@.subrange(from as int, to as int), pretty),
{
    let ghost window = entries@.subrange(from as int, to as int);
    let mut parts: Vec<String> = Vec::new();
    let mut k: usize = from;
    while k < to
        invariant
            from <= k <= to <= entries@.len(),
            window == entries@.subrange(from as int, to as int),
            parts.deep_view().len() == k - from,
            forall|j: int|
                0 <= j < k - from ==> parts.deep_view()[j] == spec_entry_json(
                    #[trigger] window[j],
                ),
        decreases to - k,
    {
        proof {
            assert(window[k - from] == entries@[k as int]);
        }
        parts.push(entry_json(&entries[k]));
        k = k + 1;
    }
    proof {
        assert(parts.deep_view() =~= window.map_values(|e: YomitanEntry| spec_entry_json(e)));
    }
    if pretty {
        let body = join_strs(&parts, ",\n  ");
        let mut out = String::from_str("[\n  ");
        out.append(body.as_str());
        out.append("\n]");
        proof {
            assert(out@ =~= spec_bank_json(window, pretty));
        }
        out
    } else {
        let body = join_strs(&parts, ",");
        let mut out = String::from_str("[");
        out.append(body.as_str());
        out.append("]");
        proof {
            assert(out@ =~= spec_bank_json(window, pretty));
        }
        out
    }
}

fn banks_from(entries: &Vec<YomitanEntry>, pos: usize, bank_index: &mut usize, pretty: bool) -> (
    files: Vec<OutputFile>)
    requires
        pos <= entries@.len(),
        *old(bank_index) + entries@.len() - pos <= usize::MAX,
    ensures
        ({
            let plan = spec_bank_files(entries@.skip(pos as int), *old(bank_index) as int, pretty);
            &&& files@.len() == plan.len()
            &&& *final(bank_index) == *old(bank_index) + files@.len()
            &&& forall|i: int|
                0 <= i < plan.len() ==> (#[trigger] files@[i]).name@ == plan[i].0
                    && files@[i].contents@ == plan[i].1
        }),
    decreases entries@.len() - pos,
{
    let ghost remaining = entries@.skip(pos as int);
    if pos == entries.len() {
        let files: Vec<OutputFile> = Vec::new();
        proof {
            assert(remaining.len() == 0);
        }
        files
    } else {
        let left = entries.len() - pos;
        let b = if left <= BANK_SIZE {
            left
        } else {
            BANK_SIZE
        };
        proof {
            lemma_bank_files_len(entries@.skip(pos + b), *old(bank_index) as int + 1, pretty);
        }
        *bank_index = *bank_index + 1;
        let idx = *bank_index;
        let mut name = kind_prefix(&entries[pos]).to_owned();
        name.append("_");
        name.append(usize_string(idx).as_str());
        name.append(".json");
        let contents = bank_json_range(entries, pos, pos + b, pretty);
        let rest = banks_from(entries, pos + b, bank_index, pretty);
        let mut files: Vec<OutputFile> = Vec::new();
        files.push(OutputFile { name, contents });
        let mut rest = rest;
        files.append(&mut rest);
        proof {
            let head = remaining.take(b as int);
            assert(head[0] == entries@[pos as int]);
            assert(head =~= entries@.subrange(pos as int, (pos + b) as int));
            assert(remaining.skip(b as int) =~= entries@.skip((pos + b) as int));
            assert(files@[0].name@ =~= spec_bank_name(head, *old(bank_index) as int + 1));
            let plan = spec_bank_files(remaining, *old(bank_index) as int, pretty);
            assert(plan.len() == 1 + spec_bank_files(
                remaining.skip(b as int),
                *old(bank_index) as int + 1,
                pretty,
            ).len());
            assert forall|i: int| 0 <= i < plan.len() implies (#[trigger] files@[i]).name@
                == plan[i].0 && files@[i].contents@ == plan[i].1 by {
                if i > 0 {
                    assert(plan[i] == spec_bank_files(
                        remaining.skip(b as int),
                        *old(bank_index) as int + 1,
                        pretty,
                    )[i - 1]);
                }
            }
        }
        files
    }
}

/// Cut one entry list into bank files, naming each after the kind of its
/// first entry and the next value of the shared global index.
pub fn write_banks(entries: &Vec<YomitanEntry>, bank_index: &mut usize, pretty: bool) -> (files:
    Vec<OutputFile>)
    requires
        *old(bank_index) + entries@.len() <= usize::MAX,
    ensures
        ({
            let plan = spec_bank_files(entries@, *old(bank_index) as int, pretty);
            &&& files@.len() == plan.len()
            &&& *final(bank_index) == *old(bank_index) + files@.len()
            &&& forall|i: int|
                0 <= i < plan.len() ==> (#[trigger] files@[i]).name@ == plan[i].0
                    && files@[i].contents@ == plan[i].1
        }),
{
    proof {
        assert(entries@.skip(0) =~= entries@);
    }
    banks_from(entries, 0, bank_index, pretty)
}


/// The fixed stylesheet shipped with every package.
pub open spec fn spec_styles_css() -> Seq<char> {
    "div.gloss-sc-div { margin-top: 0.2em; }\nspan.gloss-sc-span { color: inherit; }\nul.gloss-sc-ul { padding-left: 1.2em; }\n"@
}

/// The alternative stylesheet behind the experimental switch.
pub open spec fn spec_styles_css_experimental() -> Seq<char> {
    "div.gloss-sc-div { margin-top: 0.35em; border-left: 2px solid; padding-left: 0.4em; }\nspan.gloss-sc-span { color: inherit; }\nul.gloss-sc-ul { padding-left: 1.0em; }\n"@
}

fn styles_css() -> (r: &'static str)
    ensures
        r@ == spec_styles_css(),
{
    "div.gloss-sc-div { margin-top: 0.2em; }\nspan.gloss-sc-span { color: inherit; }\nul.gloss-sc-ul { padding-left: 1.2em; }\n"
}

fn styles_css_experimental() -> (r: &'static str)
    ensures
        r@ == spec_styles_css_experimental(),
{
    "div.gloss-sc-div { margin-top: 0.35em; border-left: 2px solid; padding-left: 0.4em; }\nspan.gloss-sc-span { color: inherit; }\nul.gloss-sc-ul { padding-left: 1.0em; }\n"
}

/// The package metadata: its title and the language pair it was built from.
pub open spec fn spec_index_json(pm: PathManager, source: Lang, target: Lang) -> Seq<char> {
    "{\"title\":"@ + spec_json_string(spec_dict_name_expanded(pm)) + ",\"format\":3,\"revision\":"@
        + spec_json_string(spec_lang_code(source) + "-"@ + spec_lang_code(target)) + "}"@
}

/// Render the package metadata file.
pub fn get_index(pm: &PathManager, source: Lang, target: Lang) -> (r: String)
    ensures
        r@ == spec_index_json(*pm, source, target),
{
    let mut revision = source.code();
    revision.append("-");
    revision.append(target.code().as_str());
    let mut s = String::from_str("{\"title\":");
    s.append(json_string(pm.dict_name_expanded().as_str()).as_str());
    s.append(",\"format\":3,\"revision\":");
    s.append(json_string(revision.as_str()).as_str());
    s.append("}");
    proof {
        assert(s@ =~= spec_index_json(*pm, source, target));
    }
    s
}

/// The JSON row of one resolved tag: a five-element array.
pub open spec fn spec_tag_info_json(ti: TagInformation) -> Seq<char> {
    "["@ + spec_json_string(ti.short_tag@) + ","@ + spec_json_string(ti.category@) + ","@
        + spec_dec_int(ti.sort_order as int) + ","@ + spec_json_string(ti.long_tag@) + ","@
        + spec_dec_int(ti.popularity_score as int) + "]"@
}

/// The serialized tag reference table: one JSON array of rows, always
/// indented.
pub open spec fn spec_tag_bank_json(infos: Seq<TagInformation>) -> Seq<char> {
    "[\n  "@ + spec_join(infos.map_values(|ti: TagInformation| spec_tag_info_json(ti)), ",\n  "@)
        + "\n]"@
}

fn tag_info_json(ti: &TagInformation) -> (r: String)
    ensures
        r@ == spec_tag_info_json(*ti),
{
    let mut s = String::from_str("[");
    s.append(json_string(ti.short_tag.as_str()).as_str());
    s.append(",");
    s.append(json_string(ti.category.as_str()).as_str());
    s.append(",");
    s.append(i64_string(ti.sort_order).as_str());
    s.append(",");
    s.append(json_string(ti.long_tag.as_str()).as_str());
    s.append(",");
    s.append(i64_string(ti.popularity_score).as_str());
    s.append("]");
    proof {
        assert(s@ =~= spec_tag_info_json(*ti));
    }
    s
}

/// Render the tag reference table file.
pub fn tag_bank_json(infos: &Vec<TagInformation>) -> (r: String)
    ensures
        r@ == spec_tag_bank_json(infos@),
{
    let mut parts: Vec<String> = Vec::new();
    let mut i: usize = 0;
    while i < infos.len()
        invariant
            0 <= i <= infos@.len(),
            parts.deep_view().len() == i,
            forall|j: int|
                0 <= j < i ==> parts.deep_view()[j] == spec_tag_info_json(#[trigger] infos@[j]),
        decreases infos@.len() - i,
    {
        parts.push(tag_info_json(&infos[i]));
        i = i + 1;
    }
    proof {
        assert(parts.deep_view() =~= infos@.map_values(
            |ti: TagInformation| spec_tag_info_json(ti),
        ));
    }
    let body = join_strs(&parts, ",\n  ");
    let mut out = String::from_str("[\n  ");
    out.append(body.as_str());
    out.append("\n]");
    proof {
        assert(out@ =~= spec_tag_bank_json(infos@));
    }
    out
}

/// How many entries a list of labelled groups holds in all.
pub open spec fn spec_total_entries(groups: Seq<(String, Vec<YomitanEntry>)>) -> int
    decreases groups.len(),
{
    if groups.len() == 0 {
        0int
    } else {
        groups[0].1@.len() + spec_total_entries(groups.skip(1))
    }
}

pub proof fn lemma_total_entries_nonneg(groups: Seq<(String, Vec<YomitanEntry>)>)
    ensures
        spec_total_entries(groups) >= 0,
        groups.len() > 0 ==> spec_total_entries(groups.skip(1)) <= spec_total_entries(groups),
    decreases groups.len(),
{
    if groups.len() > 0 {
        lemma_total_entries_nonneg(groups.skip(1));
    }
}

/// The bank files of every group in order, under one shared running index.
pub open spec fn spec_all_bank_files(
    groups: Seq<(String, Vec<YomitanEntry>)>,
    start: int,
    pretty: bool,
) -> Seq<(Seq<char>, Seq<char>)>
    decreases groups.len(),
{
    if groups.len() == 0 {
        Seq::empty()
    } else {
        let head = spec_bank_files(groups[0].1@, start, pretty);
        head + spec_all_bank_files(groups.skip(1), start + head.len(), pretty)
    }
}

fn all_banks(
    groups: &Vec<(String, Vec<YomitanEntry>)>,
    g: usize,
    bank_index: &mut usize,
    pretty: bool,
) -> (files: Vec<OutputFile>)
    requires
        g <= groups@.len(),
        *old(bank_index) + spec_total_entries(groups@.skip(g as int)) <= usize::MAX,
    ensures
        ({
            let plan = spec_all_bank_files(groups@.skip(g as int), *old(bank_index) as int, pretty);
            &&& files@.len() == plan.len()
            &&& *final(bank_index) == *old(bank_index) + files@.len()
            &&& forall|i: int|
                0 <= i < plan.len() ==> (#[trigger] files@[i]).name@ == plan[i].0
                    && files@[i].contents@ == plan[i].1
        }),
    decreases groups@.len() - g,
{
    let ghost remaining = groups@.skip(g as int);
    if g == groups.len() {
        let files: Vec<OutputFile> = Vec::new();
        proof {
            assert(remaining.len() == 0);
        }
        files
    } else {
        proof {
            lemma_total_entries_nonneg(remaining.skip(1));
            assert(remaining[0] == groups@[g as int]);
            assert(remaining.skip(1) =~= groups@.skip(g as int + 1));
        }
        let entries = &groups[g].1;
        let mut files = write_banks(entries, bank_index, pretty);
        proof {
            lemma_bank_files_len(entries@, *old(bank_index) as int, pretty);
        }
        let mut rest = all_banks(groups, g + 1, bank_index, pretty);
        files.append(&mut rest);
        proof {
            let head = spec_bank_files(remaining[0].1@, *old(bank_index) as int, pretty);
            let plan = spec_all_bank_files(remaining, *old(bank_index) as int, pretty);
            assert(plan == head + spec_all_bank_files(
                remaining.skip(1),
                *old(bank_index) as int + head.len(),
                pretty,
            ));
            assert forall|i: int| 0 <= i < plan.len() implies (#[trigger] files@[i]).name@
                == plan[i].0 && files@[i].contents@ == plan[i].1 by {
                if i >= head.len() {
                    assert(plan[i] == spec_all_bank_files(
                        remaining.skip(1),
                        *old(bank_index) as int + head.len(),
                        pretty,
                    )[i - head.len()]);
                }
            }
        }
        files
    }
}

/// Assemble the whole package: nothing at all when every group is empty;
/// otherwise the banks alone when intermediate files are kept, or the three
/// sidecar files followed by the banks.
pub fn write_yomitan(
    source: Lang,
    target: Lang,
    options: &ArgsOptions,
    pm: &PathManager,
    tag_info: &Vec<TagInformation>,
    labelled_entries: &Vec<(String, Vec<YomitanEntry>)>,
) -> (files: Vec<OutputFile>)
    requires
        spec_total_entries(labelled_entries@) <= usize::MAX,
    ensures
        ({
            let banks = spec_all_bank_files(labelled_entries@, 0, options.pretty);
            &&& (spec_total_entries(labelled_entries@) == 0 ==> files@.len() == 0)
            &&& (spec_total_entries(labelled_entries@) > 0 && options.keep_files ==> {
                &&& files@.len() == banks.len()
                &&& forall|i: int|
                    0 <= i < banks.len() ==> (#[trigger] files@[i]).name@ == banks[i].0 && files@[
                        i
                    ].contents@ == banks[i].1
            })
            &&& (spec_total_entries(labelled_entries@) > 0 && !options.keep_files ==> {
                &&& files@.len() == 3 + banks.len()
                &&& files@[0].name@ == "index.json"@
                &&& files@[0].contents@ == spec_index_json(*pm, source, target)
                &&& files@[1].name@ == "styles.css"@
                &&& files@[1].contents@ == (if options.experimental {
                    spec_styles_css_experimental()
                } else {
                    spec_styles_css()
                })
                &&& files@[2].name@ == "tag_bank_1.json"@
                &&& files@[2].contents@ == spec_tag_bank_json(tag_info@)
                &&& forall|i: int|
                    0 <= i < banks.len() ==> (#[trigger] files@[3 + i]).name@ == banks[i].0
                        && files@[3 + i].contents@ == banks[i].1
            })
        }),
{
    let ghost groups = labelled_entries@;
    let mut total: usize = 0;
    let mut g: usize = 0;
    proof {
        assert(groups.skip(0) =~= groups);
        lemma_total_entries_nonneg(groups);
    }
    while g < labelled_entries.len()
        invariant
            groups == labelled_entries@,
            0 <= g <= groups.len(),
            spec_total_entries(groups) <= usize::MAX,
            total + spec_total_entries(groups.skip(g as int)) == spec_total_entries(groups),
        decreases groups.len() - g,
    {
        proof {
            lemma_total_entries_nonneg(groups.skip(g as int));
            lemma_total_entries_nonneg(groups.skip(g as int + 1));
            assert(groups.skip(g as int)[0] == groups[g as int]);
            assert(groups.skip(g as int).skip(1) =~= groups.skip(g as int + 1));
        }
        total = total + labelled_entries[g].1.len();
        g = g + 1;
    }
    proof {
        assert(groups.skip(groups.len() as int).len() == 0);
        assert(total == spec_total_entries(groups));
    }
    if total == 0 {
        return Vec::new();
    }
    let mut bank_index: usize = 0;
    let banks = all_banks(labelled_entries, 0, &mut bank_index, options.pretty);
    if options.keep_files {
        banks
    } else {
        let mut files: Vec<OutputFile> = Vec::new();
        files.push(
            OutputFile {
                name: String::from_str("index.json"),
                contents: get_index(pm, source, target),
            },
        );
        let css = if options.experimental {
            styles_css_experimental()
        } else {
            styles_css()
        };
        files.push(OutputFile { name: String::from_str("styles.css"), contents: css.to_owned() });
        files.push(
            OutputFile {
                name: String::from_str("tag_bank_1.json"),
                contents: tag_bank_json(tag_info),
            },
        );
        let mut banks = banks;
        files.append(&mut banks);
        files
    }
}

} // verus!
