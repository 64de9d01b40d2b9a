//! The tag normalization subsystem: canonical ordering, similarity ordering,
//! redundancy elimination and grammatical person merging, all over sequences
//! of tag strings. A tag is a single token or a space-joined token phrase.

use vstd::prelude::*;

use indexmap::IndexMap;
use std::collections::hash_map::RandomState;

use crate::strutil::{
    contains_str, index_of, join_strs, lemma_filter_take_step, spec_index_of, spec_join,
    spec_split, split_str, str_eq,
};

verus! {

broadcast use vstd::string::group_string_axioms;

/// A stable insertion of `x` into `s`: `x` lands after every element it does
/// not strictly precede, so equal elements keep their relative order.
pub open spec fn spec_insert_by(
    gt: spec_fn(Seq<char>, Seq<char>) -> bool,
    s: Seq<Seq<char>>,
    x: Seq<char>,
) -> Seq<Seq<char>>
    decreases s.len(),
{
    if s.len() == 0 {
        seq![x]
    } else if gt(s.last(), x) {
        spec_insert_by(gt, s.drop_last(), x).push(s.last())
    } else {
        s.push(x)
    }
}

/// Stable insertion sort of `s` under the strict "sorts after" relation `gt`.
pub open spec fn spec_sort_by(gt: spec_fn(Seq<char>, Seq<char>) -> bool, s: Seq<Seq<char>>) -> Seq<
    Seq<char>,
>
    decreases s.len(),
{
    if s.len() == 0 {
        s
    } else {
        spec_insert_by(gt, spec_sort_by(gt, s.drop_last()), s.last())
    }
}

/// A stable insertion adds exactly one occurrence of the inserted tag.
pub proof fn lemma_insert_by_permutation(
    gt: spec_fn(Seq<char>, Seq<char>) -> bool,
    s: Seq<Seq<char>>,
    x: Seq<char>,
)
    ensures
        spec_insert_by(gt, s, x).to_multiset() == s.to_multiset().insert(x),
    decreases s.len(),
{
    broadcast use vstd::seq_lib::group_to_multiset_ensures;

    if s.len() == 0 {
        assert(seq![x] =~= Seq::<Seq<char>>::empty().push(x));
        assert(Seq::<Seq<char>>::empty().push(x).to_multiset() =~= Seq::<
            Seq<char>,
        >::empty().to_multiset().insert(x));
        assert(s.to_multiset() =~= Seq::<Seq<char>>::empty().to_multiset());
    } else if gt(s.last(), x) {
        lemma_insert_by_permutation(gt, s.drop_last(), x);
        assert(s.drop_last().push(s.last()) =~= s);
        assert(spec_insert_by(gt, s, x).to_multiset() =~= spec_insert_by(
            gt,
            s.drop_last(),
            x,
        ).to_multiset().insert(s.last()));
        assert(s.to_multiset() =~= s.drop_last().to_multiset().insert(s.last()));
        assert(s.drop_last().to_multiset().insert(x).insert(s.last()) =~= s.drop_last()
            .to_multiset().insert(s.last()).insert(x));
    } else {
        assert(s.push(x).to_multiset() =~= s.to_multiset().insert(x));
    }
}

/// Every sort in this module only rearranges its input: the sorted sequence
/// carries exactly the same tags with the same multiplicities.
pub proof fn lemma_sort_by_permutation(gt: spec_fn(Seq<char>, Seq<char>) -> bool, s: Seq<Seq<char>>)
    ensures
        spec_sort_by(gt, s).to_multiset() == s.to_multiset(),
    decreases s.len(),
{
    broadcast use vstd::seq_lib::group_to_multiset_ensures;

    if s.len() > 0 {
        lemma_sort_by_permutation(gt, s.drop_last());
        lemma_insert_by_permutation(gt, spec_sort_by(gt, s.drop_last()), s.last());
        assert(s.drop_last().push(s.last()) =~= s);
        assert(s.to_multiset() =~= s.drop_last().to_multiset().insert(s.last()));
    }
}

/// Inserting at the first position `p` whose suffix consists exactly of the
/// elements that sort strictly after `x` realizes `spec_insert_by`.
pub proof fn lemma_insert_by_split(
    gt: spec_fn(Seq<char>, Seq<char>) -> bool,
    s: Seq<Seq<char>>,
    x: Seq<char>,
    p: int,
)
    requires
        0 <= p <= s.len(),
        forall|j: int| p <= j < s.len() ==> gt(#[trigger] s[j], x),
        p > 0 ==> !gt(s[p - 1], x),
    ensures
        spec_insert_by(gt, s, x) == s.take(p) + seq![x] + s.skip(p),
    decreases s.len(),
{
    if p == s.len() {
        if s.len() == 0 {
            assert(spec_insert_by(gt, s, x) =~= s.take(p) + seq![x] + s.skip(p));
        } else {
            assert(!gt(s.last(), x));
            assert(spec_insert_by(gt, s, x) == s.push(x));
            assert(s.push(x) =~= s.take(p) + seq![x] + s.skip(p));
        }
    } else {
        assert(gt(s.last(), x));
        let d = s.drop_last();
        assert(forall|j: int| p <= j < d.len() ==> gt(#[trigger] d[j], x));
        lemma_insert_by_split(gt, d, x, p);
        assert(d.take(p) =~= s.take(p));
        assert(spec_insert_by(gt, s, x) == (d.take(p) + seq![x] + d.skip(p)).push(s.last()));
        assert((d.take(p) + seq![x] + d.skip(p)).push(s.last()) =~= s.take(p) + seq![x] + s.skip(
            p,
        ));
    }
}

/// Whether tag `a` sorts strictly after tag `b` in the canonical order: both
/// ranked compares ranks, a ranked tag precedes every unranked one, and two
/// unranked tags never reorder.
pub open spec fn spec_canon_gt(order: Seq<Seq<char>>, a: Seq<char>, b: Seq<char>) -> bool {
    match (spec_index_of(order, a), spec_index_of(order, b)) {
        (Some(i), Some(j)) => i > j,
        (None, Some(_)) => true,
        _ => false,
    }
}

/// The canonical comparison, packaged for `spec_sort_by`.
pub open spec fn canon_gt_fn(order: Seq<Seq<char>>) -> spec_fn(Seq<char>, Seq<char>) -> bool {
    |a: Seq<char>, b: Seq<char>| spec_canon_gt(order, a, b)
}

/// The canonical sort of a tag sequence.
pub open spec fn spec_sort_tags(order: Seq<Seq<char>>, tags: Seq<Seq<char>>) -> Seq<Seq<char>> {
    spec_sort_by(canon_gt_fn(order), tags)
}

fn canon_gt(order: &Vec<String>, a: &str, b: &str) -> (r: bool)
    ensures
        r == spec_canon_gt(order.deep_view(), a@, b@),
{
    match (index_of(order, a), index_of(order, b)) {
        (Some(i), Some(j)) => i > j,
        (None, Some(_)) => true,
        _ => false,
    }
}

fn insert_sorted_canon(order: &Vec<String>, v: &mut Vec<String>, x: String)
    ensures
        final(v).deep_view() == spec_insert_by(
            canon_gt_fn(order.deep_view()),
            old(v).deep_view(),
            x@,
        ),
{
    let ghost gt = canon_gt_fn(order.deep_view());
    let mut j: usize = v.len();
    while j > 0 && canon_gt(order, v[j - 1].as_str(), x.as_str())
        invariant
            gt == canon_gt_fn(order.deep_view()),
            0 <= j <= v@.len(),
            *v == *old(v),
            forall|k: int| j <= k < v@.len() ==> gt(#[trigger] v.deep_view()[k], x@),
        decreases j,
    {
        proof {
            assert(v.deep_view()[j - 1] == v@[j - 1]@);
            assert(gt(v.deep_view()[j - 1], x@));
        }
        j = j - 1;
    }
    proof {
        lemma_insert_by_split(gt, v.deep_view(), x@, j as int);
    }
    let ghost before = v.deep_view();
    v.insert(j, x);
    proof {
        assert(v.deep_view() =~= before.take(j as int) + seq![x@] + before.skip(j as int));
    }
}

/// Sort tags by their position in the canonical order table. Tags absent from
/// the table come after all present tags and keep their relative input order.
pub fn sort_tags(tags: &mut Vec<String>, order: &Vec<String>)
    ensures
        final(tags).deep_view() == spec_sort_tags(order.deep_view(), old(tags).deep_view()),
{
    let ghost gt = canon_gt_fn(order.deep_view());
    let mut res: Vec<String> = Vec::new();
    let mut i: usize = 0;
    while i < tags.len()
        invariant
            gt == canon_gt_fn(order.deep_view()),
            0 <= i <= tags@.len(),
            *tags == *old(tags),
            res.deep_view() == spec_sort_by(gt, tags.deep_view().take(i as int)),
        decreases tags@.len() - i,
    {
        let x = tags[i].clone();
        proof {
            assert(x@ == tags.deep_view()[i as int]);
        }
        insert_sorted_canon(order, &mut res, x);
        i = i + 1;
        proof {
            let t = tags.deep_view().take(i as int);
            assert(t.drop_last() =~= tags.deep_view().take(i - 1));
            assert(t.last() == tags.deep_view()[i - 1]);
            assert(spec_sort_by(gt, t) == spec_insert_by(gt, spec_sort_by(gt, t.drop_last()), t.last()));
        }
    }
    proof {
        assert(tags.deep_view().take(tags@.len() as int) =~= tags.deep_view());
    }
    *tags = res;
}

/// No tag sorts strictly after a tag it also sorts strictly before.
proof fn lemma_canon_gt_asymmetric(order: Seq<Seq<char>>, a: Seq<char>, b: Seq<char>)
    ensures
        spec_canon_gt(order, a, b) ==> !spec_canon_gt(order, b, a),
{
}

/// Not sorting after is transitive: ranks compare like integers, with
/// unranked tags after every ranked one.
proof fn lemma_canon_le_transitive(order: Seq<Seq<char>>, a: Seq<char>, b: Seq<char>, c: Seq<char>)
    ensures
        !spec_canon_gt(order, a, b) && !spec_canon_gt(order, b, c) ==> !spec_canon_gt(order, a, c),
{
}

/// A tag sequence ordered by the canonical comparison: no tag sorts strictly
/// after a later one.
pub open spec fn spec_canon_sorted(order: Seq<Seq<char>>, s: Seq<Seq<char>>) -> bool {
    forall|i: int, j: int|
        0 <= i < j < s.len() ==> !spec_canon_gt(order, #[trigger] s[i], #[trigger] s[j])
}

proof fn lemma_insert_canon_sorted(order: Seq<Seq<char>>, s: Seq<Seq<char>>, x: Seq<char>)
    requires
        spec_canon_sorted(order, s),
    ensures
        spec_canon_sorted(order, spec_insert_by(canon_gt_fn(order), s, x)),
    decreases s.len(),
{
    let gt = canon_gt_fn(order);
    let out = spec_insert_by(gt, s, x);
    if s.len() == 0 {
        assert(spec_canon_sorted(order, out));
    } else if gt(s.last(), x) {
        let d = s.drop_last();
        assert(spec_canon_sorted(order, d));
        lemma_insert_canon_sorted(order, d, x);
        let inner = spec_insert_by(gt, d, x);
        assert(out == inner.push(s.last()));
        lemma_insert_by_permutation(gt, d, x);
        broadcast use vstd::seq_lib::group_to_multiset_ensures;

        assert forall|i: int, j: int|
            0 <= i < j < out.len() implies !spec_canon_gt(order, #[trigger] out[i], #[trigger] out[j]) by {
            if j < out.len() - 1 {
                assert(out[i] == inner[i] && out[j] == inner[j]);
            } else {
                assert(out[j] == s.last());
                assert(out[i] == inner[i]);
                assert(inner.to_multiset().count(inner[i]) > 0);
                assert(inner.contains(inner[i]));
                assert(d.to_multiset().insert(x).count(inner[i]) > 0);
                if inner[i] == x {
                    lemma_canon_gt_asymmetric(order, s.last(), x);
                } else {
                    assert(d.to_multiset().count(inner[i]) > 0);
                    assert(d.contains(inner[i]));
                    let k = choose|k: int| 0 <= k < d.len() && d[k] == inner[i];
                    assert(!spec_canon_gt(order, s[k], s.last()));
                }
            }
        }
    } else {
        assert(out == s.push(x));
        assert forall|i: int, j: int|
            0 <= i < j < out.len() implies !spec_canon_gt(order, #[trigger] out[i], #[trigger] out[j]) by {
            if j == out.len() - 1 {
                assert(out[j] == x);
                if i < s.len() - 1 {
                    assert(!spec_canon_gt(order, s[i], s.last()));
                    lemma_canon_le_transitive(order, s[i], s.last(), x);
                }
            }
        }
    }
}

/// The canonical sort orders tags by their position in the table: in the
/// result no tag sorts strictly after a later one.
pub proof fn lemma_sort_tags_sorted(order: Seq<Seq<char>>, tags: Seq<Seq<char>>)
    ensures
        spec_canon_sorted(order, spec_sort_tags(order, tags)),
    decreases tags.len(),
{
    if tags.len() > 0 {
        lemma_sort_tags_sorted(order, tags.drop_last());
        lemma_insert_canon_sorted(order, spec_sort_tags(order, tags.drop_last()), tags.last());
    }
}

/// Canonical sort stability: a tag sequence in which no tag appears in the
/// order table is returned unchanged.
pub proof fn lemma_sort_tags_absent_stable(order: Seq<Seq<char>>, tags: Seq<Seq<char>>)
    requires
        forall|i: int| 0 <= i < tags.len() ==> spec_index_of(order, #[trigger] tags[i]) is None,
    ensures
        spec_sort_tags(order, tags) == tags,
    decreases tags.len(),
{
    let gt = canon_gt_fn(order);
    if tags.len() == 0 {
        assert(spec_sort_tags(order, tags) =~= tags);
    } else {
        let d = tags.drop_last();
        assert(forall|i: int| 0 <= i < d.len() ==> spec_index_of(order, #[trigger] d[i]) is None);
        lemma_sort_tags_absent_stable(order, d);
        let x = tags.last();
        assert(spec_index_of(order, x) is None);
        if d.len() == 0 {
            assert(spec_insert_by(gt, d, x) =~= tags);
        } else {
            assert(!gt(d.last(), x));
            assert(spec_insert_by(gt, d, x) == d.push(x));
            assert(d.push(x) =~= tags);
        }
    }
}

/// Strict lexicographic order on character sequences by code point, the order
/// `str` comparison realizes.
pub open spec fn spec_chars_lt(a: Seq<char>, b: Seq<char>) -> bool
    decreases a.len(),
{
    if b.len() == 0 {
        false
    } else if a.len() == 0 {
        true
    } else if a[0] != b[0] {
        (a[0] as u32) < (b[0] as u32)
    } else {
        spec_chars_lt(a.skip(1), b.skip(1))
    }
}

/// Three-way comparison on character sequences: negative, zero or positive.
pub open spec fn spec_chars_cmp(a: Seq<char>, b: Seq<char>) -> int {
    if a == b {
        0
    } else if spec_chars_lt(a, b) {
        -1
    } else {
        1
    }
}

fn chars_cmp(a: &str, b: &str) -> (r: i32)
    ensures
        r == spec_chars_cmp(a@, b@),
    decreases a@.len(),
{
    let a_len = a.unicode_len();
    let b_len = b.unicode_len();
    if a_len == 0 && b_len == 0 {
        proof {
            assert(a@ =~= b@);
        }
        0
    } else if b_len == 0 {
        1
    } else if a_len == 0 {
        -1
    } else {
        let ca = a.get_char(0);
        let cb = b.get_char(0);
        if ca != cb {
            if (ca as u32) < (cb as u32) {
                -1
            } else {
                1
            }
        } else {
            let ta = a.substring_char(1, a_len);
            let tb = b.substring_char(1, b_len);
            proof {
                assert(ta@ =~= a@.skip(1));
                assert(tb@ =~= b@.skip(1));
                if a@.skip(1) == b@.skip(1) {
                    assert(a@.skip(1).len() == a@.len() - 1);
                    assert(b@.skip(1).len() == b@.len() - 1);
                    assert(a@.len() == b@.len());
                    assert forall|k: int| 0 <= k < a@.len() implies a@[k] == b@[k] by {
                        if k > 0 {
                            assert(a@.skip(1)[k - 1] == a@[k]);
                            assert(b@.skip(1)[k - 1] == b@[k]);
                        }
                    }
                    assert(a@ =~= b@);
                }
            }
            chars_cmp(ta, tb)
        }
    }
}

/// Three-way comparison on word lists: the first differing word decides, and
/// a list that is a strict prefix of the other sorts first.
pub open spec fn spec_words_cmp(wa: Seq<Seq<char>>, wb: Seq<Seq<char>>) -> int
    decreases wa.len(),
{
    if wa.len() == 0 && wb.len() == 0 {
        0
    } else if wa.len() == 0 {
        -1
    } else if wb.len() == 0 {
        1
    } else if wa[0] != wb[0] {
        spec_chars_cmp(wa[0], wb[0])
    } else {
        spec_words_cmp(wa.skip(1), wb.skip(1))
    }
}

fn words_cmp(wa: &Vec<String>, wb: &Vec<String>) -> (r: i32)
    ensures
        r == spec_words_cmp(wa.deep_view(), wb.deep_view()),
{
    let ghost va = wa.deep_view();
    let ghost vb = wb.deep_view();
    proof {
        assert(va.skip(0) =~= va);
        assert(vb.skip(0) =~= vb);
    }
    let mut i: usize = 0;
    while i < wa.len() && i < wb.len()
        invariant
            va == wa.deep_view(),
            vb == wb.deep_view(),
            va.len() == wa@.len(),
            vb.len() == wb@.len(),
            0 <= i <= va.len(),
            0 <= i <= vb.len(),
            spec_words_cmp(va, vb) == spec_words_cmp(va.skip(i as int), vb.skip(i as int)),
        decreases va.len() - i,
    {
        proof {
            assert(va.skip(i as int)[0] == va[i as int]);
            assert(vb.skip(i as int)[0] == vb[i as int]);
            assert(va[i as int] == wa@[i as int]@);
            assert(vb[i as int] == wb@[i as int]@);
        }
        if !str_eq(wa[i].as_str(), wb[i].as_str()) {
            let r = chars_cmp(wa[i].as_str(), wb[i].as_str());
            proof {
                assert(spec_words_cmp(va.skip(i as int), vb.skip(i as int)) == spec_chars_cmp(
                    va[i as int],
                    vb[i as int],
                ));
            }
            return r;
        }
        i = i + 1;
        proof {
            assert(va.skip(i - 1).skip(1) =~= va.skip(i as int));
            assert(vb.skip(i - 1).skip(1) =~= vb.skip(i as int));
        }
    }
    proof {
        assert(i == va.len() || i == vb.len());
    }
    if wa.len() == wb.len() {
        0
    } else if wa.len() < wb.len() {
        -1
    } else {
        1
    }
}

/// The second whitespace-delimited word of a tag, or the empty word.
pub open spec fn spec_second_word(t: Seq<char>) -> Seq<char> {
    let ws = spec_split(t, ' ');
    if ws.len() >= 2 {
        ws[1]
    } else {
        Seq::empty()
    }
}

/// The similarity comparison for morphological form tags: second words first,
/// then word-by-word, then the shorter word list.
pub open spec fn spec_sim_cmp(a: Seq<char>, b: Seq<char>) -> int {
    let sa = spec_second_word(a);
    let sb = spec_second_word(b);
    if sa != sb {
        spec_chars_cmp(sa, sb)
    } else {
        spec_words_cmp(spec_split(a, ' '), spec_split(b, ' '))
    }
}

/// The similarity comparison, packaged for `spec_sort_by`.
pub open spec fn sim_gt_fn() -> spec_fn(Seq<char>, Seq<char>) -> bool {
    |a: Seq<char>, b: Seq<char>| spec_sim_cmp(a, b) > 0
}

fn sim_gt(a: &str, b: &str) -> (r: bool)
    ensures
        r == (spec_sim_cmp(a@, b@) > 0),
{
    let wa = split_str(a, ' ');
    let wb = split_str(b, ' ');
    let empty = String::new();
    let sa = if wa.len() >= 2 {
        &wa[1]
    } else {
        &empty
    };
    let sb = if wb.len() >= 2 {
        &wb[1]
    } else {
        &empty
    };
    proof {
        assert(sa@ == spec_second_word(a@));
        assert(sb@ == spec_second_word(b@));
    }
    if !str_eq(sa.as_str(), sb.as_str()) {
        chars_cmp(sa.as_str(), sb.as_str()) > 0
    } else {
        words_cmp(&wa, &wb) > 0
    }
}

fn insert_sorted_sim(v: &mut Vec<String>, x: String)
    ensures
        final(v).deep_view() == spec_insert_by(sim_gt_fn(), old(v).deep_view(), x@),
{
    let ghost gt = sim_gt_fn();
    let mut j: usize = v.len();
    while j > 0 && sim_gt(v[j - 1].as_str(), x.as_str())
        invariant
            gt == sim_gt_fn(),
            0 <= j <= v@.len(),
            *v == *old(v),
            forall|k: int| j <= k < v@.len() ==> gt(#[trigger] v.deep_view()[k], x@),
        decreases j,
    {
        proof {
            assert(v.deep_view()[j - 1] == v@[j - 1]@);
            assert(gt(v.deep_view()[j - 1], x@));
        }
        j = j - 1;
    }
    proof {
        lemma_insert_by_split(gt, v.deep_view(), x@, j as int);
    }
    let ghost before = v.deep_view();
    v.insert(j, x);
    proof {
        assert(v.deep_view() =~= before.take(j as int) + seq![x@] + before.skip(j as int));
    }
}

/// Sort morphological form tags by similarity: the second word decides first,
/// then the first differing word, then the shorter tag.
pub fn sort_tags_by_similar(tags: &mut Vec<String>)
    ensures
        final(tags).deep_view() == spec_sort_by(sim_gt_fn(), old(tags).deep_view()),
{
    let ghost gt = sim_gt_fn();
    let mut res: Vec<String> = Vec::new();
    let mut i: usize = 0;
    while i < tags.len()
        invariant
            gt == sim_gt_fn(),
            0 <= i <= tags@.len(),
            *tags == *old(tags),
            res.deep_view() == spec_sort_by(gt, tags.deep_view().take(i as int)),
        decreases tags@.len() - i,
    {
        let x = tags[i].clone();
        proof {
            assert(x@ == tags.deep_view()[i as int]);
        }
        insert_sorted_sim(&mut res, x);
        i = i + 1;
        proof {
            let t = tags.deep_view().take(i as int);
            assert(t.drop_last() =~= tags.deep_view().take(i - 1));
            assert(t.last() == tags.deep_view()[i - 1]);
            assert(spec_sort_by(gt, t) == spec_insert_by(gt, spec_sort_by(gt, t.drop_last()), t.last()));
        }
    }
    proof {
        assert(tags.deep_view().take(tags@.len() as int) =~= tags.deep_view());
    }
    *tags = res;
}

/// Whether every token of tag `a` occurs among the tokens of tag `b`.
pub open spec fn spec_tags_subset(a: Seq<char>, b: Seq<char>) -> bool {
    forall|i: int|
        0 <= i < spec_split(a, ' ').len() ==> crate::strutil::spec_contains_word(
            spec_split(b, ' '),
            #[trigger] spec_split(a, ' ')[i],
        )
}

/// Token-set containment: every whitespace-delimited token of `a` is a token
/// of `b`.
pub fn tags_are_subset(a: &str, b: &str) -> (r: bool)
    ensures
        r == spec_tags_subset(a@, b@),
{
    let wa = split_str(a, ' ');
    let wb = split_str(b, ' ');
    let mut i: usize = 0;
    while i < wa.len()
        invariant
            wa.deep_view() == spec_split(a@, ' '),
            wb.deep_view() == spec_split(b@, ' '),
            wa.deep_view().len() == wa@.len(),
            0 <= i <= wa@.len(),
            forall|j: int|
                0 <= j < i ==> crate::strutil::spec_contains_word(
                    spec_split(b@, ' '),
                    #[trigger] spec_split(a@, ' ')[j],
                ),
        decreases wa@.len() - i,
    {
        proof {
            assert(wa.deep_view()[i as int] == wa@[i as int]@);
        }
        if !contains_str(&wb, wa[i].as_str()) {
            return false;
        }
        i = i + 1;
    }
    true
}

/// Whether some tag in `tags` has a token set that strictly contains the
/// token set of `t`.
pub open spec fn spec_has_strict_superset(tags: Seq<Seq<char>>, t: Seq<char>) -> bool {
    exists|j: int|
        0 <= j < tags.len() && spec_tags_subset(t, #[trigger] tags[j]) && !spec_tags_subset(
            tags[j],
            t,
        )
}

/// The tags kept by redundancy elimination, packaged for `Seq::filter`.
pub open spec fn keep_fn(tags: Seq<Seq<char>>) -> spec_fn(Seq<char>) -> bool {
    |t: Seq<char>| !spec_has_strict_superset(tags, t)
}

/// Drop every tag whose token set is strictly contained in another tag's
/// token set, anywhere in the sequence; survivors keep their order.
pub fn remove_redundant_tags(tags: &mut Vec<String>)
    ensures
        final(tags).deep_view() == old(tags).deep_view().filter(keep_fn(old(tags).deep_view())),
{
    let ghost orig = tags.deep_view();
    let ghost keep = keep_fn(orig);
    let mut res: Vec<String> = Vec::new();
    let mut i: usize = 0;
    proof {
        assert(orig.take(0).filter(keep) =~= Seq::<Seq<char>>::empty());
        reveal(Seq::filter);
    }
    while i < tags.len()
        invariant
            orig == tags.deep_view(),
            keep == keep_fn(orig),
            *tags == *old(tags),
            0 <= i <= tags@.len(),
            orig.len() == tags@.len(),
            res.deep_view() == orig.take(i as int).filter(keep),
        decreases tags@.len() - i,
    {
        proof {
            assert(orig[i as int] == tags@[i as int]@);
        }
        let mut found = false;
        let mut j: usize = 0;
        while j < tags.len()
            invariant
                orig == tags.deep_view(),
                *tags == *old(tags),
                0 <= i < tags@.len(),
                orig.len() == tags@.len(),
                0 <= j <= tags@.len(),
                orig[i as int] == tags@[i as int]@,
                found ==> spec_has_strict_superset(orig, orig[i as int]),
                !found ==> forall|k: int|
                    0 <= k < j ==> !(spec_tags_subset(orig[i as int], #[trigger] orig[k])
                        && !spec_tags_subset(orig[k], orig[i as int])),
            decreases tags@.len() - j,
        {
            proof {
                assert(orig[j as int] == tags@[j as int]@);
            }
            if !found && tags_are_subset(tags[i].as_str(), tags[j].as_str()) && !tags_are_subset(
                tags[j].as_str(),
                tags[i].as_str(),
            ) {
                found = true;
            }
            j = j + 1;
        }
        if !found {
            res.push(tags[i].clone());
        }
        i = i + 1;
        proof {
            lemma_filter_take_step(orig, keep, i - 1);
            assert(keep(orig[i - 1]) == !spec_has_strict_superset(orig, orig[i - 1]));
        }
    }
    proof {
        assert(orig.take(orig.len() as int) =~= orig);
    }
    *tags = res;
}

#[verifier::external_type_specification]
#[verifier::external_body]
#[verifier::reject_recursive_types(K)]
#[verifier::reject_recursive_types(V)]
#[verifier::reject_recursive_types(S)]
pub struct ExIndexMap<K, V, S>(IndexMap<K, V, S>);

/// The ordered contents of a person-merge group map: one pair per key, in
/// insertion order, each carrying the persons collected under that key.
pub uninterp spec fn group_entries(m: IndexMap<String, Vec<String>, RandomState>) -> Seq<
    (Seq<char>, Seq<Seq<char>>),
>;

/// Index of the entry with key `k`, if any.
pub open spec fn spec_key_index(g: Seq<(Seq<char>, Seq<Seq<char>>)>, k: Seq<char>) -> Option<int>
    decreases g.len(),
{
    if g.len() == 0 {
        None
    } else if g[0].0 == k {
        Some(0int)
    } else {
        match spec_key_index(g.skip(1), k) {
            Some(i) => Some(i + 1),
            None => None,
        }
    }
}

/// Relies on indexmap's IndexMap::new: a new map has no entries.
#[verifier::external_body]
fn group_new() -> (m: IndexMap<String, Vec<String>, RandomState>)
    ensures
        group_entries(m) == Seq::<(Seq<char>, Seq<Seq<char>>)>::empty(),
{
    IndexMap::new()
}

/// Relies on indexmap's IndexMap::insert: an existing key keeps its place in
/// the order and its value is replaced; a new key is appended last.
#[verifier::external_body]
fn group_insert(m: &mut IndexMap<String, Vec<String>, RandomState>, k: String, v: Vec<String>)
    ensures
        group_entries(*final(m)) == (match spec_key_index(group_entries(*old(m)), k@) {
            Some(i) => group_entries(*old(m)).update(i, (k@, v.deep_view())),
            None => group_entries(*old(m)).push((k@, v.deep_view())),
        }),
{
    m.insert(k, v);
}

/// Relies on indexmap's IndexMap::get: the stored value for `k` if present.
#[verifier::external_body]
fn group_get<'a>(m: &'a IndexMap<String, Vec<String>, RandomState>, k: &String) -> (r: Option<
    &'a Vec<String>,
>)
    ensures
        match spec_key_index(group_entries(*m), k@) {
            Some(i) => r matches Some(v) && v.deep_view() == group_entries(*m)[i].1,
            None => r is None,
        },
{
    m.get(k)
}

/// Relies on indexmap's IndexMap::into_iter: pairs come out in insertion
/// order.
#[verifier::external_body]
fn group_pairs(m: IndexMap<String, Vec<String>, RandomState>) -> (r: Vec<(String, Vec<String>)>)
    ensures
        r.deep_view() == group_entries(m),
{
    m.into_iter().collect()
}

/// Whether a token is one of the three mutually exclusive person markers.
pub open spec fn spec_is_person(w: Seq<char>) -> bool {
    w == "first-person"@ || w == "second-person"@ || w == "third-person"@
}

/// The person predicate, packaged for `Seq::filter`.
pub open spec fn person_fn() -> spec_fn(Seq<char>) -> bool {
    |w: Seq<char>| spec_is_person(w)
}

/// The complement of the person predicate, packaged for `Seq::filter`.
pub open spec fn non_person_fn() -> spec_fn(Seq<char>) -> bool {
    |w: Seq<char>| !spec_is_person(w)
}

/// The person tokens of a tag, in order.
pub open spec fn spec_person_tokens(t: Seq<char>) -> Seq<Seq<char>> {
    spec_split(t, ' ').filter(person_fn())
}

/// The non-person tokens of a tag, in order.
pub open spec fn spec_other_tokens(t: Seq<char>) -> Seq<Seq<char>> {
    spec_split(t, ' ').filter(non_person_fn())
}

/// The group key of a tag: its non-person tokens, joined.
pub open spec fn spec_group_key(t: Seq<char>) -> Seq<char> {
    spec_join(spec_other_tokens(t), "_"@)
}

/// Group membership update for one more tag: a tag with exactly one person
/// marker joins (or opens) the group of its remaining tokens.
pub open spec fn spec_upsert(
    g: Seq<(Seq<char>, Seq<Seq<char>>)>,
    k: Seq<char>,
    p: Seq<char>,
) -> Seq<(Seq<char>, Seq<Seq<char>>)> {
    match spec_key_index(g, k) {
        Some(i) => g.update(i, (k, g[i].1.push(p))),
        None => g.push((k, seq![p])),
    }
}

/// The groups formed by the mergeable tags, keyed in first-encounter order.
pub open spec fn spec_groups(tags: Seq<Seq<char>>) -> Seq<(Seq<char>, Seq<Seq<char>>)>
    decreases tags.len(),
{
    if tags.len() == 0 {
        Seq::empty()
    } else {
        let g = spec_groups(tags.drop_last());
        let t = tags.last();
        if spec_person_tokens(t).len() == 1 {
            spec_upsert(g, spec_group_key(t), spec_person_tokens(t)[0])
        } else {
            g
        }
    }
}

/// The tags that pass through the merge unchanged, packaged for filtering.
pub open spec fn passthrough_fn() -> spec_fn(Seq<char>) -> bool {
    |t: Seq<char>| spec_person_tokens(t).len() != 1
}

/// The fixed priority of the person markers: first, second, third, others.
pub open spec fn spec_person_rank(w: Seq<char>) -> int {
    if w == "first-person"@ {
        0
    } else if w == "second-person"@ {
        1
    } else if w == "third-person"@ {
        2
    } else {
        3
    }
}

/// The person priority comparison, packaged for `spec_sort_by`.
pub open spec fn person_gt_fn() -> spec_fn(Seq<char>, Seq<char>) -> bool {
    |a: Seq<char>, b: Seq<char>| spec_person_rank(a) > spec_person_rank(b)
}

/// A person marker without its `-person` suffix.
pub open spec fn spec_person_short(w: Seq<char>) -> Seq<char> {
    if w == "first-person"@ {
        "first"@
    } else if w == "second-person"@ {
        "second"@
    } else if w == "third-person"@ {
        "third"@
    } else {
        w
    }
}

/// The single token standing for a group's person markers: the set of
/// markers present, in priority order, short forms joined with a slash, with
/// the suffix reattached.
pub open spec fn spec_merged_token(persons: Seq<Seq<char>>) -> Seq<char> {
    spec_join(
        spec_sort_by(person_gt_fn(), crate::strutil::spec_dedup(persons)).map_values(
            |w: Seq<char>| spec_person_short(w),
        ),
        "/"@,
    ) + "-person"@
}

/// The token list a group key stands for.
pub open spec fn spec_group_tokens(k: Seq<char>) -> Seq<Seq<char>> {
    if k.len() == 0 {
        Seq::empty()
    } else {
        spec_split(k, '_')
    }
}

/// The merged tag a group renders to: its tokens plus the merged person
/// token, canonically sorted, rejoined with spaces.
pub open spec fn spec_render_group(
    order: Seq<Seq<char>>,
    k: Seq<char>,
    persons: Seq<Seq<char>>,
) -> Seq<char> {
    spec_join(spec_sort_tags(order, spec_group_tokens(k).push(spec_merged_token(persons))), " "@)
}

/// The rendering of one group, packaged for `Seq::map_values`.
pub open spec fn render_fn(order: Seq<Seq<char>>) -> spec_fn((Seq<char>, Seq<Seq<char>>)) -> Seq<
    char,
> {
    |pr: (Seq<char>, Seq<Seq<char>>)| spec_render_group(order, pr.0, pr.1)
}

/// The person merge: tags with zero or several person markers pass through in
/// order; tags with exactly one are grouped by their remaining tokens and each
/// group is appended as a single merged tag, in first-encounter order.
pub open spec fn spec_merge_person_tags(order: Seq<Seq<char>>, tags: Seq<Seq<char>>) -> Seq<
    Seq<char>,
> {
    tags.filter(passthrough_fn()) + spec_groups(tags).map_values(render_fn(order))
}

fn is_person(w: &str) -> (r: bool)
    ensures
        r == spec_is_person(w@),
{
    str_eq(w, "first-person") || str_eq(w, "second-person") || str_eq(w, "third-person")
}

fn person_rank(w: &str) -> (r: u32)
    ensures
        r == spec_person_rank(w@),
{
    if str_eq(w, "first-person") {
        0
    } else if str_eq(w, "second-person") {
        1
    } else if str_eq(w, "third-person") {
        2
    } else {
        3
    }
}

fn person_short(w: &str) -> (r: String)
    ensures
        r@ == spec_person_short(w@),
{
    if str_eq(w, "first-person") {
        String::from_str("first")
    } else if str_eq(w, "second-person") {
        String::from_str("second")
    } else if str_eq(w, "third-person") {
        String::from_str("third")
    } else {
        w.to_owned()
    }
}

fn insert_sorted_person(v: &mut Vec<String>, x: String)
    ensures
        final(v).deep_view() == spec_insert_by(person_gt_fn(), old(v).deep_view(), x@),
{
    let ghost gt = person_gt_fn();
    let mut j: usize = v.len();
    while j > 0 && person_rank(v[j - 1].as_str()) > person_rank(x.as_str())
        invariant
            gt == person_gt_fn(),
            0 <= j <= v@.len(),
            *v == *old(v),
            forall|k: int| j <= k < v@.len() ==> gt(#[trigger] v.deep_view()[k], x@),
        decreases j,
    {
        proof {
            assert(v.deep_view()[j - 1] == v@[j - 1]@);
            assert(gt(v.deep_view()[j - 1], x@));
        }
        j = j - 1;
    }
    proof {
        lemma_insert_by_split(gt, v.deep_view(), x@, j as int);
    }
    let ghost before = v.deep_view();
    v.insert(j, x);
    proof {
        assert(v.deep_view() =~= before.take(j as int) + seq![x@] + before.skip(j as int));
    }
}

/// Sort person markers by their fixed priority; other tokens go last and keep
/// their order.
pub fn person_sort(tags: &mut Vec<String>)
    ensures
        final(tags).deep_view() == spec_sort_by(person_gt_fn(), old(tags).deep_view()),
{
    let ghost gt = person_gt_fn();
    let mut res: Vec<String> = Vec::new();
    let mut i: usize = 0;
    while i < tags.len()
        invariant
            gt == person_gt_fn(),
            0 <= i <= tags@.len(),
            *tags == *old(tags),
            res.deep_view() == spec_sort_by(gt, tags.deep_view().take(i as int)),
        decreases tags@.len() - i,
    {
        let x = tags[i].clone();
        proof {
            assert(x@ == tags.deep_view()[i as int]);
        }
        insert_sorted_person(&mut res, x);
        i = i + 1;
        proof {
            let t = tags.deep_view().take(i as int);
            assert(t.drop_last() =~= tags.deep_view().take(i - 1));
            assert(t.last() == tags.deep_view()[i - 1]);
            assert(spec_sort_by(gt, t) == spec_insert_by(gt, spec_sort_by(gt, t.drop_last()), t.last()));
        }
    }
    proof {
        assert(tags.deep_view().take(tags@.len() as int) =~= tags.deep_view());
    }
    *tags = res;
}

/// Merge tags whose only difference is a single grammatical person marker.
pub fn merge_person_tags(tags: &Vec<String>, order: &Vec<String>) -> (r: Vec<String>)
    ensures
        r.deep_view() == spec_merge_person_tags(order.deep_view(), tags.deep_view()),
{
    let ghost tv = tags.deep_view();
    let ghost ord = order.deep_view();
    let ghost pass = passthrough_fn();
    let mut result: Vec<String> = Vec::new();
    let mut groups = group_new();
    let mut i: usize = 0;
    proof {
        reveal(Seq::filter);
        assert(tv.take(0).filter(pass) =~= Seq::<Seq<char>>::empty());
        assert(tv.take(0) =~= Seq::<Seq<char>>::empty());
    }
    while i < tags.len()
        invariant
            tv == tags.deep_view(),
            pass == passthrough_fn(),
            tv.len() == tags@.len(),
            0 <= i <= tags@.len(),
            group_entries(groups) == spec_groups(tv.take(i as int)),
            result.deep_view() == tv.take(i as int).filter(pass),
        decreases tags@.len() - i,
    {
        proof {
            assert(tv[i as int] == tags@[i as int]@);
        }
        let toks = split_str(tags[i].as_str(), ' ');
        let mut persons: Vec<String> = Vec::new();
        let mut others: Vec<String> = Vec::new();
        let ghost tw = toks.deep_view();
        let mut k: usize = 0;
        proof {
            assert(tw.take(0).filter(person_fn()) =~= Seq::<Seq<char>>::empty());
            assert(tw.take(0).filter(non_person_fn()) =~= Seq::<Seq<char>>::empty());
        }
        while k < toks.len()
            invariant
                tw == toks.deep_view(),
                tw.len() == toks@.len(),
                0 <= k <= toks@.len(),
                persons.deep_view() == tw.take(k as int).filter(person_fn()),
                others.deep_view() == tw.take(k as int).filter(non_person_fn()),
            decreases toks@.len() - k,
        {
            proof {
                assert(tw[k as int] == toks@[k as int]@);
            }
            if is_person(toks[k].as_str()) {
                persons.push(toks[k].clone());
            } else {
                others.push(toks[k].clone());
            }
            k = k + 1;
            proof {
                lemma_filter_take_step(tw, person_fn(), k - 1);
                lemma_filter_take_step(tw, non_person_fn(), k - 1);
                assert(person_fn()(tw[k - 1]) == spec_is_person(tw[k - 1]));
                assert(non_person_fn()(tw[k - 1]) == !spec_is_person(tw[k - 1]));
            }
        }
        proof {
            assert(tw.take(tw.len() as int) =~= tw);
            assert(persons.deep_view() == spec_person_tokens(tv[i as int]));
            assert(others.deep_view() == spec_other_tokens(tv[i as int]));
        }
        if persons.len() == 1 {
            let key = join_strs(&others, "_");
            proof {
                assert(key@ == spec_group_key(tv[i as int]));
                assert(persons.deep_view()[0] == persons@[0]@);
            }
            let ghost g = group_entries(groups);
            match group_get(&groups, &key) {
                Some(v) => {
                    let mut nv = crate::strutil::clone_strings(v);
                    let ghost nv_before = nv.deep_view();
                    nv.push(persons[0].clone());
                    proof {
                        assert(nv.deep_view() =~= nv_before.push(persons.deep_view()[0]));
                    }
                    group_insert(&mut groups, key, nv);
                },
                None => {
                    let mut nv: Vec<String> = Vec::new();
                    nv.push(persons[0].clone());
                    proof {
                        assert(nv.deep_view() =~= seq![persons.deep_view()[0]]);
                    }
                    group_insert(&mut groups, key, nv);
                },
            }
            proof {
                assert(group_entries(groups) == spec_upsert(
                    g,
                    spec_group_key(tv[i as int]),
                    spec_person_tokens(tv[i as int])[0],
                ));
            }
        } else {
            result.push(tags[i].clone());
        }
        i = i + 1;
        proof {
            let t = tv.take(i as int);
            assert(t.drop_last() =~= tv.take(i - 1));
            assert(t.last() == tv[i - 1]);
            lemma_filter_take_step(tv, pass, i - 1);
            assert(pass(tv[i - 1]) == (spec_person_tokens(tv[i - 1]).len() != 1));
        }
    }
    proof {
        assert(tv.take(tv.len() as int) =~= tv);
    }
    let pairs = group_pairs(groups);
    let ghost gseq = spec_groups(tv);
    let ghost rendered = gseq.map_values(render_fn(ord));
    let mut gi: usize = 0;
    proof {
        assert(result.deep_view() =~= tv.filter(pass) + rendered.take(0));
    }
    while gi < pairs.len()
        invariant
            tv == tags.deep_view(),
            ord == order.deep_view(),
            pass == passthrough_fn(),
            pairs.deep_view() == gseq,
            rendered == gseq.map_values(render_fn(ord)),
            gseq.len() == pairs@.len(),
            0 <= gi <= pairs@.len(),
            result.deep_view() == tv.filter(pass) + rendered.take(gi as int),
        decreases pairs@.len() - gi,
    {
        let ghost idx = gi as int;
        proof {
            assert(pairs.deep_view()[idx] == (pairs@[idx].0@, pairs@[idx].1.deep_view()));
        }
        let (key, group_persons) = &pairs[gi];
        let mut toks: Vec<String> = if key.as_str().unicode_len() == 0 {
            Vec::new()
        } else {
            split_str(key.as_str(), '_')
        };
        proof {
            assert(toks.deep_view() =~= spec_group_tokens(gseq[idx].0));
        }
        let mut ps = crate::strutil::dedup_words(group_persons);
        person_sort(&mut ps);
        let ghost sorted = spec_sort_by(person_gt_fn(), crate::strutil::spec_dedup(gseq[idx].1));
        let mut shorts: Vec<String> = Vec::new();
        let mut si: usize = 0;
        while si < ps.len()
            invariant
                ps.deep_view() == sorted,
                sorted.len() == ps@.len(),
                0 <= si <= ps@.len(),
                shorts.deep_view().len() == si,
                forall|j: int|
                    0 <= j < si ==> shorts.deep_view()[j] == spec_person_short(#[trigger] sorted[j]),
            decreases ps@.len() - si,
        {
            proof {
                assert(ps.deep_view()[si as int] == ps@[si as int]@);
            }
            shorts.push(person_short(ps[si].as_str()));
            si = si + 1;
        }
        proof {
            assert(shorts.deep_view() =~= sorted.map_values(
                |w: Seq<char>| spec_person_short(w),
            ));
        }
        let mut merged = join_strs(&shorts, "/");
        merged.append("-person");
        proof {
            assert(merged@ == spec_merged_token(gseq[idx].1));
        }
        let ghost base = toks.deep_view();
        toks.push(merged);
        proof {
            assert(toks.deep_view() =~= base.push(spec_merged_token(gseq[idx].1)));
        }
        let ghost presort = toks.deep_view();
        sort_tags(&mut toks, order);
        proof {
            assert(presort == spec_group_tokens(gseq[idx].0).push(spec_merged_token(gseq[idx].1)));
            assert(toks.deep_view() == spec_sort_tags(ord, presort));
        }
        let tag = join_strs(&toks, " ");
        proof {
            assert(render_fn(ord)(gseq[idx]) == spec_render_group(ord, gseq[idx].0, gseq[idx].1));
            assert(rendered[idx] == render_fn(ord)(gseq[idx]));
            assert(tag@ == spec_join(toks.deep_view(), " "@));
            assert(spec_render_group(ord, gseq[idx].0, gseq[idx].1) == spec_join(
                spec_sort_tags(
                    ord,
                    spec_group_tokens(gseq[idx].0).push(spec_merged_token(gseq[idx].1)),
                ),
                " "@,
            ));
            assert(toks.deep_view() == spec_sort_tags(
                ord,
                spec_group_tokens(gseq[idx].0).push(spec_merged_token(gseq[idx].1)),
            ));
            assert(tag@ == rendered[idx]);
        }
        let ghost rbefore = result.deep_view();
        result.push(tag);
        gi = gi + 1;
        proof {
            assert(result.deep_view() =~= rbefore.push(rendered[idx]));
            assert(rendered.take(idx + 1) =~= rendered.take(idx).push(rendered[idx]));
            assert(result.deep_view() =~= tv.filter(pass) + rendered.take(gi as int));
        }
    }
    proof {
        assert(rendered.take(rendered.len() as int) =~= rendered);
        assert(result.deep_view() =~= spec_merge_person_tags(ord, tv));
    }
    result
}

/// One row of the tag reference table: a short tag code, its category, its
/// sort rank, its long-form aliases (the first is canonical) and a popularity
/// score.
#[derive(Debug, Clone)]
pub struct TagBankEntry {
    pub short_tag: String,
    pub category: String,
    pub sort_order: i64,
    pub aliases: Vec<String>,
    pub popularity_score: i64,
}

/// One resolved tag as handed to the output package: the canonical long form
/// replaces the alias list.
#[derive(Debug, Clone)]
pub struct TagInformation {
    pub short_tag: String,
    pub category: String,
    pub sort_order: i64,
    pub long_tag: String,
    pub popularity_score: i64,
}

/// Every row of a well-formed tag reference table has at least one alias.
pub open spec fn spec_bank_wf(bank: Seq<TagBankEntry>) -> bool {
    forall|i: int| 0 <= i < bank.len() ==> #[trigger] bank[i].aliases@.len() >= 1
}

/// Index of the first table row among whose aliases `tag` appears.
pub open spec fn spec_find_tag(bank: Seq<TagBankEntry>, tag: Seq<char>) -> Option<int>
    decreases bank.len(),
{
    if bank.len() == 0 {
        None
    } else if crate::strutil::spec_contains_word(bank[0].aliases.deep_view(), tag) {
        Some(0int)
    } else {
        match spec_find_tag(bank.skip(1), tag) {
            Some(i) => Some(i + 1),
            None => None,
        }
    }
}

pub proof fn lemma_find_tag_props(bank: Seq<TagBankEntry>, tag: Seq<char>)
    ensures
        match spec_find_tag(bank, tag) {
            Some(i) => 0 <= i < bank.len() && crate::strutil::spec_contains_word(
                bank[i].aliases.deep_view(),
                tag,
            ) && forall|j: int|
                0 <= j < i ==> !crate::strutil::spec_contains_word(
                    #[trigger] bank[j].aliases.deep_view(),
                    tag,
                ),
            None => forall|j: int|
                0 <= j < bank.len() ==> !crate::strutil::spec_contains_word(
                    #[trigger] bank[j].aliases.deep_view(),
                    tag,
                ),
        },
    decreases bank.len(),
{
    if bank.len() == 0 {
    } else if crate::strutil::spec_contains_word(bank[0].aliases.deep_view(), tag) {
    } else {
        lemma_find_tag_props(bank.skip(1), tag);
        match spec_find_tag(bank.skip(1), tag) {
            Some(i) => {
                assert(bank.skip(1)[i] == bank[i + 1]);
                assert forall|j: int|
                    0 <= j < i + 1 implies !crate::strutil::spec_contains_word(
                    #[trigger] bank[j].aliases.deep_view(),
                    tag,
                ) by {
                    if j > 0 {
                        assert(bank.skip(1)[j - 1] == bank[j]);
                    }
                }
            },
            None => {
                assert forall|j: int|
                    0 <= j < bank.len() implies !crate::strutil::spec_contains_word(
                    #[trigger] bank[j].aliases.deep_view(),
                    tag,
                ) by {
                    if j > 0 {
                        assert(bank.skip(1)[j - 1] == bank[j]);
                    }
                }
            },
        }
    }
}

proof fn lemma_find_tag_unique(bank: Seq<TagBankEntry>, tag: Seq<char>, i: int)
    requires
        0 <= i < bank.len(),
        crate::strutil::spec_contains_word(bank[i].aliases.deep_view(), tag),
        forall|j: int|
            0 <= j < i ==> !crate::strutil::spec_contains_word(
                #[trigger] bank[j].aliases.deep_view(),
                tag,
            ),
    ensures
        spec_find_tag(bank, tag) == Some(i),
{
    lemma_find_tag_props(bank, tag);
    match spec_find_tag(bank, tag) {
        Some(k) => {
            if k < i {
                assert(false);
            }
            if k > i {
                assert(false);
            }
        },
        None => {
            assert(false);
        },
    }
}

/// Look a tag up in the reference table by any of its long-form aliases; the
/// returned long form is the canonical one.
pub fn find_tag_in_bank(tag: &str, bank: &Vec<TagBankEntry>) -> (r: Option<TagInformation>)
    requires
        spec_bank_wf(bank@),
    ensures
        match spec_find_tag(bank@, tag@) {
            Some(i) => r matches Some(info) && info.short_tag@ == bank@[i].short_tag@
                && info.category@ == bank@[i].category@ && info.sort_order == bank@[i].sort_order
                && info.long_tag@ == bank@[i].aliases@[0]@ && info.popularity_score == bank@[
                i
            ].popularity_score,
            None => r is None,
        },
{
    proof {
        lemma_find_tag_props(bank@, tag@);
    }
    let mut i: usize = 0;
    while i < bank.len()
        invariant
            spec_bank_wf(bank@),
            0 <= i <= bank@.len(),
            forall|j: int|
                0 <= j < i ==> !crate::strutil::spec_contains_word(
                    #[trigger] bank@[j].aliases.deep_view(),
                    tag@,
                ),
        decreases bank@.len() - i,
    {
        let e = &bank[i];
        if contains_str(&e.aliases, tag) {
            proof {
                lemma_find_tag_unique(bank@, tag@, i as int);
                assert(e.aliases@[0]@ == e.aliases.deep_view()[0]);
            }
            return Some(
                TagInformation {
                    short_tag: e.short_tag.clone(),
                    category: e.category.clone(),
                    sort_order: e.sort_order,
                    long_tag: e.aliases[0].clone(),
                    popularity_score: e.popularity_score,
                },
            );
        }
        i = i + 1;
    }
    None
}

/// Index of the first part-of-speech row containing `pos`.
pub open spec fn spec_find_pos(rows: Seq<Seq<Seq<char>>>, pos: Seq<char>) -> Option<int>
    decreases rows.len(),
{
    if rows.len() == 0 {
        None
    } else if crate::strutil::spec_contains_word(rows[0], pos) {
        Some(0int)
    } else {
        match spec_find_pos(rows.skip(1), pos) {
            Some(i) => Some(i + 1),
            None => None,
        }
    }
}

proof fn lemma_find_pos_props(rows: Seq<Seq<Seq<char>>>, pos: Seq<char>)
    ensures
        match spec_find_pos(rows, pos) {
            Some(i) => 0 <= i < rows.len() && crate::strutil::spec_contains_word(rows[i], pos)
                && forall|j: int|
                0 <= j < i ==> !crate::strutil::spec_contains_word(#[trigger] rows[j], pos),
            None => forall|j: int|
                0 <= j < rows.len() ==> !crate::strutil::spec_contains_word(
                    #[trigger] rows[j],
                    pos,
                ),
        },
    decreases rows.len(),
{
    if rows.len() == 0 {
    } else if crate::strutil::spec_contains_word(rows[0], pos) {
    } else {
        lemma_find_pos_props(rows.skip(1), pos);
        match spec_find_pos(rows.skip(1), pos) {
            Some(i) => {
                assert(rows.skip(1)[i] == rows[i + 1]);
                assert forall|j: int|
                    0 <= j < i + 1 implies !crate::strutil::spec_contains_word(
                    #[trigger] rows[j],
                    pos,
                ) by {
                    if j > 0 {
                        assert(rows.skip(1)[j - 1] == rows[j]);
                    }
                }
            },
            None => {
                assert forall|j: int|
                    0 <= j < rows.len() implies !crate::strutil::spec_contains_word(
                    #[trigger] rows[j],
                    pos,
                ) by {
                    if j > 0 {
                        assert(rows.skip(1)[j - 1] == rows[j]);
                    }
                }
            },
        }
    }
}

proof fn lemma_find_pos_unique(rows: Seq<Seq<Seq<char>>>, pos: Seq<char>, i: int)
    requires
        0 <= i < rows.len(),
        crate::strutil::spec_contains_word(rows[i], pos),
        forall|j: int| 0 <= j < i ==> !crate::strutil::spec_contains_word(#[trigger] rows[j], pos),
    ensures
        spec_find_pos(rows, pos) == Some(i),
{
    lemma_find_pos_props(rows, pos);
    match spec_find_pos(rows, pos) {
        Some(k) => {
            if k < i {
                assert(false);
            }
            if k > i {
                assert(false);
            }
        },
        None => {
            assert(false);
        },
    }
}

/// Look a part of speech up among the known spellings and return its short
/// form, the first entry of its row.
pub fn find_pos(pos: &str, rows: &Vec<Vec<String>>) -> (r: Option<String>)
    requires
        forall|i: int| 0 <= i < rows@.len() ==> #[trigger] rows@[i]@.len() >= 1,
    ensures
        match spec_find_pos(rows.deep_view(), pos@) {
            Some(i) => r matches Some(s) && s@ == rows.deep_view()[i][0],
            None => r is None,
        },
{
    proof {
        lemma_find_pos_props(rows.deep_view(), pos@);
    }
    let mut i: usize = 0;
    while i < rows.len()
        invariant
            forall|k: int| 0 <= k < rows@.len() ==> #[trigger] rows@[k]@.len() >= 1,
            rows.deep_view().len() == rows@.len(),
            0 <= i <= rows@.len(),
            forall|j: int|
                0 <= j < i ==> !crate::strutil::spec_contains_word(
                    #[trigger] rows.deep_view()[j],
                    pos@,
                ),
        decreases rows@.len() - i,
    {
        proof {
            assert(rows.deep_view()[i as int] == rows@[i as int].deep_view());
        }
        if contains_str(&rows[i], pos) {
            proof {
                lemma_find_pos_unique(rows.deep_view(), pos@, i as int);
                assert(rows@[i as int]@[0]@ == rows.deep_view()[i as int][0]);
            }
            return Some(rows[i][0].clone());
        }
        i = i + 1;
    }
    None
}

/// Render the whole tag reference table in the shape the package carries:
/// each row with its canonical long form in place of the alias list.
pub fn get_tag_bank_as_tag_info(bank: &Vec<TagBankEntry>) -> (r: Vec<TagInformation>)
    requires
        spec_bank_wf(bank@),
    ensures
        r@.len() == bank@.len(),
        forall|i: int|
            0 <= i < bank@.len() ==> (#[trigger] r@[i]).short_tag@ == bank@[i].short_tag@
                && r@[i].category@ == bank@[i].category@ && r@[i].sort_order == bank@[i].sort_order
                && r@[i].long_tag@ == bank@[i].aliases@[0]@ && r@[i].popularity_score == bank@[
                i
            ].popularity_score,
{
    let mut r: Vec<TagInformation> = Vec::new();
    let mut i: usize = 0;
    while i < bank.len()
        invariant
            spec_bank_wf(bank@),
            0 <= i <= bank@.len(),
            r@.len() == i,
            forall|j: int|
                0 <= j < i ==> (#[trigger] r@[j]).short_tag@ == bank@[j].short_tag@
                    && r@[j].category@ == bank@[j].category@ && r@[j].sort_order == bank@[
                    j
                ].sort_order && r@[j].long_tag@ == bank@[j].aliases@[0]@ && r@[j].popularity_score
                    == bank@[j].popularity_score,
        decreases bank@.len() - i,
    {
        let e = &bank[i];
        r.push(
            TagInformation {
                short_tag: e.short_tag.clone(),
                category: e.category.clone(),
                sort_order: e.sort_order,
                long_tag: e.aliases[0].clone(),
                popularity_score: e.popularity_score,
            },
        );
        i = i + 1;
    }
    r
}

fn bank_row(short: &str, category: &str, sort_order: i64, alias: &str, popularity: i64) -> (e:
    TagBankEntry)
    ensures
        e.aliases@.len() == 1,
{
    let mut aliases: Vec<String> = Vec::new();
    aliases.push(alias.to_owned());
    TagBankEntry {
        short_tag: short.to_owned(),
        category: category.to_owned(),
        sort_order,
        aliases,
        popularity_score: popularity,
    }
}

fn bank_row2(
    short: &str,
    category: &str,
    sort_order: i64,
    canonical: &str,
    other: &str,
    popularity: i64,
) -> (e: TagBankEntry)
    ensures
        e.aliases@.len() == 2,
{
    let mut aliases: Vec<String> = Vec::new();
    aliases.push(canonical.to_owned());
    aliases.push(other.to_owned());
    TagBankEntry {
        short_tag: short.to_owned(),
        category: category.to_owned(),
        sort_order,
        aliases,
        popularity_score: popularity,
    }
}

/// The fixed tag reference table written once into every package.
pub fn tag_bank() -> (r: Vec<TagBankEntry>)
    ensures
        spec_bank_wf(r@),
{
    let mut v: Vec<TagBankEntry> = Vec::new();
    v.push(bank_row2("masc", "gender", 3, "masculine", "male", 0));
    v.push(bank_row2("fem", "gender", 3, "feminine", "female", 0));
    v.push(bank_row("neut", "gender", 3, "neuter", 0));
    v.push(bank_row("sg", "number", 3, "singular", 0));
    v.push(bank_row("du", "number", 3, "dual", 0));
    v.push(bank_row("pl", "number", 3, "plural", 0));
    v.push(bank_row2("1p", "person", 3, "first-person", "first person", 0));
    v.push(bank_row("2p", "person", 3, "second-person", 0));
    v.push(bank_row("3p", "person", 3, "third-person", 0));
    v.push(bank_row("nom", "case", 3, "nominative", 0));
    v.push(bank_row("gen", "case", 3, "genitive", 0));
    v.push(bank_row("dat", "case", 3, "dative", 0));
    v.push(bank_row("acc", "case", 3, "accusative", 0));
    v.push(bank_row("voc", "case", 3, "vocative", 0));
    v.push(bank_row("pres", "tense", 3, "present", 0));
    v.push(bank_row("past", "tense", 3, "past", 0));
    v.push(bank_row("fut", "tense", 3, "future", 0));
    v.push(bank_row("inf", "mood", 3, "infinitive", 0));
    v.push(bank_row("ptcp", "mood", 3, "participle", 0));
    v
}

fn pos_row2(a: &str, b: &str) -> (r: Vec<String>)
    ensures
        r@.len() == 2,
{
    let mut v: Vec<String> = Vec::new();
    v.push(a.to_owned());
    v.push(b.to_owned());
    v
}

/// The fixed part-of-speech table: each row is a short form followed by the
/// spellings it covers.
pub fn poses() -> (r: Vec<Vec<String>>)
    ensures
        forall|i: int| 0 <= i < r@.len() ==> #[trigger] r@[i]@.len() >= 1,
{
    let mut v: Vec<Vec<String>> = Vec::new();
    v.push(pos_row2("n", "noun"));
    v.push(pos_row2("v", "verb"));
    v.push(pos_row2("adj", "adjective"));
    v.push(pos_row2("adv", "adverb"));
    v.push(pos_row2("pron", "pronoun"));
    v.push(pos_row2("prep", "preposition"));
    v.push(pos_row2("conj", "conjunction"));
    v.push(pos_row2("num", "numeral"));
    v.push(pos_row2("intj", "interjection"));
    v.push(pos_row2("part", "particle"));
    v.push(pos_row2("det", "determiner"));
    v.push(pos_row2("article", "article"));
    v
}

/// Tags dropped from inflected forms before normalization.
pub fn blacklisted_tags() -> Vec<String> {
    let mut v: Vec<String> = Vec::new();
    v.push(String::from_str("inflection-template"));
    v.push(String::from_str("table-tags"));
    v.push(String::from_str("canonical"));
    v.push(String::from_str("class"));
    v.push(String::from_str("error-unknown-tag"));
    v.push(String::from_str("error-unrecognized-form"));
    v.push(String::from_str("includes-article"));
    v.push(String::from_str("obsolete"));
    v.push(String::from_str("archaic"));
    v.push(String::from_str("used-in-the-form"));
    v.push(String::from_str("romanization"));
    v.push(String::from_str("dated"));
    v.push(String::from_str("auxiliary"));
    v.push(String::from_str("multiword-construction"));
    v
}

/// The fixed canonical ordering list shared by every run.
pub fn tag_order() -> Vec<String> {
    let mut v: Vec<String> = Vec::new();
    v.push(String::from_str("first/second/third-person"));
    v.push(String::from_str("first/second-person"));
    v.push(String::from_str("first/third-person"));
    v.push(String::from_str("second/third-person"));
    v.push(String::from_str("first-person"));
    v.push(String::from_str("second-person"));
    v.push(String::from_str("third-person"));
    v.push(String::from_str("masculine"));
    v.push(String::from_str("feminine"));
    v.push(String::from_str("neuter"));
    v.push(String::from_str("singular"));
    v.push(String::from_str("dual"));
    v.push(String::from_str("plural"));
    v.push(String::from_str("present"));
    v.push(String::from_str("imperfect"));
    v.push(String::from_str("past"));
    v.push(String::from_str("future"));
    v.push(String::from_str("perfect"));
    v.push(String::from_str("pluperfect"));
    v.push(String::from_str("aorist"));
    v.push(String::from_str("indicative"));
    v.push(String::from_str("subjunctive"));
    v.push(String::from_str("imperative"));
    v.push(String::from_str("optative"));
    v.push(String::from_str("active"));
    v.push(String::from_str("middle"));
    v.push(String::from_str("passive"));
    v.push(String::from_str("nominative"));
    v.push(String::from_str("genitive"));
    v.push(String::from_str("dative"));
    v.push(String::from_str("accusative"));
    v.push(String::from_str("vocative"));
    v.push(String::from_str("infinitive"));
    v.push(String::from_str("participle"));
    v
}

} // verus!
