//! Verified helpers over strings and token sequences: equality, splitting on
//! a separator character, joining, and membership tests. Tags are space-joined
//! token phrases, so the whole tag subsystem rests on these.

use vstd::prelude::*;

verus! {

/// Character-wise string equality.
pub fn str_eq(a: &str, b: &str) -> (r: bool)
    ensures
        r == (a@ == b@),
{
    let a_len = a.unicode_len();
    let b_len = b.unicode_len();
    if a_len != b_len {
        assert(a@ != b@) by {
            assert(a@.len() != b@.len());
        }
        return false;
    }
    let mut i: usize = 0;
    while i < a_len
        invariant
            a_len == a@.len(),
            b_len == b@.len(),
            a_len == b_len,
            0 <= i <= a_len,
            forall|j: int| 0 <= j < i ==> a@[j] == b@[j],
        decreases a_len - i,
    {
        if a.get_char(i) != b.get_char(i) {
            assert(a@ != b@);
            return false;
        }
        i = i + 1;
    }
    proof {
        assert(a@ =~= b@);
    }
    true
}

/// Index of the first occurrence of `sep` in `s`, if any.
pub open spec fn spec_find_char(s: Seq<char>, sep: char) -> Option<int>
    decreases s.len(),
{
    if s.len() == 0 {
        None
    } else if s[0] == sep {
        Some(0int)
    } else {
        match spec_find_char(s.skip(1), sep) {
            Some(i) => Some(i + 1),
            None => None,
        }
    }
}

pub proof fn lemma_find_char_props(s: Seq<char>, sep: char)
    ensures
        match spec_find_char(s, sep) {
            Some(i) => 0 <= i < s.len() && s[i] == sep && forall|j: int|
                0 <= j < i ==> s[j] != sep,
            None => forall|j: int| 0 <= j < s.len() ==> s[j] != sep,
        },
    decreases s.len(),
{
    if s.len() == 0 {
    } else if s[0] == sep {
    } else {
        lemma_find_char_props(s.skip(1), sep);
        match spec_find_char(s.skip(1), sep) {
            Some(i) => {
                assert(spec_find_char(s, sep) == Some(i + 1));
                assert(s.skip(1)[i] == s[i + 1]);
                assert forall|j: int| 0 <= j < i + 1 implies s[j] != sep by {
                    if j > 0 {
                        assert(s.skip(1)[j - 1] == s[j]);
                    }
                }
            },
            None => {
                assert forall|j: int| 0 <= j < s.len() implies s[j] != sep by {
                    if j > 0 {
                        assert(s.skip(1)[j - 1] == s[j]);
                    }
                }
            },
        }
    }
}

/// The first index whose character equals `sep`, scanning left to right.
pub fn find_char(s: &str, sep: char) -> (r: Option<usize>)
    ensures
        match r {
            Some(i) => spec_find_char(s@, sep) == Some(i as int),
            None => spec_find_char(s@, sep) is None,
        },
{
    proof {
        lemma_find_char_props(s@, sep);
    }
    let len = s.unicode_len();
    let mut i: usize = 0;
    while i < len
        invariant
            len == s@.len(),
            0 <= i <= len,
            forall|j: int| 0 <= j < i ==> s@[j] != sep,
        decreases len - i,
    {
        if s.get_char(i) == sep {
            proof {
                lemma_find_char_unique(s@, sep, i as int);
            }
            return Some(i);
        }
        i = i + 1;
    }
    None
}

proof fn lemma_find_char_unique(s: Seq<char>, sep: char, i: int)
    requires
        0 <= i < s.len(),
        s[i] == sep,
        forall|j: int| 0 <= j < i ==> s[j] != sep,
    ensures
        spec_find_char(s, sep) == Some(i),
{
    lemma_find_char_props(s, sep);
    match spec_find_char(s, sep) {
        Some(k) => {
            if k < i {
                assert(s[k] == sep);
                assert(false);
            }
            if k > i {
                assert(s[i] != sep);
                assert(false);
            }
        },
        None => {
            assert(s[i] != sep);
            assert(false);
        },
    }
}

/// The words of `s` split on `sep`. Splitting the empty string yields one
/// empty word, matching the usual split semantics.
pub open spec fn spec_split(s: Seq<char>, sep: char) -> Seq<Seq<char>>
    decreases s.len(),
{
    match spec_find_char(s, sep) {
        None => seq![s],
        Some(i) => if 0 <= i < s.len() {
            seq![s.take(i)] + spec_split(s.skip(i + 1), sep)
        } else {
            seq![s]
        },
    }
}

/// Split `s` on `sep`.
pub fn split_str(s: &str, sep: char) -> (r: Vec<String>)
    ensures
        r.deep_view() == spec_split(s@, sep),
    decreases s@.len(),
{
    proof {
        lemma_find_char_props(s@, sep);
    }
    match find_char(s, sep) {
        None => {
            let mut r: Vec<String> = Vec::new();
            r.push(s.to_owned());
            proof {
                assert(r.deep_view() =~= spec_split(s@, sep));
            }
            r
        },
        Some(i) => {
            let len = s.unicode_len();
            let head = s.substring_char(0, i).to_owned();
            let tail = s.substring_char(i + 1, len);
            proof {
                assert(tail@ =~= s@.skip(i + 1));
                assert(head@ =~= s@.take(i as int));
            }
            let mut r = split_str(tail, sep);
            r.insert(0, head);
            proof {
                assert(r.deep_view() =~= seq![s@.take(i as int)] + spec_split(s@.skip(i + 1), sep));
            }
            r
        },
    }
}

/// Words joined with the separator between them.
pub open spec fn spec_join(ws: Seq<Seq<char>>, sep: Seq<char>) -> Seq<char>
    decreases ws.len(),
{
    if ws.len() == 0 {
        Seq::empty()
    } else if ws.len() == 1 {
        ws[0]
    } else {
        ws[0] + sep + spec_join(ws.skip(1), sep)
    }
}

/// Join `ws` with `sep` between consecutive words.
pub fn join_strs(ws: &Vec<String>, sep: &str) -> (r: String)
    ensures
        r@ == spec_join(ws.deep_view(), sep@),
{
    let mut r = String::new();
    let mut i: usize = 0;
    proof {
        lemma_join_take(ws.deep_view(), sep@, 0);
    }
    while i < ws.len()
        invariant
            0 <= i <= ws@.len(),
            ws.deep_view().len() == ws@.len(),
            r@ == spec_join(ws.deep_view().take(i as int), sep@) + if i > 0 && i < ws@.len() {
                sep@
            } else {
                Seq::<char>::empty()
            },
        decreases ws@.len() - i,
    {
        proof {
            assert(ws.deep_view()[i as int] == ws@[i as int]@);
        }
        r.append(ws[i].as_str());
        i = i + 1;
        proof {
            lemma_join_take_step(ws.deep_view(), sep@, i as int);
        }
        if i < ws.len() {
            r.append(sep);
        }
    }
    proof {
        assert(ws.deep_view().take(ws@.len() as int) =~= ws.deep_view());
        if ws@.len() == 0 {
            assert(r@ =~= spec_join(ws.deep_view(), sep@));
        }
    }
    r
}

proof fn lemma_join_take(ws: Seq<Seq<char>>, sep: Seq<char>, i: int)
    requires
        0 <= i <= ws.len(),
    ensures
        i == 0 ==> spec_join(ws.take(i), sep) == Seq::<char>::empty(),
{
    assert(ws.take(0).len() == 0);
}

/// Relates the join of the first `i` words to the join of the first `i - 1`.
proof fn lemma_join_take_step(ws: Seq<Seq<char>>, sep: Seq<char>, i: int)
    requires
        1 <= i <= ws.len(),
    ensures
        i < ws.len() ==> spec_join(ws.take(i), sep) + sep + ws[i] == spec_join(ws.take(i + 1), sep),
        i == 1 ==> spec_join(ws.take(1), sep) == ws[0],
        i > 1 ==> spec_join(ws.take(i), sep) == spec_join(ws.take(i - 1), sep) + sep + ws[i - 1],
    decreases i,
{
    if i == 1 {
        assert(ws.take(1) =~= seq![ws[0]]);
        assert(spec_join(ws.take(1), sep) == ws[0]);
        if i < ws.len() {
            lemma_join_prefix(ws, sep, i + 1);
        }
    } else {
        lemma_join_prefix(ws, sep, i);
        if i < ws.len() {
            lemma_join_prefix(ws, sep, i + 1);
        }
    }
}

/// Join of a prefix of length `i >= 2` peels its last word.
proof fn lemma_join_prefix(ws: Seq<Seq<char>>, sep: Seq<char>, i: int)
    requires
        2 <= i <= ws.len(),
    ensures
        spec_join(ws.take(i), sep) == spec_join(ws.take(i - 1), sep) + sep + ws[i - 1],
    decreases i,
{
    let p = ws.take(i);
    assert(p.len() == i);
    if i == 2 {
        assert(p.skip(1) =~= seq![ws[1]]);
        assert(spec_join(p.skip(1), sep) == ws[1]);
        assert(ws.take(1) =~= seq![ws[0]]);
        assert(spec_join(ws.take(1), sep) == ws[0]);
        assert(spec_join(p, sep) == p[0] + sep + spec_join(p.skip(1), sep));
        assert(spec_join(p, sep) =~= spec_join(ws.take(1), sep) + sep + ws[1]);
    } else {
        lemma_join_prefix(ws.skip(1), sep, i - 1);
        assert(ws.skip(1).take(i - 1) =~= ws.take(i).skip(1));
        assert(ws.skip(1).take(i - 2) =~= ws.take(i - 1).skip(1));
        assert(spec_join(ws.take(i), sep) == ws[0] + sep + spec_join(ws.take(i).skip(1), sep));
        assert(spec_join(ws.take(i - 1), sep) == ws[0] + sep + spec_join(
            ws.take(i - 1).skip(1),
            sep,
        ));
        assert(ws.skip(1)[i - 2] == ws[i - 1]);
        assert(spec_join(ws.take(i), sep) =~= spec_join(ws.take(i - 1), sep) + sep + ws[i - 1]);
    }
}

/// Index of the first occurrence of the word `w` in `ws`, if any.
pub open spec fn spec_index_of(ws: Seq<Seq<char>>, w: Seq<char>) -> Option<int>
    decreases ws.len(),
{
    if ws.len() == 0 {
        None
    } else if ws[0] == w {
        Some(0int)
    } else {
        match spec_index_of(ws.skip(1), w) {
            Some(i) => Some(i + 1),
            None => None,
        }
    }
}

pub proof fn lemma_index_of_props(ws: Seq<Seq<char>>, w: Seq<char>)
    ensures
        match spec_index_of(ws, w) {
            Some(i) => 0 <= i < ws.len() && ws[i] == w && forall|j: int| 0 <= j < i ==> ws[j] != w,
            None => forall|j: int| 0 <= j < ws.len() ==> ws[j] != w,
        },
    decreases ws.len(),
{
    if ws.len() == 0 {
    } else if ws[0] == w {
    } else {
        lemma_index_of_props(ws.skip(1), w);
        match spec_index_of(ws.skip(1), w) {
            Some(i) => {
                assert(ws.skip(1)[i] == ws[i + 1]);
                assert forall|j: int| 0 <= j < i + 1 implies ws[j] != w by {
                    if j > 0 {
                        assert(ws.skip(1)[j - 1] == ws[j]);
                    }
                }
            },
            None => {
                assert forall|j: int| 0 <= j < ws.len() implies ws[j] != w by {
                    if j > 0 {
                        assert(ws.skip(1)[j - 1] == ws[j]);
                    }
                }
            },
        }
    }
}

proof fn lemma_index_of_unique(ws: Seq<Seq<char>>, w: Seq<char>, i: int)
    requires
        0 <= i < ws.len(),
        ws[i] == w,
        forall|j: int| 0 <= j < i ==> ws[j] != w,
    ensures
        spec_index_of(ws, w) == Some(i),
{
    lemma_index_of_props(ws, w);
    match spec_index_of(ws, w) {
        Some(k) => {
            if k < i {
                assert(ws[k] == w);
                assert(false);
            }
            if k > i {
                assert(ws[i] != w);
                assert(false);
            }
        },
        None => {
            assert(ws[i] != w);
            assert(false);
        },
    }
}

/// Position of the first word equal to `w`, scanning left to right.
pub fn index_of(ws: &Vec<String>, w: &str) -> (r: Option<usize>)
    ensures
        match r {
            Some(i) => spec_index_of(ws.deep_view(), w@) == Some(i as int),
            None => spec_index_of(ws.deep_view(), w@) is None,
        },
{
    proof {
        lemma_index_of_props(ws.deep_view(), w@);
    }
    let mut i: usize = 0;
    while i < ws.len()
        invariant
            0 <= i <= ws@.len(),
            ws.deep_view().len() == ws@.len(),
            forall|j: int| 0 <= j < i ==> ws.deep_view()[j] != w@,
        decreases ws@.len() - i,
    {
        proof {
            assert(ws.deep_view()[i as int] == ws@[i as int]@);
        }
        if str_eq(ws[i].as_str(), w) {
            proof {
                lemma_index_of_unique(ws.deep_view(), w@, i as int);
            }
            return Some(i);
        }
        i = i + 1;
    }
    None
}

/// The words of `ws` with later repetitions dropped: each word keeps its
/// first occurrence only.
pub open spec fn spec_dedup(ws: Seq<Seq<char>>) -> Seq<Seq<char>>
    decreases ws.len(),
{
    if ws.len() == 0 {
        ws
    } else {
        let d = spec_dedup(ws.drop_last());
        if spec_contains_word(d, ws.last()) {
            d
        } else {
            d.push(ws.last())
        }
    }
}

/// Drop every repetition of a word, keeping first occurrences in order.
pub fn dedup_words(ws: &Vec<String>) -> (r: Vec<String>)
    ensures
        r.deep_view() == spec_dedup(ws.deep_view()),
{
    let ghost wv = ws.deep_view();
    let mut r: Vec<String> = Vec::new();
    let mut i: usize = 0;
    proof {
        assert(wv.take(0) =~= Seq::<Seq<char>>::empty());
    }
    while i < ws.len()
        invariant
            wv == ws.deep_view(),
            wv.len() == ws@.len(),
            0 <= i <= ws@.len(),
            r.deep_view() == spec_dedup(wv.take(i as int)),
        decreases ws@.len() - i,
    {
        proof {
            assert(wv[i as int] == ws@[i as int]@);
        }
        if !contains_str(&r, ws[i].as_str()) {
            r.push(ws[i].clone());
        }
        i = i + 1;
        proof {
            let t = wv.take(i as int);
            assert(t.drop_last() =~= wv.take(i - 1));
            assert(t.last() == wv[i - 1]);
        }
    }
    proof {
        assert(wv.take(wv.len() as int) =~= wv);
    }
    r
}

/// An element-wise copy of a list of strings.
pub fn clone_strings(v: &Vec<String>) -> (r: Vec<String>)
    ensures
        r@ =~= v@,
        r.deep_view() == v.deep_view(),
{
    let mut r: Vec<String> = Vec::new();
    let mut i: usize = 0;
    while i < v.len()
        invariant
            0 <= i <= v@.len(),
            r@ =~= v@.take(i as int),
        decreases v@.len() - i,
    {
        r.push(v[i].clone());
        i = i + 1;
    }
    proof {
        assert(v@.take(v@.len() as int) =~= v@);
        assert(r.deep_view() =~= v.deep_view());
    }
    r
}

/// Filtering one more element appends it exactly when the predicate holds.
pub proof fn lemma_filter_take_step<A>(s: Seq<A>, pred: spec_fn(A) -> bool, i: int)
    requires
        0 <= i < s.len(),
    ensures
        s.take(i + 1).filter(pred) == if pred(s[i]) {
            s.take(i).filter(pred).push(s[i])
        } else {
            s.take(i).filter(pred)
        },
{
    reveal(Seq::filter);
    assert(s.take(i + 1).drop_last() =~= s.take(i));
    assert(s.take(i + 1).last() == s[i]);
}

/// `s` with leading and trailing spaces removed.
pub open spec fn spec_trim(s: Seq<char>) -> Seq<char>
    decreases s.len(),
{
    if s.len() == 0 {
        s
    } else if s[0] == ' ' {
        spec_trim(s.skip(1))
    } else if s.last() == ' ' {
        spec_trim(s.drop_last())
    } else {
        s
    }
}

proof fn lemma_trim_window(s: Seq<char>, a: int, b: int)
    requires
        0 <= a <= b <= s.len(),
        forall|j: int| 0 <= j < a ==> s[j] == ' ',
        forall|j: int| b <= j < s.len() ==> s[j] == ' ',
        a < b ==> s[a] != ' ',
        a < b ==> s[b - 1] != ' ',
        a == b ==> a == 0 || b == s.len(),
    ensures
        spec_trim(s) == s.subrange(a, b),
    decreases s.len(),
{
    if s.len() == 0 {
        assert(s.subrange(a, b) =~= s);
    } else if s[0] == ' ' {
        let t = s.skip(1);
        assert(forall|j: int| 0 <= j < t.len() ==> t[j] == s[j + 1]);
        if a == 0 {
            // The whole string is spaces up to b == 0, and past b as well.
            assert(b == s.len() || b == 0);
            if b == 0 {
                lemma_trim_window(t, 0, 0);
                assert(s.subrange(a, b) =~= t.subrange(0, 0));
            } else {
                // s[0] == ' ' and a < b means s[a] != ' ': impossible unless a == b.
                assert(a < b ==> s[a] != ' ');
                assert(a == b);
                lemma_trim_window(t, 0, 0);
                assert(s.subrange(a, b) =~= t.subrange(0, 0));
            }
        } else {
            lemma_trim_window(t, a - 1, b - 1);
            assert(s.subrange(a, b) =~= t.subrange(a - 1, b - 1));
        }
    } else if s.last() == ' ' {
        let t = s.drop_last();
        assert(b < s.len());
        lemma_trim_window(t, a, b);
        assert(s.subrange(a, b) =~= t.subrange(a, b));
    } else {
        assert(a == 0 && b == s.len());
        assert(s.subrange(a, b) =~= s);
    }
}

/// `s` with leading and trailing spaces removed.
pub fn trim_spaces(s: &str) -> (r: String)
    ensures
        r@ == spec_trim(s@),
{
    let len = s.unicode_len();
    let mut a: usize = 0;
    while a < len && s.get_char(a) == ' '
        invariant
            len == s@.len(),
            0 <= a <= len,
            forall|j: int| 0 <= j < a ==> s@[j] == ' ',
        decreases len - a,
    {
        a = a + 1;
    }
    let mut b: usize = len;
    while b > a && s.get_char(b - 1) == ' '
        invariant
            len == s@.len(),
            0 <= a <= b <= len,
            forall|j: int| 0 <= j < a ==> s@[j] == ' ',
            forall|j: int| b <= j < len ==> s@[j] == ' ',
        decreases b,
    {
        b = b - 1;
    }
    proof {
        lemma_trim_window(s@, a as int, b as int);
    }
    let r = s.substring_char(a, b).to_owned();
    proof {
        assert(r@ =~= s@.subrange(a as int, b as int));
    }
    r
}

/// Whether the word sequence `ws` contains the word `w`.
pub open spec fn spec_contains_word(ws: Seq<Seq<char>>, w: Seq<char>) -> bool {
    exists|i: int| 0 <= i < ws.len() && ws[i] == w
}

/// Membership of `w` in the list `ws`.
pub fn contains_str(ws: &Vec<String>, w: &str) -> (r: bool)
    ensures
        r == spec_contains_word(ws.deep_view(), w@),
{
    let mut i: usize = 0;
    while i < ws.len()
        invariant
            0 <= i <= ws@.len(),
            ws.deep_view().len() == ws@.len(),
            forall|j: int| 0 <= j < i ==> ws.deep_view()[j] != w@,
        decreases ws@.len() - i,
    {
        proof {
            assert(ws.deep_view()[i as int] == ws@[i as int]@);
        }
        if str_eq(ws[i].as_str(), w) {
            return true;
        }
        i = i + 1;
    }
    false
}

} // verus!
