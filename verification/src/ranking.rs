//! Fuzzy ranking of a candidate name against a typed query: a greedy, ordered
//! subsequence match whose every matched character is worth the more, the
//! nearer it lies to the cursor.

use vstd::prelude::*;
use crate::text::{chars_of, is_whitespace, is_whitespace_char, lowercase_of, to_lowercase};

verus! {

/// Score of a character found right at the cursor.
pub const BEST_GAIN: usize = 10;

/// Offset, counted from `cursor`, of the first occurrence of `c` in `name` at
/// or after `cursor`; `None` where there is none.
pub open spec fn offset_from(name: Seq<char>, cursor: int, c: char) -> Option<int>
    decreases name.len() - cursor,
{
    if cursor < 0 || cursor >= name.len() {
        None
    } else if name[cursor] == c {
        Some(0)
    } else {
        match offset_from(name, cursor + 1, c) {
            Some(p) => Some(p + 1),
            None => None,
        }
    }
}

/// What a match at offset `p` from the cursor adds to the score.
pub open spec fn gain(p: int) -> nat {
    if p < 10 {
        (10 - p) as nat
    } else {
        0
    }
}

/// Score of the query characters from index `i` on, with the cursor at
/// `cursor` in `name`.
pub open spec fn score_from(name: Seq<char>, cursor: int, query: Seq<char>, i: int) -> nat
    decreases query.len() - i,
{
    if i < 0 || i >= query.len() {
        0
    } else {
        match offset_from(name, cursor, query[i]) {
            Some(p) => gain(p) + score_from(name, cursor + p + 1, query, i + 1),
            None => score_from(name, cursor, query, i + 1),
        }
    }
}

/// The ranking of a normalized name against a query.
pub open spec fn ranking(name: Seq<char>, query: Seq<char>) -> nat {
    score_from(name, 0, query, 0)
}

/// What `offset_from` finds is an occurrence, nothing lies before it, and it
/// finds nothing only where there is nothing to find.
pub proof fn lemma_offset_from(name: Seq<char>, cursor: int, c: char)
    requires
        0 <= cursor <= name.len(),
    ensures
        match offset_from(name, cursor, c) {
            Some(p) => {
                &&& 0 <= p
                &&& cursor + p < name.len()
                &&& name[cursor + p] == c
                &&& forall|j: int| cursor <= j < cursor + p ==> name[j] != c
            },
            None => forall|j: int| cursor <= j < name.len() ==> name[j] != c,
        },
    decreases name.len() - cursor,
{
    if cursor < name.len() && name[cursor] != c {
        lemma_offset_from(name, cursor + 1, c);
    }
}

/// Finds the first occurrence of `c` in `name` at or after `cursor`, as an
/// offset from `cursor`.
pub fn find_offset(name: &Vec<char>, cursor: usize, c: char) -> (r: Option<usize>)
    requires
        cursor <= name@.len(),
    ensures
        match r {
            Some(p) => offset_from(name@, cursor as int, c) == Some(p as int) && cursor + p
                < name@.len(),
            None => offset_from(name@, cursor as int, c) is None,
        },
{
    let mut j: usize = cursor;
    while j < name.len()
        invariant
            cursor <= j <= name@.len(),
            forall|k: int| cursor <= k < j ==> name@[k] != c,
        decreases name@.len() - j,
    {
        if name[j] == c {
            proof {
                lemma_offset_from(name@, cursor as int, c);
            }
            return Some(j - cursor);
        }
        j += 1;
    }
    proof {
        lemma_offset_from(name@, cursor as int, c);
    }
    None
}

/// No score exceeds ten points for each query character still to come.
pub proof fn lemma_score_bound(name: Seq<char>, cursor: int, query: Seq<char>, i: int)
    requires
        0 <= i <= query.len(),
    ensures
        score_from(name, cursor, query, i) <= 10 * (query.len() - i),
    decreases query.len() - i,
{
    if i < query.len() {
        match offset_from(name, cursor, query[i]) {
            Some(p) => {
                lemma_offset_from(name, cursor, query[i]);
                lemma_score_bound(name, cursor + p + 1, query, i + 1);
            },
            None => {
                lemma_score_bound(name, cursor, query, i + 1);
            },
        }
    }
}

/// A text without its whitespace characters.
pub open spec fn without_whitespace(s: Seq<char>) -> Seq<char>
    decreases s.len(),
{
    if s.len() == 0 {
        Seq::<char>::empty()
    } else if is_whitespace_char(s.last()) {
        without_whitespace(s.drop_last())
    } else {
        without_whitespace(s.drop_last()).push(s.last())
    }
}

/// The form in which a name is matched: in lowercase, then cleared of
/// whitespace.
pub open spec fn normalized(name: Seq<char>) -> Seq<char> {
    without_whitespace(lowercase_of(name))
}

/// What is left of a text without its whitespace holds no whitespace.
pub proof fn lemma_without_whitespace_clean(s: Seq<char>)
    ensures
        forall|i: int|
            0 <= i < without_whitespace(s).len() ==> !is_whitespace_char(
                #[trigger] without_whitespace(s)[i],
            ),
    decreases s.len(),
{
    if s.len() > 0 {
        lemma_without_whitespace_clean(s.drop_last());
        let rest = without_whitespace(s.drop_last());
        assert forall|i: int| 0 <= i < without_whitespace(s).len() implies !is_whitespace_char(
            #[trigger] without_whitespace(s)[i],
        ) by {
            if i < rest.len() {
                assert(without_whitespace(s)[i] == rest[i]);
            }
        }
    }
}

/// Puts a name in the form in which it is matched.
pub fn normalize(name: &str) -> (out: Vec<char>)
    ensures
        out@ == normalized(name@),
{
    let lower = to_lowercase(name);
    let chars = chars_of(lower.as_str());
    let mut out: Vec<char> = Vec::new();
    let mut i: usize = 0;
    while i < chars.len()
        invariant
            i <= chars@.len(),
            out@ == without_whitespace(chars@.take(i as int)),
        decreases chars@.len() - i,
    {
        proof {
            assert(chars@.take(i + 1).drop_last() == chars@.take(i as int));
        }
        if !is_whitespace(chars[i]) {
            out.push(chars[i]);
        }
        i += 1;
    }
    proof {
        assert(chars@.take(chars@.len() as int) == chars@);
    }
    out
}

/// Ranks an already normalized name (lowercase, no whitespace) against a
/// query, which is matched literally.
pub fn rank_chars(name: &Vec<char>, query: &Vec<char>) -> (score: usize)
    requires
        10 * query@.len() <= usize::MAX,
    ensures
        score == ranking(name@, query@),
        score <= 10 * query@.len(),
{
    let name_len: usize = name.len();
    let mut score: usize = 0;
    let mut cursor: usize = 0;
    let mut i: usize = 0;
    while i < query.len()
        invariant
            i <= query@.len(),
            cursor <= name@.len() == name_len,
            10 * query@.len() <= usize::MAX,
            score + score_from(name@, cursor as int, query@, i as int) == ranking(name@, query@),
        decreases query@.len() - i,
    {
        proof {
            lemma_offset_from(name@, cursor as int, query@[i as int]);
            lemma_score_bound(name@, 0, query@, 0);
        }
        match find_offset(name, cursor, query[i]) {
            Some(p) => {
                cursor = cursor + p + 1;
                if p < BEST_GAIN {
                    score = score + (BEST_GAIN - p);
                }
            },
            None => {},
        }
        i += 1;
    }
    proof {
        lemma_score_bound(name@, 0, query@, 0);
    }
    score
}

/// Ranks an already normalized name against a query, both given as strings.
pub fn rank_normalized(name: &str, query: &str) -> (score: usize)
    requires
        10 * query@.len() <= usize::MAX,
    ensures
        score == ranking(name@, query@),
        score <= 10 * query@.len(),
{
    let n = chars_of(name);
    let q = chars_of(query);
    rank_chars(&n, &q)
}

/// Whatever the name and the query, the ranking is at most ten points for
/// each character of the query.
pub proof fn lemma_ranking_bounded(name: Seq<char>, query: Seq<char>)
    ensures
        ranking(name, query) <= 10 * query.len(),
{
    lemma_score_bound(name, 0, query, 0);
}

/// An empty query scores nothing, whatever the name.
pub proof fn lemma_empty_query(name: Seq<char>)
    ensures
        ranking(name, Seq::<char>::empty()) == 0,
{
}

/// A query character that does not occur in the name at or after the cursor
/// adds nothing and leaves the cursor where it was: the characters after it
/// are scored from the same cursor.
pub proof fn lemma_absent_char(name: Seq<char>, cursor: int, query: Seq<char>, i: int)
    requires
        0 <= cursor <= name.len(),
        0 <= i < query.len(),
        forall|j: int| cursor <= j < name.len() ==> name[j] != query[i],
    ensures
        score_from(name, cursor, query, i) == score_from(name, cursor, query, i + 1),
{
    lemma_offset_from(name, cursor, query[i]);
}

/// Scoring a query into which an absent character was put at index `k`:
/// before `k` the scores agree index by index, and after it one index apart.
proof fn lemma_insert_absent(
    name: Seq<char>,
    cursor: int,
    query: Seq<char>,
    k: int,
    c: char,
    i: int,
)
    requires
        0 <= cursor <= name.len(),
        0 <= k <= query.len(),
        0 <= i <= query.len(),
        forall|j: int| 0 <= j < name.len() ==> name[j] != c,
    ensures
        i <= k ==> score_from(name, cursor, query.insert(k, c), i) == score_from(
            name,
            cursor,
            query,
            i,
        ),
        i >= k ==> score_from(name, cursor, query.insert(k, c), i + 1) == score_from(
            name,
            cursor,
            query,
            i,
        ),
    decreases query.len() - i, k - i,
{
    let longer = query.insert(k, c);
    if i >= k && i < query.len() {
        assert(longer[i + 1] == query[i]);
        lemma_offset_from(name, cursor, query[i]);
        match offset_from(name, cursor, query[i]) {
            Some(p) => lemma_insert_absent(name, cursor + p + 1, query, k, c, i + 1),
            None => lemma_insert_absent(name, cursor, query, k, c, i + 1),
        }
    }
    if i == k {
        assert(longer[k] == c);
        lemma_offset_from(name, cursor, c);
        assert(offset_from(name, cursor, c) is None);
        if i == query.len() {
            assert(score_from(name, cursor, longer, i + 1) == 0);
        }
    }
    if i < k {
        assert(longer[i] == query[i]);
        lemma_offset_from(name, cursor, query[i]);
        match offset_from(name, cursor, query[i]) {
            Some(p) => lemma_insert_absent(name, cursor + p + 1, query, k, c, i + 1),
            None => lemma_insert_absent(name, cursor, query, k, c, i + 1),
        }
    }
}

/// A character that occurs nowhere in the name may be put into a query at
/// any place: the score stays what it was.
pub proof fn lemma_absent_char_ignored(name: Seq<char>, query: Seq<char>, k: int, c: char)
    requires
        0 <= k <= query.len(),
        forall|j: int| 0 <= j < name.len() ==> name[j] != c,
    ensures
        ranking(name, query.insert(k, c)) == ranking(name, query),
{
    lemma_insert_absent(name, 0, query, k, c, 0);
}

/// A character that occurs nowhere in the name may stand between any two
/// parts of a query: the score is that of the two parts alone.
pub proof fn lemma_absent_char_between(name: Seq<char>, before: Seq<char>, c: char, after: Seq<char>)
    requires
        forall|j: int| 0 <= j < name.len() ==> name[j] != c,
    ensures
        ranking(name, before + seq![c] + after) == ranking(name, before + after),
{
    lemma_absent_char_ignored(name, before + after, before.len() as int, c);
    assert((before + after).insert(before.len() as int, c) =~= before + seq![c] + after);
}

} // verus!
