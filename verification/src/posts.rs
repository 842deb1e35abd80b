//! Text helpers for authored content: a URL slug derived from a title and an
//! estimated reading time. Case folding and the character classes come from
//! std and are taken on trust; the folding and counting logic itself is
//! verified against recursive definitions over the character sequence.

use vstd::prelude::*;
use crate::strutil::{char_is_alphanumeric, char_is_whitespace, chars_of, lower_of, lowercase};

verus! {

/// One step of slug building: an alphanumeric character is appended, with a
/// single dash first when words were separated; whitespace marks a
/// separation once something has been written; anything else is dropped.
pub open spec fn slug_step(out: Seq<char>, pending: bool, c: char) -> (Seq<char>, bool) {
    if char_is_alphanumeric(c) {
        if pending {
            (out.push('-').push(c), false)
        } else {
            (out.push(c), false)
        }
    } else if char_is_whitespace(c) {
        (out, out.len() > 0)
    } else {
        (out, pending)
    }
}

/// The slug accumulated over a character sequence.
pub open spec fn slug_acc(s: Seq<char>, out: Seq<char>, pending: bool) -> Seq<char>
    decreases s.len(),
{
    if s.len() == 0 {
        out
    } else {
        let next = slug_step(out, pending, s[0]);
        slug_acc(s.drop_first(), next.0, next.1)
    }
}

/// The slug of a title: its lowercase form with every run of separators
/// collapsed to one dash and everything but letters, digits and word breaks
/// dropped.
pub open spec fn slug_of(title: Seq<char>) -> Seq<char> {
    slug_acc(lower_of(title), Seq::empty(), false)
}

/// The URL slug for a title.
pub fn generate_slug(title: &str) -> (r: String)
    ensures
        r@ == slug_of(title@),
{
    let low = lowercase(title);
    let cs = chars_of(low.as_str());
    let mut out = String::new();
    let mut pending = false;
    let mut i: usize = 0;
    proof {
        assert(cs@.subrange(0, cs@.len() as int) =~= cs@);
    }
    while i < cs.len()
        invariant
            i <= cs@.len(),
            cs@ == lower_of(title@),
            pending ==> out@.len() > 0,
            slug_of(title@) == slug_acc(
                cs@.subrange(i as int, cs@.len() as int),
                out@,
                pending,
            ),
        decreases cs@.len() - i,
    {
        let ghost rest = cs@.subrange(i as int, cs@.len() as int);
        proof {
            assert(rest[0] == cs@[i as int]);
            assert(rest.drop_first() =~= cs@.subrange(i + 1, cs@.len() as int));
        }
        let c = cs[i];
        if c.is_alphanumeric() {
            if pending {
                out.push('-');
            }
            out.push(c);
            pending = false;
        } else if c.is_whitespace() {
            if !out.as_str().is_empty() {
                pending = true;
            }
        }
        i = i + 1;
    }
    proof {
        assert(cs@.subrange(cs@.len() as int, cs@.len() as int).len() == 0);
    }
    out
}

/// The number of whitespace-separated words, accumulated left to right.
pub open spec fn word_count_acc(s: Seq<char>, in_word: bool) -> int
    decreases s.len(),
{
    if s.len() == 0 {
        0
    } else {
        let starts = !char_is_whitespace(s[0]) && !in_word;
        (if starts {
            1int
        } else {
            0int
        }) + word_count_acc(s.drop_first(), !char_is_whitespace(s[0]))
    }
}

/// The number of whitespace-separated words.
pub open spec fn word_count(s: Seq<char>) -> int {
    word_count_acc(s, false)
}

/// The count never exceeds the number of characters.
pub proof fn lemma_word_count_le_len(s: Seq<char>, in_word: bool)
    ensures
        0 <= word_count_acc(s, in_word) <= s.len(),
    decreases s.len(),
{
    if s.len() > 0 {
        lemma_word_count_le_len(s.drop_first(), !char_is_whitespace(s[0]));
    }
}

/// The estimated reading time in minutes, at two hundred words per minute,
/// never below one.
pub fn calculate_reading_time(content: &str) -> (r: i32)
    ensures
        word_count(content@) / 200 + 1 <= i32::MAX ==> r as int == word_count(content@) / 200 + 1,
{
    let cs = chars_of(content);
    let mut count: usize = 0;
    let mut in_word = false;
    let mut i: usize = 0;
    proof {
        assert(cs@.subrange(0, cs@.len() as int) =~= cs@);
        lemma_word_count_le_len(cs@, false);
    }
    while i < cs.len()
        invariant
            i <= cs@.len(),
            cs@ == content@,
            count <= i,
            word_count(content@) == count + word_count_acc(
                cs@.subrange(i as int, cs@.len() as int),
                in_word,
            ),
        decreases cs@.len() - i,
    {
        let ghost rest = cs@.subrange(i as int, cs@.len() as int);
        proof {
            assert(rest[0] == cs@[i as int]);
            assert(rest.drop_first() =~= cs@.subrange(i + 1, cs@.len() as int));
            lemma_word_count_le_len(rest.drop_first(), !char_is_whitespace(rest[0]));
        }
        let c = cs[i];
        let ws = c.is_whitespace();
        if !ws && !in_word {
            count = count + 1;
        }
        in_word = !ws;
        i = i + 1;
    }
    proof {
        assert(cs@.subrange(cs@.len() as int, cs@.len() as int).len() == 0);
    }
    let minutes: usize = count / 200 + 1;
    if minutes > (i32::MAX as usize) {
        i32::MAX
    } else {
        minutes as i32
    }
}

/// An approval decision on a post.
pub struct ApprovePostRequest {
    pub status: String,
    pub comments: Option<String>,
    pub rejection_reason: Option<String>,
}

/// How a post listing is narrowed.
pub struct PostFilter {
    pub status: Option<String>,
    pub post_type: Option<String>,
    pub category: Option<String>,
    pub author: Option<String>,
    pub search: Option<String>,
    pub date_from: Option<String>,
    pub date_to: Option<String>,
    pub sort_by: Option<String>,
    pub sort_order: Option<String>,
    pub page: Option<i64>,
    pub limit: Option<i64>,
}

} // verus!
