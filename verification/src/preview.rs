//! Link previews: given the text of a fetched page, pick out the document
//! title and the Open Graph metadata. Fetching is the caller's concern; the
//! extraction itself is plain text search, verified against first-occurrence
//! definitions over the character sequence.

use vstd::prelude::*;
use crate::strutil::{char_is_whitespace, chars_of};

verus! {

/// What a preview reports about a page.
pub struct LinkPreviewResponse {
    pub title: Option<String>,
    pub description: Option<String>,
    pub image: Option<String>,
    pub url: String,
}

/// Whether the pattern occurs in `s` at position `i`.
pub open spec fn matches_at(s: Seq<char>, p: Seq<char>, i: int) -> bool {
    0 <= i && i + p.len() <= s.len() && s.subrange(i, i + p.len() as int) == p
}

/// The first position at or after `from` where the pattern occurs.
pub open spec fn first_sub_from(s: Seq<char>, p: Seq<char>, from: int) -> Option<int>
    decreases s.len() + 1 - from when 0 <= from
{
    if from < 0 || from + p.len() > s.len() {
        None
    } else if matches_at(s, p, from) {
        Some(from)
    } else {
        first_sub_from(s, p, from + 1)
    }
}

/// The first position at or after `from` holding the character `c`.
pub open spec fn first_char_from(s: Seq<char>, c: char, from: int) -> Option<int>
    decreases s.len() + 1 - from when 0 <= from
{
    if from < 0 || from >= s.len() {
        None
    } else if s[from] == c {
        Some(from)
    } else {
        first_char_from(s, c, from + 1)
    }
}

/// A found position lies in range and matches.
pub proof fn lemma_first_sub_from_some(s: Seq<char>, p: Seq<char>, from: int, i: int)
    requires
        first_sub_from(s, p, from) == Some(i),
        0 <= from,
    ensures
        from <= i,
        matches_at(s, p, i),
    decreases s.len() + 1 - from,
{
    if from + p.len() > s.len() {
    } else if matches_at(s, p, from) {
    } else {
        lemma_first_sub_from_some(s, p, from + 1, i);
    }
}

/// The attribute pattern naming the property directly.
pub open spec fn meta_pattern_property(property: Seq<char>) -> Seq<char> {
    "property=\""@ + property + "\" content=\""@
}

/// The attribute pattern using the name attribute.
pub open spec fn meta_pattern_name(property: Seq<char>) -> Seq<char> {
    "name=\""@ + property + "\" content=\""@
}

/// The text between the first occurrence of the pattern and the next quote.
pub open spec fn extract_between(body: Seq<char>, pattern: Seq<char>) -> Option<Seq<char>> {
    match first_sub_from(body, pattern, 0) {
        None => None,
        Some(st) => {
            let off = st + pattern.len();
            match first_char_from(body, '"', off) {
                None => None,
                Some(end) => Some(body.subrange(off, end)),
            }
        },
    }
}

/// The content of the named meta property: the property form wins, the name
/// form is the fallback.
pub open spec fn meta_content(body: Seq<char>, property: Seq<char>) -> Option<Seq<char>> {
    match extract_between(body, meta_pattern_property(property)) {
        Some(v) => Some(v),
        None => extract_between(body, meta_pattern_name(property)),
    }
}

/// The sequence without leading whitespace.
pub open spec fn trim_start_of(s: Seq<char>) -> Seq<char>
    decreases s.len(),
{
    if s.len() > 0 && char_is_whitespace(s[0]) {
        trim_start_of(s.drop_first())
    } else {
        s
    }
}

/// The sequence without trailing whitespace.
pub open spec fn trim_end_of(s: Seq<char>) -> Seq<char>
    decreases s.len(),
{
    if s.len() > 0 && char_is_whitespace(s.last()) {
        trim_end_of(s.drop_last())
    } else {
        s
    }
}

/// The sequence without leading or trailing whitespace.
pub open spec fn trim_of(s: Seq<char>) -> Seq<char> {
    trim_end_of(trim_start_of(s))
}

/// The document title: what stands between the title tags, trimmed.
pub open spec fn title_of(body: Seq<char>) -> Option<Seq<char>> {
    match first_sub_from(body, "<title>"@, 0) {
        None => None,
        Some(ts) => match first_sub_from(body, "</title>"@, ts) {
            None => None,
            Some(te) => Some(trim_of(body.subrange(ts + 7, te))),
        },
    }
}

/// The preview title: the Open Graph title wins over the document title.
pub open spec fn preview_title_of(body: Seq<char>) -> Option<Seq<char>> {
    match meta_content(body, "og:title"@) {
        Some(v) => Some(v),
        None => title_of(body),
    }
}

/// The preview description: Open Graph first, the plain description second.
pub open spec fn preview_description_of(body: Seq<char>) -> Option<Seq<char>> {
    match meta_content(body, "og:description"@) {
        Some(v) => Some(v),
        None => meta_content(body, "description"@),
    }
}

/// Whether the pattern occurs at position `i`, executably.
fn match_here(s: &Vec<char>, p: &Vec<char>, i: usize) -> (b: bool)
    requires
        i + p@.len() <= s@.len(),
    ensures
        b == matches_at(s@, p@, i as int),
{
    let n = s.len();
    let mut k: usize = 0;
    while k < p.len()
        invariant
            n == s@.len(),
            i + p@.len() <= s@.len(),
            k <= p@.len(),
            forall|j: int| 0 <= j < k ==> s@[i + j] == p@[j],
        decreases p@.len() - k,
    {
        if s[i + k] != p[k] {
            proof {
                assert(s@.subrange(i as int, i + p@.len() as int)[k as int] == s@[i + k]);
            }
            return false;
        }
        k = k + 1;
    }
    proof {
        assert(s@.subrange(i as int, i + p@.len() as int) =~= p@);
    }
    true
}

/// The first occurrence of the pattern at or after `from`, executably.
fn find_sub_from(s: &Vec<char>, p: &Vec<char>, from: usize) -> (r: Option<usize>)
    ensures
        match r {
            Some(i) => first_sub_from(s@, p@, from as int) == Some(i as int),
            None => first_sub_from(s@, p@, from as int) is None,
        },
{
    if p.len() > s.len() {
        return None;
    }
    let bound = s.len() - p.len();
    if from > bound {
        return None;
    }
    let mut i: usize = from;
    while i < bound
        invariant
            p@.len() <= s@.len(),
            bound == s@.len() - p@.len(),
            from <= i <= bound,
            first_sub_from(s@, p@, from as int) == first_sub_from(s@, p@, i as int),
        decreases bound - i,
    {
        if match_here(s, p, i) {
            return Some(i);
        }
        i = i + 1;
    }
    if match_here(s, p, bound) {
        return Some(bound);
    }
    proof {
        assert(first_sub_from(s@, p@, bound as int) == first_sub_from(s@, p@, bound + 1));
        assert(first_sub_from(s@, p@, bound + 1) is None);
    }
    None
}

/// The first quote at or after `from`, executably.
fn find_char_from(s: &Vec<char>, c: char, from: usize) -> (r: Option<usize>)
    ensures
        match r {
            Some(i) => first_char_from(s@, c, from as int) == Some(i as int),
            None => first_char_from(s@, c, from as int) is None,
        },
{
    let mut i: usize = from;
    while i < s.len()
        invariant
            from <= i,
            first_char_from(s@, c, from as int) == first_char_from(s@, c, i as int),
        decreases s@.len() - i,
    {
        if s[i] == c {
            return Some(i);
        }
        i = i + 1;
    }
    None
}

/// The characters of `s` from `a` to `b`, as a string.
fn string_of_range(s: &Vec<char>, a: usize, b: usize) -> (r: String)
    requires
        a <= b <= s@.len(),
    ensures
        r@ == s@.subrange(a as int, b as int),
{
    let mut out = String::new();
    let mut i: usize = a;
    while i < b
        invariant
            a <= i <= b <= s@.len(),
            out@ == s@.subrange(a as int, i as int),
        decreases b - i,
    {
        out.push(s[i]);
        proof {
            assert(out@ =~= s@.subrange(a as int, i + 1));
        }
        i = i + 1;
    }
    out
}

/// The characters of `s` from `a` to `b`, trimmed, as a string.
fn trimmed_range(s: &Vec<char>, from: usize, to: usize) -> (r: String)
    requires
        from <= to <= s@.len(),
    ensures
        r@ == trim_of(s@.subrange(from as int, to as int)),
{
    let mut a = from;
    while a < to && s[a].is_whitespace()
        invariant
            from <= a <= to <= s@.len(),
            trim_start_of(s@.subrange(from as int, to as int)) == trim_start_of(
                s@.subrange(a as int, to as int),
            ),
        decreases to - a,
    {
        proof {
            let cur = s@.subrange(a as int, to as int);
            assert(cur[0] == s@[a as int]);
            assert(cur.drop_first() =~= s@.subrange(a + 1, to as int));
        }
        a = a + 1;
    }
    proof {
        let cur = s@.subrange(a as int, to as int);
        if cur.len() > 0 {
            assert(cur[0] == s@[a as int]);
        }
        assert(trim_start_of(cur) == cur);
    }
    let mut b = to;
    while b > a && s[b - 1].is_whitespace()
        invariant
            from <= a <= b <= to <= s@.len(),
            trim_start_of(s@.subrange(from as int, to as int)) == s@.subrange(a as int, to as int),
            trim_end_of(s@.subrange(a as int, to as int)) == trim_end_of(
                s@.subrange(a as int, b as int),
            ),
        decreases b - a,
    {
        proof {
            let cur = s@.subrange(a as int, b as int);
            assert(cur.last() == s@[b - 1]);
            assert(cur.drop_last() =~= s@.subrange(a as int, b - 1));
        }
        b = b - 1;
    }
    proof {
        let cur = s@.subrange(a as int, b as int);
        if cur.len() > 0 {
            assert(cur.last() == s@[b - 1]);
        }
        assert(trim_end_of(cur) == cur);
    }
    string_of_range(s, a, b)
}

/// The content of the named meta property in the page text; the attribute
/// may be written as a property or as a name.
pub fn extract_meta(body: &str, property: &str) -> (r: Option<String>)
    ensures
        match r {
            Some(v) => meta_content(body@, property@) == Some(v@),
            None => meta_content(body@, property@) is None,
        },
{
    let bs = chars_of(body);
    let prop = chars_of(property);
    let mut pat1 = chars_of("property=\"");
    append_chars(&mut pat1, &prop);
    let mut quote_content = chars_of("\" content=\"");
    append_chars(&mut pat1, &quote_content);
    proof {
        assert(pat1@ == meta_pattern_property(property@));
    }
    match try_extract(&bs, &pat1) {
        Some(v) => Some(v),
        None => {
            let mut pat2 = chars_of("name=\"");
            append_chars(&mut pat2, &prop);
            let quote_content2 = chars_of("\" content=\"");
            append_chars(&mut pat2, &quote_content2);
            proof {
                assert(pat2@ == meta_pattern_name(property@));
            }
            try_extract(&bs, &pat2)
        },
    }
}

/// Appends `other` to `v`.
fn append_chars(v: &mut Vec<char>, other: &Vec<char>)
    ensures
        final(v)@ == old(v)@ + other@,
{
    let mut i: usize = 0;
    proof {
        assert(v@ =~= old(v)@ + other@.subrange(0, 0));
    }
    while i < other.len()
        invariant
            i <= other@.len(),
            v@ == old(v)@ + other@.subrange(0, i as int),
        decreases other@.len() - i,
    {
        v.push(other[i]);
        proof {
            assert(v@ =~= old(v)@ + other@.subrange(0, i + 1));
        }
        i = i + 1;
    }
    proof {
        assert(other@.subrange(0, other@.len() as int) =~= other@);
    }
}

/// The text between the first occurrence of the pattern and the next quote,
/// executably.
fn try_extract(bs: &Vec<char>, pat: &Vec<char>) -> (r: Option<String>)
    ensures
        match r {
            Some(v) => extract_between(bs@, pat@) == Some(v@),
            None => extract_between(bs@, pat@) is None,
        },
{
    let st = match find_sub_from(bs, pat, 0) {
        Some(st) => st,
        None => { return None },
    };
    let blen = bs.len();
    proof {
        lemma_first_sub_from_some(bs@, pat@, 0, st as int);
        assert(st + pat@.len() <= blen as int);
    }
    let off = st + pat.len();
    let end = match find_char_from(bs, '"', off) {
        Some(end) => end,
        None => { return None },
    };
    proof {
        lemma_first_char_from_some(bs@, '"', off as int, end as int);
    }
    Some(string_of_range(bs, off, end))
}

/// A found character position lies in range.
pub proof fn lemma_first_char_from_some(s: Seq<char>, c: char, from: int, i: int)
    requires
        first_char_from(s, c, from) == Some(i),
        0 <= from,
    ensures
        from <= i < s.len(),
        s[i] == c,
    decreases s.len() + 1 - from,
{
    if from >= s.len() {
    } else if s[from] == c {
    } else {
        lemma_first_char_from_some(s, c, from + 1, i);
    }
}

/// The closing tag of a title cannot begin inside the opening tag, so the
/// extracted range is well formed.
proof fn lemma_title_range(body: Seq<char>, ts: int, te: int)
    requires
        matches_at(body, "<title>"@, ts),
        matches_at(body, "</title>"@, te),
        ts <= te,
    ensures
        ts + 7 <= te,
{
    reveal_strlit("<title>");
    reveal_strlit("</title>");
    if te < ts + 7 {
        let open = "<title>"@;
        let close = "</title>"@;
        assert(forall|k: int|
            0 <= k < 7 ==> body.subrange(ts, ts + 7)[k] == #[trigger] body[ts + k]);
        assert(forall|k: int|
            0 <= k < 8 ==> body.subrange(te, te + 8)[k] == #[trigger] body[te + k]);
        if te == ts {
            assert(body[ts + 1] == open[1]);
            assert(body[te + 1] == close[1]);
        } else {
            let d = te - ts;
            assert(body[ts + d] == open[d]);
            assert(body[te + 0] == close[0]);
        }
    }
}

/// Builds the preview of a fetched page: the title (Open Graph first, the
/// document title second), the description and the image, together with the
/// page's own address.
pub fn build_link_preview(body: &str, url: String) -> (r: LinkPreviewResponse)
    ensures
        (match r.title {
            Some(t) => preview_title_of(body@) == Some(t@),
            None => preview_title_of(body@) is None,
        }),
        (match r.description {
            Some(d) => preview_description_of(body@) == Some(d@),
            None => preview_description_of(body@) is None,
        }),
        (match r.image {
            Some(im) => meta_content(body@, "og:image"@) == Some(im@),
            None => meta_content(body@, "og:image"@) is None,
        }),
        r.url == url,
{
    let bs = chars_of(body);
    let open_tag = chars_of("<title>");
    let close_tag = chars_of("</title>");
    let mut doc_title: Option<String> = None;
    if let Some(ts) = find_sub_from(&bs, &open_tag, 0) {
        proof {
            lemma_first_sub_from_some(bs@, "<title>"@, 0, ts as int);
        }
        if let Some(te) = find_sub_from(&bs, &close_tag, ts) {
            proof {
                lemma_first_sub_from_some(bs@, "</title>"@, ts as int, te as int);
                lemma_title_range(bs@, ts as int, te as int);
            }
            doc_title = Some(trimmed_range(&bs, ts + 7, te));
        }
    }
    let og_title = extract_meta(body, "og:title");
    let title = match og_title {
        Some(t) => Some(t),
        None => doc_title,
    };
    let description = match extract_meta(body, "og:description") {
        Some(d) => Some(d),
        None => extract_meta(body, "description"),
    };
    let image = extract_meta(body, "og:image");
    LinkPreviewResponse { title, description, image, url }
}

} // verus!
