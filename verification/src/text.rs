//! Turning a boss's story text into paragraphs: the text is split at blank
//! lines, every piece is trimmed of surrounding whitespace, and empty pieces
//! are dropped.

use regex::Regex;
use vstd::prelude::*;

verus! {

/// The characters with the Unicode `White_Space` property, the whitespace of
/// `char::is_whitespace` and `str::trim`.
pub open spec fn is_whitespace_spec(c: char) -> bool {
    let u = c as u32;
    ||| 0x09 <= u <= 0x0D
    ||| u == 0x20
    ||| u == 0x85
    ||| u == 0xA0
    ||| u == 0x1680
    ||| 0x2000 <= u <= 0x200A
    ||| u == 0x2028
    ||| u == 0x2029
    ||| u == 0x202F
    ||| u == 0x205F
    ||| u == 0x3000
}

pub fn is_whitespace(c: char) -> (r: bool)
    ensures
        r == is_whitespace_spec(c),
{
    let u = c as u32;
    (0x09 <= u && u <= 0x0D) || u == 0x20 || u == 0x85 || u == 0xA0 || u == 0x1680 || (0x2000 <= u
        && u <= 0x200A) || u == 0x2028 || u == 0x2029 || u == 0x202F || u == 0x205F || u == 0x3000
}

/// The text without its leading whitespace.
pub open spec fn trim_start_spec(s: Seq<char>) -> Seq<char>
    decreases s.len(),
{
    if s.len() > 0 && is_whitespace_spec(s[0]) {
        trim_start_spec(s.drop_first())
    } else {
        s
    }
}

/// The text without its trailing whitespace.
pub open spec fn trim_end_spec(s: Seq<char>) -> Seq<char>
    decreases s.len(),
{
    if s.len() > 0 && is_whitespace_spec(s.last()) {
        trim_end_spec(s.drop_last())
    } else {
        s
    }
}

/// The text without whitespace at either end, as `str::trim` returns it.
pub open spec fn trim_spec(s: Seq<char>) -> Seq<char> {
    trim_end_spec(trim_start_spec(s))
}

proof fn lemma_trim_start_step(s: Seq<char>, i: int)
    requires
        0 <= i < s.len(),
        is_whitespace_spec(s[i]),
    ensures
        trim_start_spec(s.subrange(i, s.len() as int)) == trim_start_spec(
            s.subrange(i + 1, s.len() as int),
        ),
{
    assert(s.subrange(i, s.len() as int).drop_first() =~= s.subrange(i + 1, s.len() as int));
}

proof fn lemma_trim_end_step(s: Seq<char>, j: int)
    requires
        0 < j <= s.len(),
        is_whitespace_spec(s[j - 1]),
    ensures
        trim_end_spec(s.subrange(0, j)) == trim_end_spec(s.subrange(0, j - 1)),
{
    assert(s.subrange(0, j).drop_last() =~= s.subrange(0, j - 1));
}

/// Removes whitespace from both ends of a text.
pub fn trim(s: &str) -> (r: String)
    ensures
        r@ == trim_spec(s@),
{
    let n = s.unicode_len();
    let mut start: usize = 0;
    assert(s@.subrange(0, n as int) =~= s@);
    while start < n && is_whitespace(s.get_char(start))
        invariant
            n == s@.len(),
            0 <= start <= n,
            trim_start_spec(s@) == trim_start_spec(s@.subrange(start as int, n as int)),
        decreases n - start,
    {
        proof {
            lemma_trim_start_step(s@, start as int);
        }
        start = start + 1;
    }
    let ghost t = s@.subrange(start as int, n as int);
    proof {
        assert(s@.subrange(start as int, n as int) =~= t);
        if start < n {
            assert(t[0] == s@[start as int]);
        }
        assert(trim_start_spec(t) == t);
    }
    let mut end: usize = n;
    assert(t.subrange(0, n - start) =~= t);
    while end > start && is_whitespace(s.get_char(end - 1))
        invariant
            n == s@.len(),
            0 <= start <= end <= n,
            t == s@.subrange(start as int, n as int),
            trim_end_spec(t) == trim_end_spec(t.subrange(0, end - start)),
        decreases end - start,
    {
        proof {
            assert(t[end - start - 1] == s@[end - 1]);
            lemma_trim_end_step(t, end - start);
        }
        end = end - 1;
    }
    proof {
        let u = t.subrange(0, end - start);
        if end > start {
            assert(u.last() == s@[end - 1]);
        }
        assert(trim_end_spec(u) == u);
        assert(u =~= s@.subrange(start as int, end as int));
    }
    String::from_str(s.substring_char(start, end))
}

/// The pattern at which story text breaks into paragraphs: a blank line,
/// that is two line breaks with only whitespace between them.
pub const BLANK_LINE_PATTERN: &'static str = "\n\\s*\n";

/// What `Regex::new(pattern)` followed by `split(text)` yields: `None` where
/// the pattern does not compile, else the pieces of the text between matches.
pub uninterp spec fn regex_split_result(pattern: Seq<char>, text: Seq<char>) -> Option<
    Seq<Seq<char>>,
>;

/// Compiles `pattern` with the `regex` crate's `Regex::new` and splits
/// `text` with `Regex::split`. Claims that the outcome, `None` for a pattern
/// that does not compile and otherwise the pieces in order, is the named
/// result for that pattern and that text; what the pieces hold is left to the
/// name.
#[verifier::external_body]
fn regex_split(pattern: &str, text: &str) -> (r: Option<Vec<String>>)
    ensures
        match r {
            Some(v) => regex_split_result(pattern@, text@) == Some(v@.map_values(|p: String| p@)),
            None => regex_split_result(pattern@, text@) is None,
        },
{
    match Regex::new(pattern) {
        Ok(re) => Some(re.split(text).map(str::to_string).collect()),
        Err(_) => None,
    }
}

/// The paragraphs among the pieces: each piece trimmed, the empty ones dropped.
pub open spec fn paragraphs_spec(pieces: Seq<Seq<char>>) -> Seq<Seq<char>>
    decreases pieces.len(),
{
    if pieces.len() == 0 {
        Seq::empty()
    } else {
        let rest = paragraphs_spec(pieces.drop_last());
        let t = trim_spec(pieces.last());
        if t.len() > 0 {
            rest.push(t)
        } else {
            rest
        }
    }
}

/// The paragraphs are exactly the trimmed pieces with the empty ones removed,
/// in order: every piece whose trim is non-empty gives one paragraph.
pub proof fn lemma_paragraphs_are_nonempty_trims(pieces: Seq<Seq<char>>)
    ensures
        paragraphs_spec(pieces) == pieces.map_values(|p: Seq<char>| trim_spec(p)).filter(
            |t: Seq<char>| t.len() > 0,
        ),
    decreases pieces.len(),
{
    reveal(Seq::filter);
    let trims = pieces.map_values(|p: Seq<char>| trim_spec(p));
    if pieces.len() > 0 {
        lemma_paragraphs_are_nonempty_trims(pieces.drop_last());
        assert(trims.drop_last() =~= pieces.drop_last().map_values(|p: Seq<char>| trim_spec(p)));
        assert(trims.last() == trim_spec(pieces.last()));
    } else {
        assert(trims =~= Seq::<Seq<char>>::empty());
    }
}

/// Trims every piece and keeps the non-empty ones, in order.
pub fn paragraphs_from_pieces(pieces: &Vec<String>) -> (r: Vec<String>)
    ensures
        r@.map_values(|p: String| p@) == paragraphs_spec(pieces@.map_values(|p: String| p@)),
{
    let ghost views = pieces@.map_values(|p: String| p@);
    let mut result: Vec<String> = Vec::new();
    let n = pieces.len();
    for i in 0..n
        invariant
            n == pieces.len(),
            views == pieces@.map_values(|p: String| p@),
            result@.map_values(|p: String| p@) == paragraphs_spec(views.take(i as int)),
    {
        let t = trim(pieces[i].as_str());
        proof {
            assert(views.take(i + 1).drop_last() =~= views.take(i as int));
            assert(views.take(i + 1).last() == pieces@[i as int]@);
        }
        let keep = t.as_str().unicode_len() > 0;
        if keep {
            let ghost before = result@;
            result.push(t);
            proof {
                assert(result@.map_values(|p: String| p@) =~= before.map_values(|p: String| p@).push(
                    t@,
                ));
            }
        }
    }
    proof {
        assert(views.take(n as int) =~= views);
    }
    result
}

/// Splits a text into paragraphs: the pieces between blank lines
/// (`BLANK_LINE_PATTERN`), trimmed, the empty ones dropped. `None` only where
/// the pattern does not compile.
pub fn split_paragraphs(text: &str) -> (r: Option<Vec<String>>)
    ensures
        match r {
            Some(v) => exists|pieces: Seq<Seq<char>>|
                regex_split_result(BLANK_LINE_PATTERN@, text@) == Some(pieces)
                    && v@.map_values(|p: String| p@) == paragraphs_spec(pieces),
            None => regex_split_result(BLANK_LINE_PATTERN@, text@) is None,
        },
{
    match regex_split(BLANK_LINE_PATTERN, text) {
        Some(pieces) => {
            let r = paragraphs_from_pieces(&pieces);
            assert(regex_split_result(BLANK_LINE_PATTERN@, text@) == Some(
                pieces@.map_values(|p: String| p@),
            ));
            Some(r)
        },
        None => None,
    }
}

proof fn lemma_trim_start_shape(s: Seq<char>)
    ensures
        trim_start_spec(s).len() > 0 ==> !is_whitespace_spec(trim_start_spec(s)[0]),
    decreases s.len(),
{
    if s.len() > 0 && is_whitespace_spec(s[0]) {
        lemma_trim_start_shape(s.drop_first());
    }
}

proof fn lemma_trim_end_shape(s: Seq<char>)
    ensures
        trim_end_spec(s).len() <= s.len(),
        trim_end_spec(s) =~= s.subrange(0, trim_end_spec(s).len() as int),
        trim_end_spec(s).len() > 0 ==> !is_whitespace_spec(trim_end_spec(s).last()),
    decreases s.len(),
{
    if s.len() > 0 && is_whitespace_spec(s.last()) {
        lemma_trim_end_shape(s.drop_last());
    }
}

/// A trimmed text has no whitespace at either end.
pub proof fn lemma_trim_has_no_outer_whitespace(s: Seq<char>)
    ensures
        trim_spec(s).len() > 0 ==> !is_whitespace_spec(trim_spec(s)[0]) && !is_whitespace_spec(
            trim_spec(s).last(),
        ),
{
    let a = trim_start_spec(s);
    lemma_trim_start_shape(s);
    lemma_trim_end_shape(a);
    if trim_spec(s).len() > 0 {
        assert(trim_spec(s)[0] == a[0]);
    }
}

/// Every paragraph is non-empty and has no whitespace at either end.
pub proof fn lemma_paragraphs_are_trimmed(pieces: Seq<Seq<char>>)
    ensures
        forall|i: int|
            0 <= i < paragraphs_spec(pieces).len() ==> {
                let p = #[trigger] paragraphs_spec(pieces)[i];
                &&& p.len() > 0
                &&& !is_whitespace_spec(p[0])
                &&& !is_whitespace_spec(p.last())
            },
    decreases pieces.len(),
{
    if pieces.len() > 0 {
        let rest = paragraphs_spec(pieces.drop_last());
        let t = trim_spec(pieces.last());
        lemma_paragraphs_are_trimmed(pieces.drop_last());
        lemma_trim_has_no_outer_whitespace(pieces.last());
        assert forall|i: int| 0 <= i < paragraphs_spec(pieces).len() implies {
            let p = #[trigger] paragraphs_spec(pieces)[i];
            &&& p.len() > 0
            &&& !is_whitespace_spec(p[0])
            &&& !is_whitespace_spec(p.last())
        } by {
            if i < rest.len() {
                assert(paragraphs_spec(pieces)[i] == rest[i]);
            } else {
                assert(paragraphs_spec(pieces)[i] == t);
            }
        }
    }
}

} // verus!
