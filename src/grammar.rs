//! The line grammar: block fences in the document, tag lines in example files.
use vstd::prelude::*;

use crate::text::{same_text, trim_str, trimmed};

verus! {

/// An ASCII decimal digit.
pub open spec fn is_digit(c: char) -> bool {
    '0' <= c && c <= '9'
}

/// A non-empty string of decimal digits: the form of a snippet identifier.
pub open spec fn is_identifier(id: Seq<char>) -> bool {
    id.len() > 0 && forall|k: int| 0 <= k < id.len() ==> is_digit(#[trigger] id[k])
}

/// The longest identifier that tag lines are searched for; the search
/// pattern grows with the identifier.
pub const MAX_ID_LEN: usize = 1000000;

/// Whether `id` has the form of a snippet identifier.
pub fn is_snippet_id(id: &str) -> (r: bool)
    ensures
        r == is_identifier(id@),
{
    let n = id.unicode_len();
    if n == 0 {
        return false;
    }
    let mut i: usize = 0;
    while i < n
        invariant
            n == id@.len(),
            i <= n,
            forall|k: int| 0 <= k < i ==> is_digit(#[trigger] id@[k]),
        decreases n - i,
    {
        let c = id.get_char(i);
        if !('0' <= c && c <= '9') {
            return false;
        }
        i = i + 1;
    }
    true
}

/// The longest prefix of `s` made of digits.
pub open spec fn digit_run(s: Seq<char>) -> Seq<char>
    decreases s.len(),
{
    if s.len() > 0 && is_digit(s[0]) {
        seq![s[0]] + digit_run(s.drop_first())
    } else {
        seq![]
    }
}

/// A run of digits holds digits only.
proof fn lemma_digit_run(s: Seq<char>)
    ensures
        forall|k: int| 0 <= k < digit_run(s).len() ==> is_digit(#[trigger] digit_run(s)[k]),
    decreases s.len(),
{
    if s.len() > 0 && is_digit(s[0]) {
        lemma_digit_run(s.drop_first());
        let r = digit_run(s.drop_first());
        assert forall|k: int| 0 < k < digit_run(s).len() implies digit_run(s)[k] == r[k - 1] by {}
    }
}

/// What a start fence names is an identifier.
pub proof fn lemma_start_id_is_identifier(line: Seq<char>)
    requires
        block_start(line) is Some,
    ensures
        is_identifier(block_start(line)->Some_0),
{
    let t = trimmed(line);
    lemma_digit_run(t.subrange(start_marker().len() as int, t.len() as int));
}

/// What opens a block: a fence, the language `yaml` and `#s`.
pub open spec fn start_marker() -> Seq<char> {
    seq!['`', '`', '`', 'y', 'a', 'm', 'l', ' ', '#', 's']
}

/// The closing fence.
pub open spec fn end_marker() -> Seq<char> {
    seq!['`', '`', '`']
}

/// The identifier of a text that begins with the start marker and a digit:
/// all the digits that follow the marker. Anything after them is ignored.
pub open spec fn start_id_of(t: Seq<char>) -> Option<Seq<char>> {
    let p = start_marker();
    if t.len() >= p.len() && t.subrange(0, p.len() as int) == p
        && digit_run(t.subrange(p.len() as int, t.len() as int)).len() > 0 {
        Some(digit_run(t.subrange(p.len() as int, t.len() as int)))
    } else {
        None
    }
}

/// The identifier that a document line opens a block with, if it opens one;
/// surrounding whitespace is ignored.
pub open spec fn block_start(line: Seq<char>) -> Option<Seq<char>> {
    start_id_of(trimmed(line))
}

/// A document line that closes a block: the fence alone, up to surrounding
/// whitespace.
pub open spec fn is_block_end(line: Seq<char>) -> bool {
    trimmed(line) == end_marker()
}

/// The view of an optional string.
pub open spec fn opt_view(o: Option<String>) -> Option<Seq<char>> {
    match o {
        Some(s) => Some(s@),
        None => None,
    }
}

/// Relies on `regex::Regex::new` and `Regex::captures` with the pattern
/// ``^```yaml #s([0-9]+)``: group 1 is the greedy run of digits after the marker.
#[verifier::external_body]
fn capture_start_id(t: &str) -> (r: Option<String>)
    ensures
        opt_view(r) == start_id_of(t@),
{
    let re = regex::Regex::new(r"^```yaml #s([0-9]+)").unwrap();
    match re.captures(t) {
        Some(c) => Some(c[1].to_string()),
        None => None,
    }
}

/// The identifier that `line` opens a block with, if it opens one.
pub fn block_start_id(line: &str) -> (r: Option<String>)
    ensures
        opt_view(r) == block_start(line@),
{
    capture_start_id(trim_str(line))
}

/// Whether `line` closes a block.
pub fn closes_block(line: &str) -> (r: bool)
    ensures
        r == is_block_end(line@),
{
    let fence = "```";
    proof {
        reveal_strlit("```");
        assert(fence@ =~= end_marker());
    }
    same_text(trim_str(line), fence)
}

/// The keyword of a start tag.
pub open spec fn tag_word() -> Seq<char> {
    seq!['t', 'a', 'g']
}

/// The keyword of an end tag.
pub open spec fn end_word() -> Seq<char> {
    seq!['e', 'n', 'd']
}

/// The text of a tag: `<word>::s<id>[]`.
pub open spec fn tag_text(word: Seq<char>, id: Seq<char>) -> Seq<char> {
    word + seq![':', ':', 's'] + id + seq!['[', ']']
}

/// A space or a tab.
pub open spec fn is_gap(c: char) -> bool {
    c == ' ' || c == '\t'
}

/// `line` holds `#` at `i`, spaces or tabs strictly between `i` and `j`, and
/// the tag text at `j`.
pub open spec fn tag_at(line: Seq<char>, word: Seq<char>, id: Seq<char>, i: int, j: int) -> bool {
    &&& 0 <= i < j
    &&& j + tag_text(word, id).len() <= line.len()
    &&& line[i] == '#'
    &&& forall|k: int| i < k < j ==> is_gap(#[trigger] line[k])
    &&& line.subrange(j, j + tag_text(word, id).len()) == tag_text(word, id)
}

/// `line` holds a comment tag `#<spaces or tabs><word>::s<id>[]` anywhere.
pub open spec fn has_tag(line: Seq<char>, word: Seq<char>, id: Seq<char>) -> bool {
    exists|i: int, j: int| tag_at(line, word, id, i, j)
}

/// Relies on `regex::RegexBuilder::build` and `Regex::is_match` with the
/// pattern `#[ \t]*<word>::s<id>\[\]`, unanchored. The word is letters and
/// the identifier digits, so neither holds a metacharacter. The size limit is
/// lifted, and the bounded identifier keeps the automaton far below the
/// limit on its number of states, so the build does not fail.
#[verifier::external_body]
fn find_tag(word: &str, id: &str, line: &str) -> (r: bool)
    requires
        word@ == tag_word() || word@ == end_word(),
        is_identifier(id@),
        id@.len() <= MAX_ID_LEN,
    ensures
        r == has_tag(line@, word@, id@),
{
    let pattern = format!(r"#[ \t]*{}::s{}\[\]", word, id);
    let re = regex::RegexBuilder::new(&pattern).size_limit(usize::MAX).build().unwrap();
    re.is_match(line)
}

/// Whether `line` is a start tag for `id`.
pub fn is_start_tag(line: &str, id: &str) -> (r: bool)
    requires
        is_identifier(id@),
        id@.len() <= MAX_ID_LEN,
    ensures
        r == has_tag(line@, tag_word(), id@),
{
    let word = "tag";
    proof {
        reveal_strlit("tag");
        assert(word@ =~= tag_word());
    }
    find_tag(word, id, line)
}

/// Whether `line` is an end tag for `id`.
pub fn is_end_tag(line: &str, id: &str) -> (r: bool)
    requires
        is_identifier(id@),
        id@.len() <= MAX_ID_LEN,
    ensures
        r == has_tag(line@, end_word(), id@),
{
    let word = "end";
    proof {
        reveal_strlit("end");
        assert(word@ =~= end_word());
    }
    find_tag(word, id, line)
}

} // verus!
