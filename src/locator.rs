//! The snippet locator: finds the tagged region of an example file.
use vstd::prelude::*;

use crate::error::{Failure, SnipError};
use crate::grammar::{
    end_word, has_tag, MAX_ID_LEN, is_end_tag, is_identifier, is_snippet_id, is_start_tag, tag_word,
};
use crate::text::{blank_line, is_blank, joined, lines_of, push_line, split_lines, views};

verus! {

/// The lines that a scan of `lines` captures up to the first end tag of `id`,
/// `capturing` telling whether a start tag has been seen; `None` when no end
/// tag follows. Start tag lines are never captured, and a line that holds
/// both tags counts as a start tag.
pub open spec fn region(lines: Seq<Seq<char>>, id: Seq<char>, capturing: bool) -> Option<
    Seq<Seq<char>>,
>
    decreases lines.len(),
{
    if lines.len() == 0 {
        None
    } else if has_tag(lines[0], tag_word(), id) {
        region(lines.drop_first(), id, true)
    } else if has_tag(lines[0], end_word(), id) {
        Some(seq![])
    } else {
        match region(lines.drop_first(), id, capturing) {
            None => None,
            Some(b) => Some(
                if capturing {
                    seq![lines[0]] + b
                } else {
                    b
                },
            ),
        }
    }
}

/// Some line of `b` holds more than whitespace.
pub open spec fn has_text(b: Seq<Seq<char>>) -> bool {
    exists|k: int| 0 <= k < b.len() && !is_blank(#[trigger] b[k])
}

/// The snippet for `id` in an example file with these lines: the captured
/// region, each line followed by a newline, when it is closed by an end tag
/// and holds a line that is not blank.
pub open spec fn snippet_of(lines: Seq<Seq<char>>, id: Seq<char>) -> Option<Seq<char>> {
    match region(lines, id, false) {
        Some(b) => if has_text(b) {
            Some(joined(b))
        } else {
            None
        },
        None => None,
    }
}

/// What the locator gives for `id` in the file at `path` with text `text`;
/// a string that is not an identifier, or an identifier longer than
/// `MAX_ID_LEN` digits, names no snippet.
pub open spec fn extract_spec(path: Seq<char>, text: Seq<char>, id: Seq<char>) -> Result<
    Seq<char>,
    Failure,
> {
    match snippet_of(split_lines(text), id) {
        Some(s) if is_identifier(id) && id.len() <= MAX_ID_LEN => Ok(s),
        _ => Err(Failure::NoSnippet(id, path)),
    }
}

/// The views of a lookup's result.
pub open spec fn found_view(r: Result<String, SnipError>) -> Result<Seq<char>, Failure> {
    match r {
        Ok(s) => Ok(s@),
        Err(e) => Err(e@),
    }
}

/// The snippet for `snip_id` in the example file at `path` whose text is
/// `content`.
pub fn get_example_snippet(path: &str, content: &str, snip_id: &str) -> (r: Result<
    String,
    SnipError,
>)
    ensures
        found_view(r) == extract_spec(path@, content@, snip_id@),
{
    if snip_id.unicode_len() > MAX_ID_LEN || !is_snippet_id(snip_id) {
        return Err(SnipError::SnippetNotFound { id: snip_id.to_owned(), path: path.to_owned() });
    }
    let lines = lines_of(content);
    let ghost ls = views(lines@);
    let ghost id = snip_id@;
    let ghost mut body: Seq<Seq<char>> = seq![];
    let mut out = String::new();
    let mut capturing = false;
    let mut any_text = false;
    let mut closed = false;
    let mut i: usize = 0;
    assert(ls.skip(0) =~= ls);
    while i < lines.len()
        invariant_except_break
            !closed,
            region(ls, id, false) == match region(ls.skip(i as int), id, capturing) {
                None => None,
                Some(b) => Some(body + b),
            },
        invariant
            ls == views(lines@),
            id == snip_id@,
            is_identifier(snip_id@),
            snip_id@.len() <= MAX_ID_LEN,
            i <= lines.len(),
            out@ == joined(body),
            any_text == has_text(body),
            closed ==> region(ls, id, false) == Some(body),
        ensures
            closed ==> region(ls, id, false) == Some(body),
            !closed ==> region(ls, id, false) is None,
        decreases lines.len() - i,
    {
        let line = lines[i].as_str();
        let ghost rest = ls.skip(i as int);
        assert(rest.drop_first() =~= ls.skip(i + 1));
        assert(rest[0] == line@);
        if is_start_tag(line, snip_id) {
            capturing = true;
        } else if is_end_tag(line, snip_id) {
            assert(body + seq![] =~= body);
            closed = true;
            break;
        } else if capturing {
            let ghost prev = body;
            push_line(&mut out, line);
            if !blank_line(line) {
                any_text = true;
            }
            proof {
                body = body.push(line@);
                assert(body.drop_last() =~= prev);
                assert(forall|b: Seq<Seq<char>>| prev + (seq![line@] + b) =~= body + b);
                assert(has_text(body) ==> (has_text(prev) || !is_blank(line@))) by {
                    if has_text(body) {
                        let k = choose|k: int| 0 <= k < body.len() && !is_blank(#[trigger] body[k]);
                        if k < prev.len() {
                            assert(body[k] == prev[k]);
                        }
                    }
                }
                if has_text(prev) {
                    let k = choose|k: int| 0 <= k < prev.len() && !is_blank(#[trigger] prev[k]);
                    assert(body[k] == prev[k]);
                }
                if !is_blank(line@) {
                    assert(body[body.len() - 1] == line@);
                }
            }
        }
        i = i + 1;
    }
    if closed && any_text {
        Ok(out)
    } else {
        Err(SnipError::SnippetNotFound { id: snip_id.to_owned(), path: path.to_owned() })
    }
}

/// An example file as the caller found it.
#[derive(Debug)]
pub enum ExampleText {
    /// The file at `path` could not be opened, for `reason`.
    Missing { path: String, reason: String },
    /// The file at `path` holds `text`.
    Loaded { path: String, text: String },
}

/// What the locator gives for `id` from an example file as found.
pub open spec fn locate_spec(example: ExampleText, id: Seq<char>) -> Result<Seq<char>, Failure> {
    match example {
        ExampleText::Missing { path, reason } => Err(Failure::NoExample(path@, reason@)),
        ExampleText::Loaded { path, text } => extract_spec(path@, text@, id),
    }
}

/// The snippet `id` from an example file as found: a file that could not be
/// opened fails with [`SnipError::ExampleFileNotFound`].
pub fn locate(example: &ExampleText, id: &str) -> (r: Result<String, SnipError>)
    ensures
        found_view(r) == locate_spec(*example, id@),
{
    match example {
        ExampleText::Missing { path, reason } => Err(
            SnipError::ExampleFileNotFound { path: path.clone(), reason: reason.clone() },
        ),
        ExampleText::Loaded { path, text } => get_example_snippet(path.as_str(), text.as_str(), id),
    }
}

/// The name of the example file for `id`: `s<id>.yaml`.
pub open spec fn example_name(id: Seq<char>) -> Seq<char> {
    seq!['s'] + id + seq!['.', 'y', 'a', 'm', 'l']
}

/// The name of the example file that holds the snippet `id`.
pub fn example_file_name(id: &str) -> (r: String)
    ensures
        r@ == example_name(id@),
{
    let prefix = "s";
    let suffix = ".yaml";
    proof {
        reveal_strlit("s");
        reveal_strlit(".yaml");
    }
    let mut name = prefix.to_owned();
    name.append(id);
    name.append(suffix);
    name
}

} // verus!
