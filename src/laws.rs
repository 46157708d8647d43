//! Properties that hold of every document and every example file.
use vstd::prelude::*;

use crate::error::Failure;
use crate::grammar::{
    block_start, end_word, has_tag, is_block_end, is_gap, is_identifier,
    lemma_start_id_is_identifier, tag_at, MAX_ID_LEN, tag_text, tag_word,
};
use crate::locator::{extract_spec, has_text, region};
use crate::output::{bodies, first_failure, spliced, substitute_spec};
use crate::scanner::{lemma_scan_placed, scan_spec, scan_upto, stands_in};
use crate::text::{joined, split_lines};

verus! {

/// A line that is neither a start tag nor an end tag for `id`.
pub open spec fn plain_line(l: Seq<char>, id: Seq<char>) -> bool {
    !has_tag(l, tag_word(), id) && !has_tag(l, end_word(), id)
}

/// Lines without tags for `id` pass through the locator's scan: captured
/// when it is capturing, skipped when not.
proof fn lemma_plain_prefix(a: Seq<Seq<char>>, rest: Seq<Seq<char>>, id: Seq<char>, c: bool)
    requires
        forall|k: int| 0 <= k < a.len() ==> plain_line(#[trigger] a[k], id),
    ensures
        region(a + rest, id, c) == match region(rest, id, c) {
            None => None,
            Some(b) => Some(
                if c {
                    a + b
                } else {
                    b
                },
            ),
        },
    decreases a.len(),
{
    if a.len() > 0 {
        let t = a.drop_first();
        assert forall|k: int| 0 <= k < t.len() implies plain_line(#[trigger] t[k], id) by {
            assert(t[k] == a[k + 1]);
        }
        lemma_plain_prefix(t, rest, id, c);
        assert((a + rest)[0] == a[0]);
        assert(plain_line(a[0], id));
        assert((a + rest).drop_first() =~= t + rest);
        match region(rest, id, c) {
            None => {},
            Some(b) => {
                assert(seq![a[0]] + (t + b) =~= a + b);
            },
        }
    }
}

/// An example file whose lines are `pre`, a start tag line, `body`, an end
/// tag line and `post`, with no other tag for `id` before the end tag, holds
/// the snippet `body` when some line of it is not blank.
pub proof fn law_tagged_region_found(
    path: Seq<char>,
    text: Seq<char>,
    id: Seq<char>,
    pre: Seq<Seq<char>>,
    start: Seq<char>,
    body: Seq<Seq<char>>,
    end: Seq<char>,
    post: Seq<Seq<char>>,
)
    requires
        split_lines(text) == pre + seq![start] + body + seq![end] + post,
        forall|k: int| 0 <= k < pre.len() ==> plain_line(#[trigger] pre[k], id),
        forall|k: int| 0 <= k < body.len() ==> plain_line(#[trigger] body[k], id),
        has_tag(start, tag_word(), id),
        has_tag(end, end_word(), id),
        !has_tag(end, tag_word(), id),
        has_text(body),
        is_identifier(id),
        id.len() <= MAX_ID_LEN,
    ensures
        extract_spec(path, text, id) == Ok::<Seq<char>, Failure>(joined(body)),
{
    let tail = seq![end] + post;
    assert(tail[0] == end);
    assert(region(tail, id, true) == Some(Seq::<Seq<char>>::empty()));
    lemma_plain_prefix(body, tail, id, true);
    assert(body + Seq::<Seq<char>>::empty() =~= body);
    let from_start = seq![start] + (body + tail);
    assert(from_start[0] == start);
    assert(from_start.drop_first() =~= body + tail);
    lemma_plain_prefix(pre, from_start, id, false);
    assert(pre + seq![start] + body + seq![end] + post =~= pre + from_start);
}

/// A start or end tag is recognised whatever run of spaces and tabs stands
/// between `#` and the tag text, and whatever surrounds it on the line.
pub proof fn law_tag_spacing(id: Seq<char>, word: Seq<char>, lead: Seq<char>, gap: Seq<char>, trail: Seq<char>)
    requires
        forall|k: int| 0 <= k < gap.len() ==> is_gap(#[trigger] gap[k]),
    ensures
        has_tag(lead + seq!['#'] + gap + tag_text(word, id) + trail, word, id),
{
    let line = lead + seq!['#'] + gap + tag_text(word, id) + trail;
    let i = lead.len() as int;
    let j = i + 1 + gap.len();
    let t = tag_text(word, id);
    assert(line[i] == '#');
    assert forall|k: int| i < k < j implies is_gap(#[trigger] line[k]) by {
        assert(line[k] == gap[k - i - 1]);
    }
    assert(line.subrange(j, j + t.len()) =~= t);
    assert(tag_at(line, word, id, i, j));
}

/// Without an end tag for `id`, the locator's scan never closes a region.
proof fn lemma_no_end_tag(ls: Seq<Seq<char>>, id: Seq<char>, c: bool)
    requires
        forall|k: int| 0 <= k < ls.len() ==> !has_tag(#[trigger] ls[k], end_word(), id),
    ensures
        region(ls, id, c) is None,
    decreases ls.len(),
{
    if ls.len() > 0 {
        let t = ls.drop_first();
        assert forall|k: int| 0 <= k < t.len() implies !has_tag(#[trigger] t[k], end_word(), id) by {
            assert(t[k] == ls[k + 1]);
        }
        lemma_no_end_tag(t, id, true);
        lemma_no_end_tag(t, id, c);
        assert(!has_tag(ls[0], end_word(), id));
    }
}

/// Before the first start tag, the locator's scan either stops at an end tag
/// with nothing captured, or reaches the start tag with nothing captured.
proof fn lemma_before_first_start(ls: Seq<Seq<char>>, id: Seq<char>, i: int)
    requires
        0 <= i <= ls.len(),
        forall|k: int| 0 <= k < i ==> !has_tag(#[trigger] ls[k], tag_word(), id),
    ensures
        region(ls, id, false) == Some(Seq::<Seq<char>>::empty()) || region(ls, id, false)
            == region(ls.skip(i), id, false),
    decreases i,
{
    if i > 0 {
        let t = ls.drop_first();
        assert forall|k: int| 0 <= k < i - 1 implies !has_tag(#[trigger] t[k], tag_word(), id) by {
            assert(t[k] == ls[k + 1]);
        }
        lemma_before_first_start(t, id, i - 1);
        assert(t.skip(i - 1) =~= ls.skip(i));
        assert(!has_tag(ls[0], tag_word(), id));
    } else {
        assert(ls.skip(0) =~= ls);
    }
}

/// An example file whose first start tag for `id` is on line `i`, with no
/// end tag for `id` on any later line, holds no snippet for it: the lines
/// after the start tag are never returned as a partial body. An end tag
/// before line `i` ends the search with nothing captured.
pub proof fn law_missing_end_tag(path: Seq<char>, text: Seq<char>, id: Seq<char>, i: int)
    requires
        0 <= i < split_lines(text).len(),
        has_tag(split_lines(text)[i], tag_word(), id),
        forall|k: int| 0 <= k < i ==> !has_tag(#[trigger] split_lines(text)[k], tag_word(), id),
        forall|k: int|
            i < k < split_lines(text).len() ==> !has_tag(
                #[trigger] split_lines(text)[k],
                end_word(),
                id,
            ),
    ensures
        extract_spec(path, text, id) == Err::<Seq<char>, Failure>(Failure::NoSnippet(id, path)),
{
    let ls = split_lines(text);
    lemma_before_first_start(ls, id, i);
    let rest = ls.skip(i);
    let after = rest.drop_first();
    assert(rest[0] == ls[i]);
    assert forall|k: int| 0 <= k < after.len() implies !has_tag(#[trigger] after[k], end_word(), id) by {
        assert(after[k] == ls[i + 1 + k]);
    }
    lemma_no_end_tag(after, id, true);
    assert(region(rest, id, false) is None);
    assert(!has_text(Seq::<Seq<char>>::empty()));
}

/// Without a start tag for `id`, the locator's scan captures nothing.
proof fn lemma_no_start_tag(ls: Seq<Seq<char>>, id: Seq<char>)
    requires
        forall|k: int| 0 <= k < ls.len() ==> !has_tag(#[trigger] ls[k], tag_word(), id),
    ensures
        region(ls, id, false) is None || region(ls, id, false) == Some(Seq::<Seq<char>>::empty()),
    decreases ls.len(),
{
    if ls.len() > 0 {
        let t = ls.drop_first();
        assert forall|k: int| 0 <= k < t.len() implies !has_tag(#[trigger] t[k], tag_word(), id) by {
            assert(t[k] == ls[k + 1]);
        }
        lemma_no_start_tag(t, id);
        assert(!has_tag(ls[0], tag_word(), id));
    }
}

/// An example file with no start tag for `id` holds no snippet for it, even
/// where it holds tags for other identifiers.
pub proof fn law_missing_start_tag(path: Seq<char>, text: Seq<char>, id: Seq<char>)
    requires
        forall|k: int|
            0 <= k < split_lines(text).len() ==> !has_tag(
                #[trigger] split_lines(text)[k],
                tag_word(),
                id,
            ),
    ensures
        extract_spec(path, text, id) == Err::<Seq<char>, Failure>(Failure::NoSnippet(id, path)),
{
    lemma_no_start_tag(split_lines(text), id);
    assert(!has_text(Seq::<Seq<char>>::empty()));
}

/// Joining two runs of lines is joining each.
proof fn lemma_joined_append(x: Seq<Seq<char>>, y: Seq<Seq<char>>)
    ensures
        joined(x + y) == joined(x) + joined(y),
    decreases y.len(),
{
    if y.len() == 0 {
        assert(x + y =~= x);
        assert(joined(x) + joined(y) =~= joined(x));
    } else {
        lemma_joined_append(x, y.drop_last());
        assert((x + y).drop_last() =~= x + y.drop_last());
        assert((x + y).last() == y.last());
        assert(joined(x + y) =~= joined(x) + joined(y));
    }
}

/// Substituting into a document whose only block is closed, with an example
/// file that holds a closed, non-blank region tagged with the block's
/// identifier, replaces exactly the block's content by the region: the text
/// before the content, the start fence included, and the text from the
/// closing fence on are those of the document.
pub proof fn law_round_trip(
    doc: Seq<Seq<char>>,
    path: Seq<char>,
    text: Seq<char>,
    pre: Seq<Seq<char>>,
    start: Seq<char>,
    body: Seq<Seq<char>>,
    end: Seq<char>,
    post: Seq<Seq<char>>,
)
    requires
        scan_spec(doc) is Ok,
        scan_spec(doc)->Ok_0.len() == 1,
        split_lines(text) == pre + seq![start] + body + seq![end] + post,
        forall|k: int| 0 <= k < pre.len() ==> plain_line(#[trigger] pre[k], scan_spec(doc)->Ok_0[0].id),
        forall|k: int| 0 <= k < body.len() ==> plain_line(#[trigger] body[k], scan_spec(doc)->Ok_0[0].id),
        has_tag(start, tag_word(), scan_spec(doc)->Ok_0[0].id),
        has_tag(end, end_word(), scan_spec(doc)->Ok_0[0].id),
        !has_tag(end, tag_word(), scan_spec(doc)->Ok_0[0].id),
        has_text(body),
        scan_spec(doc)->Ok_0[0].id.len() <= MAX_ID_LEN,
    ensures
        ({
            let bs = scan_spec(doc)->Ok_0;
            let b = bs[0];
            let before = joined(doc.subrange(0, b.start as int + 1));
            let after = joined(doc.subrange(b.end as int, doc.len() as int));
            &&& stands_in(doc, b)
            &&& joined(doc) == before + joined(b.content) + after
            &&& substitute_spec(doc, bs, seq![extract_spec(path, text, b.id)]) == Ok::<
                Seq<char>,
                Failure,
            >(before + joined(body) + after)
        }),
{
    let bs = scan_spec(doc)->Ok_0;
    let b = bs[0];
    lemma_scan_placed(doc);
    assert(stands_in(doc, bs[0]));
    lemma_start_id_is_identifier(doc[b.start as int]);
    law_tagged_region_found(path, text, b.id, pre, start, body, end, post);
    let rs = seq![Ok::<Seq<char>, Failure>(joined(body))];
    assert(rs.drop_first() =~= Seq::<Result<Seq<char>, Failure>>::empty());
    assert(first_failure(rs.drop_first()) is None);
    assert(rs[0] is Ok);
    assert(first_failure(rs) is None);
    assert(bodies(rs)[0] == joined(body));
    let p = doc.subrange(0, b.start as int + 1);
    let c = doc.subrange(b.start as int + 1, b.end as int);
    let q = doc.subrange(b.end as int, doc.len() as int);
    lemma_joined_append(p, c);
    lemma_joined_append(p + c, q);
    assert(p + c + q =~= doc);
    assert(spliced(doc, bs, bodies(rs), 1, b.end) == joined(q));
    assert(spliced(doc, bs, bodies(rs), 0, 0) == joined(p) + joined(body) + joined(q));
}

/// From line `i` on, where a block opened and no closing fence follows, the
/// scan has failed or is still inside a block.
proof fn lemma_stays_open(doc: Seq<Seq<char>>, i: int, n: nat)
    requires
        0 <= i < n <= doc.len(),
        block_start(doc[i]) is Some,
        forall|j: int| i < j < doc.len() ==> !is_block_end(#[trigger] doc[j]),
    ensures
        scan_upto(doc, n) is Err || scan_upto(doc, n)->Ok_0.1 is Inside,
    decreases n,
{
    if n > i + 1 {
        lemma_stays_open(doc, i, (n - 1) as nat);
        assert(!is_block_end(doc[n - 1]));
    }
}

/// A document in which a block opens and no closing fence follows fails to
/// scan with an unclosed block, whatever blocks before it were closed: no
/// output is made from it.
pub proof fn law_unclosed_block_fails(doc: Seq<Seq<char>>, i: int)
    requires
        0 <= i < doc.len(),
        block_start(doc[i]) is Some,
        forall|j: int| i < j < doc.len() ==> !is_block_end(#[trigger] doc[j]),
    ensures
        scan_spec(doc) is Err,
        scan_spec(doc)->Err_0 is Unclosed,
{
    lemma_stays_open(doc, i, doc.len());
}

} // verus!
