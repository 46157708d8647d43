//! Output assembly: the substituted document, or a report on every block.
use vstd::prelude::*;

use crate::error::{message_spec, Failure, SnipError};
use crate::locator::found_view;
use crate::scanner::{block_views, well_placed, Block, BlockView};
use crate::text::{joined, push_line, views};

verus! {

/// The views of the lookups made for the blocks, in order.
pub open spec fn found_views(v: Seq<Result<String, SnipError>>) -> Seq<Result<Seq<char>, Failure>> {
    v.map_values(|r: Result<String, SnipError>| found_view(r))
}

/// The first failed lookup, if any.
pub open spec fn first_failure(rs: Seq<Result<Seq<char>, Failure>>) -> Option<Failure>
    decreases rs.len(),
{
    if rs.len() == 0 {
        None
    } else {
        match rs[0] {
            Err(e) => Some(e),
            Ok(_) => first_failure(rs.drop_first()),
        }
    }
}

/// There is no failure exactly when every lookup succeeded.
proof fn lemma_no_failure(rs: Seq<Result<Seq<char>, Failure>>)
    ensures
        first_failure(rs) is None <==> forall|k: int| 0 <= k < rs.len() ==> (#[trigger] rs[k]) is Ok,
    decreases rs.len(),
{
    if rs.len() > 0 {
        lemma_no_failure(rs.drop_first());
        assert forall|k: int| 0 < k < rs.len() implies rs[k] == rs.drop_first()[k - 1] by {}
        if first_failure(rs) is None {
            assert forall|k: int| 0 <= k < rs.len() implies (#[trigger] rs[k]) is Ok by {
                if k > 0 {
                    assert(rs.drop_first()[k - 1] is Ok);
                }
            }
        }
        if forall|k: int| 0 <= k < rs.len() ==> (#[trigger] rs[k]) is Ok {
            assert(rs[0] is Ok);
            assert forall|k: int| 0 <= k < rs.drop_first().len() implies (#[trigger] rs.drop_first()[k]) is Ok by {
                assert(rs[k + 1] is Ok);
            }
        }
    }
}

/// The text that each lookup found; empty for a failed one.
pub open spec fn bodies(rs: Seq<Result<Seq<char>, Failure>>) -> Seq<Seq<char>> {
    rs.map_values(
        |r: Result<Seq<char>, Failure>|
            match r {
                Ok(s) => s,
                Err(_) => seq![],
            },
    )
}

/// The document from line `from` on, with the content of blocks `k` and
/// later replaced by their bodies: lines outside blocks and fence lines stay
/// as they are, each followed by a newline.
pub open spec fn spliced(
    doc: Seq<Seq<char>>,
    bs: Seq<BlockView>,
    bodies: Seq<Seq<char>>,
    k: nat,
    from: nat,
) -> Seq<char>
    decreases bs.len() - k,
{
    if k >= bs.len() {
        joined(doc.subrange(from as int, doc.len() as int))
    } else {
        joined(doc.subrange(from as int, bs[k as int].start as int + 1)) + bodies[k as int] + spliced(
            doc,
            bs,
            bodies,
            k + 1,
            bs[k as int].end,
        )
    }
}

/// What substitution gives: the first failure, or the whole document with
/// every block's content replaced by its snippet.
pub open spec fn substitute_spec(
    doc: Seq<Seq<char>>,
    bs: Seq<BlockView>,
    rs: Seq<Result<Seq<char>, Failure>>,
) -> Result<Seq<char>, Failure> {
    match first_failure(rs) {
        Some(e) => Err(e),
        None => Ok(spliced(doc, bs, bodies(rs), 0, 0)),
    }
}

/// The first failed lookup of `found`, copied.
fn find_failure(found: &Vec<Result<String, SnipError>>) -> (r: Option<SnipError>)
    ensures
        match r {
            Some(e) => first_failure(found_views(found@)) == Some(e@),
            None => first_failure(found_views(found@)) is None,
        },
{
    let ghost fv = found_views(found@);
    let mut i: usize = 0;
    assert(fv.skip(0) =~= fv);
    while i < found.len()
        invariant
            fv == found_views(found@),
            i <= found.len(),
            first_failure(fv) == first_failure(fv.skip(i as int)),
        decreases found.len() - i,
    {
        assert(fv.skip(i as int).drop_first() =~= fv.skip(i + 1));
        match &found[i] {
            Err(e) => {
                return Some(e.duplicate());
            },
            Ok(_) => {},
        }
        i = i + 1;
    }
    None
}

/// Whether some lookup of `found` failed.
pub fn has_failure(found: &Vec<Result<String, SnipError>>) -> (r: bool)
    ensures
        r == (first_failure(found_views(found@)) is Some),
{
    find_failure(found).is_some()
}

/// Appends lines `from` up to `to` of `doc`, each with a newline.
fn push_lines(out: &mut String, doc: &Vec<String>, from: usize, to: usize)
    requires
        from <= to <= doc.len(),
    ensures
        final(out)@ == old(out)@ + joined(views(doc@).subrange(from as int, to as int)),
{
    let ghost d = views(doc@);
    let ghost base = out@;
    let mut j = from;
    assert(d.subrange(from as int, from as int) =~= seq![]);
    while j < to
        invariant
            d == views(doc@),
            from <= j <= to <= doc.len(),
            out@ == base + joined(d.subrange(from as int, j as int)),
        decreases to - j,
    {
        push_line(out, doc[j].as_str());
        assert(d.subrange(from as int, j + 1).drop_last() =~= d.subrange(from as int, j as int));
        assert(out@ =~= base + joined(d.subrange(from as int, j + 1)));
        j = j + 1;
    }
}

/// The document with every block's content replaced by the snippet found
/// for it, or the first failed lookup; `found` holds the lookups of the
/// blocks in order, one per block or up to the first failed one.
pub fn substitute(doc: &Vec<String>, blocks: &Vec<Block>, found: &Vec<Result<String, SnipError>>) -> (r:
    Result<String, SnipError>)
    requires
        well_placed(views(doc@), block_views(blocks@)),
        found.len() <= blocks.len(),
        found.len() < blocks.len() ==> first_failure(found_views(found@)) is Some,
    ensures
        found_view(r) == substitute_spec(views(doc@), block_views(blocks@), found_views(found@)),
{
    if let Some(e) = find_failure(found) {
        return Err(e);
    }
    let ghost d = views(doc@);
    let ghost bs = block_views(blocks@);
    let ghost bd = bodies(found_views(found@));
    assert(found.len() == blocks.len());
    proof {
        lemma_no_failure(found_views(found@));
    }
    let mut out = String::new();
    let mut from: usize = 0;
    let mut k: usize = 0;
    assert(out@ + spliced(d, bs, bd, 0, 0) =~= spliced(d, bs, bd, 0, 0));
    while k < blocks.len()
        invariant
            d == views(doc@),
            bs == block_views(blocks@),
            bd == bodies(found_views(found@)),
            well_placed(d, bs),
            found.len() == blocks.len(),
            forall|j: int| 0 <= j < found.len() ==> (#[trigger] found_views(found@)[j]) is Ok,
            k <= blocks.len(),
            k == 0 ==> from == 0,
            k > 0 ==> from == bs[k - 1].end,
            from < doc.len() || (k == 0 && from == 0),
            out@ + spliced(d, bs, bd, k as nat, from as nat) == spliced(d, bs, bd, 0, 0),
        decreases blocks.len() - k,
    {
        let b = &blocks[k];
        assert(bs[k as int] == b@);
        push_lines(&mut out, doc, from, b.start + 1);
        match &found[k] {
            Ok(s) => {
                assert(bd[k as int] == s@);
                out.append(s.as_str());
            },
            Err(_) => {
                assert(found_views(found@)[k as int] is Ok);
            },
        }
        from = b.end;
        k = k + 1;
    }
    push_lines(&mut out, doc, from, doc.len());
    Ok(out)
}

/// The report line for the block `id` and its lookup.
pub open spec fn report_line(id: Seq<char>, r: Result<Seq<char>, Failure>) -> Seq<char> {
    match r {
        Ok(_) => "Matched block: "@ + id,
        Err(e) => "Unable to match block: "@ + id + ": "@ + message_spec(e),
    }
}

/// The outcome of checking every block.
#[derive(Debug)]
pub struct Report {
    /// One line per block, in document order.
    pub lines: Vec<String>,
    /// Whether every block was matched.
    pub success: bool,
}

impl Report {
    /// The report as text, each line followed by a newline.
    pub fn text(&self) -> (r: String)
        ensures
            r@ == joined(views(self.lines@)),
    {
        let mut out = String::new();
        let mut i: usize = 0;
        let ghost ls = views(self.lines@);
        assert(ls.subrange(0, 0) =~= seq![]);
        while i < self.lines.len()
            invariant
                ls == views(self.lines@),
                i <= self.lines.len(),
                out@ == joined(ls.subrange(0, i as int)),
            decreases self.lines.len() - i,
        {
            push_line(&mut out, self.lines[i].as_str());
            assert(ls.subrange(0, i + 1).drop_last() =~= ls.subrange(0, i as int));
            i = i + 1;
        }
        assert(ls.subrange(0, i as int) =~= ls);
        out
    }
}

/// Checks every block without stopping at a failure: one line per block
/// that confirms it or names the failure, and overall success only when
/// every lookup succeeded; `found` holds one lookup per block.
pub fn report(blocks: &Vec<Block>, found: &Vec<Result<String, SnipError>>) -> (r: Report)
    requires
        found.len() == blocks.len(),
    ensures
        r.lines.len() == blocks.len(),
        forall|k: int|
            0 <= k < blocks.len() ==> (#[trigger] r.lines@[k])@ == report_line(
                blocks@[k].id@,
                found_views(found@)[k],
            ),
        r.success == (first_failure(found_views(found@)) is None),
{
    let ghost fv = found_views(found@);
    let mut lines: Vec<String> = Vec::new();
    let mut success = true;
    let mut k: usize = 0;
    while k < blocks.len()
        invariant
            fv == found_views(found@),
            found.len() == blocks.len(),
            k <= blocks.len(),
            lines.len() == k,
            forall|j: int|
                0 <= j < k ==> (#[trigger] lines@[j])@ == report_line(blocks@[j].id@, fv[j]),
            success == forall|j: int| 0 <= j < k ==> (#[trigger] fv[j]) is Ok,
        decreases blocks.len() - k,
    {
        let id = blocks[k].id.as_str();
        let line = match &found[k] {
            Ok(_) => {
                let mut m = "Matched block: ".to_owned();
                m.append(id);
                m
            },
            Err(e) => {
                let mut m = "Unable to match block: ".to_owned();
                m.append(id);
                m.append(": ");
                let why = e.message();
                m.append(why.as_str());
                success = false;
                m
            },
        };
        assert(line@ == report_line(blocks@[k as int].id@, fv[k as int]));
        lines.push(line);
        k = k + 1;
    }
    proof {
        lemma_no_failure(fv);
    }
    Report { lines, success }
}

} // verus!
