//! A scanned document and the two ways of finishing a run over it.
use vstd::prelude::*;

use crate::error::{message_spec, Failure, SnipError};
use crate::grammar::opt_view;
use crate::output::{
    first_failure, found_views, has_failure, report, report_line, substitute, substitute_spec,
};
use crate::scanner::{block_views, lemma_scan_placed, scan, scan_spec, Block, BlockView};
use crate::text::{joined, lines_of, split_lines, views};

verus! {

/// A document together with its blocks.
#[derive(Debug)]
pub struct Document {
    lines: Vec<String>,
    blocks: Vec<Block>,
}

/// The mathematical value of a [`Document`].
pub struct DocumentView {
    pub lines: Seq<Seq<char>>,
    pub blocks: Seq<BlockView>,
}

impl View for Document {
    type V = DocumentView;

    closed spec fn view(&self) -> DocumentView {
        DocumentView { lines: views(self.lines@), blocks: block_views(self.blocks@) }
    }
}

/// Which output a run makes.
#[derive(Clone, Copy, Debug, PartialEq, Eq)]
pub enum Mode {
    /// The document with every block filled in, or the first failure.
    Substitute,
    /// One line per block, confirming it or naming its failure.
    Report,
}

/// How a run ends.
#[derive(Debug)]
pub struct Outcome {
    /// What goes to the output channel.
    pub output: String,
    /// What goes to the failure channel, if anything.
    pub diagnostic: Option<String>,
    /// Whether the run succeeded.
    pub success: bool,
}

/// The report lines for blocks `bs` and their lookups `rs`.
pub open spec fn report_lines(bs: Seq<BlockView>, rs: Seq<Result<Seq<char>, Failure>>) -> Seq<
    Seq<char>,
> {
    Seq::new(bs.len(), |k: int| report_line(bs[k].id, rs[k]))
}

/// The lookups `rs` for `n` blocks are complete for `mode`: a report needs
/// one per block, substitution stops at the first failed one.
pub open spec fn lookups_done(mode: Mode, n: nat, rs: Seq<Result<Seq<char>, Failure>>) -> bool {
    match mode {
        Mode::Substitute => rs.len() == n || (rs.len() < n && first_failure(rs) is Some),
        Mode::Report => rs.len() == n,
    }
}

impl Document {
    /// The blocks are those that the scan finds in the lines.
    #[verifier::type_invariant]
    spec fn scanned(&self) -> bool {
        scan_spec(views(self.lines@)) == Ok::<_, Failure>(block_views(self.blocks@))
    }

    /// Splits `text` into lines and finds its blocks.
    pub fn parse(text: &str) -> (r: Result<Document, SnipError>)
        ensures
            match r {
                Ok(d) => {
                    &&& d@.lines == split_lines(text@)
                    &&& scan_spec(split_lines(text@)) == Ok::<_, Failure>(d@.blocks)
                },
                Err(e) => scan_spec(split_lines(text@)) == Err::<Seq<BlockView>, _>(e@),
            },
    {
        let lines = lines_of(text);
        match scan(&lines) {
            Ok(blocks) => Ok(Document { lines, blocks }),
            Err(e) => Err(e),
        }
    }

    /// The blocks, in document order.
    pub fn blocks(&self) -> (r: &Vec<Block>)
        ensures
            block_views(r@) == self@.blocks,
    {
        &self.blocks
    }

    /// The index of the block to look up next, given the lookups made so far
    /// in order; `None` once they are complete for `mode`.
    pub fn next_lookup(&self, mode: Mode, found: &Vec<Result<String, SnipError>>) -> (r: Option<
        usize,
    >)
        requires
            found.len() <= self@.blocks.len(),
        ensures
            r == if lookups_done(mode, self@.blocks.len(), found_views(found@)) {
                None::<usize>
            } else {
                Some(found.len())
            },
    {
        if found.len() >= self.blocks.len() {
            return None;
        }
        match mode {
            Mode::Substitute => if has_failure(found) {
                None
            } else {
                Some(found.len())
            },
            Mode::Report => Some(found.len()),
        }
    }

    /// Ends a run given the lookups of the blocks, in order, as
    /// `next_lookup` asked for them. Substitution outputs
    /// the filled-in document, or nothing and the first failure; a report
    /// outputs a line for every block and succeeds when every lookup did.
    pub fn finish(&self, mode: Mode, found: &Vec<Result<String, SnipError>>) -> (r: Outcome)
        requires
            found.len() <= self@.blocks.len(),
            lookups_done(mode, self@.blocks.len(), found_views(found@)),
        ensures
            match mode {
                Mode::Substitute => match substitute_spec(
                    self@.lines,
                    self@.blocks,
                    found_views(found@),
                ) {
                    Ok(t) => r.success && r.output@ == t && r.diagnostic is None,
                    Err(e) => {
                        &&& !r.success
                        &&& r.output@ == Seq::<char>::empty()
                        &&& opt_view(r.diagnostic) == Some(message_spec(e))
                    },
                },
                Mode::Report => {
                    &&& r.output@ == joined(report_lines(self@.blocks, found_views(found@)))
                    &&& r.success == (first_failure(found_views(found@)) is None)
                    &&& r.diagnostic is None
                },
            },
    {
        proof {
            use_type_invariant(self);
            lemma_scan_placed(views(self.lines@));
        }
        match mode {
            Mode::Substitute => match substitute(&self.lines, &self.blocks, found) {
                Ok(t) => Outcome { output: t, diagnostic: None, success: true },
                Err(e) => Outcome {
                    output: String::new(),
                    diagnostic: Some(e.message()),
                    success: false,
                },
            },
            Mode::Report => {
                let rep = report(&self.blocks, found);
                assert(views(rep.lines@) =~= report_lines(self@.blocks, found_views(found@)));
                Outcome { output: rep.text(), diagnostic: None, success: rep.success }
            },
        }
    }
}

} // verus!
