//! The block scanner: a two-state machine over the lines of a document.
use vstd::prelude::*;

use crate::error::{Failure, SnipError};
use crate::grammar::{block_start, block_start_id, closes_block, is_block_end};
use crate::text::views;

verus! {

/// A fenced block of the document.
#[derive(Debug)]
pub struct Block {
    /// The snippet identifier on the start fence.
    pub id: String,
    /// Index of the start fence line.
    pub start: usize,
    /// Index of the closing fence line.
    pub end: usize,
    /// The lines strictly between the two fences, as they stand.
    pub content: Vec<String>,
}

/// The mathematical value of a [`Block`].
pub struct BlockView {
    pub id: Seq<char>,
    pub start: nat,
    pub end: nat,
    pub content: Seq<Seq<char>>,
}

impl View for Block {
    type V = BlockView;

    open spec fn view(&self) -> BlockView {
        BlockView { id: self.id@, start: self.start as nat, end: self.end as nat, content: views(self.content@) }
    }
}

/// The views of a sequence of blocks.
pub open spec fn block_views(v: Seq<Block>) -> Seq<BlockView> {
    v.map_values(|b: Block| b@)
}

/// Where the scanner stands between two lines.
pub enum ScanState {
    Outside,
    Inside { id: Seq<char>, start: nat, content: Seq<Seq<char>> },
}

/// The effect of line `i` of the document, `line`, on the blocks found so far
/// and the state; `Err` holds a start fence met inside a block.
pub open spec fn step(bs: Seq<BlockView>, st: ScanState, i: nat, line: Seq<char>) -> Result<
    (Seq<BlockView>, ScanState),
    Seq<char>,
> {
    match st {
        ScanState::Outside => match block_start(line) {
            Some(id) => Ok((bs, ScanState::Inside { id, start: i, content: seq![] })),
            None => Ok((bs, ScanState::Outside)),
        },
        ScanState::Inside { id, start, content } => if block_start(line) is Some {
            Err(line)
        } else if is_block_end(line) {
            Ok((bs.push(BlockView { id, start, end: i, content }), ScanState::Outside))
        } else {
            Ok((bs, ScanState::Inside { id, start, content: content.push(line) }))
        },
    }
}

/// The scanner after the first `n` lines of `doc`.
pub open spec fn scan_upto(doc: Seq<Seq<char>>, n: nat) -> Result<
    (Seq<BlockView>, ScanState),
    Seq<char>,
>
    decreases n,
{
    if n == 0 {
        Ok((seq![], ScanState::Outside))
    } else {
        match scan_upto(doc, (n - 1) as nat) {
            Err(l) => Err(l),
            Ok((bs, st)) => step(bs, st, (n - 1) as nat, doc[n - 1]),
        }
    }
}

/// Once the scan has failed, it stays failed with the same line.
pub proof fn lemma_failure_persists(doc: Seq<Seq<char>>, n: nat, m: nat)
    requires
        n <= m,
        scan_upto(doc, n) is Err,
    ensures
        scan_upto(doc, m) == scan_upto(doc, n),
    decreases m - n,
{
    if n < m {
        lemma_failure_persists(doc, n, (m - 1) as nat);
    }
}

/// Block `b` stands in `doc`: its fences are a start line for its identifier
/// and a closing line, and its content is exactly the lines between them.
pub open spec fn stands_in(doc: Seq<Seq<char>>, b: BlockView) -> bool {
    &&& b.start < b.end < doc.len()
    &&& block_start(doc[b.start as int]) == Some(b.id)
    &&& is_block_end(doc[b.end as int])
    &&& b.content == doc.subrange(b.start as int + 1, b.end as int)
}

/// Every block stands in `doc`, and each ends before the next one starts.
pub open spec fn well_placed(doc: Seq<Seq<char>>, bs: Seq<BlockView>) -> bool {
    &&& forall|k: int| 0 <= k < bs.len() ==> stands_in(doc, #[trigger] bs[k])
    &&& forall|k: int| 0 < k < bs.len() ==> bs[k - 1].end < (#[trigger] bs[k]).start
}

/// What holds of the scanner after `n` lines: the blocks found stand in the
/// document and end before line `n`, and an open block began at a start
/// fence after them and holds every line since.
proof fn lemma_scan_upto_placed(doc: Seq<Seq<char>>, n: nat)
    requires
        n <= doc.len(),
        scan_upto(doc, n) is Ok,
    ensures
        ({
            let (bs, st) = scan_upto(doc, n)->Ok_0;
            &&& well_placed(doc, bs)
            &&& bs.len() > 0 ==> bs.last().end < n
            &&& match st {
                ScanState::Outside => true,
                ScanState::Inside { id, start, content } => {
                    &&& start < n
                    &&& bs.len() > 0 ==> bs.last().end < start
                    &&& block_start(doc[start as int]) == Some(id)
                    &&& content == doc.subrange(start as int + 1, n as int)
                },
            }
        }),
    decreases n,
{
    if n > 0 {
        let m = (n - 1) as nat;
        lemma_scan_upto_placed(doc, m);
        let (bs, st) = scan_upto(doc, m)->Ok_0;
        let line = doc[m as int];
        match st {
            ScanState::Outside => {
                if block_start(line) is Some {
                    assert(doc.subrange(n as int, n as int) =~= seq![]);
                }
            },
            ScanState::Inside { id, start, content } => {
                if block_start(line) is None {
                    if is_block_end(line) {
                        let b = BlockView { id, start, end: m, content };
                        let bs2 = bs.push(b);
                        assert forall|k: int| 0 <= k < bs2.len() implies stands_in(doc, #[trigger] bs2[k]) by {
                            if k < bs.len() {
                                assert(bs2[k] == bs[k]);
                            }
                        }
                        assert forall|k: int| 0 < k < bs2.len() implies bs2[k - 1].end < (#[trigger] bs2[k]).start by {
                            if k < bs.len() {
                                assert(bs2[k] == bs[k]);
                                assert(bs2[k - 1] == bs[k - 1]);
                            }
                        }
                    } else {
                        assert(content.push(line) =~= doc.subrange(start as int + 1, n as int));
                    }
                }
            },
        }
    }
}

/// The blocks of a successful scan stand in the document, in order.
pub proof fn lemma_scan_placed(doc: Seq<Seq<char>>)
    requires
        scan_spec(doc) is Ok,
    ensures
        well_placed(doc, scan_spec(doc)->Ok_0),
{
    lemma_scan_upto_placed(doc, doc.len());
}

/// The blocks of `doc` in order, or the failure that ends the scan.
pub open spec fn scan_spec(doc: Seq<Seq<char>>) -> Result<Seq<BlockView>, Failure> {
    match scan_upto(doc, doc.len()) {
        Err(l) => Err(Failure::Unclosed(Some(l))),
        Ok((bs, ScanState::Outside)) => Ok(bs),
        Ok((_, ScanState::Inside { .. })) => Err(Failure::Unclosed(None)),
    }
}

/// The views of a scan's result.
pub open spec fn scan_view(r: Result<Vec<Block>, SnipError>) -> Result<Seq<BlockView>, Failure> {
    match r {
        Ok(v) => Ok(block_views(v@)),
        Err(e) => Err(e@),
    }
}

/// Finds the blocks of a document given as its lines.
pub fn scan(doc: &Vec<String>) -> (r: Result<Vec<Block>, SnipError>)
    ensures
        scan_view(r) == scan_spec(views(doc@)),
{
    let ghost d = views(doc@);
    let mut blocks: Vec<Block> = Vec::new();
    let mut inside = false;
    let mut id = String::new();
    let mut start: usize = 0;
    let mut content: Vec<String> = Vec::new();
    let mut i: usize = 0;
    assert(block_views(blocks@) =~= seq![]);
    while i < doc.len()
        invariant
            d == views(doc@),
            i <= doc.len(),
            scan_upto(d, i as nat) == Ok::<_, Seq<char>>((
                block_views(blocks@),
                if inside {
                    ScanState::Inside { id: id@, start: start as nat, content: views(content@) }
                } else {
                    ScanState::Outside
                },
            )),
        decreases doc.len() - i,
    {
        let line = &doc[i];
        let opened = block_start_id(line.as_str());
        if inside {
            if opened.is_some() {
                proof {
                    lemma_failure_persists(d, (i + 1) as nat, d.len());
                }
                return Err(SnipError::UnclosedBlock { line: Some(line.clone()) });
            }
            if closes_block(line.as_str()) {
                let b = Block { id: id.clone(), start, end: i, content: content };
                let ghost prev = blocks@;
                let ghost bv = b@;
                blocks.push(b);
                assert(block_views(blocks@) =~= block_views(prev).push(bv));
                content = Vec::new();
                inside = false;
            } else {
                let ghost prev = content@;
                content.push(line.clone());
                assert(views(content@) =~= views(prev).push(line@));
            }
        } else {
            match opened {
                Some(new_id) => {
                    id = new_id;
                    start = i;
                    content = Vec::new();
                    assert(views(content@) =~= seq![]);
                    inside = true;
                },
                None => {},
            }
        }
        i = i + 1;
    }
    if inside {
        return Err(SnipError::UnclosedBlock { line: None });
    }
    Ok(blocks)
}

} // verus!
