//! The crawl driver's decision logic.
//!
//! Two pieces live here. The `Cursor` is the pagination state machine: it
//! walks a paginated collection page by page, advancing by the number of
//! items each page actually returned, until the recomputed offset reaches
//! the declared total. The record pipeline (`process_entry` and
//! `process_entry_step`) decides, for one record, what outside work comes
//! next — check the asset, fetch the page, segment the text, persist the
//! stream — and classifies each result; the caller performs the work and
//! hands back the event.

use vstd::prelude::*;

use crate::asset::Record;
use crate::asset::asset_name_spec;
use crate::dom::node_text;
use crate::dom::pi_free;
use crate::extract::ExtractError;
use crate::extract::FetchOutcome;
use crate::extract::extract;
use crate::segment::MorphemeNode;
use crate::segment::stream_text;
use crate::segment::tokenize;
use crate::segment::wf_node;

verus! {

/// The pagination cursor: `page` is the next page to request, `index`
/// the offset reached so far, against the collection's declared `total`.
pub struct Cursor {
    pub page: i64,
    pub per_page: i64,
    pub total: i64,
    pub index: i64,
}

/// The cursor invariant. The offset always lies between the end of the
/// page before the current one and the end of the current one, which
/// bounds the page count and keeps the offset arithmetic inside `i64`.
pub open spec fn cursor_wf(c: Cursor) -> bool {
    &&& 0 <= c.page
    &&& 1 <= c.per_page
    &&& 0 <= c.total
    &&& 0 <= c.index
    &&& c.total + 2 * c.per_page <= i64::MAX
    &&& (c.page - 1) * c.per_page <= c.index
    &&& c.index <= c.page * c.per_page
}

impl Cursor {
    /// A fresh cursor over a collection of `total` records, fetched
    /// `per_page` at a time, starting at page 0.
    pub fn new(total: i64, per_page: i64) -> (c: Cursor)
        requires
            0 <= total,
            1 <= per_page,
            total + 2 * per_page <= i64::MAX,
        ensures
            c == (Cursor { page: 0, per_page, total, index: 0 }),
            cursor_wf(c),
    {
        proof {
            assert((0 - 1) * per_page <= 0 && 0 <= 0 * per_page) by (nonlinear_arith)
                requires
                    1 <= per_page,
            ;
        }
        Cursor { page: 0, per_page, total, index: 0 }
    }

    /// The crawl is exhausted once the offset reaches the declared total.
    pub fn done(&self) -> (r: bool)
        ensures
            r == (self.index >= self.total),
    {
        self.index >= self.total
    }

    /// Advances past the page just fetched, which returned `returned`
    /// items (possibly fewer than requested when the final page is
    /// partial, or the collection shrank): the offset becomes the end of
    /// that page as actually observed, and the page number steps forward.
    pub fn advance(&mut self, returned: i64)
        requires
            cursor_wf(*old(self)),
            0 <= returned <= old(self).per_page,
            old(self).index < old(self).total,
        ensures
            cursor_wf(*final(self)),
            final(self).per_page == old(self).per_page,
            final(self).total == old(self).total,
            final(self).page == old(self).page + 1,
            final(self).index == old(self).page * old(self).per_page + returned,
    {
        proof {
            let p = self.page as int;
            let pp = self.per_page as int;
            assert((p - 1) * pp == p * pp - pp) by (nonlinear_arith);
            assert((p + 1) * pp == p * pp + pp) by (nonlinear_arith);
            assert(p * pp >= p) by (nonlinear_arith)
                requires
                    p >= 0,
                    pp >= 1,
            ;
        }
        let next_index = self.page * self.per_page + returned;
        self.index = next_index;
        self.page = self.page + 1;
    }
}

/// The outcome of processing one record.
pub enum RecordOutcome {
    /// The asset already existed; nothing was fetched or written.
    Skipped,
    /// The token stream was written as a fresh asset.
    Created,
    /// Extraction failed; no asset was produced.
    Failed { error: ExtractError },
    /// The asset file could not be created.
    WriteFailed,
}

/// What the caller must do next for the record in hand.
pub enum RecordStep {
    /// Ask the file system whether `path` already exists.
    CheckAsset { path: String, url: String },
    /// Issue one blocking, connection-closing GET for `url` and parse
    /// the body.
    FetchPage { path: String, url: String },
    /// Run the segmentation primitive over the reduced `text`.
    SegmentText { path: String, text: String },
    /// Create `path` and write `content` to it, once.
    Persist { path: String, content: String },
    /// Nothing is left to do.
    Done { outcome: RecordOutcome },
}

/// What the outside work reported back.
pub enum RecordEvent {
    AssetChecked { exists: bool },
    PageFetched { outcome: FetchOutcome },
    TextSegmented { nodes: Vec<MorphemeNode> },
    ContentWritten { ok: bool },
}

/// Which events answer which step, together with what must hold of their
/// payloads: a parsed tree carries no processing instruction, and a
/// morpheme node's reported length stays within its surface.
pub open spec fn step_accepts(step: RecordStep, event: RecordEvent) -> bool {
    match step {
        RecordStep::CheckAsset { .. } => event matches RecordEvent::AssetChecked { .. },
        RecordStep::FetchPage { .. } => event matches RecordEvent::PageFetched { outcome } && (
        outcome matches FetchOutcome::Response { success: true, dom } ==> pi_free(dom)),
        RecordStep::SegmentText { .. } => event matches RecordEvent::TextSegmented { nodes }
            && (forall|i: int| 0 <= i < nodes@.len() ==> wf_node(#[trigger] nodes@[i])),
        RecordStep::Persist { .. } => event matches RecordEvent::ContentWritten { .. },
        RecordStep::Done { .. } => false,
    }
}

/// Begins processing one record: the first thing to learn is whether its
/// asset already exists.
pub fn process_entry(record: &Record) -> (s: RecordStep)
    ensures
        s matches RecordStep::CheckAsset { path, url } && path@ == asset_name_spec(record.url@)
            && url@ == record.url@,
{
    let path = record.asset_file_name();
    let url = record.url.clone();
    RecordStep::CheckAsset { path, url }
}

/// Feeds the result of the last piece of outside work into the record
/// pipeline and returns the next step.
///
/// An existing asset ends the record at once as `Skipped` — in
/// particular, no fetch is ever requested for it, which is what makes a
/// second crawl over an unchanged store idle. A fetch outcome is
/// classified exactly as `extract` classifies it; segmented nodes are
/// joined exactly as `tokenize` joins them.
pub fn process_entry_step(step: RecordStep, event: RecordEvent) -> (next: RecordStep)
    requires
        step_accepts(step, event),
    ensures
        step matches RecordStep::CheckAsset { path, url } ==> {
            &&& event matches RecordEvent::AssetChecked { exists: true } ==> next == (
            RecordStep::Done { outcome: RecordOutcome::Skipped })
            &&& event matches RecordEvent::AssetChecked { exists: false } ==> next == (
            RecordStep::FetchPage { path, url })
        },
        step matches RecordStep::FetchPage { path, url } ==> (event matches
            RecordEvent::PageFetched { outcome } ==> {
            &&& outcome matches FetchOutcome::TransportFailed ==> next == (RecordStep::Done {
                outcome: RecordOutcome::Failed { error: ExtractError::Transport },
            })
            &&& outcome matches FetchOutcome::Response { success: false, .. } ==> next == (
            RecordStep::Done { outcome: RecordOutcome::Failed { error: ExtractError::NotFound } })
            &&& outcome matches FetchOutcome::Response { success: true, dom } ==> next matches
                RecordStep::SegmentText { path: p, text } && p == path && text@ == node_text(
                dom,
                None::<Seq<char>>,
            )
        }),
        step matches RecordStep::SegmentText { path, text } ==> (event matches
            RecordEvent::TextSegmented { nodes } ==> next matches RecordStep::Persist {
            path: p,
            content,
        } && p == path && content@ == stream_text(nodes@)),
        step matches RecordStep::Persist { .. } ==> (event matches RecordEvent::ContentWritten {
            ok,
        } ==> {
            &&& ok ==> next == (RecordStep::Done { outcome: RecordOutcome::Created })
            &&& !ok ==> next == (RecordStep::Done { outcome: RecordOutcome::WriteFailed })
        }),
{
    match (step, event) {
        (RecordStep::CheckAsset { path, url }, RecordEvent::AssetChecked { exists }) => {
            if exists {
                RecordStep::Done { outcome: RecordOutcome::Skipped }
            } else {
                RecordStep::FetchPage { path, url }
            }
        },
        (RecordStep::FetchPage { path, url: _ }, RecordEvent::PageFetched { outcome }) => {
            match extract(&outcome) {
                Ok(text) => RecordStep::SegmentText { path, text },
                Err(error) => RecordStep::Done { outcome: RecordOutcome::Failed { error } },
            }
        },
        (RecordStep::SegmentText { path, text: _ }, RecordEvent::TextSegmented { nodes }) => {
            let mut content = String::new();
            tokenize(&nodes, &mut content);
            RecordStep::Persist { path, content }
        },
        (RecordStep::Persist { path: _, content: _ }, RecordEvent::ContentWritten { ok }) => {
            if ok {
                RecordStep::Done { outcome: RecordOutcome::Created }
            } else {
                RecordStep::Done { outcome: RecordOutcome::WriteFailed }
            }
        },
        _ => {
            proof {
                assert(false);
            }
            RecordStep::Done { outcome: RecordOutcome::Skipped }
        },
    }
}

} // verus!
