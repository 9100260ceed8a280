//! The worker pool's decisions: what a worker does with the outcome of its
//! blocking wait, and the strict step order of the per-post pipeline.
//!
//! The caller runs the waiting, the network, the subprocesses and the
//! filesystem; every decision between those suspension points is taken here.
//! Cancellation is checked only at the wait: a worker mid-pipeline runs to
//! natural completion.

use vstd::prelude::*;

verus! {

/// What a worker's blocking wait came back with: the cancellation signal, a
/// dequeued post id, or a queue closed with no sender left.
#[derive(Clone, Copy, Debug, PartialEq, Eq, Structural)]
pub enum WorkerEvent {
    Cancelled,
    Dequeued(i64),
    Closed,
}

/// What the worker does next: exit, or run the pipeline for one post.
#[derive(Clone, Copy, Debug, PartialEq, Eq, Structural)]
pub enum WorkerAction {
    Exit,
    Process(i64),
}

/// The worker-loop decision: cancellation and a closed queue end the worker
/// (even if ids are still queued); a dequeued id is processed. A failed post
/// never ends the worker, so no event says so.
pub fn worker_step(ev: &WorkerEvent) -> (r: WorkerAction)
    ensures
        ev is Cancelled ==> r is Exit,
        ev is Closed ==> r is Exit,
        forall|id: i64| ev == WorkerEvent::Dequeued(id) ==> r == WorkerAction::Process(id),
{
    match ev {
        WorkerEvent::Cancelled => WorkerAction::Exit,
        WorkerEvent::Closed => WorkerAction::Exit,
        WorkerEvent::Dequeued(id) => WorkerAction::Process(*id),
    }
}

/// Where a post's pipeline run stands. The stages are the strict step order:
/// fetch metadata, resolve the internal id, fetch content, classify,
/// transcode, persist the download record (the durability commit point), place
/// the files, disarm the guard.
#[derive(Clone, Copy, Debug, PartialEq, Eq, Structural)]
pub enum PipelineStage {
    FetchInfo,
    ResolveId,
    FetchContent,
    Classify,
    Transcode,
    Persist,
    Place,
    Disarm,
    Done,
    Failed,
}

/// One post's pipeline run: its stage, and which durable effects have
/// happened. A failure between persisting and placing is the one window where
/// a download record exists without its file; these flags make that window
/// observable.
pub struct PostPipeline {
    pub external_id: i64,
    pub stage: PipelineStage,
    pub persisted: bool,
    pub placed: bool,
    pub committed: bool,
}

impl PostPipeline {
    /// The stage order never runs ahead of the effects: files are placed only
    /// after the record is persisted, and the guard is disarmed only after the
    /// files are placed.
    pub open spec fn wf(self) -> bool {
        &&& self.committed ==> self.placed
        &&& self.placed ==> self.persisted
        &&& (self.stage is FetchInfo || self.stage is ResolveId || self.stage is FetchContent
            || self.stage is Classify || self.stage is Transcode || self.stage is Persist)
            ==> !self.persisted
        &&& self.stage is Place ==> self.persisted && !self.placed
        &&& self.stage is Disarm ==> self.placed && !self.committed
        &&& self.stage is Done ==> self.committed
    }

    /// A fresh run for one post, about to fetch its metadata.
    pub fn start(external_id: i64) -> (p: PostPipeline)
        ensures
            p.wf(),
            p.external_id == external_id,
            p.stage is FetchInfo,
            !p.persisted && !p.placed && !p.committed,
    {
        PostPipeline {
            external_id,
            stage: PipelineStage::FetchInfo,
            persisted: false,
            placed: false,
            committed: false,
        }
    }

    /// The metadata fetch finished: on to resolving the internal id, or failed.
    pub fn info_fetched(&mut self, ok: bool)
        requires
            old(self).wf(),
            old(self).stage is FetchInfo,
        ensures
            final(self).wf(),
            final(self).stage == if ok {
                PipelineStage::ResolveId
            } else {
                PipelineStage::Failed
            },
            unchanged_effects(*old(self), *final(self)),
    {
        self.stage = if ok {
            PipelineStage::ResolveId
        } else {
            PipelineStage::Failed
        };
    }

    /// The internal id lookup finished: on to fetching content, or failed.
    pub fn id_resolved(&mut self, ok: bool)
        requires
            old(self).wf(),
            old(self).stage is ResolveId,
        ensures
            final(self).wf(),
            final(self).stage == if ok {
                PipelineStage::FetchContent
            } else {
                PipelineStage::Failed
            },
            unchanged_effects(*old(self), *final(self)),
    {
        self.stage = if ok {
            PipelineStage::FetchContent
        } else {
            PipelineStage::Failed
        };
    }

    /// The content download finished: on to classification, or failed.
    pub fn content_fetched(&mut self, ok: bool)
        requires
            old(self).wf(),
            old(self).stage is FetchContent,
        ensures
            final(self).wf(),
            final(self).stage == if ok {
                PipelineStage::Classify
            } else {
                PipelineStage::Failed
            },
            unchanged_effects(*old(self), *final(self)),
    {
        self.stage = if ok {
            PipelineStage::Classify
        } else {
            PipelineStage::Failed
        };
    }

    /// Classification finished: on to transcoding, or failed.
    pub fn classified(&mut self, ok: bool)
        requires
            old(self).wf(),
            old(self).stage is Classify,
        ensures
            final(self).wf(),
            final(self).stage == if ok {
                PipelineStage::Transcode
            } else {
                PipelineStage::Failed
            },
            unchanged_effects(*old(self), *final(self)),
    {
        self.stage = if ok {
            PipelineStage::Transcode
        } else {
            PipelineStage::Failed
        };
    }

    /// Transcoding finished: on to persisting, or failed.
    pub fn transcoded(&mut self, ok: bool)
        requires
            old(self).wf(),
            old(self).stage is Transcode,
        ensures
            final(self).wf(),
            final(self).stage == if ok {
                PipelineStage::Persist
            } else {
                PipelineStage::Failed
            },
            unchanged_effects(*old(self), *final(self)),
    {
        self.stage = if ok {
            PipelineStage::Persist
        } else {
            PipelineStage::Failed
        };
    }

    /// The store commit finished. On success the download record is durable
    /// and the run moves on to placing the files.
    pub fn record_persisted(&mut self, ok: bool)
        requires
            old(self).wf(),
            old(self).stage is Persist,
        ensures
            final(self).wf(),
            final(self).stage == if ok {
                PipelineStage::Place
            } else {
                PipelineStage::Failed
            },
            final(self).persisted == ok,
            final(self).placed == old(self).placed,
            final(self).committed == old(self).committed,
            final(self).external_id == old(self).external_id,
    {
        self.persisted = ok;
        self.stage = if ok {
            PipelineStage::Place
        } else {
            PipelineStage::Failed
        };
    }

    /// File placement finished. A failure here leaves the one tolerated
    /// inconsistency: a persisted record whose file was never placed.
    pub fn files_placed(&mut self, ok: bool)
        requires
            old(self).wf(),
            old(self).stage is Place,
        ensures
            final(self).wf(),
            final(self).stage == if ok {
                PipelineStage::Disarm
            } else {
                PipelineStage::Failed
            },
            final(self).placed == ok,
            final(self).persisted == old(self).persisted,
            final(self).committed == old(self).committed,
            final(self).external_id == old(self).external_id,
            !ok ==> final(self).persisted && !final(self).placed,
    {
        self.placed = ok;
        self.stage = if ok {
            PipelineStage::Disarm
        } else {
            PipelineStage::Failed
        };
    }

    /// Disarms the guard: the run is complete.
    pub fn guard_disarmed(&mut self)
        requires
            old(self).wf(),
            old(self).stage is Disarm,
        ensures
            final(self).wf(),
            final(self).stage is Done,
            final(self).committed,
            final(self).placed == old(self).placed,
            final(self).persisted == old(self).persisted,
            final(self).external_id == old(self).external_id,
    {
        self.committed = true;
        self.stage = PipelineStage::Done;
    }
}

/// Neither the post nor any durable effect changed.
pub open spec fn unchanged_effects(a: PostPipeline, b: PostPipeline) -> bool {
    &&& a.external_id == b.external_id
    &&& a.persisted == b.persisted
    &&& a.placed == b.placed
    &&& a.committed == b.committed
}

} // verus!
