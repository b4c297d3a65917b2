//! The tagging job: a state machine that decides, item by item, what the
//! worker does next. The worker performs each action (reading the marker,
//! classifying, writing) and hands the outcome back.

use vstd::prelude::*;
use crate::tagset::{merge_words, merged, tag_views};
use crate::text::{decimal, decimal_string};

verus! {

/// An event of a job, sent to the watcher in the order of emission.
#[derive(Clone, Debug, PartialEq, Eq)]
pub enum AppMessage {
    Log(String),
    Progress(usize, usize),
    Finished,
}

/// Where the job stands within the current item.
#[derive(Clone, Copy, Debug, PartialEq, Eq, Structural)]
pub enum Stage {
    /// At the top of an item: the cancellation flag is read next.
    AtItem,
    /// Waiting for the processed marker of the current item.
    AwaitMarker,
    /// Waiting for the classification of the current item.
    AwaitTags,
    /// Waiting for the outcome of the two writes of the current item.
    AwaitWrites,
    /// The job has ended; `Finished` was the last event.
    Over,
}

/// The terminal state of a job, or `Running`.
#[derive(Clone, Copy, Debug, PartialEq, Eq, Structural)]
pub enum JobState {
    Running,
    Cancelled,
    Completed,
    /// Ended early by a fatal error: no index, or no classification resource.
    Aborted,
}

/// What the classification capability gave for one item.
#[derive(Clone, Debug, PartialEq, Eq)]
pub enum Classification {
    Tags(Vec<String>),
    Failed(String),
    /// The shared classification resource could not be acquired.
    ResourceUnavailable,
}

/// What the worker must do next.
#[derive(Clone, Debug, PartialEq, Eq)]
pub enum Action {
    /// Read the cancellation flag and call `advance`.
    NextItem,
    /// Ask whether the item is already processed, then call `on_marker`.
    CheckMarker(usize),
    /// Classify the item and extract its words, then call `on_classified`.
    Classify(usize),
    /// Embed the tags in the item and upsert its index record, then call `on_persisted`.
    Persist(usize, Vec<String>),
    /// Nothing more: the job is over.
    Stop,
}

/// The events to send now, and the next action.
#[derive(Clone, Debug)]
pub struct Step {
    pub messages: Vec<AppMessage>,
    pub action: Action,
}

/// One run of a tagging job over the items of a folder.
pub struct TaggingJob {
    pub items: Vec<String>,
    /// The current item.
    pub index: usize,
    pub stage: Stage,
    pub state: JobState,
    /// The marker answers received, item by item.
    pub marks: Ghost<Seq<bool>>,
    /// The items for which classification was requested, in order.
    pub classified: Ghost<Seq<nat>>,
    /// The items for which the two writes were requested, in order.
    pub written: Ghost<Seq<nat>>,
    /// Every event emitted so far.
    pub emitted: Ghost<Seq<AppMessage>>,
}

/// The positions of the items not yet marked, in order.
pub open spec fn unmarked_indices(m: Seq<bool>) -> Seq<nat>
    decreases m.len(),
{
    if m.len() == 0 {
        Seq::empty()
    } else {
        let p = unmarked_indices(m.drop_last());
        if m.last() {
            p
        } else {
            p.push((m.len() - 1) as nat)
        }
    }
}

/// `Finished` occurs nowhere but possibly as the last event.
pub open spec fn finished_only_last(e: Seq<AppMessage>) -> bool {
    forall|i: int| 0 <= i < e.len() - 1 ==> !(#[trigger] e[i] is Finished)
}

pub open spec fn ends_finished(e: Seq<AppMessage>) -> bool {
    e.len() > 0 && e.last() is Finished
}

pub open spec fn is_log(m: AppMessage, text: Seq<char>) -> bool {
    m is Log && m->Log_0@ == text
}

pub proof fn lemma_unmarked_indices(m: Seq<bool>)
    ensures
        forall|i: nat| #[trigger] unmarked_indices(m).contains(i) <==> (i < m.len() && !m[i as int]),
    decreases m.len(),
{
    if m.len() > 0 {
        lemma_unmarked_indices(m.drop_last());
        let p = unmarked_indices(m.drop_last());
        assert forall|i: nat| #[trigger] unmarked_indices(m).contains(i) <==> (i < m.len() && !m[i as int]) by {
            if !m.last() {
                if unmarked_indices(m).contains(i) && i != m.len() - 1 {
                    let k = choose|k: int| 0 <= k < unmarked_indices(m).len() && unmarked_indices(m)[k] == i;
                    assert(p[k] == i);
                }
                if p.contains(i) {
                    let k = choose|k: int| 0 <= k < p.len() && p[k] == i;
                    assert(unmarked_indices(m)[k] == i);
                }
                if i == m.len() - 1 {
                    assert(unmarked_indices(m)[p.len() as int] == i);
                }
            }
        }
    }
}

/// A log event: `prefix` followed by `detail`.
pub fn log_with(prefix: &str, detail: &str) -> (r: AppMessage)
    ensures
        is_log(r, prefix@ + detail@),
{
    let mut text = String::from_str(prefix);
    text.append(detail);
    AppMessage::Log(text)
}

impl TaggingJob {
    pub open spec fn wf(&self) -> bool {
        let m = self.marks@;
        &&& self.index <= self.items@.len()
        &&& m.len() <= self.items@.len()
        &&& self.classified@ == unmarked_indices(m)
        &&& forall|k: int|
            0 <= k < self.written@.len() ==> (#[trigger] self.written@[k]) < m.len() && !m[self.written@[k] as int]
        &&& finished_only_last(self.emitted@)
        &&& (self.stage is Over <==> !(self.state is Running))
        &&& (self.stage is Over <==> ends_finished(self.emitted@))
        &&& match self.stage {
            Stage::AtItem => m.len() == self.index,
            Stage::AwaitMarker => m.len() == self.index && self.index < self.items@.len(),
            Stage::AwaitTags => m.len() == self.index + 1 && self.index < self.items@.len() && !m[self.index as int],
            Stage::AwaitWrites => m.len() == self.index + 1 && self.index < self.items@.len() && !m[self.index as int],
            Stage::Over => {
                &&& (self.state is Cancelled ==> m.len() == self.index)
                &&& (self.state is Completed ==> m.len() == self.items@.len())
            },
        }
    }

    /// Starts a job over the enumerated items; announces how many there are.
    pub fn start(items: Vec<String>) -> (r: (TaggingJob, Step))
        ensures
            r.0.wf(),
            r.0.items == items,
            r.0.index == 0,
            r.0.stage == Stage::AtItem,
            r.0.state == JobState::Running,
            r.0.marks@.len() == 0,
            r.0.written@.len() == 0,
            r.0.emitted@ == r.1.messages@,
            r.1.messages@.len() == 1,
            is_log(r.1.messages@[0], "Found "@ + decimal(items@.len()) + " images."@),
            r.1.action == Action::NextItem,
    {
        let mut text = String::from_str("Found ");
        text.append(decimal_string(items.len()).as_str());
        text.append(" images.");
        let messages = vec![AppMessage::Log(text)];
        let job = TaggingJob {
            items,
            index: 0,
            stage: Stage::AtItem,
            state: JobState::Running,
            marks: Ghost(Seq::empty()),
            classified: Ghost(Seq::empty()),
            written: Ghost(Seq::empty()),
            emitted: Ghost(messages@),
        };
        (job, Step { messages, action: Action::NextItem })
    }

    /// The top of an item: stops if cancellation was requested or no item is
    /// left, otherwise reports progress and asks for the item's marker.
    pub fn advance(&mut self, cancelled: bool) -> (r: Step)
        requires
            old(self).wf(),
            old(self).stage == Stage::AtItem,
        ensures
            final(self).wf(),
            final(self).items == old(self).items,
            final(self).index == old(self).index,
            final(self).marks == old(self).marks,
            final(self).classified == old(self).classified,
            final(self).written == old(self).written,
            final(self).emitted@ == old(self).emitted@ + r.messages@,
            cancelled ==> {
                &&& final(self).state == JobState::Cancelled
                &&& final(self).stage == Stage::Over
                &&& r.messages@.len() == 2
                &&& is_log(r.messages@[0], "Tagging cancelled by user."@)
                &&& r.messages@[1] is Finished
                &&& r.action == Action::Stop
            },
            !cancelled && old(self).index == old(self).items@.len() ==> {
                &&& final(self).state == JobState::Completed
                &&& final(self).stage == Stage::Over
                &&& r.messages@.len() == 2
                &&& is_log(r.messages@[0], "Tagging complete."@)
                &&& r.messages@[1] is Finished
                &&& r.action == Action::Stop
            },
            !cancelled && old(self).index < old(self).items@.len() ==> {
                &&& final(self).state == JobState::Running
                &&& final(self).stage == Stage::AwaitMarker
                &&& r.messages@ == seq![AppMessage::Progress((old(self).index + 1) as usize, old(self).items@.len() as usize)]
                &&& r.action == Action::CheckMarker(old(self).index)
            },
    {
        let total = self.items.len();
        if cancelled || self.index == total {
            let text = if cancelled {
                String::from_str("Tagging cancelled by user.")
            } else {
                String::from_str("Tagging complete.")
            };
            let messages = vec![AppMessage::Log(text), AppMessage::Finished];
            self.state = if cancelled { JobState::Cancelled } else { JobState::Completed };
            self.stage = Stage::Over;
            self.emitted = Ghost(self.emitted@ + messages@);
            Step { messages, action: Action::Stop }
        } else {
            let messages = vec![AppMessage::Progress(self.index + 1, total)];
            self.stage = Stage::AwaitMarker;
            self.emitted = Ghost(self.emitted@ + messages@);
            Step { messages, action: Action::CheckMarker(self.index) }
        }
    }

    /// The marker answer for the current item: a marked item is skipped,
    /// an unmarked one goes to classification.
    pub fn on_marker(&mut self, marked: bool) -> (r: Step)
        requires
            old(self).wf(),
            old(self).stage == Stage::AwaitMarker,
        ensures
            final(self).wf(),
            final(self).items == old(self).items,
            final(self).state == JobState::Running,
            final(self).marks@ == old(self).marks@.push(marked),
            final(self).written == old(self).written,
            final(self).emitted@ == old(self).emitted@ + r.messages@,
            r.messages@.len() == 1,
            marked ==> {
                &&& final(self).classified == old(self).classified
                &&& final(self).index == old(self).index + 1
                &&& final(self).stage == Stage::AtItem
                &&& is_log(r.messages@[0], "Skipping "@ + old(self).items@[old(self).index as int]@ + " (already tagged)"@)
                &&& r.action == Action::NextItem
            },
            !marked ==> {
                &&& final(self).classified@ == old(self).classified@.push(old(self).index as nat)
                &&& final(self).index == old(self).index
                &&& final(self).stage == Stage::AwaitTags
                &&& is_log(r.messages@[0], "Processing "@ + old(self).items@[old(self).index as int]@)
                &&& r.action == Action::Classify(old(self).index)
            },
    {
        let i = self.index;
        let total = self.items.len();
        assert(i < total);
        let ghost m = self.marks@.push(marked);
        assert(m.drop_last() =~= self.marks@);
        proof {
            lemma_unmarked_indices(self.marks@);
        }
        self.marks = Ghost(m);
        if marked {
            let mut text = String::from_str("Skipping ");
            text.append(self.items[i].as_str());
            text.append(" (already tagged)");
            let messages = vec![AppMessage::Log(text)];
            self.index = i + 1;
            self.stage = Stage::AtItem;
            self.emitted = Ghost(self.emitted@ + messages@);
            Step { messages, action: Action::NextItem }
        } else {
            let messages = vec![log_with("Processing ", self.items[i].as_str())];
            self.classified = Ghost(self.classified@.push(i as nat));
            self.stage = Stage::AwaitTags;
            self.emitted = Ghost(self.emitted@ + messages@);
            Step { messages, action: Action::Classify(i) }
        }
    }

    /// The classification of the current item. Its tags, followed by the
    /// extracted words that they do not hold yet, go to both writes; a failed
    /// classification is logged and the item left; an unusable resource ends
    /// the job.
    pub fn on_classified(&mut self, result: Classification, words: &Vec<String>) -> (r: Step)
        requires
            old(self).wf(),
            old(self).stage == Stage::AwaitTags,
        ensures
            final(self).wf(),
            final(self).items == old(self).items,
            final(self).marks == old(self).marks,
            final(self).classified == old(self).classified,
            final(self).emitted@ == old(self).emitted@ + r.messages@,
            result is Tags ==> {
                &&& final(self).state == JobState::Running
                &&& final(self).stage == Stage::AwaitWrites
                &&& final(self).index == old(self).index
                &&& final(self).written@ == old(self).written@.push(old(self).index as nat)
                &&& r.messages@.len() == 0
                &&& r.action is Persist
                &&& r.action->Persist_0 == old(self).index
                &&& tag_views(r.action->Persist_1@) == merged(tag_views(result->Tags_0@), tag_views(words@))
            },
            result is Failed ==> {
                &&& final(self).state == JobState::Running
                &&& final(self).stage == Stage::AtItem
                &&& final(self).index == old(self).index + 1
                &&& final(self).written == old(self).written
                &&& r.messages@.len() == 1
                &&& is_log(r.messages@[0], "Error generating tags: "@ + result->Failed_0@)
                &&& r.action == Action::NextItem
            },
            result is ResourceUnavailable ==> {
                &&& final(self).state == JobState::Aborted
                &&& final(self).stage == Stage::Over
                &&& final(self).written == old(self).written
                &&& r.messages@.len() == 3
                &&& is_log(r.messages@[0], "Failed to lock the classification resource."@)
                &&& is_log(r.messages@[1], "Tagging complete."@)
                &&& r.messages@[2] is Finished
                &&& r.action == Action::Stop
            },
    {
        let i = self.index;
        let total = self.items.len();
        assert(i < total);
        match result {
            Classification::Tags(tags) => {
                let mut tags = tags;
                merge_words(&mut tags, words);
                self.written = Ghost(self.written@.push(i as nat));
                self.stage = Stage::AwaitWrites;
                let messages: Vec<AppMessage> = Vec::new();
                assert(self.emitted@ + messages@ =~= self.emitted@);
                Step { messages, action: Action::Persist(i, tags) }
            },
            Classification::Failed(e) => {
                let messages = vec![log_with("Error generating tags: ", e.as_str())];
                self.index = i + 1;
                self.stage = Stage::AtItem;
                self.emitted = Ghost(self.emitted@ + messages@);
                Step { messages, action: Action::NextItem }
            },
            Classification::ResourceUnavailable => {
                let messages = vec![
                    AppMessage::Log(String::from_str("Failed to lock the classification resource.")),
                    AppMessage::Log(String::from_str("Tagging complete.")),
                    AppMessage::Finished,
                ];
                self.state = JobState::Aborted;
                self.stage = Stage::Over;
                self.emitted = Ghost(self.emitted@ + messages@);
                Step { messages, action: Action::Stop }
            },
        }
    }

    /// The outcome of the two writes of the current item: each failure is
    /// logged on its own, and the job goes on with the next item.
    pub fn on_persisted(&mut self, embedded: &Result<(), String>, stored: &Result<(), String>) -> (r: Step)
        requires
            old(self).wf(),
            old(self).stage == Stage::AwaitWrites,
        ensures
            final(self).wf(),
            final(self).items == old(self).items,
            final(self).state == JobState::Running,
            final(self).stage == Stage::AtItem,
            final(self).index == old(self).index + 1,
            final(self).marks == old(self).marks,
            final(self).classified == old(self).classified,
            final(self).written == old(self).written,
            final(self).emitted@ == old(self).emitted@ + r.messages@,
            r.action == Action::NextItem,
            r.messages@.len() == (if embedded is Err { 1int } else { 0 }) + (if stored is Err { 1int } else { 0 }),
            embedded is Err ==> is_log(r.messages@[0], "Error embedding tags: "@ + embedded->Err_0@),
            stored is Err ==> is_log(r.messages@.last(), "Error saving to the index: "@ + stored->Err_0@),
    {
        let mut messages: Vec<AppMessage> = Vec::new();
        if let Err(e) = embedded {
            messages.push(log_with("Error embedding tags: ", e.as_str()));
        }
        if let Err(e) = stored {
            messages.push(log_with("Error saving to the index: ", e.as_str()));
        }
        let total = self.items.len();
        assert(self.index < total);
        self.index = self.index + 1;
        self.stage = Stage::AtItem;
        self.emitted = Ghost(self.emitted@ + messages@);
        Step { messages, action: Action::NextItem }
    }

    /// The index could not be opened: the job ends before its first item.
    pub fn abort_without_index(&mut self, err: &str) -> (r: Step)
        requires
            old(self).wf(),
            old(self).stage == Stage::AtItem,
        ensures
            final(self).wf(),
            final(self).items == old(self).items,
            final(self).state == JobState::Aborted,
            final(self).stage == Stage::Over,
            final(self).marks == old(self).marks,
            final(self).classified == old(self).classified,
            final(self).written == old(self).written,
            final(self).emitted@ == old(self).emitted@ + r.messages@,
            r.messages@.len() == 2,
            is_log(r.messages@[0], "Failed to open the index: "@ + err@),
            r.messages@[1] is Finished,
            r.action == Action::Stop,
    {
        let messages = vec![log_with("Failed to open the index: ", err), AppMessage::Finished];
        self.state = JobState::Aborted;
        self.stage = Stage::Over;
        self.emitted = Ghost(self.emitted@ + messages@);
        Step { messages, action: Action::Stop }
    }
}

/// The items classified are exactly those whose marker said "not processed":
/// the enumerated items less the marked ones. Once the job has completed,
/// every enumerated item has had its marker read, and each item written is
/// one of those classified.
pub proof fn lemma_classified_are_the_unmarked(job: TaggingJob)
    requires
        job.wf(),
    ensures
        forall|i: nat| #[trigger] job.classified@.contains(i) <==> (i < job.marks@.len() && !job.marks@[i as int]),
        job.state == JobState::Completed ==> job.marks@.len() == job.items@.len(),
        forall|k: int| 0 <= k < job.written@.len() ==> job.classified@.contains(#[trigger] job.written@[k]),
{
    lemma_unmarked_indices(job.marks@);
    assert forall|k: int| 0 <= k < job.written@.len() implies job.classified@.contains(#[trigger] job.written@[k]) by {
        assert(unmarked_indices(job.marks@).contains(job.written@[k]));
    }
}

/// A job cancelled at the top of item `k` has ended: no item from `k` on was
/// classified or written, and no further step is accepted (each step requires
/// a stage other than `Over`).
pub proof fn lemma_cancelled_job_stops(job: TaggingJob)
    requires
        job.wf(),
        job.state == JobState::Cancelled,
    ensures
        job.stage == Stage::Over,
        job.marks@.len() == job.index,
        forall|k: int| 0 <= k < job.classified@.len() ==> #[trigger] job.classified@[k] < job.index,
        forall|k: int| 0 <= k < job.written@.len() ==> #[trigger] job.written@[k] < job.index,
{
    lemma_unmarked_indices(job.marks@);
    assert forall|k: int| 0 <= k < job.classified@.len() implies #[trigger] job.classified@[k] < job.index by {
        assert(job.classified@.contains(job.classified@[k]));
    }
}

/// On a folder whose items are all marked already, the job requests no
/// classification and no write.
pub proof fn lemma_all_marked_means_no_work(job: TaggingJob)
    requires
        job.wf(),
        forall|i: int| 0 <= i < job.marks@.len() ==> job.marks@[i],
    ensures
        job.classified@.len() == 0,
        job.written@.len() == 0,
{
    lemma_unmarked_indices(job.marks@);
    if job.classified@.len() > 0 {
        assert(job.classified@.contains(job.classified@[0]));
    }
    if job.written@.len() > 0 {
        let w = job.written@[0];
        assert(!job.marks@[w as int]);
    }
}

/// `Finished` is emitted at most once, as the last event, and only once the
/// job is over.
pub proof fn lemma_finished_is_last(job: TaggingJob)
    requires
        job.wf(),
    ensures
        forall|i: int| 0 <= i < job.emitted@.len() && (#[trigger] job.emitted@[i]) is Finished ==> {
            &&& i == job.emitted@.len() - 1
            &&& job.stage == Stage::Over
        },
{
}

} // verus!
