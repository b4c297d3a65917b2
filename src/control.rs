//! The control plane: which job requests start, the log, the progress, and
//! the single-job rule. It consumes the events that the running job sends.

use vstd::prelude::*;
use crate::engine::AppMessage;
use crate::tagset::tag_views;

verus! {

/// The answer to a request to start a job.
#[derive(Clone, Copy, Debug, PartialEq, Eq, Structural)]
pub enum StartOutcome {
    Started,
    /// A job is running already; nothing was started.
    AlreadyRunning,
    /// A required input (folder, old or new tag) is empty.
    MissingInput,
    /// The classifier could not be loaded, so tagging is disabled.
    ClassifierUnavailable,
}

/// What the control plane knows of the job it started.
pub struct Controller {
    pub is_processing: bool,
    /// The last progress reported: (completed, total).
    pub progress: (usize, usize),
    pub logs: Vec<String>,
}

impl Controller {
    pub fn new() -> (r: Controller)
        ensures
            !r.is_processing,
            r.progress == (0usize, 0usize),
            r.logs@.len() == 0,
    {
        Controller { is_processing: false, progress: (0, 0), logs: Vec::new() }
    }

    fn log(&mut self, text: &str)
        ensures
            final(self).is_processing == old(self).is_processing,
            final(self).progress == old(self).progress,
            tag_views(final(self).logs@) == tag_views(old(self).logs@).push(text@),
    {
        let ghost before = tag_views(self.logs@);
        self.logs.push(String::from_str(text));
        assert(tag_views(self.logs@) =~= before.push(text@));
    }

    /// Takes in one event of the running job.
    pub fn handle(&mut self, msg: AppMessage)
        ensures
            msg is Log ==> {
                &&& final(self).logs@ == old(self).logs@.push(msg->Log_0)
                &&& final(self).progress == old(self).progress
                &&& final(self).is_processing == old(self).is_processing
            },
            msg is Progress ==> {
                &&& final(self).logs@ == old(self).logs@
                &&& final(self).progress == (msg->Progress_0, msg->Progress_1)
                &&& final(self).is_processing == old(self).is_processing
            },
            msg is Finished ==> {
                &&& final(self).logs@ == old(self).logs@
                &&& final(self).progress == old(self).progress
                &&& !final(self).is_processing
            },
    {
        match msg {
            AppMessage::Log(s) => self.logs.push(s),
            AppMessage::Progress(done, total) => self.progress = (done, total),
            AppMessage::Finished => self.is_processing = false,
        }
    }

    /// A request to tag a folder. It starts only when no job runs, the
    /// folder is given and the classifier is available; a refusal for a
    /// missing folder or classifier is logged.
    pub fn request_tagging(&mut self, folder: &str, classifier_ready: bool) -> (r: StartOutcome)
        ensures
            old(self).is_processing ==> r == StartOutcome::AlreadyRunning && *final(self) == *old(self),
            !old(self).is_processing && folder@.len() == 0 ==> {
                &&& r == StartOutcome::MissingInput
                &&& !final(self).is_processing
                &&& tag_views(final(self).logs@) == tag_views(old(self).logs@).push("Please select a folder first."@)
            },
            !old(self).is_processing && folder@.len() > 0 && !classifier_ready ==> {
                &&& r == StartOutcome::ClassifierUnavailable
                &&& !final(self).is_processing
                &&& tag_views(final(self).logs@) == tag_views(old(self).logs@).push("Model session not initialized."@)
            },
            !old(self).is_processing && folder@.len() > 0 && classifier_ready ==> {
                &&& r == StartOutcome::Started
                &&& final(self).is_processing
                &&& final(self).progress == (0usize, 0usize)
                &&& tag_views(final(self).logs@) == tag_views(old(self).logs@).push("Starting tagging process..."@)
            },
    {
        if self.is_processing {
            return StartOutcome::AlreadyRunning;
        }
        if folder.is_empty() {
            self.log("Please select a folder first.");
            return StartOutcome::MissingInput;
        }
        if !classifier_ready {
            self.log("Model session not initialized.");
            return StartOutcome::ClassifierUnavailable;
        }
        self.is_processing = true;
        self.progress = (0, 0);
        self.log("Starting tagging process...");
        StartOutcome::Started
    }

    /// A request to rename `old_tag` to `new_tag` everywhere. It starts only
    /// when no job runs and both tags are given.
    pub fn request_rename(&mut self, old_tag: &str, new_tag: &str) -> (r: StartOutcome)
        ensures
            old(self).is_processing ==> r == StartOutcome::AlreadyRunning && *final(self) == *old(self),
            !old(self).is_processing && (old_tag@.len() == 0 || new_tag@.len() == 0) ==> {
                &&& r == StartOutcome::MissingInput
                &&& !final(self).is_processing
                &&& tag_views(final(self).logs@) == tag_views(old(self).logs@).push("Please enter both the old and the new tag."@)
            },
            !old(self).is_processing && old_tag@.len() > 0 && new_tag@.len() > 0 ==> {
                &&& r == StartOutcome::Started
                &&& final(self).is_processing
                &&& final(self).progress == (0usize, 0usize)
                &&& tag_views(final(self).logs@) == tag_views(old(self).logs@).push(
                    "Renaming '"@ + old_tag@ + "' to '"@ + new_tag@ + "'..."@,
                )
            },
    {
        if self.is_processing {
            return StartOutcome::AlreadyRunning;
        }
        if old_tag.is_empty() || new_tag.is_empty() {
            self.log("Please enter both the old and the new tag.");
            return StartOutcome::MissingInput;
        }
        self.is_processing = true;
        self.progress = (0, 0);
        let mut text = String::from_str("Renaming '");
        text.append(old_tag);
        text.append("' to '");
        text.append(new_tag);
        text.append("'...");
        self.log(text.as_str());
        StartOutcome::Started
    }

    /// A request to cancel the running job; answers whether the
    /// cancellation flag is to be set.
    pub fn request_cancel(&mut self) -> (r: bool)
        ensures
            r == old(self).is_processing,
            final(self).is_processing == old(self).is_processing,
            final(self).progress == old(self).progress,
            r ==> tag_views(final(self).logs@) == tag_views(old(self).logs@).push("Cancelling..."@),
            !r ==> final(self).logs@ == old(self).logs@,
    {
        if self.is_processing {
            self.log("Cancelling...");
            true
        } else {
            false
        }
    }
}

} // verus!
