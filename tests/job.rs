use local_lens::engine::{Action, AppMessage, Classification, JobState, Stage, Step, TaggingJob};

fn s(x: &str) -> String {
    x.to_string()
}

fn paths(n: usize) -> Vec<String> {
    (0..n).map(|i| format!("/photos/img{}.jpg", i)).collect()
}

/// Drives a job to its end, answering the marker from `marked`, returning
/// every event and the items classified.
fn drive(items: Vec<String>, marked: &[bool], cancel_at: Option<usize>) -> (Vec<AppMessage>, Vec<usize>, Vec<usize>, TaggingJob) {
    let (mut job, first) = TaggingJob::start(items);
    let mut events = first.messages.clone();
    let mut classified = Vec::new();
    let mut written = Vec::new();
    let mut step: Step = first;
    loop {
        step = match step.action {
            Action::NextItem => {
                let cancel = cancel_at == Some(job.index);
                job.advance(cancel)
            }
            Action::CheckMarker(i) => job.on_marker(marked[i]),
            Action::Classify(i) => {
                classified.push(i);
                job.on_classified(Classification::Tags(vec![s("cat"), s("dog")]), &vec![s("dog"), s("text")])
            }
            Action::Persist(i, tags) => {
                assert_eq!(tags, vec![s("cat"), s("dog"), s("text")]);
                written.push(i);
                job.on_persisted(&Ok(()), &Ok(()))
            }
            Action::Stop => break,
        };
        events.extend(step.messages.iter().cloned());
    }
    (events, classified, written, job)
}

#[test]
fn three_images_one_marked() {
    let (events, classified, written, job) = drive(paths(3), &[false, true, false], None);
    let progress: Vec<AppMessage> = events.iter().filter(|m| matches!(m, AppMessage::Progress(_, _))).cloned().collect();
    assert_eq!(progress, vec![AppMessage::Progress(1, 3), AppMessage::Progress(2, 3), AppMessage::Progress(3, 3)]);
    assert_eq!(classified.len(), 2);
    assert_eq!(classified, vec![0, 2]);
    assert_eq!(written, vec![0, 2]);
    assert_eq!(events.iter().filter(|m| **m == AppMessage::Finished).count(), 1);
    assert_eq!(events.last(), Some(&AppMessage::Finished));
    assert_eq!(events[0], AppMessage::Log(s("Found 3 images.")));
    assert_eq!(job.state, JobState::Completed);
    assert_eq!(job.stage, Stage::Over);
}

#[test]
fn classified_items_are_the_unmarked_ones() {
    let marked = [true, false, false, true, false];
    let (_, classified, _, _) = drive(paths(5), &marked, None);
    let expected: Vec<usize> = (0..5).filter(|i| !marked[*i]).collect();
    assert_eq!(classified, expected);
}

#[test]
fn cancellation_before_an_item_stops_everything_after() {
    let (events, classified, written, job) = drive(paths(4), &[false, false, false, false], Some(2));
    assert_eq!(classified, vec![0, 1]);
    assert_eq!(written, vec![0, 1]);
    assert_eq!(job.state, JobState::Cancelled);
    let n = events.len();
    assert_eq!(events[n - 2], AppMessage::Log(s("Tagging cancelled by user.")));
    assert_eq!(events[n - 1], AppMessage::Finished);
    assert!(!events.contains(&AppMessage::Progress(3, 4)));
}

#[test]
fn fully_tagged_folder_needs_no_classification() {
    let (events, classified, written, job) = drive(paths(3), &[true, true, true], None);
    assert!(classified.is_empty());
    assert!(written.is_empty());
    assert_eq!(job.state, JobState::Completed);
    assert!(events.iter().all(|m| matches!(m, AppMessage::Log(_) | AppMessage::Progress(_, _) | AppMessage::Finished)));
    assert_eq!(events.iter().filter(|m| **m == AppMessage::Finished).count(), 1);
}

#[test]
fn empty_folder_completes_at_once() {
    let (events, classified, _, job) = drive(Vec::new(), &[], None);
    assert!(classified.is_empty());
    assert_eq!(
        events,
        vec![AppMessage::Log(s("Found 0 images.")), AppMessage::Log(s("Tagging complete.")), AppMessage::Finished]
    );
    assert_eq!(job.state, JobState::Completed);
}

#[test]
fn failed_classification_skips_the_item_only() {
    let (mut job, _) = TaggingJob::start(paths(2));
    job.advance(false);
    job.on_marker(false);
    let step = job.on_classified(Classification::Failed(s("bad image")), &Vec::new());
    assert_eq!(step.messages, vec![AppMessage::Log(s("Error generating tags: bad image"))]);
    assert_eq!(step.action, Action::NextItem);
    let step = job.advance(false);
    assert_eq!(step.action, Action::CheckMarker(1));
}

#[test]
fn unusable_resource_ends_the_job() {
    let (mut job, _) = TaggingJob::start(paths(2));
    job.advance(false);
    job.on_marker(false);
    let step = job.on_classified(Classification::ResourceUnavailable, &Vec::new());
    assert_eq!(step.action, Action::Stop);
    assert_eq!(step.messages.last(), Some(&AppMessage::Finished));
    assert_eq!(job.state, JobState::Aborted);
}

#[test]
fn write_failures_are_logged_independently() {
    let (mut job, _) = TaggingJob::start(paths(1));
    job.advance(false);
    job.on_marker(false);
    job.on_classified(Classification::Tags(vec![s("cat")]), &Vec::new());
    let step = job.on_persisted(&Err(s("locked")), &Err(s("disk full")));
    assert_eq!(
        step.messages,
        vec![
            AppMessage::Log(s("Error embedding tags: locked")),
            AppMessage::Log(s("Error saving to the index: disk full"))
        ]
    );
    assert_eq!(step.action, Action::NextItem);
}

#[test]
fn missing_index_ends_the_job() {
    let (mut job, _) = TaggingJob::start(paths(2));
    let step = job.abort_without_index("no such file");
    assert_eq!(step.messages, vec![AppMessage::Log(s("Failed to open the index: no such file")), AppMessage::Finished]);
    assert_eq!(job.state, JobState::Aborted);
}

#[test]
fn skipped_item_is_logged() {
    let (mut job, _) = TaggingJob::start(vec![s("a.png")]);
    let step = job.advance(false);
    assert_eq!(step.messages, vec![AppMessage::Progress(1, 1)]);
    let step = job.on_marker(true);
    assert_eq!(step.messages, vec![AppMessage::Log(s("Skipping a.png (already tagged)"))]);
}
