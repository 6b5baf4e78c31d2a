use sway_tools::error::PipelineError;
use sway_tools::runner::collect;
use sway_tools::store::{after_probe, after_write, ImageOutcome, ImageTask, Step, StoreMode};

fn produced(p: &str) -> ImageOutcome {
    ImageOutcome::Produced(p.to_string())
}

fn skipped(p: &str) -> ImageOutcome {
    ImageOutcome::Skipped(p.to_string())
}

fn outcome_of(step: Step) -> ImageOutcome {
    match step {
        Step::Done(o) => o,
        other => panic!("the task is not over: {:?}", other),
    }
}

#[test]
fn collect_on_no_outcomes_is_an_empty_list() {
    assert_eq!(collect(&Vec::new()), Ok(Vec::new()));
}

#[test]
fn collect_reports_one_path_per_outcome_in_arrival_order() {
    let outcomes = vec![produced("/out/b.jpg"), produced("/out/a.jpg"), produced("/out/c.jpg")];
    assert_eq!(
        collect(&outcomes),
        Ok(vec!["/out/b.jpg".to_string(), "/out/a.jpg".to_string(), "/out/c.jpg".to_string()])
    );
}

#[test]
fn collect_counts_a_cache_hit_like_a_fresh_write() {
    let outcomes = vec![skipped("/out/a.jpg"), produced("/out/b.jpg"), skipped("/out/c.jpg")];
    assert_eq!(
        collect(&outcomes),
        Ok(vec!["/out/a.jpg".to_string(), "/out/b.jpg".to_string(), "/out/c.jpg".to_string()])
    );
}

#[test]
fn collect_fails_with_the_first_failure() {
    let outcomes = vec![
        produced("/out/a.jpg"),
        ImageOutcome::Failed(PipelineError::Codec("bad header".to_string())),
        produced("/out/b.jpg"),
        ImageOutcome::Failed(PipelineError::Io("disk full".to_string())),
    ];
    assert_eq!(collect(&outcomes), Err(PipelineError::Codec("bad header".to_string())));
}

#[test]
fn a_source_without_a_stem_fails_the_whole_run() {
    let sources = ["/a/one.png", ".png", "/a/two.png"];
    let mut outcomes = Vec::new();
    for source in sources {
        let task = ImageTask::new(source.to_string());
        let outcome = match task.begin("/out", StoreMode::Verbatim) {
            Step::Probe { source, output } => {
                match after_probe(source, output, false, StoreMode::Verbatim) {
                    Step::Copy { output, .. } => after_write(output, Ok(())),
                    other => panic!("unexpected step {:?}", other),
                }
            }
            Step::Done(o) => o,
            other => panic!("unexpected step {:?}", other),
        };
        outcomes.push(outcome);
    }
    assert_eq!(outcomes[0], produced("/out/one.png"));
    assert_eq!(outcomes[1], ImageOutcome::Failed(PipelineError::InputShape));
    assert_eq!(outcomes[2], produced("/out/two.png"));
    assert_eq!(collect(&outcomes), Err(PipelineError::InputShape));
}

#[test]
fn duplicate_stems_race_for_one_output() {
    let first = ImageTask::new("/a/photo.png".to_string());
    let second = ImageTask::new("/a/photo.png".to_string());
    let (s1, o1) = match first.begin("/out", StoreMode::Verbatim) {
        Step::Probe { source, output } => (source, output),
        other => panic!("unexpected step {:?}", other),
    };
    let (s2, o2) = match second.begin("/out", StoreMode::Verbatim) {
        Step::Probe { source, output } => (source, output),
        other => panic!("unexpected step {:?}", other),
    };
    assert_eq!(o1, "/out/photo.png");
    assert_eq!(o2, "/out/photo.png");

    // The first task finds nothing and writes.
    let a = match after_probe(s1, o1, false, StoreMode::Verbatim) {
        Step::Copy { output, .. } => after_write(output, Ok(())),
        other => panic!("unexpected step {:?}", other),
    };
    assert_eq!(a, produced("/out/photo.png"));

    // The second task probed before that write was done: it writes too.
    let early = match after_probe(s2.clone(), o2.clone(), false, StoreMode::Verbatim) {
        Step::Copy { output, .. } => after_write(output, Ok(())),
        other => panic!("unexpected step {:?}", other),
    };
    assert_eq!(early, produced("/out/photo.png"));
    assert_eq!(
        collect(&vec![a.clone(), early]),
        Ok(vec!["/out/photo.png".to_string(), "/out/photo.png".to_string()])
    );

    // The second task probed after the write: a cache hit.
    let late = outcome_of(after_probe(s2, o2, true, StoreMode::Verbatim));
    assert_eq!(late, skipped("/out/photo.png"));
    assert_eq!(
        collect(&vec![a, late]),
        Ok(vec!["/out/photo.png".to_string(), "/out/photo.png".to_string()])
    );
}
