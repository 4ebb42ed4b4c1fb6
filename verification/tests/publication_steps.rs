use reviewgraphen_store::publication::{
    first_publish_step, publish_next, PublicationTarget, PublishAction, PublishStep,
};
use reviewgraphen_store::IndexError;

fn target() -> PublicationTarget {
    PublicationTarget {
        run_id: "run:a".to_string(),
        tail_hash: "sha256:t".to_string(),
        image_hash: "sha256:i".to_string(),
    }
}

fn steps_until_published() -> Vec<PublishStep> {
    let mut steps = Vec::new();
    let mut step = first_publish_step();
    loop {
        steps.push(step);
        match publish_next(step, Ok(()), target()) {
            PublishAction::Perform(next) => step = next,
            PublishAction::Published => return steps,
            PublishAction::Fail(error) => panic!("unexpected failure {error:?}"),
        }
    }
}

#[test]
fn publication_performs_every_step_once_in_order() {
    let steps = steps_until_published();
    assert_eq!(steps.len(), 18);
    assert_eq!(steps[0], PublishStep::CheckLength);
    assert_eq!(steps[5], PublishStep::WriteCandidate);
    assert_eq!(steps[12], PublishStep::ValidateCandidate);
    assert_eq!(steps[13], PublishStep::Rename);
    assert_eq!(steps[17], PublishStep::SyncActiveDirectory);
}

#[test]
fn failures_before_the_rename_keep_their_error() {
    for step in [
        PublishStep::LinkCandidate,
        PublishStep::ValidateCandidate,
        PublishStep::Rename,
    ] {
        assert!(matches!(
            publish_next(step, Err(IndexError::IndexPathRace), target()),
            PublishAction::Fail(IndexError::IndexPathRace)
        ));
    }
}

#[test]
fn failures_after_the_rename_report_uncertain_durability() {
    for step in [
        PublishStep::ReopenActive,
        PublishStep::CheckActiveHash,
        PublishStep::SyncActiveDirectory,
    ] {
        match publish_next(step, Err(IndexError::CorruptIndex), target()) {
            PublishAction::Fail(error) => assert_eq!(
                error,
                IndexError::PublicationDurabilityUncertain {
                    run_id: "run:a".to_string(),
                    tail_hash: "sha256:t".to_string(),
                    image_hash: "sha256:i".to_string(),
                }
            ),
            _ => panic!("a failed step must stop the publication"),
        }
    }
}
