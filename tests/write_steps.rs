use to_parquet::{advance, first_step, StepOutcome, WriteAction, WriteError, WriteStep};

#[test]
fn a_successful_write_runs_every_step_in_order() {
    let (step, action) = first_step();
    assert_eq!((step, action), (WriteStep::Infer, WriteAction::InferSchema));
    let (step, action) = advance(step, StepOutcome::Succeeded);
    assert_eq!((step, action), (WriteStep::Open, WriteAction::OpenSink));
    let (step, action) = advance(step, StepOutcome::Succeeded);
    assert_eq!((step, action), (WriteStep::Write, WriteAction::WriteNextBatch));
    let (step, action) = advance(step, StepOutcome::Succeeded);
    assert_eq!((step, action), (WriteStep::Write, WriteAction::WriteNextBatch));
    let (step, action) = advance(step, StepOutcome::Exhausted);
    assert_eq!((step, action), (WriteStep::Finalize, WriteAction::CloseWriter));
    let (step, action) = advance(step, StepOutcome::Succeeded);
    assert_eq!((step, action), (WriteStep::Finished, WriteAction::Stop));
}

#[test]
fn each_step_fails_with_its_own_error() {
    let cases = [
        (WriteStep::Infer, WriteError::SchemaInferenceFailure),
        (WriteStep::Open, WriteError::SinkUnavailable),
        (WriteStep::Write, WriteError::BatchWriteFailure),
        (WriteStep::Finalize, WriteError::FinalizeFailure),
    ];
    for (step, error) in cases {
        assert_eq!(
            advance(step, StepOutcome::Failed),
            (WriteStep::Failed(error), WriteAction::Abort(error))
        );
    }
}

#[test]
fn a_failed_write_is_never_retried() {
    let failed = WriteStep::Failed(WriteError::BatchWriteFailure);
    for outcome in [StepOutcome::Succeeded, StepOutcome::Exhausted, StepOutcome::Failed] {
        assert_eq!(
            advance(failed, outcome),
            (failed, WriteAction::Abort(WriteError::BatchWriteFailure))
        );
    }
    assert_eq!(
        advance(WriteStep::Finished, StepOutcome::Failed),
        (WriteStep::Finished, WriteAction::Stop)
    );
}
