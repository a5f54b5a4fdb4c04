use vstd::prelude::*;

verus! {

/// Why the columnar file could not be written.
#[derive(Debug, Clone, Copy, PartialEq, Eq, Structural)]
pub enum WriteError {
    /// The delimited text could not be read into a column schema.
    SchemaInferenceFailure,
    /// The destination could not be opened.
    SinkUnavailable,
    /// A batch of rows could not be read or appended.
    BatchWriteFailure,
    /// The trailing metadata could not be written.
    FinalizeFailure,
}

/// Where a write of the columnar file stands.
#[derive(Debug, Clone, Copy, PartialEq, Eq, Structural)]
pub enum WriteStep {
    /// Infer the column schema from the delimited text.
    Infer,
    /// Open the destination and a writer bound to the schema.
    Open,
    /// Append the next batch of rows.
    Write,
    /// Close the writer, which writes the trailing metadata.
    Finalize,
    Finished,
    Failed(WriteError),
}

/// What came of the work that a step asked for.
#[derive(Debug, Clone, Copy, PartialEq, Eq, Structural)]
pub enum StepOutcome {
    Succeeded,
    /// There was nothing left to do: no batch remains to be written.
    Exhausted,
    Failed,
}

/// The work to do next.
#[derive(Debug, Clone, Copy, PartialEq, Eq, Structural)]
pub enum WriteAction {
    InferSchema,
    OpenSink,
    WriteNextBatch,
    CloseWriter,
    /// Stop: the file is complete.
    Stop,
    /// Stop: the write failed with this error.
    Abort(WriteError),
}

/// The error that a failure in `step` is reported as.
pub open spec fn failure_of(step: WriteStep) -> WriteError {
    match step {
        WriteStep::Infer => WriteError::SchemaInferenceFailure,
        WriteStep::Open => WriteError::SinkUnavailable,
        WriteStep::Write => WriteError::BatchWriteFailure,
        _ => WriteError::FinalizeFailure,
    }
}

/// The step that follows `step` once its work came to `outcome`.
///
/// Steps run in order; the write step repeats, one batch at a time, until no
/// batch remains. The first failure ends the write with the error of its step,
/// and nothing is retried. A finished or failed write stays as it is.
pub open spec fn step_after(step: WriteStep, outcome: StepOutcome) -> WriteStep {
    match step {
        WriteStep::Finished => step,
        WriteStep::Failed(_) => step,
        _ => if outcome == StepOutcome::Failed {
            WriteStep::Failed(failure_of(step))
        } else {
            match step {
                WriteStep::Infer => WriteStep::Open,
                WriteStep::Open => WriteStep::Write,
                WriteStep::Write => if outcome == StepOutcome::Exhausted {
                    WriteStep::Finalize
                } else {
                    WriteStep::Write
                },
                _ => WriteStep::Finished,
            }
        },
    }
}

/// The work that `step` asks for.
pub open spec fn action_of(step: WriteStep) -> WriteAction {
    match step {
        WriteStep::Infer => WriteAction::InferSchema,
        WriteStep::Open => WriteAction::OpenSink,
        WriteStep::Write => WriteAction::WriteNextBatch,
        WriteStep::Finalize => WriteAction::CloseWriter,
        WriteStep::Finished => WriteAction::Stop,
        WriteStep::Failed(e) => WriteAction::Abort(e),
    }
}

/// The step a write starts at.
pub fn first_step() -> (r: (WriteStep, WriteAction))
    ensures
        r.0 == WriteStep::Infer,
        r.1 == action_of(r.0),
{
    (WriteStep::Infer, WriteAction::InferSchema)
}

/// Moves a write on by one step and says what to do next.
pub fn advance(step: WriteStep, outcome: StepOutcome) -> (r: (WriteStep, WriteAction))
    ensures
        r.0 == step_after(step, outcome),
        r.1 == action_of(r.0),
{
    let next = match step {
        WriteStep::Finished => step,
        WriteStep::Failed(_) => step,
        WriteStep::Infer => match outcome {
            StepOutcome::Failed => WriteStep::Failed(WriteError::SchemaInferenceFailure),
            _ => WriteStep::Open,
        },
        WriteStep::Open => match outcome {
            StepOutcome::Failed => WriteStep::Failed(WriteError::SinkUnavailable),
            _ => WriteStep::Write,
        },
        WriteStep::Write => match outcome {
            StepOutcome::Failed => WriteStep::Failed(WriteError::BatchWriteFailure),
            StepOutcome::Exhausted => WriteStep::Finalize,
            StepOutcome::Succeeded => WriteStep::Write,
        },
        WriteStep::Finalize => match outcome {
            StepOutcome::Failed => WriteStep::Failed(WriteError::FinalizeFailure),
            _ => WriteStep::Finished,
        },
    };
    let action = match next {
        WriteStep::Infer => WriteAction::InferSchema,
        WriteStep::Open => WriteAction::OpenSink,
        WriteStep::Write => WriteAction::WriteNextBatch,
        WriteStep::Finalize => WriteAction::CloseWriter,
        WriteStep::Finished => WriteAction::Stop,
        WriteStep::Failed(e) => WriteAction::Abort(e),
    };
    (next, action)
}

/// A failed write stays failed with the same error, whatever is reported
/// afterwards: no step is retried.
pub proof fn lemma_failure_is_final(e: WriteError, outcome: StepOutcome)
    ensures
        step_after(WriteStep::Failed(e), outcome) == WriteStep::Failed(e),
        action_of(WriteStep::Failed(e)) == WriteAction::Abort(e),
{
}

/// A write reports success only from the finalize step: the trailing
/// metadata is always written before a write counts as done.
pub proof fn lemma_success_needs_finalize(step: WriteStep, outcome: StepOutcome)
    ensures
        step != WriteStep::Finished && step_after(step, outcome) == WriteStep::Finished ==> step
            == WriteStep::Finalize && outcome != StepOutcome::Failed,
{
}

} // verus!
