//! The error taxonomy of the pipeline. Every error is fatal: the process
//! aborts, performs no retry and no partial degradation.

use vstd::prelude::*;

verus! {

/// Why device selection failed.
#[derive(Clone, Copy, PartialEq, Eq, Structural, Debug)]
pub enum SelectError {
    /// No eligible device was found at all.
    NoDevices,
    /// A device was requested by name and no eligible device bears it.
    NameNotFound,
    /// The interactive choice was not a number, or named no listed device.
    InvalidChoice,
}

/// A fatal pipeline error, by the stage that raised it.
#[derive(Clone, Copy, PartialEq, Eq, Structural, Debug)]
pub enum PipelineError {
    /// The configuration file is missing or malformed.
    Configuration,
    /// No usable source device could be selected.
    DeviceSelection(SelectError),
    /// The exclusive grab of the source device failed.
    Acquisition,
    /// Reading the next batch of raw events failed.
    Capture,
    /// Writing an output batch to the virtual sink failed.
    Emission,
}

/// The all-or-nothing acquisition gate that precedes the event loop: if the
/// exclusive grab of the source device did not succeed, the pipeline aborts
/// with an acquisition error before any event is processed.
pub fn acquire_gate(grab_succeeded: bool) -> (r: Result<(), PipelineError>)
    ensures
        grab_succeeded <==> r == Result::<(), PipelineError>::Ok(()),
        !grab_succeeded <==> r == Result::<(), PipelineError>::Err(PipelineError::Acquisition),
{
    if grab_succeeded {
        Ok(())
    } else {
        Err(PipelineError::Acquisition)
    }
}

} // verus!
