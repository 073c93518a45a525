//! A verified core for a pointer-motion remapper.
//!
//! Raw events from a pointing device are coalesced into frames: relative
//! X/Y motion is summed per axis, a synchronization marker completes the
//! frame, and every other event is kept aside to be forwarded unchanged.
//! On completion the frame is flushed into an output batch that holds the
//! passthrough events in arrival order followed by the accelerated motion,
//! with zero deltas suppressed.

mod errors;
mod events;
mod frame;
mod parse;
mod select;

pub use errors::PipelineError;
pub use errors::SelectError;
pub use errors::acquire_gate;
pub use events::EventClass;
pub use events::RawEvent;
pub use events::EV_REL;
pub use events::EV_SYN;
pub use events::REL_X;
pub use events::REL_Y;
pub use events::SYN_REPORT;
pub use events::class_of;
pub use frame::Frame;
pub use frame::FrameModel;
pub use frame::absorb_one;
pub use frame::absorb_seq;
pub use frame::empty_frame;
pub use frame::flush_batch;
pub use frame::frame_wf;
pub use frame::is_passthrough;
pub use frame::lemma_absorb_coalesces_motion;
pub use frame::lemma_absorb_keeps_passthrough_order;
pub use frame::lemma_absorb_preserves_wf;
pub use frame::lemma_complete_iff_marker;
pub use frame::lemma_flush_passthrough_prefix;
pub use frame::lemma_no_zero_delta;
pub use frame::lemma_pipeline_passthrough_order;
pub use frame::motion_values;
pub use frame::wrap_sum;
pub use parse::dec_value;
pub use parse::digit_run;
pub use parse::is_dec_digit;
pub use parse::parse_usize;
pub use parse::valid_decimal;
pub use select::device_valid;
pub use select::name_matches;
pub use select::select_choice;
pub use select::select_named;
