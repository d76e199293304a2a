//! Verified core of a stereo delay effect: the feedback-path filter modes and
//! the circular delay line of stereo frames that the engine reads, writes and
//! advances once per processed frame.

mod filters;
mod delay_line;

pub use filters::Mode;
pub use delay_line::{
    lemma_cursor_wrap, lemma_echo_after_length, pairs_to_process, DelayLine, DelayLineView,
};
