//! Subtitles: cues with a start and an end time in whole seconds and a text.

pub mod scan;
pub mod vtt;

use vstd::prelude::*;

verus! {

/// A time in whole seconds.
pub type Seconds = u64;

/// A cue as the specifications see it: start, end, text.
pub type Cue = (int, int, Seq<char>);

/// One subtitle: shown from `start` to `end`.
pub struct Subtitle {
    pub start: Seconds,
    pub end: Seconds,
    pub text: String,
}

/// The subtitles of a video, in the order of the file.
pub struct Subtitles {
    pub inner: Vec<Subtitle>,
}

impl Subtitle {
    /// The cue this subtitle holds.
    pub open spec fn cue(&self) -> Cue {
        (self.start as int, self.end as int, self.text@)
    }
}

impl Subtitles {
    /// The cues, in order.
    pub open spec fn cues(&self) -> Seq<Cue> {
        Seq::new(self.inner@.len(), |i: int| self.inner@[i].cue())
    }
}

} // verus!
