//! Bookkeeping of the direct-ALSA playback engine: the sources waiting
//! behind the one being written, the play/pause/stop flags, the frame
//! position, and the one-shot signal of a gapless transition. The writer
//! thread produces and writes the samples (floating point) outside; it asks
//! `writer_next` what to do and reports each write to `writer_wrote`.

use vstd::prelude::*;

verus! {

/// State shared by the engine handle and its writer thread.
#[derive(Debug)]
pub struct DirectEngine {
    /// Sources appended and not yet taken by the writer.
    pub queued: usize,
    /// The writer holds a source.
    pub has_current: bool,
    pub is_playing: bool,
    pub should_stop: bool,
    /// The writer moved to a queued source without a gap; cleared when taken.
    pub source_transition: bool,
    /// Frames of the current source written so far, as published.
    pub position_frames: u64,
    pub duration_frames: u64,
    /// Frames of the current source written so far, as the writer counts them.
    pub writer_frames: u64,
}

/// A new engine: nothing queued, not playing.
pub open spec fn fresh_engine() -> DirectEngine {
    DirectEngine {
        queued: 0,
        has_current: false,
        is_playing: false,
        should_stop: false,
        source_transition: false,
        position_frames: 0,
        duration_frames: 0,
        writer_frames: 0,
    }
}

/// The engine after a source is appended: the first source of an idle
/// engine (nothing queued, not playing) resets the position and the signals
/// and starts playback; a later one just waits in the queue.
pub open spec fn appended(e: DirectEngine) -> (DirectEngine, bool) {
    let first = e.queued == 0 && !e.is_playing;
    let e1 = DirectEngine { queued: (e.queued + 1) as usize, ..e };
    if first {
        (
            DirectEngine {
                position_frames: 0,
                should_stop: false,
                source_transition: false,
                is_playing: true,
                ..e1
            },
            true,
        )
    } else {
        (e1, false)
    }
}

/// The engine after its transition signal is taken, and the signal.
pub open spec fn transition_taken(e: DirectEngine) -> (DirectEngine, bool) {
    (DirectEngine { source_transition: false, ..e }, e.source_transition)
}

/// What the writer thread does next.
#[derive(Debug, Clone, Copy, PartialEq, Eq, Structural)]
pub enum WriterStep {
    /// Stop was requested: leave the loop.
    Exit,
    /// Nothing to write: wait for a source (then ask again).
    AwaitSource,
    /// Paused: wait (then ask again).
    AwaitPlay,
    /// Fill a buffer from the current source and write it.
    Fill,
}

/// The writer's next step and the state it leaves: it takes a queued
/// source when it holds none, starting its count at 0.
pub open spec fn writer_stepped(e: DirectEngine) -> (DirectEngine, WriterStep) {
    if e.should_stop {
        (e, WriterStep::Exit)
    } else if !e.has_current && e.queued == 0 {
        (e, WriterStep::AwaitSource)
    } else {
        let e1 = if e.has_current {
            e
        } else {
            DirectEngine {
                queued: (e.queued - 1) as usize,
                has_current: true,
                writer_frames: 0,
                position_frames: 0,
                ..e
            }
        };
        if e1.is_playing {
            (e1, WriterStep::Fill)
        } else {
            (e1, WriterStep::AwaitPlay)
        }
    }
}

/// What follows a write.
#[derive(Debug, Clone, Copy, PartialEq, Eq, Structural)]
pub enum WriteFollowUp {
    /// The source goes on: fill the next buffer.
    Continue,
    /// The source ended and the next queued one takes over without a gap.
    Gapless,
    /// The source ended with nothing queued: drain the device buffer;
    /// playback has stopped until the next append.
    Drain,
}

/// The state after writing `samples` samples of `channels` channels, the
/// source having ended (`ended`) or not: the written frames are counted and
/// published; at the end of a source the next queued one takes over (count
/// back to 0, transition signalled), or playback stops.
pub open spec fn written(e: DirectEngine, samples: usize, channels: u16, ended: bool) -> (
    DirectEngine,
    WriteFollowUp,
) {
    let e1 = if samples > 0 {
        let total = (e.writer_frames + (samples as int) / (channels as int)) as u64;
        DirectEngine { writer_frames: total, position_frames: total, duration_frames: total, ..e }
    } else {
        e
    };
    if !ended {
        (e1, WriteFollowUp::Continue)
    } else if e1.queued > 0 {
        (
            DirectEngine {
                queued: (e1.queued - 1) as usize,
                writer_frames: 0,
                position_frames: 0,
                source_transition: true,
                ..e1
            },
            WriteFollowUp::Gapless,
        )
    } else {
        (DirectEngine { has_current: false, is_playing: false, ..e1 }, WriteFollowUp::Drain)
    }
}

impl DirectEngine {
    pub fn new() -> (r: Self)
        ensures
            r == fresh_engine(),
    {
        DirectEngine {
            queued: 0,
            has_current: false,
            is_playing: false,
            should_stop: false,
            source_transition: false,
            position_frames: 0,
            duration_frames: 0,
            writer_frames: 0,
        }
    }

    /// Queue a source; returns whether it is the first of an idle engine
    /// (which starts playback).
    pub fn append(&mut self) -> (is_first: bool)
        requires
            old(self).queued < usize::MAX,
        ensures
            (*final(self), is_first) == appended(*old(self)),
            is_first == (old(self).queued == 0 && !old(self).is_playing),
            final(self).queued == old(self).queued + 1,
            is_first ==> final(self).is_playing && final(self).position_frames == 0 && !final(self).should_stop,
            !is_first ==> final(self).is_playing == old(self).is_playing
                && final(self).position_frames == old(self).position_frames,
    {
        let is_first = self.queued == 0 && !self.is_playing;
        self.queued = self.queued + 1;
        if is_first {
            self.position_frames = 0;
            self.should_stop = false;
            self.source_transition = false;
            self.is_playing = true;
        }
        is_first
    }

    /// Unpause.
    pub fn play(&mut self)
        ensures
            *final(self) == (DirectEngine { is_playing: true, ..*old(self) }),
    {
        self.is_playing = true;
    }

    pub fn pause(&mut self)
        ensures
            *final(self) == (DirectEngine { is_playing: false, ..*old(self) }),
    {
        self.is_playing = false;
    }

    /// Ask the writer to stop; `false` when it was already asked (then there
    /// is nothing more to do), `true` when the writer is to be joined and
    /// the device stopped.
    pub fn stop(&mut self) -> (r: bool)
        ensures
            r == !old(self).should_stop,
            *final(self) == (if old(self).should_stop {
                *old(self)
            } else {
                DirectEngine { should_stop: true, is_playing: false, ..*old(self) }
            }),
    {
        if self.should_stop {
            return false;
        }
        self.should_stop = true;
        self.is_playing = false;
        true
    }

    /// Nothing plays and nothing is queued.
    pub fn empty(&self) -> (r: bool)
        ensures
            r == (!self.is_playing && self.queued == 0),
    {
        !self.is_playing && self.queued == 0
    }

    /// Whether a gapless transition happened since last asked; asking
    /// clears the signal.
    pub fn take_source_transition(&mut self) -> (r: bool)
        ensures
            (*final(self), r) == transition_taken(*old(self)),
    {
        let r = self.source_transition;
        self.source_transition = false;
        r
    }

    /// Whole seconds written of the current source at `sample_rate`.
    pub fn position_secs(&self, sample_rate: u32) -> (r: u64)
        requires
            sample_rate > 0,
        ensures
            r == self.position_frames / (sample_rate as u64),
    {
        self.position_frames / (sample_rate as u64)
    }

    /// Whole seconds of the current source written so far, at `sample_rate`.
    pub fn duration_secs(&self, sample_rate: u32) -> (r: u64)
        requires
            sample_rate > 0,
        ensures
            r == self.duration_frames / (sample_rate as u64),
    {
        self.duration_frames / (sample_rate as u64)
    }

    /// The writer thread's next step.
    pub fn writer_next(&mut self) -> (r: WriterStep)
        ensures
            (*final(self), r) == writer_stepped(*old(self)),
            old(self).should_stop ==> r == WriterStep::Exit && *final(self) == *old(self),
            !old(self).should_stop && !old(self).has_current && old(self).queued == 0
                ==> r == WriterStep::AwaitSource && *final(self) == *old(self),
            !old(self).should_stop && !old(self).has_current && old(self).queued > 0
                ==> final(self).queued == old(self).queued - 1 && final(self).has_current
                    && final(self).writer_frames == 0 && final(self).position_frames == 0,
            !old(self).should_stop && (old(self).has_current || old(self).queued > 0)
                ==> (r == WriterStep::Fill) == old(self).is_playing
                    && (r == WriterStep::AwaitPlay) == !old(self).is_playing,
    {
        if self.should_stop {
            return WriterStep::Exit;
        }
        if !self.has_current {
            if self.queued == 0 {
                return WriterStep::AwaitSource;
            }
            self.queued = self.queued - 1;
            self.has_current = true;
            self.writer_frames = 0;
            self.position_frames = 0;
        }
        if self.is_playing {
            WriterStep::Fill
        } else {
            WriterStep::AwaitPlay
        }
    }

    /// The writer wrote `samples` samples of `channels` channels; `ended`
    /// says whether the source ran out while filling.
    pub fn writer_wrote(&mut self, samples: usize, channels: u16, ended: bool) -> (r: WriteFollowUp)
        requires
            channels > 0,
            old(self).writer_frames + (samples as int) / (channels as int) <= u64::MAX,
        ensures
            (*final(self), r) == written(*old(self), samples, channels, ended),
            !ended ==> r == WriteFollowUp::Continue && final(self).queued == old(self).queued,
            !ended && samples > 0 ==> final(self).position_frames == old(self).writer_frames + (samples as int) / (channels as int)
                && final(self).writer_frames == final(self).position_frames,
            ended && old(self).queued > 0 ==> r == WriteFollowUp::Gapless
                && final(self).queued == old(self).queued - 1 && final(self).position_frames == 0
                && final(self).writer_frames == 0 && final(self).source_transition
                && final(self).is_playing == old(self).is_playing,
            ended && old(self).queued == 0 ==> r == WriteFollowUp::Drain && !final(self).is_playing
                && !final(self).has_current,
    {
        if samples > 0 {
            let frames = (samples / (channels as usize)) as u64;
            self.writer_frames = self.writer_frames + frames;
            self.position_frames = self.writer_frames;
            self.duration_frames = self.writer_frames;
        }
        if !ended {
            return WriteFollowUp::Continue;
        }
        if self.queued > 0 {
            self.queued = self.queued - 1;
            self.writer_frames = 0;
            self.position_frames = 0;
            self.source_transition = true;
            WriteFollowUp::Gapless
        } else {
            self.has_current = false;
            self.is_playing = false;
            WriteFollowUp::Drain
        }
    }

    /// The writer left its loop (stop, or a failed write): playback is off.
    pub fn writer_exited(&mut self)
        ensures
            *final(self) == (DirectEngine { is_playing: false, ..*old(self) }),
    {
        self.is_playing = false;
    }
}

/// A gapless transition is reported once: taking the signal right after it
/// was reported reports nothing.
pub proof fn lemma_transition_reported_once(e: DirectEngine)
    ensures
        !transition_taken(transition_taken(e).0).1,
{
}

/// When a source ends with another queued, the writer goes on with it
/// without stopping: playback continues, the count restarts at 0 and the
/// transition is signalled once.
pub proof fn lemma_source_end_is_gapless(e: DirectEngine, samples: usize, channels: u16)
    requires
        e.queued > 0,
        e.is_playing,
        channels > 0,
    ensures
        written(e, samples, channels, true).1 == WriteFollowUp::Gapless,
        written(e, samples, channels, true).0.is_playing,
        written(e, samples, channels, true).0.has_current == e.has_current,
        written(e, samples, channels, true).0.position_frames == 0,
        transition_taken(written(e, samples, channels, true).0).1,
        !transition_taken(transition_taken(written(e, samples, channels, true).0).0).1,
{
}

/// The last source running out leaves the engine empty, and the next
/// append restarts it from position 0.
pub proof fn lemma_append_after_drain_restarts(e: DirectEngine, samples: usize, channels: u16)
    requires
        e.queued == 0,
        channels > 0,
    ensures
        !written(e, samples, channels, true).0.is_playing,
        written(e, samples, channels, true).0.queued == 0,
        appended(written(e, samples, channels, true).0).1,
        appended(written(e, samples, channels, true).0).0.is_playing,
        appended(written(e, samples, channels, true).0).0.position_frames == 0,
{
}

} // verus!
