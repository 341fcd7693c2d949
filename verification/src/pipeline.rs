//! The decisions of the transcoding loop, as a state machine.
//!
//! The driver demuxes the input, feeds the packets of the chosen video stream
//! to a decoder and drains the decoded frames after each packet and once more
//! after the end of the input. Every decoded frame is converted to RGB; the
//! frames decoded while the number of video packets already handled is a
//! multiple of thirty are kept, and the kept frames are numbered 0, 1, 2, ...
//! The driver reports what happened as an [`Event`] and performs the
//! [`Action`] that [`Transcoder::step`] answers.

use vstd::prelude::*;

verus! {

/// The number of video packets per kept frame (the input is taken to carry
/// thirty packets a second, and one frame is kept per second).
pub const PACKETS_PER_SAMPLE: i32 = 30;

/// Where the driver stands.
#[derive(Clone, Copy, Debug, PartialEq, Eq, Structural)]
pub enum Phase {
    /// Reading the next packet of the input.
    ReadingPackets,
    /// Draining the decoder after a video packet was sent to it.
    DrainingPacket,
    /// Draining the decoder after the end of the input was signalled to it.
    DrainingEof,
    /// Done: the decoder is empty and the input exhausted.
    Finished,
}

/// What the driver observed.
#[derive(Clone, Copy, Debug, PartialEq, Eq, Structural)]
pub enum Event {
    /// The demuxer produced a packet of the stream with this index.
    Packet { stream_index: usize },
    /// The decoder produced a decoded frame.
    Frame,
    /// The decoder produced no frame.
    NoFrame,
    /// The demuxer has no more packets.
    EndOfInput,
}

/// What the driver is to do next.
#[derive(Clone, Copy, Debug, PartialEq, Eq, Structural)]
pub enum Action {
    /// Send the packet to the decoder, then drain the decoder.
    SendPacket,
    /// Ignore the packet: it belongs to another stream.
    SkipPacket,
    /// Convert the decoded frame to RGB; where `save_as` is `Some(n)`,
    /// encode the converted frame and save it as frame `n`.
    ConvertFrame { save_as: Option<usize> },
    /// The decoder is drained: read the next packet.
    NextPacket,
    /// Signal the end of the input to the decoder, then drain it.
    SendEof,
    /// Stop: everything was decoded.
    Finish,
}

/// Why the transcoding cannot start.
#[derive(Clone, Copy, Debug, PartialEq, Eq, Structural)]
pub enum TranscodeError {
    /// The input has no video stream.
    StreamNotFound,
}

/// The state of the transcoding loop.
#[derive(Clone, Copy, Debug)]
pub struct Transcoder {
    /// The index of the video stream whose packets are decoded.
    pub video_stream: usize,
    /// The number of video packets sent to the decoder and drained so far.
    pub second_counter: i32,
    /// The number of the next frame to keep (the number of frames kept so far).
    pub frame_index: usize,
    /// Where the loop stands.
    pub phase: Phase,
}

impl Transcoder {
    /// The state before the first packet, decoding the stream `video_stream`.
    pub open spec fn initial(video_stream: usize) -> Transcoder {
        Transcoder { video_stream, second_counter: 0, frame_index: 0, phase: Phase::ReadingPackets }
    }

    /// The packet counter is never negative.
    pub open spec fn wf(self) -> bool {
        self.second_counter >= 0
    }

    /// Whether the frames decoded now are kept.
    pub open spec fn samples(self) -> bool {
        self.second_counter % PACKETS_PER_SAMPLE == 0
    }

    /// Whether `ev` can happen now, and its handling fits the counters.
    pub open spec fn accepts(self, ev: Event) -> bool {
        &&& self.wf()
        &&& match self.phase {
            Phase::ReadingPackets => ev is Packet || ev is EndOfInput,
            Phase::DrainingPacket => match ev {
                Event::Frame => self.samples() ==> self.frame_index < usize::MAX,
                Event::NoFrame => self.second_counter < i32::MAX,
                _ => false,
            },
            Phase::DrainingEof => match ev {
                Event::Frame => self.samples() ==> self.frame_index < usize::MAX,
                Event::NoFrame => true,
                _ => false,
            },
            Phase::Finished => false,
        }
    }

    /// The state after `ev`, and the action it calls for.
    pub open spec fn next(self, ev: Event) -> (Transcoder, Action) {
        match ev {
            Event::Packet { stream_index } => if stream_index == self.video_stream {
                (Transcoder { phase: Phase::DrainingPacket, ..self }, Action::SendPacket)
            } else {
                (self, Action::SkipPacket)
            },
            Event::EndOfInput => (Transcoder { phase: Phase::DrainingEof, ..self }, Action::SendEof),
            Event::Frame => if self.samples() {
                (
                    Transcoder { frame_index: (self.frame_index + 1) as usize, ..self },
                    Action::ConvertFrame { save_as: Some(self.frame_index) },
                )
            } else {
                (self, Action::ConvertFrame { save_as: None })
            },
            Event::NoFrame => if self.phase == Phase::DrainingPacket {
                (
                    Transcoder {
                        second_counter: (self.second_counter + 1) as i32,
                        phase: Phase::ReadingPackets,
                        ..self
                    },
                    Action::NextPacket,
                )
            } else {
                (Transcoder { phase: Phase::Finished, ..self }, Action::Finish)
            },
        }
    }

    /// Starts decoding the stream that the demuxer named as the best video
    /// stream; fails where it named none.
    pub fn new(best_video_stream: Option<usize>) -> (r: Result<Transcoder, TranscodeError>)
        ensures
            match best_video_stream {
                Some(i) => r == Ok::<Transcoder, TranscodeError>(
                    Transcoder { video_stream: i, second_counter: 0, frame_index: 0, phase: Phase::ReadingPackets },
                ),
                None => r == Err::<Transcoder, TranscodeError>(TranscodeError::StreamNotFound),
            },
    {
        match best_video_stream {
            Some(i) => Ok(Transcoder {
                video_stream: i,
                second_counter: 0,
                frame_index: 0,
                phase: Phase::ReadingPackets,
            }),
            None => Err(TranscodeError::StreamNotFound),
        }
    }

    /// Whether the kept frames are those decoded now.
    pub fn samples_now(&self) -> (b: bool)
        requires
            self.wf(),
        ensures
            b == (self.second_counter % 30 == 0),
            b == self.samples(),
    {
        self.second_counter % PACKETS_PER_SAMPLE == 0
    }

    /// Whether `ev` can be handled now (see [`Transcoder::accepts`]).
    pub fn can_accept(&self, ev: &Event) -> (b: bool)
        ensures
            b == self.accepts(*ev),
    {
        if self.second_counter < 0 {
            return false;
        }
        match self.phase {
            Phase::ReadingPackets => match ev {
                Event::Packet { .. } => true,
                Event::EndOfInput => true,
                _ => false,
            },
            Phase::DrainingPacket => match ev {
                Event::Frame => !self.samples_now() || self.frame_index < usize::MAX,
                Event::NoFrame => self.second_counter < i32::MAX,
                _ => false,
            },
            Phase::DrainingEof => match ev {
                Event::Frame => !self.samples_now() || self.frame_index < usize::MAX,
                Event::NoFrame => true,
                _ => false,
            },
            Phase::Finished => false,
        }
    }

    /// Handles `ev` and answers what to do next.
    pub fn step(&mut self, ev: Event) -> (a: Action)
        requires
            old(self).accepts(ev),
        ensures
            (*final(self), a) == old(self).next(ev),
    {
        match ev {
            Event::Packet { stream_index } => {
                if stream_index == self.video_stream {
                    self.phase = Phase::DrainingPacket;
                    Action::SendPacket
                } else {
                    Action::SkipPacket
                }
            },
            Event::EndOfInput => {
                self.phase = Phase::DrainingEof;
                Action::SendEof
            },
            Event::Frame => {
                if self.samples_now() {
                    let index = self.frame_index;
                    self.frame_index = index + 1;
                    Action::ConvertFrame { save_as: Some(index) }
                } else {
                    Action::ConvertFrame { save_as: None }
                }
            },
            Event::NoFrame => {
                if self.phase == Phase::DrainingPacket {
                    self.second_counter = self.second_counter + 1;
                    self.phase = Phase::ReadingPackets;
                    Action::NextPacket
                } else {
                    self.phase = Phase::Finished;
                    Action::Finish
                }
            },
        }
    }
}

/// The state after the events `evs`, and the actions they call for, in order.
pub open spec fn run(s: Transcoder, evs: Seq<Event>) -> (Transcoder, Seq<Action>)
    decreases evs.len(),
{
    if evs.len() == 0 {
        (s, Seq::empty())
    } else {
        let (t, a) = s.next(evs[0]);
        let (u, acts) = run(t, evs.drop_first());
        (u, seq![a] + acts)
    }
}

/// Whether each of the events `evs` is accepted in the state it meets.
pub open spec fn valid_run(s: Transcoder, evs: Seq<Event>) -> bool
    decreases evs.len(),
{
    evs.len() == 0 || (s.accepts(evs[0]) && valid_run(s.next(evs[0]).0, evs.drop_first()))
}

/// The numbers under which the actions `acts` save frames, in order.
pub open spec fn saved_frames(acts: Seq<Action>) -> Seq<usize>
    decreases acts.len(),
{
    if acts.len() == 0 {
        Seq::empty()
    } else {
        let rest = saved_frames(acts.drop_first());
        match acts[0] {
            Action::ConvertFrame { save_as: Some(n) } => seq![n] + rest,
            _ => rest,
        }
    }
}

/// The number of video packets whose decoding the actions `acts` complete.
pub open spec fn drained_packets(acts: Seq<Action>) -> nat
    decreases acts.len(),
{
    if acts.len() == 0 {
        0
    } else {
        drained_packets(acts.drop_first()) + if acts[0] is NextPacket { 1nat } else { 0nat }
    }
}

/// Handling an accepted event keeps the packet counter non-negative.
pub proof fn lemma_step_keeps_wf(s: Transcoder, ev: Event)
    requires
        s.accepts(ev),
    ensures
        s.next(ev).0.wf(),
        s.next(ev).0.video_stream == s.video_stream,
{
}

/// A packet of another stream than the video stream changes nothing and is skipped.
pub proof fn lemma_other_streams_skipped(s: Transcoder, stream_index: usize)
    requires
        s.accepts(Event::Packet { stream_index }),
        stream_index != s.video_stream,
    ensures
        s.next(Event::Packet { stream_index }) == (s, Action::SkipPacket),
{
}

/// Once finished, the loop accepts no further event.
pub proof fn lemma_finished_is_final(s: Transcoder, ev: Event)
    requires
        s.phase == Phase::Finished,
    ensures
        !s.accepts(ev),
{
}

/// The kept frames are numbered consecutively from the number the run
/// started with, and the frame counter ends at that number plus the count of
/// kept frames; from the initial state the numbers are 0, 1, 2, ...
pub proof fn lemma_saved_frames_numbered_consecutively(s: Transcoder, evs: Seq<Event>)
    requires
        valid_run(s, evs),
    ensures
        run(s, evs).0.frame_index == s.frame_index + saved_frames(run(s, evs).1).len(),
        forall|k: int|
            0 <= k < saved_frames(run(s, evs).1).len() ==> #[trigger] saved_frames(run(s, evs).1)[k]
                == s.frame_index + k,
    decreases evs.len(),
{
    if evs.len() > 0 {
        let (t, a) = s.next(evs[0]);
        lemma_saved_frames_numbered_consecutively(t, evs.drop_first());
        let acts = run(s, evs).1;
        let rest = run(t, evs.drop_first()).1;
        assert(acts =~= seq![a] + rest);
        assert(acts.drop_first() =~= rest);
        match a {
            Action::ConvertFrame { save_as: Some(n) } => {
                assert(n == s.frame_index);
                assert(t.frame_index == s.frame_index + 1);
                assert forall|k: int| 0 <= k < saved_frames(acts).len() implies #[trigger] saved_frames(acts)[k]
                    == s.frame_index + k by {
                    if k > 0 {
                        assert(saved_frames(acts)[k] == saved_frames(rest)[k - 1]);
                    }
                }
            },
            _ => {
                assert(t.frame_index == s.frame_index);
                assert(saved_frames(acts) == saved_frames(rest));
            },
        }
    }
}

/// The packet counter ends at its start plus the number of video packets
/// whose decoding the run completed.
pub proof fn lemma_counter_counts_drained_packets(s: Transcoder, evs: Seq<Event>)
    requires
        valid_run(s, evs),
    ensures
        run(s, evs).0.second_counter == s.second_counter + drained_packets(run(s, evs).1),
    decreases evs.len(),
{
    if evs.len() > 0 {
        let (t, a) = s.next(evs[0]);
        lemma_counter_counts_drained_packets(t, evs.drop_first());
        let acts = run(s, evs).1;
        assert(acts.drop_first() =~= run(t, evs.drop_first()).1);
        assert(acts[0] == a);
    }
}

/// `n` decoded frames in a row.
pub open spec fn frames(n: nat) -> Seq<Event> {
    Seq::new(n, |i: int| Event::Frame)
}

/// While the decoder is drained, either every decoded frame is kept, under
/// consecutive numbers, or none is: the choice depends only on the number of
/// video packets handled before.
pub proof fn lemma_drain_keeps_all_or_none(s: Transcoder, n: nat)
    requires
        s.phase == Phase::DrainingPacket || s.phase == Phase::DrainingEof,
        valid_run(s, frames(n)),
    ensures
        run(s, frames(n)).1.len() == n,
        forall|k: int|
            0 <= k < n ==> #[trigger] run(s, frames(n)).1[k] == (Action::ConvertFrame {
                save_as: if s.samples() { Some((s.frame_index + k) as usize) } else { None },
            }),
        run(s, frames(n)).0.second_counter == s.second_counter,
        run(s, frames(n)).0.phase == s.phase,
    decreases n,
{
    if n > 0 {
        let (t, a) = s.next(Event::Frame);
        assert(frames(n)[0] == Event::Frame);
        assert(frames(n).drop_first() =~= frames((n - 1) as nat));
        lemma_drain_keeps_all_or_none(t, (n - 1) as nat);
        let acts = run(s, frames(n)).1;
        let rest = run(t, frames((n - 1) as nat)).1;
        assert(acts =~= seq![a] + rest);
        assert(t.samples() == s.samples());
        assert forall|k: int| 0 <= k < n implies #[trigger] acts[k] == (Action::ConvertFrame {
            save_as: if s.samples() { Some((s.frame_index + k) as usize) } else { None },
        }) by {
            if k > 0 {
                assert(acts[k] == rest[k - 1]);
            }
        }
    }
}

/// Frames are kept exactly while the number of video packets handled is a
/// multiple of thirty, however large that number grows: keeping repeats every
/// thirty packets and starts with the very first packet.
pub proof fn lemma_samples_every_thirty_packets(s: Transcoder)
    requires
        s.second_counter >= 0,
    ensures
        s.samples() <==> s.second_counter % 30 == 0,
        s.second_counter <= i32::MAX - 30 ==> (s.samples() <==> (Transcoder {
            second_counter: (s.second_counter + 30) as i32,
            ..s
        }).samples()),
        s.second_counter == 0 ==> s.samples(),
{
}

/// While packets are read, a packet of the video stream is always sent to
/// the decoder, whatever the counters, and the decoder is drained next.
pub proof fn lemma_video_packets_sent(s: Transcoder)
    requires
        s.second_counter >= 0,
        s.phase == Phase::ReadingPackets,
    ensures
        s.accepts(Event::Packet { stream_index: s.video_stream }),
        s.next(Event::Packet { stream_index: s.video_stream }) == (Transcoder {
            video_stream: s.video_stream,
            second_counter: s.second_counter,
            frame_index: s.frame_index,
            phase: Phase::DrainingPacket,
        }, Action::SendPacket),
{
}

/// A decoded frame is always converted; it is saved under the current frame
/// number, which then grows by one, exactly when the packet count is a
/// multiple of thirty, and otherwise nothing changes.
pub proof fn lemma_frame_handling(s: Transcoder)
    requires
        s.accepts(Event::Frame),
    ensures
        s.second_counter % 30 == 0 ==> s.next(Event::Frame) == (Transcoder {
            video_stream: s.video_stream,
            second_counter: s.second_counter,
            frame_index: (s.frame_index + 1) as usize,
            phase: s.phase,
        }, Action::ConvertFrame { save_as: Some(s.frame_index) }),
        s.second_counter % 30 != 0 ==> s.next(Event::Frame) == (s, Action::ConvertFrame {
            save_as: None,
        }),
{
}

/// The end of the input is passed on to the decoder, which is then drained.
pub proof fn lemma_end_of_input_handling(s: Transcoder)
    requires
        s.second_counter >= 0,
        s.phase == Phase::ReadingPackets,
    ensures
        s.accepts(Event::EndOfInput),
        s.next(Event::EndOfInput) == (Transcoder {
            video_stream: s.video_stream,
            second_counter: s.second_counter,
            frame_index: s.frame_index,
            phase: Phase::DrainingEof,
        }, Action::SendEof),
{
}

/// Draining after a video packet always ends by counting the packet and
/// reading on; draining after the end of the input ends the loop; and the
/// loop is finished by nothing else.
pub proof fn lemma_drain_end_handling(s: Transcoder, ev: Event)
    requires
        s.second_counter >= 0,
    ensures
        s.phase == Phase::DrainingPacket && s.second_counter < i32::MAX ==> s.accepts(Event::NoFrame)
            && s.next(Event::NoFrame) == (Transcoder {
            video_stream: s.video_stream,
            second_counter: (s.second_counter + 1) as i32,
            frame_index: s.frame_index,
            phase: Phase::ReadingPackets,
        }, Action::NextPacket),
        s.phase == Phase::DrainingEof ==> s.accepts(Event::NoFrame) && s.next(Event::NoFrame) == (
        Transcoder {
            video_stream: s.video_stream,
            second_counter: s.second_counter,
            frame_index: s.frame_index,
            phase: Phase::Finished,
        }, Action::Finish),
        s.accepts(ev) && (s.next(ev).1 == Action::Finish || s.next(ev).0.phase == Phase::Finished)
            ==> s.phase == Phase::DrainingEof && ev == Event::NoFrame,
{
}

/// The events accepted in each phase: packets and the end of the input while
/// reading; frames while draining, unless keeping one would overflow the
/// frame counter; the decoder's emptiness while draining, unless counting the
/// packet would overflow the packet counter; nothing once finished or with a
/// negative counter.
pub proof fn lemma_accepted_events(s: Transcoder, ev: Event)
    ensures
        s.second_counter < 0 ==> !s.accepts(ev),
        s.second_counter >= 0 && s.phase == Phase::ReadingPackets ==> (s.accepts(ev) <==> (
        ev is Packet || ev == Event::EndOfInput)),
        s.second_counter >= 0 && (s.phase == Phase::DrainingPacket || s.phase == Phase::DrainingEof)
            ==> (s.accepts(Event::Frame) <==> (s.second_counter % 30 == 0 ==> s.frame_index
            < usize::MAX)),
        s.second_counter >= 0 && (s.phase == Phase::DrainingPacket || s.phase == Phase::DrainingEof)
            && s.frame_index < usize::MAX ==> s.accepts(Event::Frame),
        s.second_counter >= 0 && s.phase == Phase::DrainingPacket ==> (s.accepts(Event::NoFrame)
            <==> s.second_counter < i32::MAX),
        s.second_counter >= 0 && s.phase == Phase::DrainingEof ==> s.accepts(Event::NoFrame),
        (s.phase == Phase::DrainingPacket || s.phase == Phase::DrainingEof) ==> !s.accepts(
            Event::EndOfInput,
        ) && !(ev is Packet && s.accepts(ev)),
        s.phase == Phase::Finished ==> !s.accepts(ev),
{
}

} // verus!
