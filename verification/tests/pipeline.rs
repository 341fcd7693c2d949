use transcode::pipeline::{Action, Event, Phase, TranscodeError, Transcoder, PACKETS_PER_SAMPLE};

fn start(video_stream: usize) -> Transcoder {
    Transcoder::new(Some(video_stream)).unwrap()
}

fn step(t: &mut Transcoder, ev: Event) -> Action {
    assert!(t.can_accept(&ev));
    t.step(ev)
}

#[test]
fn no_video_stream_is_an_error() {
    assert_eq!(Transcoder::new(None).err(), Some(TranscodeError::StreamNotFound));
}

#[test]
fn starts_reading_with_zero_counters() {
    let t = start(3);
    assert_eq!(t.video_stream, 3);
    assert_eq!(t.second_counter, 0);
    assert_eq!(t.frame_index, 0);
    assert_eq!(t.phase, Phase::ReadingPackets);
    assert_eq!(PACKETS_PER_SAMPLE, 30);
}

#[test]
fn packets_of_other_streams_are_skipped() {
    let mut t = start(0);
    assert_eq!(step(&mut t, Event::Packet { stream_index: 1 }), Action::SkipPacket);
    assert_eq!(t.phase, Phase::ReadingPackets);
    assert_eq!(t.second_counter, 0);
    assert_eq!(step(&mut t, Event::Packet { stream_index: 0 }), Action::SendPacket);
    assert_eq!(t.phase, Phase::DrainingPacket);
}

#[test]
fn first_packet_frames_are_all_kept() {
    let mut t = start(0);
    step(&mut t, Event::Packet { stream_index: 0 });
    assert_eq!(step(&mut t, Event::Frame), Action::ConvertFrame { save_as: Some(0) });
    assert_eq!(step(&mut t, Event::Frame), Action::ConvertFrame { save_as: Some(1) });
    assert_eq!(step(&mut t, Event::NoFrame), Action::NextPacket);
    assert_eq!(t.second_counter, 1);
    assert_eq!(t.frame_index, 2);
    assert_eq!(t.phase, Phase::ReadingPackets);
}

#[test]
fn frames_between_samples_are_converted_only() {
    let mut t = Transcoder { video_stream: 0, second_counter: 7, frame_index: 4, phase: Phase::DrainingPacket };
    assert_eq!(step(&mut t, Event::Frame), Action::ConvertFrame { save_as: None });
    assert_eq!(t.frame_index, 4);
}

#[test]
fn one_frame_kept_per_thirty_packets() {
    // One audio packet and one video packet alternately; the decoder yields
    // one frame after each video packet, and one more after the end.
    let mut t = start(1);
    let mut saved = Vec::new();
    let mut saved_at = Vec::new();
    for n in 0..65 {
        assert_eq!(step(&mut t, Event::Packet { stream_index: 0 }), Action::SkipPacket);
        assert_eq!(step(&mut t, Event::Packet { stream_index: 1 }), Action::SendPacket);
        if let Action::ConvertFrame { save_as: Some(i) } = step(&mut t, Event::Frame) {
            saved.push(i);
            saved_at.push(n);
        }
        assert_eq!(step(&mut t, Event::NoFrame), Action::NextPacket);
    }
    assert_eq!(t.second_counter, 65);
    assert_eq!(step(&mut t, Event::EndOfInput), Action::SendEof);
    assert_eq!(step(&mut t, Event::Frame), Action::ConvertFrame { save_as: None });
    assert_eq!(step(&mut t, Event::NoFrame), Action::Finish);
    assert_eq!(t.phase, Phase::Finished);
    assert_eq!(saved, vec![0, 1, 2]);
    assert_eq!(saved_at, vec![0, 30, 60]);
}

#[test]
fn frames_after_end_use_the_final_count() {
    let mut t = Transcoder { video_stream: 0, second_counter: 60, frame_index: 2, phase: Phase::ReadingPackets };
    assert_eq!(step(&mut t, Event::EndOfInput), Action::SendEof);
    assert_eq!(step(&mut t, Event::Frame), Action::ConvertFrame { save_as: Some(2) });
    assert_eq!(step(&mut t, Event::Frame), Action::ConvertFrame { save_as: Some(3) });
    assert_eq!(step(&mut t, Event::NoFrame), Action::Finish);
    assert_eq!(t.second_counter, 60);
}

#[test]
fn finished_accepts_nothing() {
    let t = Transcoder { video_stream: 0, second_counter: 1, frame_index: 0, phase: Phase::Finished };
    assert!(!t.can_accept(&Event::Frame));
    assert!(!t.can_accept(&Event::NoFrame));
    assert!(!t.can_accept(&Event::EndOfInput));
    assert!(!t.can_accept(&Event::Packet { stream_index: 0 }));
}

#[test]
fn events_out_of_order_are_refused() {
    let reading = start(0);
    assert!(!reading.can_accept(&Event::Frame));
    assert!(!reading.can_accept(&Event::NoFrame));
    let draining = Transcoder { video_stream: 0, second_counter: 1, frame_index: 0, phase: Phase::DrainingPacket };
    assert!(!draining.can_accept(&Event::Packet { stream_index: 0 }));
    assert!(!draining.can_accept(&Event::EndOfInput));
}

#[test]
fn counters_that_would_overflow_are_refused() {
    let full = Transcoder { video_stream: 0, second_counter: i32::MAX, frame_index: 0, phase: Phase::DrainingPacket };
    assert!(!full.can_accept(&Event::NoFrame));
    let kept_all = Transcoder { video_stream: 0, second_counter: 0, frame_index: usize::MAX, phase: Phase::DrainingEof };
    assert!(!kept_all.can_accept(&Event::Frame));
    let negative = Transcoder { video_stream: 0, second_counter: -1, frame_index: 0, phase: Phase::ReadingPackets };
    assert!(!negative.can_accept(&Event::EndOfInput));
}

#[test]
fn samples_now_follows_the_counter() {
    let mut t = start(0);
    assert!(t.samples_now());
    t.second_counter = 29;
    assert!(!t.samples_now());
    t.second_counter = 90;
    assert!(t.samples_now());
}
