use ommp::worker::{
    buffered_duration_ms, chain_result, extension_decoder, symphonia_duration_ms,
    symphonia_outcome, DecodeStage, ExtDecoder, PlaybackClock, TickOutcome,
};

#[test]
fn positions_are_monotonic_while_playing() {
    let clock = PlaybackClock::start(10_000);
    let mut last = 0u64;
    for e in [0u64, 250, 500, 1_000, 5_000, 9_999, 12_000] {
        match clock.on_tick(e, false) {
            TickOutcome::Position { position_ms, duration_ms } => {
                assert!(position_ms >= last);
                assert!(position_ms <= duration_ms);
                last = position_ms;
            },
            _ => panic!("expected a position"),
        }
    }
}

#[test]
fn position_clamps_to_duration() {
    let clock = PlaybackClock::start(1_000);
    match clock.on_tick(5_000, false) {
        TickOutcome::Position { position_ms, duration_ms } => {
            assert_eq!(position_ms, 1_000);
            assert_eq!(duration_ms, 1_000);
        },
        _ => panic!("expected a position"),
    }
}

#[test]
fn pause_freezes_and_resume_continues() {
    let mut clock = PlaybackClock::start(60_000);
    assert!(clock.on_pause(4_000));
    assert_eq!(clock.accumulated_ms, 4_000);
    assert!(clock.paused);
    // A second pause is a no-op.
    assert!(!clock.on_pause(9_000));
    assert_eq!(clock.accumulated_ms, 4_000);
    // While paused the position is frozen whatever the wall clock does.
    match clock.on_tick(99_000, false) {
        TickOutcome::Position { position_ms, .. } => assert_eq!(position_ms, 4_000),
        _ => panic!("expected a position"),
    }
    assert!(clock.on_resume());
    assert!(!clock.paused);
    assert!(!clock.on_resume());
}

#[test]
fn dry_sink_finishes_unless_paused() {
    let mut clock = PlaybackClock::start(5_000);
    assert_eq!(clock.on_tick(100, true), TickOutcome::Finished);
    clock.on_pause(100);
    assert!(matches!(clock.on_tick(100, true), TickOutcome::Position { .. }));
}

#[test]
fn successful_seek_resets_position_failed_seek_is_noop() {
    let mut clock = PlaybackClock::start(30_000);
    clock.on_seek(12_000, true);
    assert_eq!(clock.accumulated_ms, 12_000);
    clock.on_seek(25_000, false);
    assert_eq!(clock.accumulated_ms, 12_000);
}

#[test]
fn decode_chain_first_success_wins() {
    assert_eq!(
        chain_result(Some(10_000), Some(20_000), Ok(30_000)),
        Ok((DecodeStage::AutoDetect, 10_000))
    );
    assert_eq!(
        chain_result(None, Some(20_000), Ok(30_000)),
        Ok((DecodeStage::ByExtension, 20_000))
    );
}

#[test]
fn decode_fallback_supplies_duration() {
    // Unreadable by the first two attempts, valid under the full-buffer
    // fallback: the chain reports that source and its non-zero duration.
    let r = chain_result(None, None, Ok(42_000));
    assert_eq!(r, Ok((DecodeStage::FullBuffer, 42_000)));
    let (stage, dur) = r.unwrap();
    assert_eq!(stage, DecodeStage::FullBuffer);
    assert!(dur > 0);
}

#[test]
fn decode_chain_propagates_fallback_error() {
    let r = chain_result(None, None, Err("Probe: unsupported".to_string()));
    assert_eq!(r, Err("Probe: unsupported".to_string()));
}

#[test]
fn extension_picks_forced_decoder() {
    assert_eq!(extension_decoder("x/y/song.MP3"), Some(ExtDecoder::Mp3));
    assert_eq!(extension_decoder("a.flac"), Some(ExtDecoder::Flac));
    assert_eq!(extension_decoder("a.wav"), Some(ExtDecoder::Wav));
    assert_eq!(extension_decoder("a.OGG"), Some(ExtDecoder::Vorbis));
    assert_eq!(extension_decoder("a.m4a"), None);
    assert_eq!(extension_decoder("noext"), None);
}

#[test]
fn symphonia_duration_from_frames_and_rate() {
    // 441000 frames at 44100 Hz = exactly 10 seconds.
    assert_eq!(symphonia_duration_ms(Some(441_000), Some(44_100), None), 10_000);
    assert_eq!(symphonia_duration_ms(None, Some(44_100), None), 0);
    // Without a rate, the container time base decides, in whole seconds.
    assert_eq!(symphonia_duration_ms(Some(900), None, Some((1, 90))), 10_000);
    assert_eq!(symphonia_duration_ms(Some(900), None, None), 0);
}

#[test]
fn buffered_duration_counts_interleaved_frames() {
    // 882000 interleaved samples, 2 channels, 44100 Hz = 10 seconds.
    assert_eq!(buffered_duration_ms(882_000, 2, 44_100), 10_000);
    assert_eq!(buffered_duration_ms(882_000, 0, 44_100), 0);
}

#[test]
fn empty_sample_buffer_is_a_decode_error() {
    let r = symphonia_outcome(0, 2, 44_100, 10_000);
    assert_eq!(r, Err("No audio data decoded".to_string()));
}

#[test]
fn buffer_duration_preferred_over_metadata() {
    assert_eq!(symphonia_outcome(882_000, 2, 44_100, 7_000), Ok(10_000));
    // A degenerate buffer falls back to the metadata duration.
    assert_eq!(symphonia_outcome(1, 2, 0, 7_000), Ok(7_000));
}
