//! The playback worker's decision core: the command/event protocol, the
//! position clock, and the layered decode-chain policy.
//!
//! The worker's surrounding loop owns the audio sink and the wall clock; it
//! reports elapsed wall time and sink state here as plain values, and this
//! module decides every transition and every event to emit.

use vstd::prelude::*;

use crate::strutil;

verus! {

/// Commands the reducer sends to the playback worker, in arrival order.
#[derive(Debug, Clone)]
pub enum PlayerCommand {
    Play(String),
    Pause,
    Resume,
    Stop,
    SetVolume(u8),
    Seek(u64),
}

/// Events the playback worker reports back.
///
/// Positions and durations are milliseconds.
#[derive(Debug, Clone)]
pub enum AudioEvent {
    PositionUpdate { position_ms: u64, duration_ms: u64 },
    TrackFinished,
    TrackError(String),
    Playing,
    Paused,
    Stopped,
}

/// The worker's position clock while a track is loaded.
///
/// The surrounding loop restarts its wall-clock reference whenever playback
/// (re)starts, and hands the elapsed wall time back in on every call;
/// position is `accumulated_ms` plus that elapsed time, never a decoder's
/// own clock.
#[derive(Debug, Clone, Copy, PartialEq, Eq, Structural)]
pub struct PlaybackClock {
    pub accumulated_ms: u64,
    pub paused: bool,
    pub duration_ms: u64,
}

/// Saturating addition on milliseconds.
pub open spec fn sat_add(a: u64, b: u64) -> u64 {
    if a + b > u64::MAX {
        u64::MAX
    } else {
        (a + b) as u64
    }
}

/// The position the clock reports after `elapsed_ms` of wall time since it
/// last started running: frozen while paused, else accumulated plus elapsed,
/// clamped to the duration.
pub open spec fn spec_position(c: PlaybackClock, elapsed_ms: u64) -> u64 {
    let raw = if c.paused {
        c.accumulated_ms
    } else {
        sat_add(c.accumulated_ms, elapsed_ms)
    };
    if raw > c.duration_ms {
        c.duration_ms
    } else {
        raw
    }
}

/// What the worker does when its timer fires.
#[derive(Debug, Clone, PartialEq, Eq, Structural)]
pub enum TickOutcome {
    /// The sink ran dry while not paused: report the end of the track and
    /// return to idle.
    Finished,
    /// Report the current position.
    Position { position_ms: u64, duration_ms: u64 },
}

impl PlaybackClock {
    /// A fresh clock for a track that just started playing.
    pub fn start(duration_ms: u64) -> (c: PlaybackClock)
        ensures
            c.accumulated_ms == 0,
            !c.paused,
            c.duration_ms == duration_ms,
    {
        PlaybackClock { accumulated_ms: 0, paused: false, duration_ms }
    }

    /// Pause: freeze the position at accumulated plus elapsed. A no-op while
    /// already paused. Returns whether a `Paused` event must be emitted.
    pub fn on_pause(&mut self, elapsed_ms: u64) -> (emit: bool)
        ensures
            old(self).paused ==> *final(self) == *old(self) && !emit,
            !old(self).paused ==> *final(self) == (PlaybackClock {
                accumulated_ms: sat_add(old(self).accumulated_ms, elapsed_ms),
                paused: true,
                duration_ms: old(self).duration_ms,
            }) && emit,
    {
        if self.paused {
            false
        } else {
            self.accumulated_ms = saturating_add_u64(self.accumulated_ms, elapsed_ms);
            self.paused = true;
            true
        }
    }

    /// Resume: restart the elapsed clock from now. A no-op while not paused.
    /// Returns whether a `Playing` event must be emitted.
    pub fn on_resume(&mut self) -> (emit: bool)
        ensures
            !old(self).paused ==> *final(self) == *old(self) && !emit,
            old(self).paused ==> *final(self) == (PlaybackClock {
                accumulated_ms: old(self).accumulated_ms,
                paused: false,
                duration_ms: old(self).duration_ms,
            }) && emit,
    {
        if self.paused {
            self.paused = false;
            true
        } else {
            false
        }
    }

    /// A seek attempt came back: on success the position is reset to the
    /// target (the surrounding loop restarts its wall-clock reference); a
    /// failed seek is a silent no-op.
    pub fn on_seek(&mut self, target_ms: u64, seek_ok: bool)
        ensures
            seek_ok ==> *final(self) == (PlaybackClock {
                accumulated_ms: target_ms,
                ..*old(self)
            }),
            !seek_ok ==> *final(self) == *old(self),
    {
        if seek_ok {
            self.accumulated_ms = target_ms;
        }
    }

    /// The timer fired: a dry sink while not paused ends the track,
    /// otherwise the current position is reported, clamped to the duration.
    pub fn on_tick(&self, elapsed_ms: u64, sink_empty: bool) -> (r: TickOutcome)
        ensures
            sink_empty && !self.paused ==> r == TickOutcome::Finished,
            !(sink_empty && !self.paused) ==> r == (TickOutcome::Position {
                position_ms: spec_position(*self, elapsed_ms),
                duration_ms: self.duration_ms,
            }),
    {
        if sink_empty && !self.paused {
            TickOutcome::Finished
        } else {
            let raw = if self.paused {
                self.accumulated_ms
            } else {
                saturating_add_u64(self.accumulated_ms, elapsed_ms)
            };
            let position_ms = if raw > self.duration_ms {
                self.duration_ms
            } else {
                raw
            };
            TickOutcome::Position { position_ms, duration_ms: self.duration_ms }
        }
    }
}

/// While playing with no intervening seek, the reported position never
/// decreases as wall time passes.
pub proof fn lemma_position_monotonic(c: PlaybackClock, e1: u64, e2: u64)
    requires
        !c.paused,
        e1 <= e2,
    ensures
        spec_position(c, e1) <= spec_position(c, e2),
{
}

/// The reported position never exceeds the duration.
pub proof fn lemma_position_clamped(c: PlaybackClock, e: u64)
    ensures
        spec_position(c, e) <= c.duration_ms,
{
}

fn saturating_add_u64(a: u64, b: u64) -> (r: u64)
    ensures
        r == sat_add(a, b),
{
    if a <= u64::MAX - b {
        a + b
    } else {
        u64::MAX
    }
}

/// The extension-directed second decode attempt: which decoder the worker
/// forces for a known extension.
#[derive(Debug, Clone, Copy, PartialEq, Eq, Structural)]
pub enum ExtDecoder {
    Mp3,
    Flac,
    Wav,
    Vorbis,
}

/// The decoder forced for a path's (lowered) extension, if any.
pub open spec fn spec_extension_decoder(p: Seq<char>) -> Option<ExtDecoder> {
    match strutil::extension_of(p) {
        Some(e) => {
            let low = strutil::lower_of(e);
            if low == "mp3"@ {
                Some(ExtDecoder::Mp3)
            } else if low == "flac"@ {
                Some(ExtDecoder::Flac)
            } else if low == "wav"@ {
                Some(ExtDecoder::Wav)
            } else if low == "ogg"@ {
                Some(ExtDecoder::Vorbis)
            } else {
                None
            }
        },
        None => None,
    }
}

/// Picks the decoder the second decode attempt forces for this path.
pub fn extension_decoder(path: &str) -> (r: Option<ExtDecoder>)
    ensures
        r == spec_extension_decoder(path@),
{
    match strutil::path_extension(path) {
        Some(e) => {
            let low = strutil::lowercase(e.as_str());
            if strutil::str_eq(low.as_str(), "mp3") {
                Some(ExtDecoder::Mp3)
            } else if strutil::str_eq(low.as_str(), "flac") {
                Some(ExtDecoder::Flac)
            } else if strutil::str_eq(low.as_str(), "wav") {
                Some(ExtDecoder::Wav)
            } else if strutil::str_eq(low.as_str(), "ogg") {
                Some(ExtDecoder::Vorbis)
            } else {
                None
            }
        },
        None => None,
    }
}

/// Milliseconds computed as `frames * 1000 / rate`, in wide arithmetic,
/// clamped to the u64 range.
pub open spec fn spec_frames_to_ms(frames: u64, rate: u32) -> u64 {
    if rate == 0 {
        0
    } else {
        let ms = frames * 1000 / (rate as int);
        if ms > u64::MAX {
            u64::MAX
        } else {
            ms as u64
        }
    }
}

fn frames_to_ms(frames: u64, rate: u32) -> (r: u64)
    ensures
        r == spec_frames_to_ms(frames, rate),
{
    if rate == 0 {
        return 0;
    }
    let wide = (frames as u128) * 1000 / (rate as u128);
    if wide > u64::MAX as u128 {
        u64::MAX
    } else {
        wide as u64
    }
}

/// The metadata duration of the fallback decode path, in milliseconds:
/// from the frame count over the sample rate when the rate is known, else
/// from the container time base as whole seconds, else zero.
pub open spec fn spec_symphonia_duration_ms(
    n_frames: Option<u64>,
    sample_rate: Option<u32>,
    time_base: Option<(u32, u32)>,
) -> u64 {
    match n_frames {
        Some(n) => match sample_rate {
            Some(rate) => spec_frames_to_ms(n, rate),
            None => match time_base {
                // Whole seconds of `n` ticks at `numer / denom` seconds per
                // tick, as the container reports them.
                Some((numer, denom)) => if denom == 0 {
                    0
                } else {
                    let secs = n * numer / (denom as int);
                    if secs > u64::MAX / 1000 {
                        u64::MAX
                    } else {
                        (secs * 1000) as u64
                    }
                },
                None => 0,
            },
        },
        None => 0,
    }
}

/// Duration of the fallback decode path from container metadata.
pub fn symphonia_duration_ms(
    n_frames: Option<u64>,
    sample_rate: Option<u32>,
    time_base: Option<(u32, u32)>,
) -> (r: u64)
    ensures
        r == spec_symphonia_duration_ms(n_frames, sample_rate, time_base),
{
    match n_frames {
        Some(n) => match sample_rate {
            Some(rate) => frames_to_ms(n, rate),
            None => match time_base {
                Some((numer, denom)) => {
                    if denom == 0 {
                        0
                    } else {
                        proof {
                            vstd::arithmetic::mul::lemma_mul_upper_bound(
                                n as int,
                                u64::MAX as int,
                                numer as int,
                                u32::MAX as int,
                            );
                        }
                        let secs = (n as u128) * (numer as u128) / (denom as u128);
                        if secs > (u64::MAX / 1000) as u128 {
                            u64::MAX
                        } else {
                            (secs as u64) * 1000
                        }
                    }
                },
                None => 0,
            },
        },
        None => 0,
    }
}

/// Duration of a fully decoded interleaved sample buffer, in milliseconds.
pub open spec fn spec_buffered_duration_ms(n_samples: usize, channels: u16, rate: u32) -> u64 {
    if channels == 0 {
        0
    } else {
        spec_frames_to_ms((n_samples as int / channels as int) as u64, rate)
    }
}

/// Duration of the fully decoded sample buffer the fallback path built.
pub fn buffered_duration_ms(n_samples: usize, channels: u16, rate: u32) -> (r: u64)
    ensures
        r == spec_buffered_duration_ms(n_samples, channels, rate),
{
    if channels == 0 {
        0
    } else {
        let frames = (n_samples as u64) / (channels as u64);
        frames_to_ms(frames, rate)
    }
}

/// The outcome of the fallback full-buffer decode: an empty buffer is a
/// decode error; otherwise the buffer's own duration is preferred, with the
/// container metadata duration kept only as a fallback.
pub fn symphonia_outcome(n_samples: usize, channels: u16, rate: u32, meta_ms: u64) -> (r: Result<
    u64,
    String,
>)
    ensures
        n_samples == 0 ==> r is Err && r->Err_0@ == "No audio data decoded"@,
        n_samples > 0 && spec_buffered_duration_ms(n_samples, channels, rate) > 0 ==> r == Result::<
            u64,
            String,
        >::Ok(spec_buffered_duration_ms(n_samples, channels, rate)),
        n_samples > 0 && spec_buffered_duration_ms(n_samples, channels, rate) == 0 ==> r
            == Result::<u64, String>::Ok(meta_ms),
{
    if n_samples == 0 {
        return Err(String::from_str("No audio data decoded"));
    }
    let buffer_ms = buffered_duration_ms(n_samples, channels, rate);
    if buffer_ms > 0 {
        Ok(buffer_ms)
    } else {
        Ok(meta_ms)
    }
}

/// Which decode attempt produced the playing source.
#[derive(Debug, Clone, Copy, PartialEq, Eq, Structural)]
pub enum DecodeStage {
    AutoDetect,
    ByExtension,
    FullBuffer,
}

/// The layered decode chain: the first attempt that succeeds wins; only when
/// the auto-detecting and the extension-directed attempts both fail does the
/// full-buffer fallback decide, and its error is the chain's error.
pub fn chain_result(first: Option<u64>, second: Option<u64>, fallback: Result<u64, String>) -> (r:
    Result<(DecodeStage, u64), String>)
    ensures
        first is Some ==> r == Result::<(DecodeStage, u64), String>::Ok(
            (DecodeStage::AutoDetect, first->0),
        ),
        first is None && second is Some ==> r == Result::<(DecodeStage, u64), String>::Ok(
            (DecodeStage::ByExtension, second->0),
        ),
        first is None && second is None ==> match fallback {
            Ok(d) => r == Result::<(DecodeStage, u64), String>::Ok((DecodeStage::FullBuffer, d)),
            Err(e) => r is Err && r->Err_0 == e,
        },
{
    match first {
        Some(d) => Ok((DecodeStage::AutoDetect, d)),
        None => match second {
            Some(d) => Ok((DecodeStage::ByExtension, d)),
            None => match fallback {
                Ok(d) => Ok((DecodeStage::FullBuffer, d)),
                Err(e) => Err(e),
            },
        },
    }
}

} // verus!
