use vstd::prelude::*;

use super::sfx::Sfx;

verus! {

/// The sample rate of the synthesiser, in samples per second.
pub const SAMPLE_RATE: u32 = 22050;

/// The number of sound channels that a recording mixes.
pub const CHANNELS: usize = 4;

/// What happened on a channel while recording.
#[derive(Debug, Clone)]
pub enum RecKind {
    Play(Sfx),
    Stop,
    Release,
}

/// An event of a recording, stamped with the frame on which it happened.
#[derive(Debug, Clone)]
pub struct RecEvent {
    pub frame: u32,
    pub channel: u8,
    pub kind: RecKind,
}

/// A recording in progress: the frame it started on and the events since.
#[derive(Debug)]
pub struct Recording {
    pub start_frame: u32,
    pub events: Vec<RecEvent>,
}

/// Logs play, stop and release events while a recording is active.
#[derive(Debug)]
pub struct AudioRecorder {
    pub active: Option<Recording>,
}

impl AudioRecorder {
    /// A recorder that is not recording.
    pub fn new() -> (r: AudioRecorder)
        ensures
            r.active is None,
    {
        AudioRecorder { active: None }
    }

    /// Starts a new, empty recording at `frame`, dropping any earlier one.
    pub fn start(&mut self, frame: u32)
        ensures
            final(self).active matches Some(rec) && rec.start_frame == frame && rec.events@.len()
                == 0,
    {
        self.active = Some(Recording { start_frame: frame, events: Vec::new() });
    }

    /// Logs that `sfx` started playing on `channel`.
    pub fn play(&mut self, frame: u32, channel: u8, sfx: Sfx)
        ensures
            Self::pushed(*old(self), *final(self), frame, channel),
            final(self).active matches Some(rec) ==> rec.events@.last().kind matches RecKind::Play(
                s,
            ) && s.notes@ == sfx.notes@ && s.speed == sfx.speed && s.loop_maybe == sfx.loop_maybe,
    {
        self.push(frame, channel, RecKind::Play(sfx));
    }

    /// Logs that `channel` was stopped.
    pub fn stop(&mut self, frame: u32, channel: u8)
        ensures
            Self::pushed(*old(self), *final(self), frame, channel),
            final(self).active matches Some(rec) ==> rec.events@.last().kind is Stop,
    {
        self.push(frame, channel, RecKind::Stop);
    }

    /// Logs that the loop on `channel` was released.
    pub fn release(&mut self, frame: u32, channel: u8)
        ensures
            Self::pushed(*old(self), *final(self), frame, channel),
            final(self).active matches Some(rec) ==> rec.events@.last().kind is Release,
    {
        self.push(frame, channel, RecKind::Release);
    }

    /// `after` is `before` with one more event at `frame` on `channel`, when recording;
    /// otherwise nothing changed.
    pub open spec fn pushed(before: AudioRecorder, after: AudioRecorder, frame: u32, channel: u8) -> bool {
        match before.active {
            None => after.active is None,
            Some(b) => after.active matches Some(a) && a.start_frame == b.start_frame
                && a.events@.len() == b.events@.len() + 1 && a.events@.drop_last() == b.events@
                && a.events@.last().frame == frame && a.events@.last().channel == channel,
        }
    }

    fn push(&mut self, frame: u32, channel: u8, kind: RecKind)
        ensures
            Self::pushed(*old(self), *final(self), frame, channel),
            final(self).active matches Some(rec) ==> rec.events@.last().kind == kind,
    {
        if let Some(active) = &mut self.active {
            active.events.push(RecEvent { frame, channel, kind });
            proof {
                assert(active.events@.drop_last() =~= old(self).active.unwrap().events@);
            }
        }
    }

    /// Ends the recording, handing it over.
    pub fn take(&mut self) -> (r: Option<Recording>)
        ensures
            r == old(self).active,
            final(self).active is None,
    {
        self.active.take()
    }
}

/// The sample at which `frame` falls, counting from `start_frame` at 60 frames
/// per second: `(frame - start_frame) * 22050 / 60`, rounded half away from zero.
pub open spec fn frame_sample(start_frame: u32, frame: u32) -> int {
    let frames: int = if frame >= start_frame { frame - start_frame } else { 0 };
    (frames * 735 + 1) / 2
}

/// The sample at which `frame` falls (saturating at `usize::MAX`).
pub fn frame_to_sample(start_frame: u32, frame: u32) -> (r: usize)
    ensures
        r == (if frame_sample(start_frame, frame) <= usize::MAX {
            frame_sample(start_frame, frame)
        } else {
            usize::MAX as int
        }),
{
    let frames: u64 = frame.saturating_sub(start_frame) as u64;
    let v: u64 = (frames * 735 + 1) / 2;
    if v > usize::MAX as u64 {
        usize::MAX
    } else {
        v as usize
    }
}

/// The positions of the events on `channel`, in the order they were logged.
pub open spec fn channel_event_indices(events: Seq<RecEvent>, channel: u8) -> Seq<usize>
    decreases events.len(),
{
    if events.len() == 0 {
        seq![]
    } else {
        let rest = channel_event_indices(events.drop_last(), channel);
        if events.last().channel == channel {
            rest.push((events.len() - 1) as usize)
        } else {
            rest
        }
    }
}

impl Recording {
    /// The positions of the events of `channel` (one of the four channels), in order.
    /// Events on other channels are mixed into no channel.
    pub fn channel_events(&self, channel: u8) -> (r: Vec<usize>)
        requires
            (channel as usize) < CHANNELS,
        ensures
            r@ == channel_event_indices(self.events@, channel),
    {
        let mut r: Vec<usize> = Vec::new();
        let mut i: usize = 0;
        while i < self.events.len()
            invariant
                i <= self.events@.len(),
                r@ == channel_event_indices(self.events@.take(i as int), channel),
            decreases self.events@.len() - i,
        {
            proof {
                assert(self.events@.take(i + 1).drop_last() =~= self.events@.take(i as int));
            }
            if self.events[i].channel == channel {
                r.push(i);
            }
            i = i + 1;
        }
        proof {
            assert(self.events@.take(i as int) =~= self.events@);
        }
        r
    }

    /// The number of samples from the start of the recording to `end_frame`.
    pub fn sample_count(&self, end_frame: u32) -> (r: usize)
        ensures
            r == (if frame_sample(
                self.start_frame,
                if end_frame >= self.start_frame { end_frame } else { self.start_frame },
            ) <= usize::MAX {
                frame_sample(
                    self.start_frame,
                    if end_frame >= self.start_frame { end_frame } else { self.start_frame },
                )
            } else {
                usize::MAX as int
            }),
    {
        let end = if end_frame >= self.start_frame {
            end_frame
        } else {
            self.start_frame
        };
        frame_to_sample(self.start_frame, end)
    }
}

// ---------------------------------------------------------------------------
// WAV encoding: a 44-byte RIFF header for 16-bit mono PCM at 22050 Hz, then the
// samples, all little-endian.
// ---------------------------------------------------------------------------

/// The little-endian bytes of a 16-bit value.
pub open spec fn le16(x: u16) -> Seq<u8> {
    seq![(x % 256) as u8, (x / 256) as u8]
}

/// The little-endian bytes of a 32-bit value.
pub open spec fn le32(x: u32) -> Seq<u8> {
    seq![
        (x % 256) as u8,
        ((x / 256) % 256) as u8,
        ((x / 65536) % 256) as u8,
        (x / 16777216) as u8,
    ]
}

/// The 44-byte header of a WAV file with `data_bytes` bytes of samples.
pub open spec fn wav_header(data_bytes: u32) -> Seq<u8> {
    seq![82u8, 73, 70, 70] + le32((36 + data_bytes) as u32) + seq![87u8, 65, 86, 69, 102, 109, 116, 32]
        + le32(16) + le16(1) + le16(1) + le32(SAMPLE_RATE) + le32((SAMPLE_RATE * 2) as u32) + le16(
        2,
    ) + le16(16) + seq![100u8, 97, 116, 97] + le32(data_bytes)
}

/// The bytes of the samples, each as a little-endian two's-complement 16-bit value.
pub open spec fn wav_samples(pcm: Seq<i16>) -> Seq<u8>
    decreases pcm.len(),
{
    if pcm.len() == 0 {
        seq![]
    } else {
        wav_samples(pcm.drop_last()) + le16(pcm.last() as u16)
    }
}

/// The WAV header is 44 bytes and holds, at their standard offsets, the
/// `RIFF`/`WAVE`/`fmt `/`data` tags, PCM format (1), one channel, 22050
/// samples a second, 44100 bytes a second, two bytes a frame, 16 bits a
/// sample, the file length after the first eight bytes (`36 + data_bytes`)
/// and the sample byte count.
pub proof fn lemma_wav_header_fields(data_bytes: u32)
    requires
        36 + data_bytes <= u32::MAX,
    ensures
        ({
            let h = wav_header(data_bytes);
            &&& h.len() == 44
            &&& h.subrange(0, 4) == seq![82u8, 73, 70, 70]
            &&& (h[4] as int) + 256 * h[5] + 65536 * h[6] + 16777216 * h[7] == 36 + data_bytes
            &&& h.subrange(8, 16) == seq![87u8, 65, 86, 69, 102, 109, 116, 32]
            &&& h.subrange(16, 20) == seq![16u8, 0, 0, 0]
            &&& h.subrange(20, 22) == seq![1u8, 0]
            &&& h.subrange(22, 24) == seq![1u8, 0]
            &&& h.subrange(24, 28) == seq![0x22u8, 0x56, 0, 0]
            &&& h.subrange(28, 32) == seq![0x44u8, 0xAC, 0, 0]
            &&& h.subrange(32, 34) == seq![2u8, 0]
            &&& h.subrange(34, 36) == seq![16u8, 0]
            &&& h.subrange(36, 40) == seq![100u8, 97, 116, 97]
            &&& (h[40] as int) + 256 * h[41] + 65536 * h[42] + 16777216 * h[43] == data_bytes
        }),
{
    let h = wav_header(data_bytes);
    assert(h.subrange(0, 4) =~= seq![82u8, 73, 70, 70]);
    assert(h.subrange(8, 16) =~= seq![87u8, 65, 86, 69, 102, 109, 116, 32]);
    assert(h.subrange(16, 20) =~= seq![16u8, 0, 0, 0]);
    assert(h.subrange(20, 22) =~= seq![1u8, 0]);
    assert(h.subrange(22, 24) =~= seq![1u8, 0]);
    assert(h.subrange(24, 28) =~= seq![0x22u8, 0x56, 0, 0]);
    assert(h.subrange(28, 32) =~= seq![0x44u8, 0xAC, 0, 0]);
    assert(h.subrange(32, 34) =~= seq![2u8, 0]);
    assert(h.subrange(34, 36) =~= seq![16u8, 0]);
    assert(h.subrange(36, 40) =~= seq![100u8, 97, 116, 97]);
    let a = (36 + data_bytes) as u32;
    assert((a % 256) + 256 * ((a / 256) % 256) + 65536 * ((a / 65536) % 256) + 16777216 * (a / 16777216)
        == a) by (nonlinear_arith);
    let d = data_bytes;
    assert((d % 256) + 256 * ((d / 256) % 256) + 65536 * ((d / 65536) % 256) + 16777216 * (d / 16777216)
        == d) by (nonlinear_arith);
}

/// Sample `i` is stored as two bytes, low byte first, of its 16-bit two's
/// complement value, after the samples before it.
pub proof fn lemma_wav_samples_in_order(pcm: Seq<i16>)
    ensures
        wav_samples(pcm).len() == 2 * pcm.len(),
        forall|i: int|
            0 <= i < pcm.len() ==> (wav_samples(pcm)[2 * i] as int) + 256 * wav_samples(pcm)[2 * i + 1]
                == #[trigger] (pcm[i] as u16),
    decreases pcm.len(),
{
    if pcm.len() > 0 {
        let p = pcm.drop_last();
        lemma_wav_samples_in_order(p);
        let v = pcm.last() as u16;
        assert((v % 256) + 256 * (v / 256) == v) by (nonlinear_arith);
        assert forall|i: int|
            0 <= i < pcm.len() implies (wav_samples(pcm)[2 * i] as int) + 256 * wav_samples(pcm)[2 * i + 1]
                == #[trigger] (pcm[i] as u16) by {
            if i < p.len() {
                assert(pcm[i] == p[i]);
            }
        }
    }
}

/// The fields of a whole WAV file, read from its bytes.
proof fn lemma_wav_file(pcm: Seq<i16>, f: Seq<u8>)
    requires
        36 + 2 * pcm.len() <= u32::MAX,
        f == wav_header((2 * pcm.len()) as u32) + wav_samples(pcm),
    ensures
        f.len() == 44 + 2 * pcm.len(),
        f.subrange(22, 24) == seq![1u8, 0],
        f.subrange(24, 28) == seq![0x22u8, 0x56, 0, 0],
        f.subrange(28, 32) == seq![0x44u8, 0xAC, 0, 0],
        f.subrange(34, 36) == seq![16u8, 0],
        forall|i: int|
            0 <= i < pcm.len() ==> (f[44 + 2 * i] as int) + 256 * f[45 + 2 * i] == #[trigger] (pcm[i] as u16),
{
    let h = wav_header((2 * pcm.len()) as u32);
    let sm = wav_samples(pcm);
    lemma_wav_header_fields((2 * pcm.len()) as u32);
    lemma_wav_samples_in_order(pcm);
    assert(f.subrange(22, 24) =~= h.subrange(22, 24));
    assert(f.subrange(24, 28) =~= h.subrange(24, 28));
    assert(f.subrange(28, 32) =~= h.subrange(28, 32));
    assert(f.subrange(34, 36) =~= h.subrange(34, 36));
    assert forall|i: int| 0 <= i < pcm.len() implies (f[44 + 2 * i] as int) + 256 * f[45 + 2 * i]
        == #[trigger] (pcm[i] as u16) by {
        assert(f[44 + 2 * i] == sm[2 * i]);
        assert(f[45 + 2 * i] == sm[2 * i + 1]);
    }
}

fn push_le16(out: &mut Vec<u8>, x: u16)
    ensures
        final(out)@ == old(out)@ + le16(x),
{
    out.push((x % 256) as u8);
    out.push((x / 256) as u8);
    assert(final(out)@ =~= old(out)@ + le16(x));
}

fn push_le32(out: &mut Vec<u8>, x: u32)
    ensures
        final(out)@ == old(out)@ + le32(x),
{
    out.push((x % 256) as u8);
    out.push(((x / 256) % 256) as u8);
    out.push(((x / 65536) % 256) as u8);
    out.push((x / 16777216) as u8);
    assert(final(out)@ =~= old(out)@ + le32(x));
}

fn push_bytes(out: &mut Vec<u8>, b0: u8, b1: u8, b2: u8, b3: u8)
    ensures
        final(out)@ == old(out)@ + seq![b0, b1, b2, b3],
{
    out.push(b0);
    out.push(b1);
    out.push(b2);
    out.push(b3);
    assert(final(out)@ =~= old(out)@ + seq![b0, b1, b2, b3]);
}

/// The bytes of a WAV file holding the given 16-bit mono samples at 22050 Hz.
pub fn wav_bytes(pcm: &[i16]) -> (r: Vec<u8>)
    requires
        36 + 2 * pcm@.len() <= u32::MAX,
    ensures
        r@ == wav_header((2 * pcm@.len()) as u32) + wav_samples(pcm@),
        r@.len() == 44 + 2 * pcm@.len(),
        r@.subrange(22, 24) == seq![1u8, 0],
        r@.subrange(24, 28) == seq![0x22u8, 0x56, 0, 0],
        r@.subrange(28, 32) == seq![0x44u8, 0xAC, 0, 0],
        r@.subrange(34, 36) == seq![16u8, 0],
        forall|i: int|
            0 <= i < pcm@.len() ==> (r@[44 + 2 * i] as int) + 256 * r@[45 + 2 * i] == #[trigger] (pcm@[i] as u16),
{
    let data_bytes: u32 = (pcm.len() * 2) as u32;
    let mut out: Vec<u8> = Vec::new();
    push_bytes(&mut out, 82, 73, 70, 70);
    push_le32(&mut out, 36 + data_bytes);
    push_bytes(&mut out, 87, 65, 86, 69);
    push_bytes(&mut out, 102, 109, 116, 32);
    push_le32(&mut out, 16);
    push_le16(&mut out, 1);
    push_le16(&mut out, 1);
    push_le32(&mut out, SAMPLE_RATE);
    push_le32(&mut out, SAMPLE_RATE * 2);
    push_le16(&mut out, 2);
    push_le16(&mut out, 16);
    push_bytes(&mut out, 100, 97, 116, 97);
    push_le32(&mut out, data_bytes);
    let ghost header = out@;
    assert(header =~= wav_header(data_bytes));
    let mut i: usize = 0;
    while i < pcm.len()
        invariant
            i <= pcm@.len(),
            out@ == header + wav_samples(pcm@.take(i as int)),
        decreases pcm@.len() - i,
    {
        proof {
            assert(pcm@.take(i + 1).drop_last() =~= pcm@.take(i as int));
        }
        push_le16(&mut out, pcm[i] as u16);
        proof {
            assert(out@ =~= header + wav_samples(pcm@.take(i + 1)));
        }
        i = i + 1;
    }
    proof {
        assert(pcm@.take(i as int) =~= pcm@);
        lemma_wav_file(pcm@, out@);
    }
    out
}

} // verus!
