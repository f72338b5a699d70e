use nano9::audio::note::{Effect, Pico8Note, SfxError, SfxPart, WaveForm, PITCH_OFFSET};
use nano9::audio::record::{frame_to_sample, wav_bytes, AudioRecorder, RecKind};
use nano9::audio::sfx::{to_byte, to_nybble, Loop, NoteIter, Sfx, StoppablePlay};
use nano9::audio::note::WaveForm::{Noise, Organ, Phaser, Pulse, Saw, Square, TiltedSaw, Triangle};

#[test]
fn test_flat_map() {
    let a = 0..3;
    let b = 3..6;
    let c = 6..9;
    let v = [a, b, c];
    let _ = v.iter().flat_map(|it| it.clone());
}

#[test]
fn test_flat_map2() {
    let a = 0..3;
    let b = 3..6;
    let c = 6..9;
    let v = vec![a, b, c];
    let w = v.into_iter().flatten();
    assert_eq!((0..9).collect::<Vec<_>>(), w.collect::<Vec<_>>());
}

#[test]
fn check_note_conversion() {
    let a = Pico8Note::default();
    let x = u16::from(a);
    let b = Pico8Note::from(x);
    assert_eq!(a, b);
}

#[test]
fn sfx_parse0() {
    let s = "000800000f0000f000000000000000000000000000000000000000000000000000000000000000000000000000000000000000000000000000000000000000000000000000000000000000000000000000000000";
    let sfx = Sfx::try_from_str(s).unwrap();
    let note = &sfx.notes[0];
    assert_eq!(note.pitch(), 50); // C1
    assert_eq!(note.wave(), WaveForm::Triangle);
    assert_eq!(note.effect(), Effect::NoEffect);
    assert_eq!(note.volume_level(), 0); // volume 0.0

    let note = Pico8Note(0x000f);
    assert_eq!(note.pitch(), 50); // C1
    assert_eq!(note.wave(), WaveForm::Triangle);
    assert_eq!(note.effect(), Effect::NoEffect);
    assert_eq!(note.volume_level(), 0); // volume 0.0
}

#[test]
fn sfx_volume() {
    let s = "001000000c0000c0100c0200c0300c0400c0500c0600c070000000000000000000000000000000000000000000000000000000000000000000000000000000000000000000000000000000000000000000000000";
    let sfx = Sfx::try_from_str(s).unwrap();
    let note = &sfx.notes[1];
    assert_eq!(note.pitch(), 47); // C1
    assert_eq!(note.volume_level(), 1); // volume 1/7
    assert_eq!(note.wave(), WaveForm::Triangle);
    assert_eq!(note.effect(), Effect::NoEffect);
    let volumes: Vec<u8> = sfx
        .notes
        .iter()
        .take(8)
        .map(|n| n.volume_level())
        .collect();
    assert_eq!(volumes, vec![0, 1, 2, 3, 4, 5, 6, 7]);
    assert_eq!(sfx.notes.len(), 8);
}

#[test]
fn sfx_wave() {
    let s = "001000000c050000000c150000000c250000000c350000000c450000000c550000000c650000000c7500000000000000000000000000000000000000000000000000000000000000000000000000000000000000";
    let sfx = Sfx::try_from_str(s).unwrap();
    let volumes: Vec<WaveForm> = sfx.notes.iter().map(|n| n.wave()).collect();
    assert_eq!(
        volumes,
        vec![
            Triangle, Triangle, TiltedSaw, Triangle, Saw, Triangle, Square, Triangle, Pulse,
            Triangle, Organ, Triangle, Noise, Triangle, Phaser,
        ]
    );
    assert_eq!(sfx.notes.len(), 15);
}

#[test]
fn sfx_pitch() {
    let s = "001000000c050000000c150000000c250000000c350000000c450000000c550000000c650000000c7500000000000000000000000000000000000000000000000000000000000000000000000000000000000000";
    let sfx = Sfx::try_from_str(s).unwrap();
    let volumes: Vec<u8> = sfx.notes.iter().take(15).map(|n| n.pitch()).collect();
    assert_eq!(
        volumes,
        vec![47, 35, 47, 35, 47, 35, 47, 35, 47, 35, 47, 35, 47, 35, 47,]
    );
    assert_eq!(sfx.notes.len(), 15);
}

#[test]
fn note_wave() {
    let note = Pico8Note::new(37, WaveForm::Noise, 7, Effect::NoEffect);
    assert_eq!(note.wave(), WaveForm::Noise);
}

fn pitches(iter: &mut NoteIter, released: bool, limit: usize) -> Vec<u8> {
    let mut out = Vec::new();
    while out.len() < limit {
        match iter.next(released) {
            Some(n) => out.push(n.pitch()),
            None => break,
        }
    }
    out
}

#[test]
fn sfx_loop_wraps_from_zero_until_release() {
    let s = "000801080d0700f070110701207014070160701807019070000000000000000000000000000000000000000000000000000000000000000000000000000000000000000000000000000000000000000000000000";
    let mut sfx = Sfx::try_from_str(s).unwrap();
    sfx.loop_maybe = Some(Loop::Stoppable {
        start: Some(1),
        end: Some(8),
    });
    let mut iter = NoteIter::from(sfx.clone());
    // Play 0..7, wrap to 1, then 1..7, wrap to 1.
    assert_eq!(
        pitches(&mut iter, false, 16),
        vec![48, 50, 52, 53, 55, 57, 59, 60, 50, 52, 53, 55, 57, 59, 60, 50]
    );

    let mut iter = NoteIter::from(sfx);
    let leftover = pitches(&mut iter, true, usize::MAX);
    assert_eq!(leftover, vec![48, 50, 52, 53, 55, 57, 59, 60]);
}

#[test]
fn key_33_is_a4() {
    let note = Pico8Note::new(33 + PITCH_OFFSET, WaveForm::Triangle, 7, Effect::NoEffect);
    assert_eq!(note.key(), 33);
}

#[test]
fn note_fields_round_trip() {
    let note = Pico8Note::new(60, WaveForm::Square, 5, Effect::Vibrato);
    assert_eq!(note.pitch(), 60);
    assert_eq!(note.wave(), WaveForm::Square);
    assert_eq!(note.volume_level(), 5);
    assert_eq!(note.effect(), Effect::Vibrato);
    assert_eq!(Pico8Note::from(u16::from(note)), note);
}

#[test]
fn wave_and_effect_codes() {
    assert_eq!(WaveForm::from_code(3), Some(WaveForm::Square));
    assert_eq!(WaveForm::Square.code(), 3);
    assert_eq!(WaveForm::from_code(9), Some(WaveForm::Custom(2)));
    assert_eq!(WaveForm::from_code(16), None);
    assert_eq!(Effect::from_code(7), Some(Effect::ArpSlow));
    assert_eq!(Effect::from_code(5), Some(Effect::FadeOut));
    assert_eq!(Effect::from_code(8), None);
    assert_eq!(u8::from(Effect::Vibrato), 2);
}

#[test]
fn nybbles_and_bytes() {
    assert_eq!(to_nybble(b'0'), Some(0));
    assert_eq!(to_nybble(b'a'), Some(10));
    assert_eq!(to_nybble(b'F'), Some(15));
    assert_eq!(to_nybble(b'g'), None);
    assert_eq!(to_byte(b'1', b'f'), Some(0x1f));
    assert_eq!(to_byte(b'x', b'0'), None);
}

#[test]
fn sfx_header_sets_speed_and_loop() {
    let s = "000801080d0700f070110701207014070160701807019070000000000000000000000000000000000000000000000000000000000000000000000000000000000000000000000000000000000000000000000000";
    let sfx = Sfx::try_from_str(s).unwrap();
    assert_eq!(sfx.speed, 8);
    assert!(matches!(
        sfx.loop_maybe,
        Some(Loop::Unstoppable {
            start: Some(1),
            end: Some(8)
        })
    ));
}

#[test]
fn sfx_parse_rejects_bad_hex() {
    match Sfx::try_from_str("0008000z") {
        Err(SfxError::InvalidHex(h)) => assert_eq!(h, "0z"),
        Err(e) => panic!("unexpected error {:?}", e),
        Ok(_) => panic!("bad hex parsed"),
    }
}

#[test]
fn sfx_parse_rejects_missing_note_part() {
    match Sfx::try_from_str("000800001") {
        Err(SfxError::Missing(SfxPart::PitchLowNybble)) => {}
        Err(e) => panic!("unexpected error {:?}", e),
        Ok(_) => panic!("short note parsed"),
    }
}

#[test]
fn sfx_parse_rejects_bad_effect() {
    match Sfx::try_from_str("000800000c058") {
        Err(SfxError::InvalidEffect(8)) => {}
        Err(e) => panic!("unexpected error {:?}", e),
        Ok(_) => panic!("bad effect parsed"),
    }
}

#[test]
fn stoppable_play_copies_unstoppable_loops() {
    let sfx = Sfx::new(vec![Pico8Note::new(40, WaveForm::Saw, 3, Effect::NoEffect)]).with_loop(Some(0), Some(1));
    match sfx.stoppable_play() {
        StoppablePlay::Copy(s) => {
            assert!(matches!(s.loop_maybe, Some(Loop::Stoppable { start: Some(0), end: Some(1) })));
            assert_eq!(s.notes.len(), 1);
        }
        _ => panic!("expected a copy"),
    }
    let plain = Sfx::new(vec![]);
    assert!(matches!(plain.stoppable_play(), StoppablePlay::Plain));
    let copy = sfx.stoppable_copy();
    assert!(matches!(copy.loop_maybe, Some(Loop::Stoppable { .. })));
}

#[test]
fn frames_become_samples() {
    assert_eq!(frame_to_sample(10, 10), 0);
    assert_eq!(frame_to_sample(0, 2), 735);
    assert_eq!(frame_to_sample(0, 1), 368);
    assert_eq!(frame_to_sample(5, 3), 0);
}

#[test]
fn wav_header_and_samples() {
    let bytes = wav_bytes(&[1, -2]);
    assert_eq!(&bytes[0..4], b"RIFF");
    assert_eq!(&bytes[8..12], b"WAVE");
    assert_eq!(bytes.len(), 44 + 4);
    assert_eq!(&bytes[44..48], &[1, 0, 0xfe, 0xff]);
}

#[test]
fn recorder_collects_events_while_recording() {
    let mut rec = AudioRecorder::new();
    rec.play(1, 0, Sfx::new(vec![]));
    rec.start(10);
    rec.play(12, 2, Sfx::new(vec![]));
    rec.release(13, 2);
    rec.stop(14, 2);
    let recording = rec.take().unwrap();
    assert_eq!(recording.start_frame, 10);
    assert_eq!(recording.events.len(), 3);
    assert!(matches!(recording.events[0].kind, RecKind::Play(_)));
    assert!(matches!(recording.events[1].kind, RecKind::Release));
    assert!(matches!(recording.events[2].kind, RecKind::Stop));
    assert_eq!(recording.channel_events(2), vec![0, 1, 2]);
    assert!(rec.take().is_none());
}

#[test]
fn sfx_from_cart_bytes() {
    // 68 bytes: 32 notes of two bytes each, then editor mode, speed, loop start and end.
    let mut data = vec![0u8; 68];
    data[0] = 0x0c; // key 12, triangle
    data[1] = 0x0a; // volume 5
    data[65] = 4;
    data[66] = 1;
    data[67] = 3;
    let sfx = Sfx::from_u8(&data);
    assert_eq!(sfx.speed, 4);
    assert_eq!(sfx.notes.len(), 32);
    assert_eq!(sfx.notes[0].key(), 12);
    assert_eq!(sfx.notes[0].volume_level(), 5);
    assert!(matches!(sfx.loop_maybe, Some(Loop::Unstoppable { start: Some(1), end: Some(3) })));
}
