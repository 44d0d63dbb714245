use trustos_drivers::hda::{
    amp_gain_payloads, amp_mute_payloads, append_samples, codec_cmd_word, cyi, ewj,
    find_output_paths, gnb, ica, is_output_pin, nvh, nvi, nvl, nvm, otg, parse_melody,
    push_silence, qqp, render_parts, select_audio_device, set_verb_16_word, store_volume,
    trace_to_dac, verb_command, volume_gain, Aw, Note, SoundEffect, VolumeState, WidgetType,
};

fn widget(nid: u16, kind: u32, pin_config: u32, connections: Vec<u16>) -> Aw {
    let caps = kind << 20;
    Aw {
        nid,
        widget_type: WidgetType::lzc(caps),
        caps,
        pin_config,
        connections,
        amp_in_caps: 0,
        amp_out_caps: 0,
    }
}

fn wav(channels: u16, rate: u32, bits: u16, samples: &[i16]) -> Vec<u8> {
    let mut d = Vec::new();
    d.extend_from_slice(b"RIFF");
    d.extend_from_slice(&(36 + 2 * samples.len() as u32).to_le_bytes());
    d.extend_from_slice(b"WAVE");
    d.extend_from_slice(b"fmt ");
    d.extend_from_slice(&16u32.to_le_bytes());
    d.extend_from_slice(&1u16.to_le_bytes());
    d.extend_from_slice(&channels.to_le_bytes());
    d.extend_from_slice(&rate.to_le_bytes());
    d.extend_from_slice(&(rate * 2 * channels as u32).to_le_bytes());
    d.extend_from_slice(&(2 * channels).to_le_bytes());
    d.extend_from_slice(&bits.to_le_bytes());
    d.extend_from_slice(b"data");
    d.extend_from_slice(&(2 * samples.len() as u32).to_le_bytes());
    for s in samples {
        d.extend_from_slice(&s.to_le_bytes());
    }
    d
}

#[test]
fn widget_kinds_and_pin_devices() {
    assert_eq!(WidgetType::lzc(0x0000_0000), WidgetType::AudioOutput);
    assert_eq!(WidgetType::lzc(0x0040_0000), WidgetType::PinComplex);
    assert_eq!(WidgetType::lzc(0x00F0_0000), WidgetType::VendorDef);
    assert_eq!(WidgetType::lzc(0x0080_0000), WidgetType::Unknown);
    assert_eq!(WidgetType::AudioMixer.name(), "Audio Mixer");
    assert_eq!(gnb(0x0010_0000), "Speaker");
    assert_eq!(gnb(0x0020_0000), "HP Out");
    assert_eq!(gnb(0x00A0_0000), "Mic In");
    assert_eq!(gnb(0x00F0_0000), "Other");
    assert!(is_output_pin(0x0010_0000));
    assert!(!is_output_pin(0x40A0_0000));
    assert!(is_output_pin(0x80A0_0000));
    assert!(!is_output_pin(0x4010_0000 | 0x00A0_0000));
}

#[test]
fn routes_from_output_pins_to_dacs() {
    let ws = vec![
        widget(0x02, 0, 0, vec![]),
        widget(0x0C, 2, 0, vec![0x0D, 0x02]),
        widget(0x0D, 2, 0, vec![0x0C]),
        widget(0x14, 4, 0x0010_0000, vec![0x0C]),
        widget(0x18, 4, 0x40A0_0000, vec![0x0C]),
        widget(0x1B, 4, 0x0020_0000, vec![0x1C]),
    ];
    let mut anc = Vec::new();
    assert_eq!(trace_to_dac(&ws, 0x14, &mut anc), Some(vec![0x14, 0x0C, 0x02]));
    let mut anc = vec![0x0C];
    assert_eq!(trace_to_dac(&ws, 0x14, &mut anc), None);
    let paths = find_output_paths(&ws);
    assert_eq!(paths.len(), 1);
    assert_eq!(paths[0].pin_nid, 0x14);
    assert_eq!(paths[0].dac_nid, 0x02);
    assert_eq!(paths[0].path, vec![0x14, 0x0C, 0x02]);
    assert_eq!(paths[0].device_type, "Speaker");
}

#[test]
fn verb_words() {
    assert_eq!(verb_command(0, 0x14, 0x70740), 0x0147_0740);
    assert_eq!(verb_command(1, 0x102, 0xF0000), 0x1020_0000 | 0xF0000);
    assert_eq!(codec_cmd_word(0x707, 0x40), 0x70740);
    assert_eq!(set_verb_16_word(0x300, 0xB027), 0x3B027);
    assert_eq!(amp_gain_payloads(0x1F), (0xB01F, 0x701F));
    assert_eq!(amp_gain_payloads(0xFF), (0xB07F, 0x707F));
    assert_eq!(amp_mute_payloads(), (0xB080, 0x7080));
}

#[test]
fn volume_levels() {
    assert_eq!(volume_gain(100, None), 39);
    assert_eq!(volume_gain(50, Some(0x0000_5700)), 43);
    assert_eq!(volume_gain(200, Some(0)), 39);
    let mut v = VolumeState::new();
    assert_eq!(ica(&v), 80);
    assert_eq!(store_volume(&mut v, 150, Some(0x7F00)), 127);
    assert_eq!(ica(&v), 100);
    assert_eq!(store_volume(&mut v, 0, None), 0);
}

#[test]
fn wave_shape_samples() {
    assert_eq!(otg(0, 1000), 0);
    assert_eq!(otg(64, 127), 127);
    assert_eq!(otg(192, 127), -127);
    assert_eq!(otg(128, 500), 0);
    assert_eq!(otg(32, 4096), 3063);
}

#[test]
fn tones_fade_in_and_are_stereo() {
    let t = cyi(440, 10, 24000, 100);
    assert_eq!(t.len(), 2 * 480);
    assert_eq!(t[0], 0);
    for f in 0..480 {
        assert_eq!(t[2 * f], t[2 * f + 1]);
    }
    assert!(t.iter().any(|s| *s != 0));
    let quiet = cyi(440, 10, 24000, 0);
    assert!(quiet.iter().all(|s| *s == 0));
    assert!(cyi(440, 0, 24000, 100).is_empty());
}

#[test]
fn silence_and_appending() {
    let mut out = vec![5i16];
    push_silence(&mut out, 2);
    assert_eq!(out, vec![5, 0, 0, 0, 0]);
    append_samples(&mut out, &vec![1, 2]);
    assert_eq!(out, vec![5, 0, 0, 0, 0, 1, 2]);
}

#[test]
fn effects_and_parts() {
    let (s, ms) = nvi(SoundEffect::Click, 100);
    assert_eq!(s.len(), 2 * 720);
    assert_eq!(ms, 65);
    let (s, ms) = nvi(SoundEffect::Error, 100);
    assert_eq!(s.len(), 2 * (5760 + 2880 + 5760));
    assert_eq!(ms, 350);
    assert!(s[2 * 5760..2 * (5760 + 2880)].iter().all(|x| *x == 0));
    let (s, ms) = render_parts(&vec![(0, 10, 0), (1000, 5, 100)], 100);
    assert_eq!(ms, 15);
    assert_eq!(s.len(), 2 * 720);
    assert!(s[..960].iter().all(|x| *x == 0));
}

#[test]
fn notes_and_melodies() {
    assert_eq!(Note::new(69, 4, 100).freq_hz(), 440);
    assert_eq!(Note::new(81, 4, 100).freq_hz(), 880);
    assert_eq!(Note::new(60, 4, 100).freq_hz(), 261);
    assert_eq!(Note::ef(4).freq_hz(), 0);
    let notes = parse_melody("C4q d#5e R h X9 Bw");
    let got: Vec<(u8, u8, u8)> = notes.iter().map(|n| (n.midi_note, n.duration_16th, n.velocity)).collect();
    assert_eq!(got, vec![(60, 4, 100), (75, 2, 100), (0, 4, 0), (71, 16, 100)]);
    assert_eq!(nvh(100).len(), 14);
    assert!(nvm(&vec![], 120, 100).is_none());
    let (s, ms) = nvl("C4q", 120, 100).unwrap();
    assert_eq!((s.len(), ms), (48000, 550));
    let (s, ms) = nvm(&vec![Note::ef(2)], 120, 100).unwrap();
    assert_eq!((s.len(), ms), (24000, 300));
    assert!(s.iter().all(|x| *x == 0));
    assert!(nvl("zz 99", 120, 100).is_none());
}

#[test]
fn wav_header_is_read() {
    let d = wav(2, 44100, 16, &[1, 2, 3, 4]);
    let info = ewj(&d).unwrap();
    assert_eq!((info.channels, info.sample_rate, info.bits_per_sample), (2, 44100, 16));
    assert_eq!((info.data_offset, info.data_size), (44, 8));
    assert_eq!(ewj(&d[..40]).unwrap_err(), "WAV: too short");
    let mut bad = d.clone();
    bad[0] = b'X';
    assert_eq!(ewj(&bad).unwrap_err(), "WAV: missing RIFF");
    let mut bad = d.clone();
    bad[8] = b'X';
    assert_eq!(ewj(&bad).unwrap_err(), "WAV: missing WAVE");
    let mut bad = d.clone();
    bad[20] = 3;
    assert_eq!(ewj(&bad).unwrap_err(), "WAV: not PCM format");
    let mut bad = d.clone();
    bad[36] = b'x';
    assert_eq!(ewj(&bad).unwrap_err(), "WAV: missing fmt or data chunk");
}

#[test]
fn wav_is_resampled_to_48k_stereo() {
    let d = wav(1, 24000, 16, &[1000, -2000, 3000, -4000]);
    let (s, ms) = qqp(&d, 50).unwrap();
    assert_eq!(s, vec![500, 500, 500, 500, -1000, -1000, -1000, -1000, 1500, 1500, 1500, 1500, -2000, -2000, -2000, -2000]);
    assert_eq!(ms, 0);
    let d = wav(2, 48000, 16, &[7, -7, 9, -9]);
    let (s, _) = qqp(&d, 100).unwrap();
    assert_eq!(s, vec![7, -7, 9, -9]);
    let d = wav(1, 48000, 8, &[1, 2]);
    assert_eq!(qqp(&d, 100).unwrap_err(), "WAV: only 16-bit PCM supported");
}

#[test]
fn audio_device_choice() {
    assert_eq!(select_audio_device(&vec![0x01, 0x03, 0x03]), Some(1));
    assert_eq!(select_audio_device(&vec![0x04, 0x01, 0x01]), Some(1));
    assert_eq!(select_audio_device(&vec![0x04]), None);
    assert_eq!(select_audio_device(&vec![]), None);
}
