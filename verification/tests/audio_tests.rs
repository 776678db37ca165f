use bevy_vn::audio::{join_bgm_segments, DecodedPair};

#[test]
fn undecodable_segments_are_joined_as_they_are() {
    assert_eq!(join_bgm_segments(b"abc", b"de", None), b"abcde".to_vec());
}

#[test]
fn decoded_segments_become_one_wav_file() {
    let d = DecodedPair { channels: 2, sample_rate: 44100, samples_a: vec![1, -1], samples_b: vec![0x1234] };
    let wav = join_bgm_segments(b"ignored", b"too", Some(d));
    assert_eq!(wav.len(), 44 + 6);
    assert_eq!(&wav[0..4], b"RIFF");
    assert_eq!(u32::from_le_bytes(wav[4..8].try_into().unwrap()), 36 + 6);
    assert_eq!(&wav[8..16], b"WAVEfmt ");
    assert_eq!(u32::from_le_bytes(wav[16..20].try_into().unwrap()), 16);
    assert_eq!(u16::from_le_bytes(wav[20..22].try_into().unwrap()), 1);
    assert_eq!(u16::from_le_bytes(wav[22..24].try_into().unwrap()), 2);
    assert_eq!(u32::from_le_bytes(wav[24..28].try_into().unwrap()), 44100);
    assert_eq!(u32::from_le_bytes(wav[28..32].try_into().unwrap()), 44100 * 2 * 2);
    assert_eq!(u16::from_le_bytes(wav[32..34].try_into().unwrap()), 4);
    assert_eq!(u16::from_le_bytes(wav[34..36].try_into().unwrap()), 16);
    assert_eq!(&wav[36..40], b"data");
    assert_eq!(u32::from_le_bytes(wav[40..44].try_into().unwrap()), 6);
    assert_eq!(&wav[44..], &[0x01, 0x00, 0xff, 0xff, 0x34, 0x12]);
}
