use synesthesia::store::{keep, NamedPoint};
use synesthesia::wav::encode_mono;

#[test]
fn the_header_describes_the_data() {
    // 0.0, 1.0, -1.0 and 0.5 at full scale.
    let wav = encode_mono(&[0, 32767, -32767, 16384], 48000);
    assert_eq!(&wav[..4], b"RIFF");
    assert_eq!(&wav[8..12], b"WAVE");
    assert_eq!(wav.len(), 44 + 8);
    assert_eq!(u32::from_le_bytes(wav[40..44].try_into().unwrap()), 8);
    assert_eq!(i16::from_le_bytes(wav[46..48].try_into().unwrap()), 32767);
    assert_eq!(i16::from_le_bytes(wav[48..50].try_into().unwrap()), -32767);
}

#[test]
fn the_header_fields_are_those_of_mono_16_bit_pcm() {
    let wav = encode_mono(&[1, -2], 44100);
    assert_eq!(u32::from_le_bytes(wav[4..8].try_into().unwrap()), 36 + 4);
    assert_eq!(&wav[12..16], b"fmt ");
    assert_eq!(u32::from_le_bytes(wav[16..20].try_into().unwrap()), 16);
    assert_eq!(u16::from_le_bytes(wav[20..22].try_into().unwrap()), 1);
    assert_eq!(u16::from_le_bytes(wav[22..24].try_into().unwrap()), 1);
    assert_eq!(u32::from_le_bytes(wav[24..28].try_into().unwrap()), 44100);
    assert_eq!(u32::from_le_bytes(wav[28..32].try_into().unwrap()), 88200);
    assert_eq!(u16::from_le_bytes(wav[32..34].try_into().unwrap()), 2);
    assert_eq!(u16::from_le_bytes(wav[34..36].try_into().unwrap()), 16);
    assert_eq!(&wav[36..40], b"data");
    assert_eq!(&wav[44..], &[1, 0, 0xfe, 0xff]);
    assert_eq!(encode_mono(&[], 8000).len(), 44);
}

#[test]
fn keeping_a_name_twice_replaces_the_entry() {
    let mut points: Vec<NamedPoint<u32>> = Vec::new();
    assert_eq!(keep(&mut points, "calm", 1), 1);
    assert_eq!(keep(&mut points, "storm", 2), 2);
    assert_eq!(keep(&mut points, "calm", 3), 2);
    assert_eq!(points[0].name, "calm");
    assert_eq!(points[0].state, 3);
    assert_eq!(points[1].state, 2);
    assert_eq!(keep(&mut points, "Calm", 4), 3);
    assert_eq!(points[2].name, "Calm");
}
