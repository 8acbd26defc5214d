use gmt_fem_frequency_response::lom::{CliError, Lom};

fn make_blob(tt: &Vec<f64>, stt: &Vec<f64>, sp: &Vec<f64>) -> Vec<u8> {
    let encoded = bincode::serde::encode_to_vec(
        &(tt.clone(), stt.clone(), sp.clone()),
        bincode::config::standard(),
    )
    .unwrap();
    lz4_flex::compress_prepend_size(&encoded)
}

#[test]
fn blob_round_trip() {
    let tt: Vec<f64> = vec![1.0, -2.5, 3.25];
    let stt: Vec<f64> = vec![0.0, f64::MIN_POSITIVE];
    let sp: Vec<f64> = vec![42.0];
    let blob = make_blob(&tt, &stt, &sp);
    let lom = Lom::new(&blob).unwrap();
    let bits = |v: &Vec<f64>| v.iter().map(|x| x.to_bits()).collect::<Vec<u64>>();
    assert_eq!(lom.tip_tilt, bits(&tt));
    assert_eq!(lom.segment_tip_tilt, bits(&stt));
    assert_eq!(lom.segment_piston, bits(&sp));
}

#[test]
fn blob_round_trip_long_vectors() {
    // vector lengths at and above the one-byte varint limit
    let tt: Vec<f64> = (0..250).map(|i| i as f64).collect();
    let stt: Vec<f64> = (0..251).map(|i| 0.5 * i as f64).collect();
    let sp: Vec<f64> = (0..300).map(|i| -1.25 * i as f64).collect();
    let blob = make_blob(&tt, &stt, &sp);
    let lom = Lom::new(&blob).unwrap();
    assert_eq!(lom.tip_tilt.len(), 250);
    assert_eq!(lom.segment_tip_tilt.len(), 251);
    assert_eq!(lom.segment_piston.len(), 300);
    assert_eq!(lom.segment_tip_tilt[250], (0.5 * 250.0f64).to_bits());
    assert_eq!(lom.segment_piston[299], (-1.25 * 299.0f64).to_bits());
}

#[test]
fn blob_garbage_is_a_decompression_error() {
    let r = Lom::new(&[0xDE, 0xAD]);
    assert!(matches!(r, Err(CliError::DecompressOpticalSensitivities)));
}

#[test]
fn truncated_bytes_are_a_deserialisation_error() {
    // a valid first vector, then a length with no entries behind it
    let mut bytes: Vec<u8> = Vec::new();
    bytes.push(1);
    bytes.extend_from_slice(&1.0f64.to_bits().to_le_bytes());
    bytes.push(9); // nine doubles announced, none present
    let r = Lom::from_decompressed(&bytes);
    assert!(matches!(r, Err(CliError::DeserOpticalSensitivities)));
    // the same bytes, compressed, fail the same way through the blob path
    let blob = lz4_flex::compress_prepend_size(&bytes);
    assert!(matches!(Lom::new(&blob), Err(CliError::DeserOpticalSensitivities)));
}

#[test]
fn invalid_length_marker_is_a_deserialisation_error() {
    // 254 is a length marker the format does not use
    let bytes: Vec<u8> = vec![254, 0, 0];
    let r = Lom::from_decompressed(&bytes);
    assert!(matches!(r, Err(CliError::DeserOpticalSensitivities)));
}

#[test]
fn hand_built_bytes_parse_exactly() {
    // three vectors: [7.5], [], [1.0, 2.0]
    let mut bytes: Vec<u8> = Vec::new();
    bytes.push(1);
    bytes.extend_from_slice(&7.5f64.to_bits().to_le_bytes());
    bytes.push(0);
    bytes.push(2);
    bytes.extend_from_slice(&1.0f64.to_bits().to_le_bytes());
    bytes.extend_from_slice(&2.0f64.to_bits().to_le_bytes());
    let lom = Lom::from_decompressed(&bytes).unwrap();
    assert_eq!(lom.tip_tilt, vec![7.5f64.to_bits()]);
    assert!(lom.segment_tip_tilt.is_empty());
    assert_eq!(lom.segment_piston, vec![1.0f64.to_bits(), 2.0f64.to_bits()]);
}

#[test]
fn sixteen_bit_length_marker_parses() {
    // one vector of 260 doubles, length written as 251 + little-endian u16
    let mut bytes: Vec<u8> = Vec::new();
    bytes.push(251);
    bytes.extend_from_slice(&260u16.to_le_bytes());
    for i in 0..260 {
        bytes.extend_from_slice(&(i as f64).to_bits().to_le_bytes());
    }
    bytes.push(0);
    bytes.push(0);
    let lom = Lom::from_decompressed(&bytes).unwrap();
    assert_eq!(lom.tip_tilt.len(), 260);
    assert_eq!(lom.tip_tilt[259], 259.0f64.to_bits());
}

#[test]
fn trailing_bytes_are_ignored() {
    let mut bytes: Vec<u8> = vec![0, 0, 0];
    bytes.extend_from_slice(&[1, 2, 3]);
    let lom = Lom::from_decompressed(&bytes).unwrap();
    assert!(lom.tip_tilt.is_empty());
    assert!(lom.segment_tip_tilt.is_empty());
    assert!(lom.segment_piston.is_empty());
}
