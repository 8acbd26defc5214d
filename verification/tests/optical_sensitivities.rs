use gmt_fem_frequency_response::lom::{lom_sensitivies, CliError};

fn blob(tt: &Vec<f64>, stt: &Vec<f64>, sp: &Vec<f64>) -> Vec<u8> {
    let encoded = bincode::serde::encode_to_vec(
        &(tt.clone(), stt.clone(), sp.clone()),
        bincode::config::standard(),
    )
    .unwrap();
    lz4_flex::compress_prepend_size(&encoded)
}

fn model_blob() -> Vec<u8> {
    let tt: Vec<f64> = (0..168).map(|i| i as f64).collect();
    let stt: Vec<f64> = (0..1176).map(|i| (1000 + i) as f64).collect();
    let sp: Vec<f64> = (0..588).map(|i| (2000 + i) as f64).collect();
    blob(&tt, &stt, &sp)
}

fn names(v: &[&str]) -> Vec<String> {
    v.iter().map(|s| s.to_string()).collect()
}

#[test]
fn no_virtual_output_no_sensitivity() {
    let outs = names(&["OSS_ElEncoder_Angle"]);
    // without a virtual output the blob is not read at all
    let r = lom_sensitivies(&outs, &[0xFF]).unwrap();
    assert!(r.is_none());
}

#[test]
fn tip_tilt_block_is_reshaped_column_major() {
    let outs = names(&["tip-tilt"]);
    let s = lom_sensitivies(&outs, &model_blob()).unwrap().unwrap();
    assert_eq!(s.nrows(), 2);
    assert_eq!(s.ncols(), 84);
    // entry (r, c) of the block is element c*2 + r of the flat vector
    assert_eq!(s.entry(0, 0), 0.0f64.to_bits());
    assert_eq!(s.entry(1, 0), 1.0f64.to_bits());
    assert_eq!(s.entry(0, 1), 2.0f64.to_bits());
    assert_eq!(s.entry(1, 83), 167.0f64.to_bits());
}

#[test]
fn blocks_stack_in_request_order() {
    let outs = names(&["segment_piston", "OSSM1Lcl", "tip-tilt"]);
    let s = lom_sensitivies(&outs, &model_blob()).unwrap().unwrap();
    assert_eq!(s.nrows(), 9);
    assert_eq!(s.ncols(), 84);
    // first the 7 segment-piston rows
    assert_eq!(s.entry(0, 0), 2000.0f64.to_bits());
    assert_eq!(s.entry(6, 83), ((2000 + 83 * 7 + 6) as f64).to_bits());
    // then the 2 tip-tilt rows
    assert_eq!(s.entry(7, 0), 0.0f64.to_bits());
    assert_eq!(s.entry(8, 0), 1.0f64.to_bits());
    assert_eq!(s.entry(7, 5), 10.0f64.to_bits());
}

#[test]
fn all_three_observables_make_23_rows() {
    let outs = names(&["tip-tilt", "segment_tip-tilt", "segment_piston"]);
    let s = lom_sensitivies(&outs, &model_blob()).unwrap().unwrap();
    assert_eq!(s.nrows(), 23);
    assert_eq!(s.ncols(), 84);
    // the segment tip-tilt block sits between the other two
    assert_eq!(s.entry(2, 0), 1000.0f64.to_bits());
    assert_eq!(s.entry(15, 0), 1013.0f64.to_bits());
    assert_eq!(s.entry(16, 0), 2000.0f64.to_bits());
}

#[test]
fn wrong_vector_sizes_are_refused() {
    let tt: Vec<f64> = (0..100).map(|i| i as f64).collect();
    let stt: Vec<f64> = (0..1176).map(|i| i as f64).collect();
    let sp: Vec<f64> = (0..588).map(|i| i as f64).collect();
    let r = lom_sensitivies(&names(&["tip-tilt"]), &blob(&tt, &stt, &sp));
    assert!(matches!(r, Err(CliError::Lom)));
}

#[test]
fn a_bad_blob_is_reported_when_needed() {
    let r = lom_sensitivies(&names(&["segment_tip-tilt"]), &[1, 2, 3]);
    assert!(matches!(r, Err(CliError::DecompressOpticalSensitivities)));
}
