use gmt_fem_frequency_response::matrix::Matrix;
use gmt_fem_frequency_response::structural::{
    eigen_window, IoGroup, RawFem, StructuralError, StructuralModel, DEFAULT_DAMPING_BITS,
};

fn group(name: &str, size: usize) -> IoGroup {
    IoGroup { name: name.to_string(), size }
}

fn bits(v: &[f64]) -> Vec<u64> {
    v.iter().map(|x| x.to_bits()).collect()
}

fn names(v: &[&str]) -> Vec<String> {
    v.iter().map(|s| s.to_string()).collect()
}

/// Three modes, two input groups (sizes 1 and 2), two output groups
/// (sizes 2 and 1).
fn sample_fem() -> RawFem {
    let m = 3;
    let u = 3;
    let y = 3;
    // inputs2modes, m x u, row-major: entry = 10*row + col
    let i2m: Vec<f64> = (0..m * u).map(|t| (10 * (t / u) + t % u) as f64).collect();
    // modes2outputs, y x m: entry = 100*row + col
    let m2o: Vec<f64> = (0..y * m).map(|t| (100 * (t / m) + t % m) as f64).collect();
    // static gain, y x u: entry = 1000*row + col
    let g: Vec<f64> = (0..y * u).map(|t| (1000 * (t / u) + t % u) as f64).collect();
    RawFem {
        inputs: vec![group("drive", 1), group("actuators", 2)],
        outputs: vec![group("encoders", 2), group("angle", 1)],
        inputs2modes: Matrix::from_row_major(m, u, bits(&i2m)),
        modes2outputs: Matrix::from_row_major(y, m, bits(&m2o)),
        eigen_frequencies: bits(&[5.0, 20.0, 80.0]),
        static_gain: Some(Matrix::from_row_major(y, u, bits(&g))),
    }
}

#[test]
fn build_keeps_mode_count_consistent() {
    let fem = sample_fem();
    let model = StructuralModel::builder(names(&["drive", "actuators"]), names(&["encoders", "angle"]))
        .build(&fem)
        .unwrap();
    // one B row and one C column per eigenfrequency
    assert_eq!(model.b.nrows(), 3);
    assert_eq!(model.c.ncols(), 3);
    assert_eq!(model.eigen_frequencies_hz().len(), 3);
    assert_eq!(model.b.ncols(), 3);
    assert_eq!(model.c.nrows(), 3);
    assert_eq!(model.z, DEFAULT_DAMPING_BITS);
    assert_eq!(DEFAULT_DAMPING_BITS, 0.02f64.to_bits());
}

#[test]
fn gating_selects_the_named_channels() {
    let fem = sample_fem();
    // only the second input group and the second output group
    let model = StructuralModel::builder(names(&["actuators"]), names(&["angle"]))
        .build(&fem)
        .unwrap();
    assert_eq!(model.b.nrows(), 3);
    assert_eq!(model.b.ncols(), 2);
    assert_eq!(model.c.nrows(), 1);
    assert_eq!(model.c.ncols(), 3);
    // B keeps columns 1 and 2 of inputs2modes
    assert_eq!(model.b.entry(0, 0), 1.0f64.to_bits());
    assert_eq!(model.b.entry(2, 1), 22.0f64.to_bits());
    // C keeps row 2 of modes2outputs
    assert_eq!(model.c.entry(0, 0), 200.0f64.to_bits());
    assert_eq!(model.c.entry(0, 2), 202.0f64.to_bits());
    // the static gain is gated the same way
    let g = model.static_gain((0, 0), (1, 2)).unwrap();
    assert_eq!(g.entry(0, 0), 2001.0f64.to_bits());
    assert_eq!(g.entry(0, 1), 2002.0f64.to_bits());
}

#[test]
fn unknown_channel_is_an_io_mismatch() {
    let fem = sample_fem();
    let r = StructuralModel::builder(names(&["drive", "motor"]), names(&["angle"])).build(&fem);
    match r {
        Err(StructuralError::IOMismatch(name)) => assert_eq!(name, "motor"),
        _ => panic!("expected an IO mismatch"),
    }
}

#[test]
fn window_prunes_modes_and_slices_matrices() {
    let fem = sample_fem();
    // eigenfrequencies 5, 20, 80 Hz; the window [10, 50] keeps mode 1 only
    let model = StructuralModel::builder(names(&["drive"]), names(&["encoders"]))
        .min_eigen_frequency(Some(10.0f64.to_bits()))
        .max_eigen_frequency(Some(50.0f64.to_bits()))
        .build(&fem)
        .unwrap();
    assert_eq!(model.eigen_frequencies_hz(), bits(&[20.0]));
    assert_eq!(model.b.nrows(), 1);
    assert_eq!(model.c.ncols(), 1);
    // B keeps row 1, C keeps column 1
    assert_eq!(model.b.entry(0, 0), 10.0f64.to_bits());
    assert_eq!(model.c.entry(0, 0), 1.0f64.to_bits());
    assert_eq!(model.c.entry(1, 0), 101.0f64.to_bits());
}

#[test]
fn empty_window_is_an_error() {
    let fem = sample_fem();
    let r = StructuralModel::builder(names(&["drive"]), names(&["angle"]))
        .min_eigen_frequency(Some(30.0f64.to_bits()))
        .max_eigen_frequency(Some(50.0f64.to_bits()))
        .build(&fem);
    match r {
        Err(StructuralError::EmptyEigenFrequencyWindow { min, max }) => {
            assert_eq!(min, Some(30.0f64.to_bits()));
            assert_eq!(max, Some(50.0f64.to_bits()));
        },
        _ => panic!("expected an empty window"),
    }
}

#[test]
fn eigen_window_bounds_are_inclusive() {
    let w = bits(&[5.0, 10.0, 20.0, 50.0, 80.0]);
    let (s, n) = eigen_window(&w, Some(10.0f64.to_bits()), Some(50.0f64.to_bits())).unwrap();
    assert_eq!((s, n), (1, 3));
    let (s, n) = eigen_window(&w, None, Some(5.0f64.to_bits())).unwrap();
    assert_eq!((s, n), (0, 1));
    let (s, n) = eigen_window(&w, Some(80.0f64.to_bits()), None).unwrap();
    assert_eq!((s, n), (4, 1));
    let (s, n) = eigen_window(&w, None, None).unwrap();
    assert_eq!((s, n), (0, 5));
    assert!(eigen_window(&w, Some(81.0f64.to_bits()), None).is_err());
}

#[test]
fn optical_sensitivity_must_fit_the_outputs() {
    let fem = sample_fem();
    // one row, but only 2 columns where the gated outputs have 3 channels
    let s = Matrix::from_row_major(1, 2, vec![0, 0]);
    let r = StructuralModel::builder(names(&["drive"]), names(&["encoders", "angle"]))
        .optical_sensitivities(Some(s))
        .build(&fem);
    assert!(matches!(r, Err(StructuralError::ShapeMismatch)));
    // with matching columns the model carries it and reports its rows
    let s = Matrix::from_row_major(2, 3, vec![0, 0, 0, 0, 0, 0]);
    let model = StructuralModel::builder(names(&["drive"]), names(&["encoders", "angle"]))
        .optical_sensitivities(Some(s))
        .build(&fem)
        .unwrap();
    assert_eq!(model.response_dims(), (2, 1));
}

#[test]
fn response_dims_follow_the_gated_channels() {
    let fem = sample_fem();
    let model = StructuralModel::builder(names(&["drive", "actuators"]), names(&["encoders"]))
        .build(&fem)
        .unwrap();
    assert_eq!(model.response_dims(), (2, 3));
}

#[test]
fn damping_and_filename_are_recorded() {
    let b = StructuralModel::builder(names(&["drive"]), names(&["angle"]))
        .damping(0.05f64.to_bits())
        .filename("mount".to_string());
    assert_eq!(b.z, 0.05f64.to_bits());
    assert_eq!(b.file_name, "mount");
}

#[test]
fn single_channel_model_has_a_one_by_one_response() {
    let m2o: Vec<f64> = vec![0.5, 0.25];
    let fem = RawFem {
        inputs: vec![group("OSS_ElDrive_Torque", 1)],
        outputs: vec![group("OSS_ElEncoder_Angle", 1)],
        inputs2modes: Matrix::from_row_major(2, 1, bits(&[1.0, 2.0])),
        modes2outputs: Matrix::from_row_major(1, 2, bits(&m2o)),
        eigen_frequencies: bits(&[7.5, 40.0]),
        static_gain: None,
    };
    let model = StructuralModel::builder(
        names(&["OSS_ElDrive_Torque"]),
        names(&["OSS_ElEncoder_Angle"]),
    )
    .damping(0.02f64.to_bits())
    .build(&fem)
    .unwrap();
    assert_eq!(model.response_dims(), (1, 1));
    assert_eq!(model.eigen_frequencies_hz(), bits(&[7.5, 40.0]));
}

#[test]
fn a_build_needs_channels() {
    let fem = sample_fem();
    let r = StructuralModel::builder(vec![], names(&["angle"])).build(&fem);
    assert!(matches!(r, Err(StructuralError::NoChannels)));
    let r = StructuralModel::builder(names(&["drive"]), vec![]).build(&fem);
    assert!(matches!(r, Err(StructuralError::NoChannels)));
}
