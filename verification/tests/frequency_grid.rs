use gmt_fem_frequency_response::frequency_response::{
    frequency_plan, BesselFilter, ConfigError, FirstOrderLowPass, FreqPoint, Frequencies,
    PICompensator,
};

#[test]
fn logspace_grid_has_exact_endpoints() {
    let f = Frequencies::logspace(1.0f64.to_bits(), 8000.0f64.to_bits(), 1000);
    let plan = frequency_plan(&f).unwrap();
    assert_eq!(plan.len(), 1000);
    assert_eq!(plan[0], FreqPoint::Exact { value: 1.0f64.to_bits() });
    assert_eq!(plan[999], FreqPoint::Exact { value: 8000.0f64.to_bits() });
    assert_eq!(
        plan[1],
        FreqPoint::LogStep {
            lower: 1.0f64.to_bits(),
            upper: 8000.0f64.to_bits(),
            i: 1,
            n: 1000
        }
    );
}

#[test]
fn linspace_grid_has_exact_endpoints() {
    let f = Frequencies::linspace(1.0f64.to_bits(), 10.0f64.to_bits(), 2);
    let plan = frequency_plan(&f).unwrap();
    assert_eq!(plan.len(), 2);
    assert_eq!(plan[0], FreqPoint::Exact { value: 1.0f64.to_bits() });
    assert_eq!(plan[1], FreqPoint::Exact { value: 10.0f64.to_bits() });
}

#[test]
fn interior_linspace_points_are_interpolation_steps() {
    let f = Frequencies::linspace(2.0f64.to_bits(), 4.0f64.to_bits(), 5);
    let plan = frequency_plan(&f).unwrap();
    for i in 1..4 {
        assert_eq!(
            plan[i],
            FreqPoint::LinStep {
                lower: 2.0f64.to_bits(),
                upper: 4.0f64.to_bits(),
                i,
                n: 5
            }
        );
    }
}

#[test]
fn a_set_of_frequencies_keeps_its_order() {
    let values: Vec<f64> = vec![3.0, 1.0, 2.0, 1.0];
    let f = Frequencies::Values { values: values.iter().map(|x| x.to_bits()).collect() };
    let plan = frequency_plan(&f).unwrap();
    assert_eq!(plan.len(), 4);
    for (k, v) in values.iter().enumerate() {
        assert_eq!(plan[k], FreqPoint::Exact { value: v.to_bits() });
    }
}

#[test]
fn a_single_frequency_plans_one_point() {
    let f = Frequencies::Single { value: 4000.0f64.to_bits() };
    let plan = frequency_plan(&f).unwrap();
    assert_eq!(plan.len(), 1);
    assert_eq!(plan[0], FreqPoint::Exact { value: 4000.0f64.to_bits() });
}

#[test]
fn reversed_bounds_are_refused() {
    let f = Frequencies::logspace(10.0f64.to_bits(), 1.0f64.to_bits(), 100);
    match frequency_plan(&f) {
        Err(ConfigError::InvalidFrequencyRange { lower, upper, n }) => {
            assert_eq!(lower, 10.0f64.to_bits());
            assert_eq!(upper, 1.0f64.to_bits());
            assert_eq!(n, 100);
        },
        _ => panic!("expected an invalid range"),
    }
}

#[test]
fn a_grid_needs_two_samples() {
    let f = Frequencies::linspace(1.0f64.to_bits(), 10.0f64.to_bits(), 1);
    assert!(matches!(frequency_plan(&f), Err(ConfigError::InvalidFrequencyRange { .. })));
    let f = Frequencies::logspace(0.0f64.to_bits(), 10.0f64.to_bits(), 10);
    assert!(matches!(frequency_plan(&f), Err(ConfigError::InvalidFrequencyRange { .. })));
}

#[test]
fn filter_defaults_match_their_formulas() {
    let folp = FirstOrderLowPass::new();
    assert_eq!(folp.corner_frequency_hz, 4.0e3f64.to_bits());
    let bessel = BesselFilter::new();
    assert_eq!(bessel.w_bf, (2.0 * std::f64::consts::PI * 2.2e3).to_bits());
    assert_eq!(bessel.beta[0], 1.0f64.to_bits());
    assert_eq!(bessel.beta[1], 3.20108587f64.to_bits());
    assert_eq!(bessel.beta[2], 4.39155033f64.to_bits());
    assert_eq!(bessel.beta[3], 3.12393994f64.to_bits());
    assert_eq!(bessel.beta[4], 1.0f64.to_bits());
    let pic = PICompensator::new();
    assert_eq!(pic.kp, 7e4f64.to_bits());
    assert_eq!(pic.ki, 5e5f64.to_bits());
}

#[test]
fn a_linear_grid_may_start_at_zero() {
    let f = Frequencies::linspace(0.0f64.to_bits(), 10.0f64.to_bits(), 3);
    let plan = frequency_plan(&f).unwrap();
    assert_eq!(plan.len(), 3);
    assert_eq!(plan[0], FreqPoint::Exact { value: 0.0f64.to_bits() });
    assert_eq!(plan[2], FreqPoint::Exact { value: 10.0f64.to_bits() });
    // a logarithmic grid still needs a positive lower bound
    let f = Frequencies::logspace(0.0f64.to_bits(), 10.0f64.to_bits(), 3);
    assert!(matches!(frequency_plan(&f), Err(ConfigError::InvalidFrequencyRange { .. })));
}
