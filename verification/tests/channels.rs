use gmt_fem_frequency_response::channels::{fem_outputs, has_virtual_output, is_virtual_output, lom_outputs};

fn names(v: &[&str]) -> Vec<String> {
    v.iter().map(|s| s.to_string()).collect()
}

#[test]
fn mechanical_outputs_pass_through() {
    let outs = names(&["OSS_ElEncoder_Angle", "OSSM1Lcl"]);
    assert_eq!(fem_outputs(&outs), names(&["OSS_ElEncoder_Angle", "OSSM1Lcl"]));
    assert!(lom_outputs(&outs).is_empty());
    assert!(!has_virtual_output(&outs));
}

#[test]
fn virtual_output_expands_to_rigid_body_channels() {
    let outs = names(&["tip-tilt"]);
    assert_eq!(fem_outputs(&outs), names(&["OSSM1Lcl", "MCM2Lcl6D"]));
    assert_eq!(lom_outputs(&outs), names(&["tip-tilt"]));
    assert!(has_virtual_output(&outs));
}

#[test]
fn expansion_does_not_duplicate_present_channels() {
    let outs = names(&["OSSM1Lcl", "segment_piston"]);
    assert_eq!(fem_outputs(&outs), names(&["OSSM1Lcl", "MCM2Lcl6D"]));
}

#[test]
fn several_virtual_outputs_expand_once() {
    let outs = names(&["tip-tilt", "segment_tip-tilt", "segment_piston"]);
    assert_eq!(fem_outputs(&outs), names(&["OSSM1Lcl", "MCM2Lcl6D"]));
    assert_eq!(
        lom_outputs(&outs),
        names(&["tip-tilt", "segment_tip-tilt", "segment_piston"])
    );
}

#[test]
fn virtual_names_are_recognised() {
    assert!(is_virtual_output(&"tip-tilt".to_string()));
    assert!(is_virtual_output(&"segment_tip-tilt".to_string()));
    assert!(is_virtual_output(&"segment_piston".to_string()));
    assert!(!is_virtual_output(&"OSSM1Lcl".to_string()));
    assert!(!is_virtual_output(&"tip-tilt ".to_string()));
}

#[test]
fn virtual_outputs_keep_request_order() {
    let outs = names(&["segment_piston", "OSS_ElEncoder_Angle", "tip-tilt"]);
    assert_eq!(lom_outputs(&outs), names(&["segment_piston", "tip-tilt"]));
    assert_eq!(
        fem_outputs(&outs),
        names(&["OSS_ElEncoder_Angle", "OSSM1Lcl", "MCM2Lcl6D"])
    );
}
