use yt_raymarch_2d::examples::{examples, is_example_name, Example};

#[test]
fn every_name_chooses_its_demo() {
    let cases = [
        ("single-sdf-distance-as-gradient", Example::SingleSdfDistanceAsGradient),
        ("single-sdf-distance-as-gradient-with-mouse", Example::SingleSdfDistanceAsGradientWithMouse),
        (
            "single-sdf-distance-as-gradient-with-mouse-and-inner-ray",
            Example::SingleSdfDistanceAsGradientWithMouseAndInnerRay,
        ),
        ("single-sdf-distance-as-gradient-with-abs-mouse", Example::SingleSdfDistanceAsGradientWithAbsMouse),
        ("single-sdf-distance-as-gradient-with-algorithm", Example::SingleSdfDistanceAsGradientWithAlgorithm),
        ("single-sdf-distance-as-circle", Example::SingleSdfDistanceAsCircle),
        ("single-sdf-distance-as-border", Example::SingleSdfDistanceAsBorder),
    ];
    for (name, example) in cases {
        assert!(is_example_name(name));
        assert_eq!(examples(name.to_string()), example);
    }
}

#[test]
fn unknown_names_choose_nothing() {
    assert!(!is_example_name(""));
    assert!(!is_example_name("single-sdf-distance-as"));
    assert!(!is_example_name("single-sdf-distance-as-gradient "));
    assert!(!is_example_name("Single-SDF-distance-as-gradient"));
}
