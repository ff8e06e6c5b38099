use vstd::prelude::*;

verus! {

/// The demos that a page can ask for by name.
#[derive(Clone, Copy, Debug, PartialEq, Eq, Structural)]
pub enum Example {
    SingleSdfDistanceAsGradient,
    SingleSdfDistanceAsGradientWithMouse,
    SingleSdfDistanceAsGradientWithMouseAndInnerRay,
    SingleSdfDistanceAsGradientWithAbsMouse,
    SingleSdfDistanceAsGradientWithAlgorithm,
    SingleSdfDistanceAsCircle,
    SingleSdfDistanceAsBorder,
}

/// The name by which a page asks for `example`.
pub open spec fn example_name(example: Example) -> Seq<char> {
    match example {
        Example::SingleSdfDistanceAsGradient => "single-sdf-distance-as-gradient"@,
        Example::SingleSdfDistanceAsGradientWithMouse => "single-sdf-distance-as-gradient-with-mouse"@,
        Example::SingleSdfDistanceAsGradientWithMouseAndInnerRay =>
            "single-sdf-distance-as-gradient-with-mouse-and-inner-ray"@,
        Example::SingleSdfDistanceAsGradientWithAbsMouse =>
            "single-sdf-distance-as-gradient-with-abs-mouse"@,
        Example::SingleSdfDistanceAsGradientWithAlgorithm =>
            "single-sdf-distance-as-gradient-with-algorithm"@,
        Example::SingleSdfDistanceAsCircle => "single-sdf-distance-as-circle"@,
        Example::SingleSdfDistanceAsBorder => "single-sdf-distance-as-border"@,
    }
}

/// The demo that `name` asks for, if any.
pub open spec fn example_named(name: Seq<char>) -> Option<Example> {
    if name == "single-sdf-distance-as-gradient"@ {
        Some(Example::SingleSdfDistanceAsGradient)
    } else if name == "single-sdf-distance-as-gradient-with-mouse"@ {
        Some(Example::SingleSdfDistanceAsGradientWithMouse)
    } else if name == "single-sdf-distance-as-gradient-with-mouse-and-inner-ray"@ {
        Some(Example::SingleSdfDistanceAsGradientWithMouseAndInnerRay)
    } else if name == "single-sdf-distance-as-gradient-with-abs-mouse"@ {
        Some(Example::SingleSdfDistanceAsGradientWithAbsMouse)
    } else if name == "single-sdf-distance-as-gradient-with-algorithm"@ {
        Some(Example::SingleSdfDistanceAsGradientWithAlgorithm)
    } else if name == "single-sdf-distance-as-circle"@ {
        Some(Example::SingleSdfDistanceAsCircle)
    } else if name == "single-sdf-distance-as-border"@ {
        Some(Example::SingleSdfDistanceAsBorder)
    } else {
        None
    }
}

/// The demo that `name` names, if any.
fn example_by_name(name: &String) -> (r: Option<Example>)
    ensures
        r == example_named(name@),
{
    if *name == "single-sdf-distance-as-gradient".to_owned() {
        Some(Example::SingleSdfDistanceAsGradient)
    } else if *name == "single-sdf-distance-as-gradient-with-mouse".to_owned() {
        Some(Example::SingleSdfDistanceAsGradientWithMouse)
    } else if *name == "single-sdf-distance-as-gradient-with-mouse-and-inner-ray".to_owned() {
        Some(Example::SingleSdfDistanceAsGradientWithMouseAndInnerRay)
    } else if *name == "single-sdf-distance-as-gradient-with-abs-mouse".to_owned() {
        Some(Example::SingleSdfDistanceAsGradientWithAbsMouse)
    } else if *name == "single-sdf-distance-as-gradient-with-algorithm".to_owned() {
        Some(Example::SingleSdfDistanceAsGradientWithAlgorithm)
    } else if *name == "single-sdf-distance-as-circle".to_owned() {
        Some(Example::SingleSdfDistanceAsCircle)
    } else if *name == "single-sdf-distance-as-border".to_owned() {
        Some(Example::SingleSdfDistanceAsBorder)
    } else {
        None
    }
}

/// Whether `name` is the name of a demo.
pub fn is_example_name(name: &str) -> (b: bool)
    ensures
        b == example_named(name@) is Some,
{
    match example_by_name(&name.to_owned()) {
        Some(_) => true,
        None => false,
    }
}

/// Chooses the demo that `example` names; it must name one.
pub fn examples(example: String) -> (r: Example)
    requires
        example_named(example@) is Some,
    ensures
        example_named(example@) == Some(r),
{
    match example_by_name(&example) {
        Some(r) => r,
        None => {
            proof {
                assert(false);
            }
            Example::SingleSdfDistanceAsGradient
        },
    }
}

/// Each demo is chosen by its own name, and a name that is chosen at all
/// chooses the demo whose name it is.
pub proof fn lemma_example_names(example: Example, name: Seq<char>)
    ensures
        example_named(example_name(example)) == Some(example),
        example_named(name) == Some(example) ==> name == example_name(example),
{
    reveal_strlit("single-sdf-distance-as-gradient");
    reveal_strlit("single-sdf-distance-as-gradient-with-mouse");
    reveal_strlit("single-sdf-distance-as-gradient-with-mouse-and-inner-ray");
    reveal_strlit("single-sdf-distance-as-gradient-with-abs-mouse");
    reveal_strlit("single-sdf-distance-as-gradient-with-algorithm");
    reveal_strlit("single-sdf-distance-as-circle");
    reveal_strlit("single-sdf-distance-as-border");
    assert("single-sdf-distance-as-gradient"@.len() == 31);
    assert("single-sdf-distance-as-gradient-with-mouse"@.len() == 42);
    assert("single-sdf-distance-as-gradient-with-mouse-and-inner-ray"@.len() == 56);
    assert("single-sdf-distance-as-gradient-with-abs-mouse"@.len() == 46);
    assert("single-sdf-distance-as-gradient-with-algorithm"@.len() == 46);
    assert("single-sdf-distance-as-circle"@.len() == 29);
    assert("single-sdf-distance-as-border"@.len() == 29);
    // The names of equal length differ at these places.
    assert("single-sdf-distance-as-gradient-with-abs-mouse"@[38] == 'b');
    assert("single-sdf-distance-as-gradient-with-algorithm"@[38] == 'l');
    assert("single-sdf-distance-as-circle"@[23] == 'c');
    assert("single-sdf-distance-as-border"@[23] == 'b');
}

} // verus!
