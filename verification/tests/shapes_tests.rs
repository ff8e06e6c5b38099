use yt_raymarch_2d::shapes::{
    button_system, ButtonBackground, ButtonBorder, ButtonInteraction, ButtonResponse, CurrentShape,
};

#[test]
fn shader_numbers() {
    assert_eq!(CurrentShape::Circle.as_u32(), 1);
    assert_eq!(CurrentShape::Box.as_u32(), 2);
    assert_eq!(CurrentShape::EquilateralTriangle.as_u32(), 3);
    assert_eq!(CurrentShape::X.as_u32(), 4);
    assert_eq!(CurrentShape::CoolS.as_u32(), 5);
}

#[test]
fn press_moves_to_next_shape() {
    assert_eq!(
        button_system(ButtonInteraction::Pressed, CurrentShape::Circle),
        ButtonResponse {
            background: ButtonBackground::Pressed,
            border: ButtonBorder::White,
            shape: CurrentShape::Box,
        }
    );
    assert_eq!(
        button_system(ButtonInteraction::Pressed, CurrentShape::CoolS).shape,
        CurrentShape::Circle
    );
}

#[test]
fn five_presses_come_back() {
    let mut shape = CurrentShape::EquilateralTriangle;
    let mut seen = Vec::new();
    for _ in 0..5 {
        shape = button_system(ButtonInteraction::Pressed, shape).shape;
        seen.push(shape.as_u32());
    }
    assert_eq!(shape, CurrentShape::EquilateralTriangle);
    assert_eq!(seen, vec![4, 5, 1, 2, 3]);
}

#[test]
fn hover_and_idle_keep_shape() {
    assert_eq!(
        button_system(ButtonInteraction::Hovered, CurrentShape::X),
        ButtonResponse {
            background: ButtonBackground::Hovered,
            border: ButtonBorder::White,
            shape: CurrentShape::X,
        }
    );
    assert_eq!(
        button_system(ButtonInteraction::Idle, CurrentShape::Box),
        ButtonResponse {
            background: ButtonBackground::Normal,
            border: ButtonBorder::Black,
            shape: CurrentShape::Box,
        }
    );
}

#[test]
fn any_number_of_presses() {
    let start = CurrentShape::X;
    let mut shape = start;
    for n in 1u32..=23 {
        shape = button_system(ButtonInteraction::Pressed, shape).shape;
        assert_eq!(shape.as_u32(), (start.as_u32() - 1 + n) % 5 + 1);
    }
}
