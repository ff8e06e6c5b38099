use vstd::prelude::*;

verus! {

/// The shape that a signed-distance demo currently draws.
#[derive(Clone, Copy, Debug, PartialEq, Eq, Structural)]
pub enum CurrentShape {
    Circle,
    Box,
    EquilateralTriangle,
    X,
    CoolS,
}

/// The number by which the shader tells the shapes apart.
pub open spec fn shape_number(shape: CurrentShape) -> u32 {
    match shape {
        CurrentShape::Circle => 1,
        CurrentShape::Box => 2,
        CurrentShape::EquilateralTriangle => 3,
        CurrentShape::X => 4,
        CurrentShape::CoolS => 5,
    }
}

/// The shape that follows `shape` when the "Change Shape" button is pressed.
pub open spec fn next_shape(shape: CurrentShape) -> CurrentShape {
    match shape {
        CurrentShape::Circle => CurrentShape::Box,
        CurrentShape::Box => CurrentShape::EquilateralTriangle,
        CurrentShape::EquilateralTriangle => CurrentShape::X,
        CurrentShape::X => CurrentShape::CoolS,
        CurrentShape::CoolS => CurrentShape::Circle,
    }
}

impl CurrentShape {
    /// The shader's number for this shape.
    pub fn as_u32(&self) -> (n: u32)
        ensures
            n == shape_number(*self),
    {
        match self {
            CurrentShape::Circle => 1,
            CurrentShape::Box => 2,
            CurrentShape::EquilateralTriangle => 3,
            CurrentShape::X => 4,
            CurrentShape::CoolS => 5,
        }
    }
}

/// What the pointer is doing with the button.
#[derive(Clone, Copy, Debug, PartialEq, Eq, Structural)]
pub enum ButtonInteraction {
    Pressed,
    Hovered,
    /// Neither pressed nor hovered.
    Idle,
}

/// Which of the three background colours the button takes.
#[derive(Clone, Copy, Debug, PartialEq, Eq, Structural)]
pub enum ButtonBackground {
    Normal,
    Hovered,
    Pressed,
}

/// Which colour the button's border takes.
#[derive(Clone, Copy, Debug, PartialEq, Eq, Structural)]
pub enum ButtonBorder {
    White,
    Black,
}

/// How the button looks after an interaction, and which shape is current then.
#[derive(Clone, Copy, Debug, PartialEq, Eq, Structural)]
pub struct ButtonResponse {
    pub background: ButtonBackground,
    pub border: ButtonBorder,
    pub shape: CurrentShape,
}

/// The response of the button to `interaction` while `shape` is current.
pub open spec fn button_response(interaction: ButtonInteraction, shape: CurrentShape) -> ButtonResponse {
    match interaction {
        ButtonInteraction::Pressed => ButtonResponse {
            background: ButtonBackground::Pressed,
            border: ButtonBorder::White,
            shape: next_shape(shape),
        },
        ButtonInteraction::Hovered => ButtonResponse {
            background: ButtonBackground::Hovered,
            border: ButtonBorder::White,
            shape,
        },
        ButtonInteraction::Idle => ButtonResponse {
            background: ButtonBackground::Normal,
            border: ButtonBorder::Black,
            shape,
        },
    }
}

/// Reacts to one change of the button's interaction state: a press moves
/// to the next shape, hovering and leaving only restyle the button.
pub fn button_system(interaction: ButtonInteraction, current_shape: CurrentShape) -> (r: ButtonResponse)
    ensures
        r == button_response(interaction, current_shape),
{
    match interaction {
        ButtonInteraction::Pressed => {
            let next = match current_shape {
                CurrentShape::Circle => CurrentShape::Box,
                CurrentShape::Box => CurrentShape::EquilateralTriangle,
                CurrentShape::EquilateralTriangle => CurrentShape::X,
                CurrentShape::X => CurrentShape::CoolS,
                CurrentShape::CoolS => CurrentShape::Circle,
            };
            ButtonResponse {
                background: ButtonBackground::Pressed,
                border: ButtonBorder::White,
                shape: next,
            }
        },
        ButtonInteraction::Hovered => ButtonResponse {
            background: ButtonBackground::Hovered,
            border: ButtonBorder::White,
            shape: current_shape,
        },
        ButtonInteraction::Idle => ButtonResponse {
            background: ButtonBackground::Normal,
            border: ButtonBorder::Black,
            shape: current_shape,
        },
    }
}

/// Every shape has a number from 1 to 5, and no two shapes share one.
pub proof fn lemma_shape_numbers_distinct(a: CurrentShape, b: CurrentShape)
    ensures
        1 <= shape_number(a) <= 5,
        shape_number(a) == shape_number(b) <==> a == b,
{
}

/// A press moves the shader's number one step round the cycle 1, 2, 3, 4, 5.
pub proof fn lemma_press_advances_number(shape: CurrentShape)
    ensures
        shape_number(button_response(ButtonInteraction::Pressed, shape).shape)
            == shape_number(shape) % 5 + 1,
{
}

/// Five presses in a row bring back the shape one started from, and fewer do not.
pub proof fn lemma_five_presses_cycle(shape: CurrentShape)
    ensures
        next_shape(next_shape(next_shape(next_shape(next_shape(shape))))) == shape,
        next_shape(shape) != shape,
        next_shape(next_shape(shape)) != shape,
        next_shape(next_shape(next_shape(shape))) != shape,
        next_shape(next_shape(next_shape(next_shape(shape)))) != shape,
{
}

/// The shape after `n` presses of the button, starting from `shape`.
pub open spec fn after_presses(shape: CurrentShape, n: nat) -> CurrentShape
    decreases n,
{
    if n == 0 {
        shape
    } else {
        button_response(ButtonInteraction::Pressed, after_presses(shape, (n - 1) as nat)).shape
    }
}

/// After `n` presses the shader's number is `(start - 1 + n) % 5 + 1`: it
/// stays in 1..=5, every shape is reached within five presses, and every
/// fifth press brings back the starting shape.
pub proof fn lemma_presses_advance_number(shape: CurrentShape, n: nat)
    ensures
        shape_number(after_presses(shape, n)) == (shape_number(shape) - 1 + n) % 5 + 1,
    decreases n,
{
    if n > 0 {
        lemma_presses_advance_number(shape, (n - 1) as nat);
        let x = shape_number(shape) - 1 + n - 1;
        assert(((x % 5) + 1) % 5 == (x + 1) % 5) by (nonlinear_arith)
            requires
                x >= 0,
        {
            vstd::arithmetic::div_mod::lemma_add_mod_noop(x, 1, 5);
        }
    }
}

/// How the button looks depends only on the interaction, never on the shape:
/// a press shows the pressed colour with a white border, hovering the hover
/// colour with a white border, and leaving the normal colour with a black
/// border; hovering and leaving keep the shape, and a press moves along
/// the cycle Circle, Box, EquilateralTriangle, X, CoolS.
pub proof fn lemma_button_styling(shape: CurrentShape)
    ensures
        button_response(ButtonInteraction::Pressed, shape).background == ButtonBackground::Pressed,
        button_response(ButtonInteraction::Pressed, shape).border == ButtonBorder::White,
        button_response(ButtonInteraction::Hovered, shape).background == ButtonBackground::Hovered,
        button_response(ButtonInteraction::Hovered, shape).border == ButtonBorder::White,
        button_response(ButtonInteraction::Hovered, shape).shape == shape,
        button_response(ButtonInteraction::Idle, shape).background == ButtonBackground::Normal,
        button_response(ButtonInteraction::Idle, shape).border == ButtonBorder::Black,
        button_response(ButtonInteraction::Idle, shape).shape == shape,
        shape == CurrentShape::Circle ==> button_response(ButtonInteraction::Pressed, shape).shape
            == CurrentShape::Box,
        shape == CurrentShape::Box ==> button_response(ButtonInteraction::Pressed, shape).shape
            == CurrentShape::EquilateralTriangle,
        shape == CurrentShape::EquilateralTriangle ==> button_response(
            ButtonInteraction::Pressed,
            shape,
        ).shape == CurrentShape::X,
        shape == CurrentShape::X ==> button_response(ButtonInteraction::Pressed, shape).shape
            == CurrentShape::CoolS,
        shape == CurrentShape::CoolS ==> button_response(ButtonInteraction::Pressed, shape).shape
            == CurrentShape::Circle,
{
}

/// Hovering over the button, or leaving it, never changes the shape.
pub proof fn lemma_only_press_changes_shape(interaction: ButtonInteraction, shape: CurrentShape)
    ensures
        button_response(interaction, shape).shape != shape <==> interaction == ButtonInteraction::Pressed,
{
}

} // verus!
