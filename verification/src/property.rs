//! Property loans: assigning a property of a control by its name.
use crate::scalar::Scalar;
use crate::scene::Color;
use vstd::prelude::*;

verus! {

/// A value to assign to a property of a borrowed control.
#[derive(Debug)]
pub enum ControlPropertyValue {
    /// For `text`.
    Text(String),
    /// For `background` and `color`.
    Color { r: u8, g: u8, b: u8, a: u8 },
    /// For `enabled`, `pressed` and `has-hover`.
    Bool(bool),
    /// For numeric properties.
    Number(Scalar),
}

/// The items that a control can stand for.
#[derive(Clone, Copy, Debug, PartialEq, Eq, Structural)]
pub enum ItemKind {
    ComplexText,
    SimpleText,
    TextInput,
    Rectangle,
    BasicBorderRectangle,
    BorderRectangle,
    TouchArea,
    /// An item without a property that can be borrowed.
    Other,
}

/// A property of an item with the value it is to take.
#[derive(Debug)]
pub enum PropertyAssignment {
    Text(String),
    Background(Color),
    Color(Color),
    Enabled(bool),
    Pressed(bool),
    HasHover(bool),
}

/// The model of a [`ControlPropertyValue`].
pub enum PropertyValueModel {
    Text(Seq<char>),
    Color(Color),
    Bool(bool),
    Number(Scalar),
}

/// The model of a [`PropertyAssignment`].
pub enum AssignmentModel {
    Text(Seq<char>),
    Background(Color),
    Color(Color),
    Enabled(bool),
    Pressed(bool),
    HasHover(bool),
}

impl View for ControlPropertyValue {
    type V = PropertyValueModel;

    open spec fn view(&self) -> PropertyValueModel {
        match *self {
            ControlPropertyValue::Text(text) => PropertyValueModel::Text(text@),
            ControlPropertyValue::Color { r, g, b, a } => PropertyValueModel::Color(
                Color { red: r, green: g, blue: b, alpha: a },
            ),
            ControlPropertyValue::Bool(value) => PropertyValueModel::Bool(value),
            ControlPropertyValue::Number(value) => PropertyValueModel::Number(value),
        }
    }
}

impl View for PropertyAssignment {
    type V = AssignmentModel;

    open spec fn view(&self) -> AssignmentModel {
        match *self {
            PropertyAssignment::Text(text) => AssignmentModel::Text(text@),
            PropertyAssignment::Background(color) => AssignmentModel::Background(color),
            PropertyAssignment::Color(color) => AssignmentModel::Color(color),
            PropertyAssignment::Enabled(value) => AssignmentModel::Enabled(value),
            PropertyAssignment::Pressed(value) => AssignmentModel::Pressed(value),
            PropertyAssignment::HasHover(value) => AssignmentModel::HasHover(value),
        }
    }
}

impl Clone for ControlPropertyValue {
    fn clone(&self) -> (r: ControlPropertyValue)
        ensures
            r@ == self@,
    {
        match self {
            ControlPropertyValue::Text(text) => ControlPropertyValue::Text(text.clone()),
            ControlPropertyValue::Color { r, g, b, a } => ControlPropertyValue::Color {
                r: *r,
                g: *g,
                b: *b,
                a: *a,
            },
            ControlPropertyValue::Bool(value) => ControlPropertyValue::Bool(*value),
            ControlPropertyValue::Number(value) => ControlPropertyValue::Number(*value),
        }
    }
}

impl ItemKind {
    /// Whether the item shows a text that can be set.
    pub open spec fn has_text(self) -> bool {
        self is ComplexText || self is SimpleText || self is TextInput
    }

    /// Whether the item shows text in a colour that can be set.
    pub open spec fn has_text_color(self) -> bool {
        self is ComplexText || self is SimpleText
    }

    /// Whether the item has a background that can be set.
    pub open spec fn has_background(self) -> bool {
        self is Rectangle || self is BasicBorderRectangle || self is BorderRectangle
    }
}

/// Which property of an item a name and a value assign to, if any: the name has
/// to be one that the item has and the value has to be of its type.
pub open spec fn assignment(
    kind: ItemKind,
    property: Seq<char>,
    value: PropertyValueModel,
) -> Option<AssignmentModel> {
    match value {
        PropertyValueModel::Text(text) => if property == "text"@ && kind.has_text() {
            Some(AssignmentModel::Text(text))
        } else {
            None
        },
        PropertyValueModel::Color(color) => if property == "background"@ && kind.has_background() {
            Some(AssignmentModel::Background(color))
        } else if property == "color"@ && kind.has_text_color() {
            Some(AssignmentModel::Color(color))
        } else {
            None
        },
        PropertyValueModel::Bool(b) => if !(kind is TouchArea) {
            None
        } else if property == "enabled"@ {
            Some(AssignmentModel::Enabled(b))
        } else if property == "pressed"@ {
            Some(AssignmentModel::Pressed(b))
        } else if property == "has-hover"@ {
            Some(AssignmentModel::HasHover(b))
        } else {
            None
        },
        PropertyValueModel::Number(_) => None,
    }
}

fn is_named(property: &String, name: &str) -> (r: bool)
    ensures
        r <==> property@ == name@,
{
    *property == name.to_owned()
}

/// Which property of an item the name and the value assign to; `None` where the
/// item has no such property of that type.
pub fn apply_control_property(
    kind: ItemKind,
    property: &String,
    value: &ControlPropertyValue,
) -> (r: Option<PropertyAssignment>)
    ensures
        r is Some <==> assignment(kind, property@, value@) is Some,
        r matches Some(a) ==> Some(a@) == assignment(kind, property@, value@),
{
    match value {
        ControlPropertyValue::Text(text) => {
            if is_named(property, "text") {
                match kind {
                    ItemKind::ComplexText | ItemKind::SimpleText | ItemKind::TextInput => {
                        return Some(PropertyAssignment::Text(text.clone()));
                    },
                    _ => {},
                }
            }
            None
        },
        ControlPropertyValue::Color { r, g, b, a } => {
            let color: Color = Color { red: *r, green: *g, blue: *b, alpha: *a };
            if is_named(property, "background") {
                match kind {
                    ItemKind::Rectangle
                    | ItemKind::BasicBorderRectangle
                    | ItemKind::BorderRectangle => {
                        return Some(PropertyAssignment::Background(color));
                    },
                    _ => {},
                }
            }
            if is_named(property, "color") {
                match kind {
                    ItemKind::ComplexText | ItemKind::SimpleText => {
                        return Some(PropertyAssignment::Color(color));
                    },
                    _ => {},
                }
            }
            None
        },
        ControlPropertyValue::Bool(value) => {
            match kind {
                ItemKind::TouchArea => {
                    if is_named(property, "enabled") {
                        Some(PropertyAssignment::Enabled(*value))
                    } else if is_named(property, "pressed") {
                        Some(PropertyAssignment::Pressed(*value))
                    } else if is_named(property, "has-hover") {
                        Some(PropertyAssignment::HasHover(*value))
                    } else {
                        None
                    }
                },
                _ => None,
            }
        },
        ControlPropertyValue::Number(_) => None,
    }
}

} // verus!
