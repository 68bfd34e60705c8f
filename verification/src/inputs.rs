//! Kinds of input fields and of the on-screen keyboard's keys and modes.

use vstd::prelude::*;

verus! {

/// The kind of a text input field.
#[derive(Debug, Clone, Copy, PartialEq, Eq, Structural)]
pub enum InputType {
    Text,
    Number,
    Email,
    Password,
    Date,
}

impl InputType {
    /// The HTML `type` attribute of the field.
    pub fn as_str(&self) -> (r: &'static str)
        ensures
            r@ == (match *self {
                InputType::Text => "text"@,
                InputType::Number => "number"@,
                InputType::Email => "email"@,
                InputType::Password => "password"@,
                InputType::Date => "date"@,
            }),
    {
        match self {
            InputType::Text => "text",
            InputType::Number => "number",
            InputType::Email => "email",
            InputType::Password => "password",
            InputType::Date => "date",
        }
    }
}

/// How typed digits fill an amount.
#[derive(Debug, Clone, Copy, PartialEq, Eq, Structural)]
pub enum AmountInputMode {
    /// Digits enter from the right, as on a till: the last two are cents.
    RightToLeft,
    /// Digits are typed as written.
    Regular,
}

impl Default for AmountInputMode {
    fn default() -> (r: Self)
        ensures
            r == AmountInputMode::Regular,
    {
        AmountInputMode::Regular
    }
}

impl AmountInputMode {
    /// The sign on the mode button.
    pub fn indicator(self) -> (r: &'static str)
        ensures
            r@ == (match self {
                AmountInputMode::RightToLeft => "0.0_|"@,
                AmountInputMode::Regular => "_|"@,
            }),
    {
        match self {
            AmountInputMode::RightToLeft => "0.0_|",
            AmountInputMode::Regular => "_|",
        }
    }

    /// The translation key of the mode button's tooltip.
    pub fn tooltip_key(self) -> (r: &'static str)
        ensures
            r@ == (match self {
                AmountInputMode::RightToLeft => "checkout.keyboard_mode_tooltip_rtl"@,
                AmountInputMode::Regular => "checkout.keyboard_mode_tooltip_regular"@,
            }),
    {
        match self {
            AmountInputMode::RightToLeft => "checkout.keyboard_mode_tooltip_rtl",
            AmountInputMode::Regular => "checkout.keyboard_mode_tooltip_regular",
        }
    }
}

/// A key of the on-screen keyboard.
#[derive(Debug, Clone, Copy, PartialEq, Eq, Structural)]
pub enum KeyboardKey {
    Digit(u8),
    Decimal,
    Backspace,
    Clear,
}

} // verus!
