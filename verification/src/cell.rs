//! The on-screen cell record and the volatile cell that holds one on the
//! display. Every access to display memory must be a volatile load or store,
//! so a cell is kept inside `volatile::Volatile` and reached only through the
//! trusted accessors here.

use vstd::prelude::*;
use crate::color::ColorCode;

verus! {

/// One on-screen character position: a character byte and its attribute byte.
/// The display hardware reads the character byte first and the attribute byte
/// second.
#[derive(Debug, Clone, Copy, PartialEq, Eq, Structural)]
pub struct ScreenChar {
    pub ascii_character: u8,
    pub color_code: ColorCode,
}

#[verifier::external_type_specification]
#[verifier::external_body]
#[verifier::reject_recursive_types(T)]
pub struct ExVolatile<T: Copy>(volatile::Volatile<T>);

/// The character byte a volatile cell currently holds.
pub uninterp spec fn cell_char(c: volatile::Volatile<ScreenChar>) -> u8;

/// The attribute byte a volatile cell currently holds.
pub uninterp spec fn cell_attr(c: volatile::Volatile<ScreenChar>) -> u8;

/// The screen-cell record a volatile cell currently holds.
pub open spec fn cell_view(c: volatile::Volatile<ScreenChar>) -> ScreenChar {
    ScreenChar { ascii_character: cell_char(c), color_code: ColorCode(cell_attr(c)) }
}

/// Relies on volatile::Volatile::new: wraps the given value; it never panics.
#[verifier::external_body]
pub(crate) fn cell_new(sc: ScreenChar) -> (c: volatile::Volatile<ScreenChar>)
    ensures
        cell_char(c) == sc.ascii_character,
        cell_attr(c) == sc.color_code.0,
{
    volatile::Volatile::new(sc)
}

/// Relies on volatile::Volatile::read: a volatile load that returns a copy of
/// the contained value; it never panics.
#[verifier::external_body]
pub(crate) fn cell_read(c: &volatile::Volatile<ScreenChar>) -> (sc: ScreenChar)
    ensures
        sc.ascii_character == cell_char(*c),
        sc.color_code.0 == cell_attr(*c),
{
    c.read()
}

/// Relies on volatile::Volatile::write: a volatile store that sets the
/// contained value to the given one; it never panics.
#[verifier::external_body]
pub(crate) fn cell_write(c: &mut volatile::Volatile<ScreenChar>, sc: ScreenChar)
    ensures
        cell_char(*final(c)) == sc.ascii_character,
        cell_attr(*final(c)) == sc.color_code.0,
{
    c.write(sc)
}

} // verus!
