//! Text for the formatters of the standard library.

use vstd::prelude::*;

use crate::stream::CubeDim;

verus! {

/// A formatter of the standard library.
#[verifier::external_type_specification]
#[verifier::external_body]
pub struct ExFormatter<'a>(core::fmt::Formatter<'a>);

/// The error of a formatter.
#[verifier::external_type_specification]
#[verifier::external_body]
pub struct ExFmtError(core::fmt::Error);

/// The text that a formatter has taken so far.
pub uninterp spec fn text_taken(f: core::fmt::Formatter) -> Seq<char>;

/// Calls `Formatter::write_str` of the standard library: where it succeeds, the formatter has taken
/// the text, behind what it had taken before. Whether it succeeds, and how much was taken where it
/// does not, is up to what the formatter writes to, so nothing is claimed of it.
#[verifier::external_body]
pub(crate) fn write_text(f: &mut core::fmt::Formatter<'_>, text: &str) -> (r: core::fmt::Result)
    ensures
        r is Ok ==> text_taken(*final(f)) == text_taken(*old(f)) + text@,
{
    f.write_str(text)
}

/// The text of a launch for a formatter, which depends on the options of the formatter, the
/// dimensions of a cube and the count of cubes.
pub uninterp spec fn execute_text(
    f: core::fmt::Formatter,
    cube_dim: (u32, u32, u32),
    cube_count: Seq<u32>,
) -> Seq<char>;

/// Calls `Formatter::debug_struct` of the standard library for a launch, with the dimensions of a
/// cube and the count of cubes as its fields, in this order: where it succeeds, the formatter has
/// taken the text of them, behind what it had taken before. How the text is laid out is up to the
/// options of the formatter; whether it succeeds, and how much was taken where it does not, is up
/// to what the formatter writes to. Nothing is claimed of these.
#[verifier::external_body]
pub(crate) fn write_execute(
    f: &mut core::fmt::Formatter<'_>,
    cube_dim: CubeDim,
    cube_count: [u32; 3],
) -> (r: core::fmt::Result)
    ensures
        r is Ok ==> text_taken(*final(f)) == text_taken(*old(f)) + execute_text(
            *old(f),
            (cube_dim.x, cube_dim.y, cube_dim.z),
            cube_count@,
        ),
{
    f.debug_struct("Execute").field("cube_dim", &cube_dim).field("cube_count", &cube_count).finish()
}

/// The text of a random-Hadamard transform for a formatter, which depends on the options of the
/// formatter and the block size.
pub uninterp spec fn rht_text(f: core::fmt::Formatter, block: u32) -> Seq<char>;

/// Calls `Formatter::debug_struct` of the standard library for a random-Hadamard transform, with
/// its block size as the one field: where it succeeds, the formatter has taken the text of it,
/// behind what it had taken before. How the text is laid out is up to the options of the formatter;
/// whether it succeeds, and how much was taken where it does not, is up to what the formatter
/// writes to. Nothing is claimed of these.
#[verifier::external_body]
pub(crate) fn write_rht(f: &mut core::fmt::Formatter<'_>, block: u32) -> (r: core::fmt::Result)
    ensures
        r is Ok ==> text_taken(*final(f)) == text_taken(*old(f)) + rht_text(*old(f), block),
{
    f.debug_struct("Rht").field("block", &block).finish()
}

} // verus!
