//! The font that the terminal is shown in.

use vstd::prelude::*;

use crate::error::{AppError, AppResult, ErrorModel};

verus! {

pub const MIN_FONT_SIZE_POINTS: u16 = 6;

pub const MAX_FONT_SIZE_POINTS: u16 = 72;

pub const FONT_SIZE_MESSAGE: &'static str = "font size must be between 6 and 72 points";

pub const FONT_FAMILY_MESSAGE: &'static str = "font family must not be empty";

/// Whether a font size is offered.
pub open spec fn font_size_offered(size: int) -> bool {
    MIN_FONT_SIZE_POINTS <= size <= MAX_FONT_SIZE_POINTS
}

/// A font family and its size in points.
#[derive(Clone, Debug, PartialEq, Eq)]
pub struct TerminalFont {
    family: String,
    size_points: u16,
}

/// A font as a value.
pub struct FontModel {
    pub family: Seq<char>,
    pub size: int,
}

impl View for TerminalFont {
    type V = FontModel;

    closed spec fn view(&self) -> FontModel {
        FontModel { family: self.family@, size: self.size_points as int }
    }
}

impl FontModel {
    pub open spec fn valid(self) -> bool {
        self.family.len() > 0 && font_size_offered(self.size)
    }
}

impl TerminalFont {
    /// A family that has a name, in a size that is offered.
    pub fn new(family: String, size_points: u16) -> (font: AppResult<Self>)
        ensures
            font is Ok == (family@.len() > 0 && font_size_offered(size_points as int)),
            font is Ok ==> (font->Ok_0)@ == (FontModel {
                family: family@,
                size: size_points as int,
            }),
            font is Err ==> (font->Err_0)@ == ErrorModel::InvalidInput(
                if family@.len() == 0 {
                    FONT_FAMILY_MESSAGE@
                } else {
                    FONT_SIZE_MESSAGE@
                },
            ),
    {
        if family.as_str().unicode_len() == 0 {
            return Err(AppError::InvalidInput(FONT_FAMILY_MESSAGE));
        }
        if size_points < MIN_FONT_SIZE_POINTS || size_points > MAX_FONT_SIZE_POINTS {
            return Err(AppError::InvalidInput(FONT_SIZE_MESSAGE));
        }
        Ok(TerminalFont { family, size_points })
    }

    pub fn family(&self) -> (family: &str)
        ensures
            family@ == self@.family,
    {
        self.family.as_str()
    }

    pub fn size_points(&self) -> (size: u16)
        ensures
            size == self@.size,
    {
        self.size_points
    }

    pub fn copy(&self) -> (font: Self)
        ensures
            font@ == self@,
    {
        TerminalFont { family: self.family.clone(), size_points: self.size_points }
    }
}

/// The sizes from 6 to 72 points are offered, and a font in one of them is valid where its
/// family has a name.
pub proof fn law_offered_font_sizes(font: FontModel)
    ensures
        font_size_offered(font.size) <==> 6 <= font.size <= 72,
        font.valid() <==> font.family.len() > 0 && 6 <= font.size <= 72,
{
}

} // verus!
