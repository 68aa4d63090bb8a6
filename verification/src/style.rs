//! Visual attributes of a painted cell or row.
use vstd::prelude::*;

verus! {

/// Visual attributes of a rendered cell. A `None` field means "inherit":
/// patching leaves the underlying value in place. Colors are palette indices.
#[derive(Clone, Copy, Debug)]
pub struct Style {
    pub fg: Option<u8>,
    pub bg: Option<u8>,
}

impl Style {
    /// The neutral style: inherits everything.
    pub fn plain() -> (s: Style)
        ensures
            s == (Style { fg: None, bg: None }),
    {
        Style { fg: None, bg: None }
    }

    /// What patching one style with another yields: fields set in `other`
    /// win, fields left `None` keep the base value.
    pub open spec fn spec_patch(self, other: Style) -> Style {
        Style {
            fg: if other.fg is Some {
                other.fg
            } else {
                self.fg
            },
            bg: if other.bg is Some {
                other.bg
            } else {
                self.bg
            },
        }
    }

    /// Overlay `other` on `self`: set fields of `other` override, unset
    /// fields inherit from `self`.
    pub fn patch(self, other: Style) -> (s: Style)
        ensures
            s == self.spec_patch(other),
    {
        Style {
            fg: match other.fg {
                Some(c) => Some(c),
                None => self.fg,
            },
            bg: match other.bg {
                Some(c) => Some(c),
                None => self.bg,
            },
        }
    }
}

} // verus!
