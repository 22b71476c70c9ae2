//! Descriptions of the four supported GAL devices.

use vstd::prelude::*;

verus! {

/// One of the supported device variants.
#[derive(Clone, Copy, Debug, PartialEq, Eq, Structural)]
pub enum Chip {
    GAL16V8,
    GAL20V8,
    GAL22V10,
    GAL20RA10,
}

/// Product-term rows of each macrocell of a GAL22V10; the last two slots
/// hold the global asynchronous reset and synchronous preset.
pub open spec fn capacity_22v10(olmc: int) -> nat {
    if olmc == 0 || olmc == 9 {
        9
    } else if olmc == 1 || olmc == 8 {
        11
    } else if olmc == 2 || olmc == 7 {
        13
    } else if olmc == 3 || olmc == 6 {
        15
    } else if olmc == 4 || olmc == 5 {
        17
    } else {
        1
    }
}

impl Chip {
    /// Number of physical pins.
    pub open spec fn pin_count(self) -> nat {
        match self {
            Chip::GAL16V8 => 20,
            _ => 24,
        }
    }

    /// Number of user-addressable output macrocells.
    pub open spec fn olmc_count(self) -> nat {
        match self {
            Chip::GAL16V8 | Chip::GAL20V8 => 8,
            _ => 10,
        }
    }

    /// Pin of macrocell 0; macrocell i sits on pin `first_olmc_pin() + i`.
    pub open spec fn first_olmc_pin(self) -> nat {
        match self {
            Chip::GAL16V8 => 12,
            Chip::GAL20V8 => 15,
            _ => 14,
        }
    }

    /// The macrocell that drives `pin`, if any.
    pub open spec fn olmc_of(self, pin: int) -> Option<nat> {
        if self.first_olmc_pin() <= pin < self.first_olmc_pin() + self.olmc_count() {
            Some((pin - self.first_olmc_pin()) as nat)
        } else {
            None
        }
    }

    /// Fuses in one row of the AND array.
    pub open spec fn width(self) -> nat {
        match self {
            Chip::GAL16V8 => 32,
            Chip::GAL20V8 => 40,
            Chip::GAL22V10 => 44,
            Chip::GAL20RA10 => 40,
        }
    }

    /// Rows of the AND array.
    pub open spec fn rows(self) -> nat {
        match self {
            Chip::GAL16V8 | Chip::GAL20V8 => 64,
            Chip::GAL22V10 => 132,
            Chip::GAL20RA10 => 80,
        }
    }

    /// Product-term rows given to macrocell slot `olmc`.
    pub open spec fn capacity(self, olmc: int) -> nat {
        match self {
            Chip::GAL22V10 => capacity_22v10(olmc),
            _ => 8,
        }
    }

    pub fn num_pins(self) -> (r: usize)
        ensures
            r == self.pin_count(),
    {
        match self {
            Chip::GAL16V8 => 20,
            _ => 24,
        }
    }

    pub fn num_olmcs(self) -> (r: usize)
        ensures
            r == self.olmc_count(),
    {
        match self {
            Chip::GAL16V8 | Chip::GAL20V8 => 8,
            _ => 10,
        }
    }

    fn min_olmc_pin(self) -> (r: usize)
        ensures
            r == self.first_olmc_pin(),
    {
        match self {
            Chip::GAL16V8 => 12,
            Chip::GAL20V8 => 15,
            _ => 14,
        }
    }

    /// The macrocell index of an output pin; `None` for inputs, clocks and power.
    pub fn pin_to_olmc(self, pin: usize) -> (r: Option<usize>)
        ensures
            r matches Some(i) ==> self.olmc_of(pin as int) == Some(i as nat),
            r is None ==> self.olmc_of(pin as int) is None,
    {
        let lo = self.min_olmc_pin();
        if lo <= pin && pin < lo + self.num_olmcs() {
            Some(pin - lo)
        } else {
            None
        }
    }

    /// The pin that macrocell `olmc` drives.
    pub fn olmc_to_pin(self, olmc: usize) -> (r: usize)
        requires
            olmc < self.olmc_count(),
        ensures
            r == self.first_olmc_pin() + olmc,
            self.olmc_of(r as int) == Some(olmc as nat),
    {
        self.min_olmc_pin() + olmc
    }

    pub fn row_width(self) -> (r: usize)
        ensures
            r == self.width(),
    {
        match self {
            Chip::GAL16V8 => 32,
            Chip::GAL20V8 => 40,
            Chip::GAL22V10 => 44,
            Chip::GAL20RA10 => 40,
        }
    }

    pub fn row_count(self) -> (r: usize)
        ensures
            r == self.rows(),
    {
        match self {
            Chip::GAL16V8 | Chip::GAL20V8 => 64,
            Chip::GAL22V10 => 132,
            Chip::GAL20RA10 => 80,
        }
    }

    /// Product-term rows of macrocell slot `olmc`. A GAL22V10 has two slots
    /// beyond its ten outputs, for the global reset and preset terms.
    pub fn olmc_capacity(self, olmc: usize) -> (r: usize)
        requires
            olmc < (if self == Chip::GAL22V10 { 12 } else { self.olmc_count() }),
        ensures
            r == self.capacity(olmc as int),
    {
        match self {
            Chip::GAL22V10 => {
                if olmc == 0 || olmc == 9 {
                    9
                } else if olmc == 1 || olmc == 8 {
                    11
                } else if olmc == 2 || olmc == 7 {
                    13
                } else if olmc == 3 || olmc == 6 {
                    15
                } else if olmc == 4 || olmc == 5 {
                    17
                } else {
                    1
                }
            },
            _ => 8,
        }
    }
}

/// The device that a numeric identifier of the C interface names
/// (1 to 4, in the order GAL16V8, GAL20V8, GAL22V10, GAL20RA10).
pub fn i32_to_chip(gal_type: i32) -> (r: Chip)
    requires
        1 <= gal_type <= 4,
    ensures
        gal_type == 1 ==> r == Chip::GAL16V8,
        gal_type == 2 ==> r == Chip::GAL20V8,
        gal_type == 3 ==> r == Chip::GAL22V10,
        gal_type == 4 ==> r == Chip::GAL20RA10,
{
    if gal_type == 1 {
        Chip::GAL16V8
    } else if gal_type == 2 {
        Chip::GAL20V8
    } else if gal_type == 3 {
        Chip::GAL22V10
    } else {
        Chip::GAL20RA10
    }
}

} // verus!
