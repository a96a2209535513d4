//! The element record.
use vstd::prelude::*;
use vstd::std_specs::cmp::PartialEqSpecImpl;

verus! {

/// Atomic masses are stored as whole multiples of 10^-8 dalton, so that
/// hydrogen's 1.0080 Da is the number 100_800_000.
pub const MASS_UNITS_PER_DALTON: u64 = 100_000_000;

/// The mathematical value of an [`Atom`]: its three fields, the symbol as a
/// sequence of characters.
pub struct Element {
    pub atomic_number: u16,
    pub atomic_mass: u64,
    pub symbol: Seq<char>,
}

/// A chemical element: atomic number, atomic mass (in units of 10^-8 dalton,
/// see [`MASS_UNITS_PER_DALTON`]) and symbol.
///
/// Two atoms are the same element exactly when their symbols are equal; number
/// and mass take no part in `==`.
#[derive(Debug)]
pub struct Atom {
    pub atomic_number: u16,
    pub atomic_mass: u64,
    pub symbol: String,
}

impl View for Atom {
    type V = Element;

    open spec fn view(&self) -> Element {
        Element {
            atomic_number: self.atomic_number,
            atomic_mass: self.atomic_mass,
            symbol: self.symbol@,
        }
    }
}

impl Atom {
    /// Builds an element record from its three parts.
    pub fn new(atomic_number: u16, atomic_mass: u64, symbol: &str) -> (atom: Atom)
        ensures
            atom@ == (Element { atomic_number, atomic_mass, symbol: symbol@ }),
    {
        Atom { atomic_number, atomic_mass, symbol: symbol.to_owned() }
    }

    /// The text an element is written as: its symbol.
    pub fn to_string(&self) -> (text: String)
        ensures
            text@ == self.symbol@,
    {
        self.symbol.clone()
    }
}

impl Clone for Atom {
    fn clone(&self) -> (copy: Atom)
        ensures
            copy == *self,
    {
        Atom {
            atomic_number: self.atomic_number,
            atomic_mass: self.atomic_mass,
            symbol: self.symbol.clone(),
        }
    }
}

impl PartialEq for Atom {
    fn eq(&self, other: &Atom) -> (same: bool) {
        self.symbol == other.symbol
    }
}

impl PartialEqSpecImpl for Atom {
    open spec fn obeys_eq_spec() -> bool {
        true
    }

    open spec fn eq_spec(&self, other: &Atom) -> bool {
        self.symbol@ == other.symbol@
    }
}

impl Eq for Atom {}

} // verus!
