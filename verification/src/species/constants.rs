//! Species that the library names.
use vstd::prelude::*;
use crate::atoms::object::Atom;
use crate::atoms::service::{catalog, catalog_entry, AtomRegistry};
use crate::species::object::{atom_total, composition, entries, AtomTuple, ChemicalSpecies};

verus! {

/// Every entry of the list is of an element of the catalog.
pub open spec fn from_catalog(tuples: Seq<AtomTuple>) -> bool {
    forall|i: int| 0 <= i < tuples.len() ==> catalog().contains((#[trigger] tuples[i]).atom@)
}

/// The species is molecular hydrogen, H2: its entries as written, each of an
/// element of the catalog, and the composition they denote.
pub open spec fn is_hydrogen2(species: ChemicalSpecies) -> bool {
    &&& entries(species.atom_tuples@) == seq![("H"@, 2u16)]
    &&& from_catalog(species.atom_tuples@)
    &&& species@ == map!["H"@ => 2nat]
}

/// The species is water, H2O: its entries as written, each of an element of
/// the catalog, and the composition they denote.
pub open spec fn is_water(species: ChemicalSpecies) -> bool {
    &&& entries(species.atom_tuples@) == seq![("H"@, 2u16), ("O"@, 1u16)]
    &&& from_catalog(species.atom_tuples@)
    &&& species@ == map!["H"@ => 2nat, "O"@ => 1nat]
}

/// The species is carbon monoxide, CO: its entries as written, each of an
/// element of the catalog, and the composition they denote.
pub open spec fn is_carbon_monoxide(species: ChemicalSpecies) -> bool {
    &&& entries(species.atom_tuples@) == seq![("C"@, 1u16), ("O"@, 1u16)]
    &&& from_catalog(species.atom_tuples@)
    &&& species@ == map!["C"@ => 1nat, "O"@ => 1nat]
}

/// The species is methane, CH4: its entries as written, each of an element of
/// the catalog, and the composition they denote.
pub open spec fn is_methane(species: ChemicalSpecies) -> bool {
    &&& entries(species.atom_tuples@) == seq![("C"@, 1u16), ("H"@, 4u16)]
    &&& from_catalog(species.atom_tuples@)
    &&& species@ == map!["C"@ => 1nat, "H"@ => 4nat]
}

/// The species is carbon dioxide, CO2: its entries as written, each of an
/// element of the catalog, and the composition they denote.
pub open spec fn is_carbon_dioxide(species: ChemicalSpecies) -> bool {
    &&& entries(species.atom_tuples@) == seq![("C"@, 1u16), ("O"@, 2u16)]
    &&& from_catalog(species.atom_tuples@)
    &&& species@ == map!["C"@ => 1nat, "O"@ => 2nat]
}

/// The catalog's element with the given atomic number, which must be one of
/// the numbers that the catalog holds.
fn element<'a>(atoms: &'a AtomRegistry, atomic_number: u16) -> (atom: &'a Atom)
    requires
        1 <= atomic_number <= 56 || 72 <= atomic_number <= 73,
    ensures
        catalog().contains(atom@),
        atom.atomic_number == atomic_number,
{
    let found = atoms.get_by_atomic_number(atomic_number);
    proof {
        let index: int = if atomic_number <= 56 {
            atomic_number - 1
        } else {
            atomic_number - 16
        };
        assert(catalog_entry(index).atomic_number == atomic_number);
        assert(catalog()[index].atomic_number == atomic_number);
    }
    found.unwrap()
}

proof fn lemma_carbon_hydrogen_oxygen(atom: Atom)
    requires
        catalog().contains(atom@),
    ensures
        atom.atomic_number == 1 ==> atom.symbol@ == "H"@,
        atom.atomic_number == 6 ==> atom.symbol@ == "C"@,
        atom.atomic_number == 8 ==> atom.symbol@ == "O"@,
        "H"@ != "C"@,
        "H"@ != "O"@,
        "C"@ != "O"@,
{
    let index = choose|index: int| 0 <= index < catalog().len() && catalog()[index] == atom@;
    assert(catalog_entry(index) == atom@);
    reveal_strlit("H");
    reveal_strlit("C");
    reveal_strlit("O");
    assert("H"@[0] == 'H' && "C"@[0] == 'C' && "O"@[0] == 'O');
}

proof fn lemma_composition_of_one(tuples: Seq<AtomTuple>, symbol: Seq<char>, size: u16)
    requires
        entries(tuples) == seq![(symbol, size)],
        size > 0,
    ensures
        composition(tuples) == map![symbol => size as nat],
{
    reveal_with_fuel(atom_total, 3);
    assert(tuples.len() == entries(tuples).len());
    assert(entries(tuples)[0] == (tuples[0].atom.symbol@, tuples[0].size));
    assert(tuples.drop_last().len() == 0);
    assert(composition(tuples) =~= map![symbol => size as nat]);
}

proof fn lemma_composition_of_two(
    tuples: Seq<AtomTuple>,
    first: Seq<char>,
    first_size: u16,
    second: Seq<char>,
    second_size: u16,
)
    requires
        entries(tuples) == seq![(first, first_size), (second, second_size)],
        first != second,
        first_size > 0,
        second_size > 0,
    ensures
        composition(tuples) == map![first => first_size as nat, second => second_size as nat],
{
    reveal_with_fuel(atom_total, 4);
    assert(tuples.len() == entries(tuples).len());
    assert(entries(tuples)[0] == (tuples[0].atom.symbol@, tuples[0].size));
    assert(entries(tuples)[1] == (tuples[1].atom.symbol@, tuples[1].size));
    assert(tuples.drop_last().len() == 1);
    assert(tuples.drop_last().drop_last().len() == 0);
    assert(tuples.drop_last().last() == tuples[0]);
    assert(composition(tuples) =~= map![
        first => first_size as nat,
        second => second_size as nat,
    ]);
}

/// Molecular hydrogen, H2.
pub fn hydrogen2<'a>(atoms: &'a AtomRegistry) -> (species: ChemicalSpecies<'a>)
    ensures
        is_hydrogen2(species),
{
    let hydrogen = element(atoms, 1);
    proof {
        lemma_carbon_hydrogen_oxygen(*hydrogen);
    }
    let mut atom_tuples: Vec<AtomTuple> = Vec::new();
    atom_tuples.push(AtomTuple::new(hydrogen, 2));
    proof {
        assert(entries(atom_tuples@) =~= seq![("H"@, 2u16)]);
        lemma_composition_of_one(atom_tuples@, "H"@, 2);
    }
    ChemicalSpecies::new(atom_tuples)
}

/// Water, H2O.
pub fn water<'a>(atoms: &'a AtomRegistry) -> (species: ChemicalSpecies<'a>)
    ensures
        is_water(species),
{
    let hydrogen = element(atoms, 1);
    let oxygen = element(atoms, 8);
    proof {
        lemma_carbon_hydrogen_oxygen(*hydrogen);
        lemma_carbon_hydrogen_oxygen(*oxygen);
    }
    let mut atom_tuples: Vec<AtomTuple> = Vec::new();
    atom_tuples.push(AtomTuple::new(hydrogen, 2));
    atom_tuples.push(AtomTuple::new(oxygen, 1));
    proof {
        assert(entries(atom_tuples@) =~= seq![("H"@, 2u16), ("O"@, 1u16)]);
        lemma_composition_of_two(atom_tuples@, "H"@, 2, "O"@, 1);
    }
    ChemicalSpecies::new(atom_tuples)
}

/// Carbon monoxide, CO.
pub fn carbon_monoxide<'a>(atoms: &'a AtomRegistry) -> (species: ChemicalSpecies<'a>)
    ensures
        is_carbon_monoxide(species),
{
    let carbon = element(atoms, 6);
    let oxygen = element(atoms, 8);
    proof {
        lemma_carbon_hydrogen_oxygen(*carbon);
        lemma_carbon_hydrogen_oxygen(*oxygen);
    }
    let mut atom_tuples: Vec<AtomTuple> = Vec::new();
    atom_tuples.push(AtomTuple::new(carbon, 1));
    atom_tuples.push(AtomTuple::new(oxygen, 1));
    proof {
        assert(entries(atom_tuples@) =~= seq![("C"@, 1u16), ("O"@, 1u16)]);
        lemma_composition_of_two(atom_tuples@, "C"@, 1, "O"@, 1);
    }
    ChemicalSpecies::new(atom_tuples)
}

/// Methane, CH4.
pub fn methane<'a>(atoms: &'a AtomRegistry) -> (species: ChemicalSpecies<'a>)
    ensures
        is_methane(species),
{
    let carbon = element(atoms, 6);
    let hydrogen = element(atoms, 1);
    proof {
        lemma_carbon_hydrogen_oxygen(*carbon);
        lemma_carbon_hydrogen_oxygen(*hydrogen);
    }
    let mut atom_tuples: Vec<AtomTuple> = Vec::new();
    atom_tuples.push(AtomTuple::new(carbon, 1));
    atom_tuples.push(AtomTuple::new(hydrogen, 4));
    proof {
        assert(entries(atom_tuples@) =~= seq![("C"@, 1u16), ("H"@, 4u16)]);
        lemma_composition_of_two(atom_tuples@, "C"@, 1, "H"@, 4);
    }
    ChemicalSpecies::new(atom_tuples)
}

/// Carbon dioxide, CO2.
pub fn carbon_dioxide<'a>(atoms: &'a AtomRegistry) -> (species: ChemicalSpecies<'a>)
    ensures
        is_carbon_dioxide(species),
{
    let carbon = element(atoms, 6);
    let oxygen = element(atoms, 8);
    proof {
        lemma_carbon_hydrogen_oxygen(*carbon);
        lemma_carbon_hydrogen_oxygen(*oxygen);
    }
    let mut atom_tuples: Vec<AtomTuple> = Vec::new();
    atom_tuples.push(AtomTuple::new(carbon, 1));
    atom_tuples.push(AtomTuple::new(oxygen, 2));
    proof {
        assert(entries(atom_tuples@) =~= seq![("C"@, 1u16), ("O"@, 2u16)]);
        lemma_composition_of_two(atom_tuples@, "C"@, 1, "O"@, 2);
    }
    ChemicalSpecies::new(atom_tuples)
}

/// The named species, built once from the catalog and lent to the reactions
/// that are made of them.
#[derive(Debug)]
pub struct SpeciesRegistry<'a> {
    pub hydrogen2: ChemicalSpecies<'a>,
    pub water: ChemicalSpecies<'a>,
    pub carbon_monoxide: ChemicalSpecies<'a>,
    pub methane: ChemicalSpecies<'a>,
    pub carbon_dioxide: ChemicalSpecies<'a>,
}

impl<'a> SpeciesRegistry<'a> {
    /// Every field holds the species it is named after.
    pub open spec fn well_formed(&self) -> bool {
        &&& is_hydrogen2(self.hydrogen2)
        &&& is_water(self.water)
        &&& is_carbon_monoxide(self.carbon_monoxide)
        &&& is_methane(self.methane)
        &&& is_carbon_dioxide(self.carbon_dioxide)
    }

    pub fn new(atoms: &'a AtomRegistry) -> (registry: SpeciesRegistry<'a>)
        ensures
            registry.well_formed(),
    {
        SpeciesRegistry {
            hydrogen2: hydrogen2(atoms),
            water: water(atoms),
            carbon_monoxide: carbon_monoxide(atoms),
            methane: methane(atoms),
            carbon_dioxide: carbon_dioxide(atoms),
        }
    }
}

} // verus!
