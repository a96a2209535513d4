//! The element catalog and the lookups into it.
use std::collections::HashMap;
use vstd::prelude::*;
use vstd::std_specs::hash::*;
use crate::atoms::object::{Atom, Element};

verus! {

/// The number of elements in the catalog.
pub const CATALOG_LEN: usize = 58;

/// The element at a place of the catalog. The catalog runs from hydrogen to
/// tantalum in the order of the atomic numbers; it leaves out the numbers 57
/// to 71. Masses are in units of 10^-8 dalton.
pub open spec fn catalog_entry(index: int) -> Element
    recommends
        0 <= index < CATALOG_LEN,
{
    if index == 0 {
        Element { atomic_number: 1, atomic_mass: 100_800_000, symbol: "H"@ }
    } else if index == 1 {
        Element { atomic_number: 2, atomic_mass: 400_260_000, symbol: "He"@ }
    } else if index == 2 {
        Element { atomic_number: 3, atomic_mass: 700_000_000, symbol: "Li"@ }
    } else if index == 3 {
        Element { atomic_number: 4, atomic_mass: 901_218_300, symbol: "Be"@ }
    } else if index == 4 {
        Element { atomic_number: 5, atomic_mass: 1_081_000_000, symbol: "B"@ }
    } else if index == 5 {
        Element { atomic_number: 6, atomic_mass: 1_201_100_000, symbol: "C"@ }
    } else if index == 6 {
        Element { atomic_number: 7, atomic_mass: 1_400_700_000, symbol: "N"@ }
    } else if index == 7 {
        Element { atomic_number: 8, atomic_mass: 1_599_900_000, symbol: "O"@ }
    } else if index == 8 {
        Element { atomic_number: 9, atomic_mass: 1_899_840_316, symbol: "F"@ }
    } else if index == 9 {
        Element { atomic_number: 10, atomic_mass: 2_018_000_000, symbol: "Ne"@ }
    } else if index == 10 {
        Element { atomic_number: 11, atomic_mass: 2_298_976_930, symbol: "Na"@ }
    } else if index == 11 {
        Element { atomic_number: 12, atomic_mass: 2_430_500_000, symbol: "Mg"@ }
    } else if index == 12 {
        Element { atomic_number: 13, atomic_mass: 2_698_153_800, symbol: "Al"@ }
    } else if index == 13 {
        Element { atomic_number: 14, atomic_mass: 2_808_500_000, symbol: "Si"@ }
    } else if index == 14 {
        Element { atomic_number: 15, atomic_mass: 3_097_376_200, symbol: "P"@ }
    } else if index == 15 {
        Element { atomic_number: 16, atomic_mass: 3_207_000_000, symbol: "S"@ }
    } else if index == 16 {
        Element { atomic_number: 17, atomic_mass: 3_545_000_000, symbol: "Cl"@ }
    } else if index == 17 {
        Element { atomic_number: 18, atomic_mass: 3_990_000_000, symbol: "Ar"@ }
    } else if index == 18 {
        Element { atomic_number: 19, atomic_mass: 3_909_830_000, symbol: "K"@ }
    } else if index == 19 {
        Element { atomic_number: 20, atomic_mass: 4_008_000_000, symbol: "Ca"@ }
    } else if index == 20 {
        Element { atomic_number: 21, atomic_mass: 4_495_591_000, symbol: "Sc"@ }
    } else if index == 21 {
        Element { atomic_number: 22, atomic_mass: 4_786_700_000, symbol: "Ti"@ }
    } else if index == 22 {
        Element { atomic_number: 23, atomic_mass: 5_094_150_000, symbol: "V"@ }
    } else if index == 23 {
        Element { atomic_number: 24, atomic_mass: 5_199_600_000, symbol: "Cr"@ }
    } else if index == 24 {
        Element { atomic_number: 25, atomic_mass: 5_493_804_000, symbol: "Mn"@ }
    } else if index == 25 {
        Element { atomic_number: 26, atomic_mass: 5_584_000_000, symbol: "Fe"@ }
    } else if index == 26 {
        Element { atomic_number: 27, atomic_mass: 5_893_319_000, symbol: "Co"@ }
    } else if index == 27 {
        Element { atomic_number: 28, atomic_mass: 5_869_300_000, symbol: "Ni"@ }
    } else if index == 28 {
        Element { atomic_number: 29, atomic_mass: 6_355_000_000, symbol: "Cu"@ }
    } else if index == 29 {
        Element { atomic_number: 30, atomic_mass: 6_540_000_000, symbol: "Zn"@ }
    } else if index == 30 {
        Element { atomic_number: 31, atomic_mass: 6_972_300_000, symbol: "Ga"@ }
    } else if index == 31 {
        Element { atomic_number: 32, atomic_mass: 7_263_000_000, symbol: "Ge"@ }
    } else if index == 32 {
        Element { atomic_number: 33, atomic_mass: 7_492_159_000, symbol: "As"@ }
    } else if index == 33 {
        Element { atomic_number: 34, atomic_mass: 7_897_000_000, symbol: "Se"@ }
    } else if index == 34 {
        Element { atomic_number: 35, atomic_mass: 7_990_000_000, symbol: "Br"@ }
    } else if index == 35 {
        Element { atomic_number: 36, atomic_mass: 8_380_000_000, symbol: "Kr"@ }
    } else if index == 36 {
        Element { atomic_number: 37, atomic_mass: 8_546_800_000, symbol: "Rb"@ }
    } else if index == 37 {
        Element { atomic_number: 38, atomic_mass: 8_762_000_000, symbol: "Sr"@ }
    } else if index == 38 {
        Element { atomic_number: 39, atomic_mass: 8_890_584_000, symbol: "Y"@ }
    } else if index == 39 {
        Element { atomic_number: 40, atomic_mass: 9_122_000_000, symbol: "Zr"@ }
    } else if index == 40 {
        Element { atomic_number: 41, atomic_mass: 9_290_637_000, symbol: "Nb"@ }
    } else if index == 41 {
        Element { atomic_number: 42, atomic_mass: 9_595_000_000, symbol: "Mo"@ }
    } else if index == 42 {
        Element { atomic_number: 43, atomic_mass: 9_690_636_000, symbol: "Tc"@ }
    } else if index == 43 {
        Element { atomic_number: 44, atomic_mass: 10_110_000_000, symbol: "Ru"@ }
    } else if index == 44 {
        Element { atomic_number: 45, atomic_mass: 10_290_550_000, symbol: "Rh"@ }
    } else if index == 45 {
        Element { atomic_number: 46, atomic_mass: 10_642_000_000, symbol: "Pd"@ }
    } else if index == 46 {
        Element { atomic_number: 47, atomic_mass: 10_786_800_000, symbol: "Ag"@ }
    } else if index == 47 {
        Element { atomic_number: 48, atomic_mass: 11_241_000_000, symbol: "Cd"@ }
    } else if index == 48 {
        Element { atomic_number: 49, atomic_mass: 11_481_800_000, symbol: "In"@ }
    } else if index == 49 {
        Element { atomic_number: 50, atomic_mass: 11_871_000_000, symbol: "Sn"@ }
    } else if index == 50 {
        Element { atomic_number: 51, atomic_mass: 12_176_000_000, symbol: "Sb"@ }
    } else if index == 51 {
        Element { atomic_number: 52, atomic_mass: 12_760_000_000, symbol: "Te"@ }
    } else if index == 52 {
        Element { atomic_number: 53, atomic_mass: 12_690_450_000, symbol: "I"@ }
    } else if index == 53 {
        Element { atomic_number: 54, atomic_mass: 13_129_000_000, symbol: "Xe"@ }
    } else if index == 54 {
        Element { atomic_number: 55, atomic_mass: 13_290_545_200, symbol: "Cs"@ }
    } else if index == 55 {
        Element { atomic_number: 56, atomic_mass: 13_733_000_000, symbol: "Ba"@ }
    } else if index == 56 {
        Element { atomic_number: 72, atomic_mass: 17_849_000_000, symbol: "Hf"@ }
    } else {
        Element { atomic_number: 73, atomic_mass: 18_094_790_000, symbol: "Ta"@ }
    }
}

/// The catalog: every element the library knows, in the order of the atomic
/// numbers.
pub open spec fn catalog() -> Seq<Element> {
    Seq::new(CATALOG_LEN as nat, |index: int| catalog_entry(index))
}

/// The elements that a list of atoms holds.
pub open spec fn elements_of(atoms: Seq<Atom>) -> Seq<Element> {
    Seq::new(atoms.len(), |index: int| atoms[index]@)
}

/// Builds the catalog.
pub fn create_atoms_vector() -> (atoms: Vec<Atom>)
    ensures
        elements_of(atoms@) == catalog(),
{
    let mut atoms: Vec<Atom> = Vec::with_capacity(CATALOG_LEN);
    atoms.push(Atom::new(1, 100_800_000, "H"));
    atoms.push(Atom::new(2, 400_260_000, "He"));
    atoms.push(Atom::new(3, 700_000_000, "Li"));
    atoms.push(Atom::new(4, 901_218_300, "Be"));
    atoms.push(Atom::new(5, 1_081_000_000, "B"));
    atoms.push(Atom::new(6, 1_201_100_000, "C"));
    atoms.push(Atom::new(7, 1_400_700_000, "N"));
    atoms.push(Atom::new(8, 1_599_900_000, "O"));
    atoms.push(Atom::new(9, 1_899_840_316, "F"));
    atoms.push(Atom::new(10, 2_018_000_000, "Ne"));
    atoms.push(Atom::new(11, 2_298_976_930, "Na"));
    atoms.push(Atom::new(12, 2_430_500_000, "Mg"));
    atoms.push(Atom::new(13, 2_698_153_800, "Al"));
    atoms.push(Atom::new(14, 2_808_500_000, "Si"));
    atoms.push(Atom::new(15, 3_097_376_200, "P"));
    atoms.push(Atom::new(16, 3_207_000_000, "S"));
    atoms.push(Atom::new(17, 3_545_000_000, "Cl"));
    atoms.push(Atom::new(18, 3_990_000_000, "Ar"));
    atoms.push(Atom::new(19, 3_909_830_000, "K"));
    atoms.push(Atom::new(20, 4_008_000_000, "Ca"));
    atoms.push(Atom::new(21, 4_495_591_000, "Sc"));
    atoms.push(Atom::new(22, 4_786_700_000, "Ti"));
    atoms.push(Atom::new(23, 5_094_150_000, "V"));
    atoms.push(Atom::new(24, 5_199_600_000, "Cr"));
    atoms.push(Atom::new(25, 5_493_804_000, "Mn"));
    atoms.push(Atom::new(26, 5_584_000_000, "Fe"));
    atoms.push(Atom::new(27, 5_893_319_000, "Co"));
    atoms.push(Atom::new(28, 5_869_300_000, "Ni"));
    atoms.push(Atom::new(29, 6_355_000_000, "Cu"));
    atoms.push(Atom::new(30, 6_540_000_000, "Zn"));
    atoms.push(Atom::new(31, 6_972_300_000, "Ga"));
    atoms.push(Atom::new(32, 7_263_000_000, "Ge"));
    atoms.push(Atom::new(33, 7_492_159_000, "As"));
    atoms.push(Atom::new(34, 7_897_000_000, "Se"));
    atoms.push(Atom::new(35, 7_990_000_000, "Br"));
    atoms.push(Atom::new(36, 8_380_000_000, "Kr"));
    atoms.push(Atom::new(37, 8_546_800_000, "Rb"));
    atoms.push(Atom::new(38, 8_762_000_000, "Sr"));
    atoms.push(Atom::new(39, 8_890_584_000, "Y"));
    atoms.push(Atom::new(40, 9_122_000_000, "Zr"));
    atoms.push(Atom::new(41, 9_290_637_000, "Nb"));
    atoms.push(Atom::new(42, 9_595_000_000, "Mo"));
    atoms.push(Atom::new(43, 9_690_636_000, "Tc"));
    atoms.push(Atom::new(44, 10_110_000_000, "Ru"));
    atoms.push(Atom::new(45, 10_290_550_000, "Rh"));
    atoms.push(Atom::new(46, 10_642_000_000, "Pd"));
    atoms.push(Atom::new(47, 10_786_800_000, "Ag"));
    atoms.push(Atom::new(48, 11_241_000_000, "Cd"));
    atoms.push(Atom::new(49, 11_481_800_000, "In"));
    atoms.push(Atom::new(50, 11_871_000_000, "Sn"));
    atoms.push(Atom::new(51, 12_176_000_000, "Sb"));
    atoms.push(Atom::new(52, 12_760_000_000, "Te"));
    atoms.push(Atom::new(53, 12_690_450_000, "I"));
    atoms.push(Atom::new(54, 13_129_000_000, "Xe"));
    atoms.push(Atom::new(55, 13_290_545_200, "Cs"));
    atoms.push(Atom::new(56, 13_733_000_000, "Ba"));
    atoms.push(Atom::new(72, 17_849_000_000, "Hf"));
    atoms.push(Atom::new(73, 18_094_790_000, "Ta"));
    assert(elements_of(atoms@) =~= catalog());
    atoms
}

/// The place of the first atom with the given symbol, if there is one.
pub fn position_by_symbol(atoms: &Vec<Atom>, symbol: &str) -> (found: Option<usize>)
    ensures
        match found {
            Some(index) => {
                &&& index < atoms.len()
                &&& atoms@[index as int].symbol@ == symbol@
                &&& forall|k: int| 0 <= k < index ==> (#[trigger] atoms@[k]).symbol@ != symbol@
            },
            None => forall|k: int|
                0 <= k < atoms.len() ==> (#[trigger] atoms@[k]).symbol@ != symbol@,
        },
{
    let wanted = symbol.to_owned();
    let mut index: usize = 0;
    while index < atoms.len()
        invariant
            index <= atoms.len(),
            wanted@ == symbol@,
            forall|k: int| 0 <= k < index ==> (#[trigger] atoms@[k]).symbol@ != symbol@,
        decreases atoms.len() - index,
    {
        if atoms[index].symbol == wanted {
            return Some(index);
        }
        index = index + 1;
    }
    None
}

/// What a registry by atomic number holds for a list of atoms: every atomic
/// number of the list, and no other, each with the place of the last atom that
/// has it.
pub open spec fn registers_numbers(registry: Map<u16, usize>, atoms: Seq<Atom>) -> bool {
    &&& forall|number: u16| #[trigger]
        registry.contains_key(number) <==> has_number(atoms, number)
    &&& forall|number: u16| #[trigger]
        registry.contains_key(number) ==> is_last_with_number(
            atoms,
            registry[number] as int,
            number,
        )
}

/// Some atom of the list has the atomic number.
pub open spec fn has_number(atoms: Seq<Atom>, number: u16) -> bool {
    exists|index: int| 0 <= index < atoms.len() && (#[trigger] atoms[index]).atomic_number == number
}

/// The atom at the place has the atomic number, and no later one has it.
pub open spec fn is_last_with_number(atoms: Seq<Atom>, place: int, number: u16) -> bool {
    &&& 0 <= place < atoms.len()
    &&& atoms[place].atomic_number == number
    &&& forall|later: int|
        place < later < atoms.len() ==> (#[trigger] atoms[later]).atomic_number != number
}

/// Builds the registry from atomic number to place in the list.
pub fn create_atomic_number_registry(atoms: &Vec<Atom>) -> (registry: HashMap<u16, usize>)
    ensures
        registers_numbers(registry@, atoms@),
{
    broadcast use group_hash_axioms;

    let mut registry: HashMap<u16, usize> = HashMap::new();
    let mut index: usize = 0;
    while index < atoms.len()
        invariant
            index <= atoms.len(),
            registers_numbers(registry@, atoms@.take(index as int)),
        decreases atoms.len() - index,
    {
        let ghost seen = atoms@.take(index as int);
        let ghost held = registry@;
        let number = atoms[index].atomic_number;
        registry.insert(number, index);
        proof {
            let next = atoms@.take(index + 1);
            assert forall|n: u16| #[trigger] registry@.contains_key(n) <==> has_number(next, n) by {
                if has_number(next, n) {
                    let k = choose|k: int|
                        0 <= k < next.len() && (#[trigger] next[k]).atomic_number == n;
                    if k < index {
                        assert(seen[k].atomic_number == n);
                        assert(has_number(seen, n));
                    }
                }
                if registry@.contains_key(n) {
                    if n == number {
                        assert(next[index as int].atomic_number == n);
                    } else {
                        assert(held.contains_key(n));
                        let k = choose|k: int|
                            0 <= k < seen.len() && (#[trigger] seen[k]).atomic_number == n;
                        assert(next[k].atomic_number == n);
                    }
                }
            }
            assert forall|n: u16| #[trigger] registry@.contains_key(n) implies is_last_with_number(
                next,
                registry@[n] as int,
                n,
            ) by {
                if n != number {
                    assert(held.contains_key(n));
                    let place = held[n] as int;
                    assert(is_last_with_number(seen, place, n));
                    assert(next[place] == seen[place]);
                    assert forall|later: int| place < later < next.len() implies (
                    #[trigger] next[later]).atomic_number != n by {
                        if later < index {
                            assert(seen[later].atomic_number != n);
                        }
                    }
                }
            }
        }
        index = index + 1;
    }
    proof {
        assert(atoms@.take(index as int) =~= atoms@);
    }
    registry
}

/// The catalog as a value: built once, it lends its elements to the species
/// that are made of them.
#[derive(Debug)]
pub struct AtomRegistry {
    atoms: Vec<Atom>,
    by_atomic_number: HashMap<u16, usize>,
}

impl AtomRegistry {
    #[verifier::type_invariant]
    spec fn holds_the_catalog(&self) -> bool {
        &&& elements_of(self.atoms@) == catalog()
        &&& registers_numbers(self.by_atomic_number@, self.atoms@)
    }

    /// The atoms that the registry holds, in order.
    pub closed spec fn spec_atoms(&self) -> Seq<Atom> {
        self.atoms@
    }

    pub fn new() -> (registry: AtomRegistry)
        ensures
            elements_of(registry.spec_atoms()) == catalog(),
    {
        let atoms = create_atoms_vector();
        let by_atomic_number = create_atomic_number_registry(&atoms);
        AtomRegistry { atoms, by_atomic_number }
    }

    /// The elements of the catalog, in its order.
    pub fn atoms(&self) -> (atoms: &Vec<Atom>)
        ensures
            atoms@ == self.spec_atoms(),
            elements_of(atoms@) == catalog(),
    {
        proof {
            use_type_invariant(self);
        }
        &self.atoms
    }

    /// The catalog's element with the given symbol, if it has one.
    pub fn get_by_symbol(&self, symbol: &str) -> (found: Option<&Atom>)
        ensures
            match found {
                Some(atom) => catalog().contains(atom@) && atom.symbol@ == symbol@,
                None => forall|index: int|
                    0 <= index < catalog().len() ==> (#[trigger] catalog()[index]).symbol
                        != symbol@,
            },
    {
        let atoms = self.atoms();
        proof {
            lemma_elements_are_views(atoms@);
        }
        match position_by_symbol(atoms, symbol) {
            Some(index) => {
                assert(catalog()[index as int] == atoms@[index as int]@);
                Some(&atoms[index])
            },
            None => None,
        }
    }

    /// The catalog's element with the given atomic number, if it has one.
    pub fn get_by_atomic_number(&self, atomic_number: u16) -> (found: Option<&Atom>)
        ensures
            match found {
                Some(atom) => catalog().contains(atom@) && atom.atomic_number == atomic_number,
                None => forall|index: int|
                    0 <= index < catalog().len() ==> (#[trigger] catalog()[index]).atomic_number
                        != atomic_number,
            },
    {
        broadcast use group_hash_axioms;

        proof {
            use_type_invariant(self);
            lemma_elements_are_views(self.atoms@);
        }
        match self.by_atomic_number.get(&atomic_number) {
            Some(place) => {
                assert(is_last_with_number(self.atoms@, *place as int, atomic_number));
                assert(catalog()[*place as int] == self.atoms@[*place as int]@);
                Some(&self.atoms[*place])
            },
            None => {
                assert forall|index: int| 0 <= index < catalog().len() implies (
                #[trigger] catalog()[index]).atomic_number != atomic_number by {
                    if catalog()[index].atomic_number == atomic_number {
                        assert(self.atoms@[index].atomic_number == atomic_number);
                        assert(has_number(self.atoms@, atomic_number));
                    }
                }
                None
            },
        }
    }
}

proof fn lemma_elements_are_views(atoms: Seq<Atom>)
    ensures
        forall|index: int|
            0 <= index < atoms.len() ==> #[trigger] elements_of(atoms)[index] == atoms[index]@,
{
}

/// The catalog's element with the given symbol, if it has one, as a value of
/// the caller's own.
pub fn get_by_symbol(symbol: &str) -> (found: Option<Atom>)
    ensures
        match found {
            Some(atom) => catalog().contains(atom@) && atom.symbol@ == symbol@,
            None => forall|index: int|
                0 <= index < catalog().len() ==> (#[trigger] catalog()[index]).symbol != symbol@,
        },
{
    let registry = AtomRegistry::new();
    match registry.get_by_symbol(symbol) {
        Some(atom) => Some(atom.clone()),
        None => None,
    }
}

/// The catalog's element with the given atomic number, if it has one, as a
/// value of the caller's own.
pub fn get_by_atomic_number(atomic_number: u16) -> (found: Option<Atom>)
    ensures
        match found {
            Some(atom) => catalog().contains(atom@) && atom.atomic_number == atomic_number,
            None => forall|index: int|
                0 <= index < catalog().len() ==> (#[trigger] catalog()[index]).atomic_number
                    != atomic_number,
        },
{
    let registry = AtomRegistry::new();
    match registry.get_by_atomic_number(atomic_number) {
        Some(atom) => Some(atom.clone()),
        None => None,
    }
}

/// No two places of the catalog hold the same atomic number: the numbers
/// grow along the catalog.
pub proof fn catalog_numbers_are_unique()
    ensures
        forall|i: int, j: int|
            0 <= i < j < CATALOG_LEN ==> (#[trigger] catalog_entry(i)).atomic_number < (
            #[trigger] catalog_entry(j)).atomic_number,
{
}

/// A number that tells the one- and two-letter symbols apart.
spec fn symbol_code(symbol: Seq<char>) -> int {
    if symbol.len() == 1 {
        symbol[0] as int
    } else {
        symbol[0] as int * 1000 + symbol[1] as int
    }
}

/// No two places of the catalog hold the same symbol.
pub proof fn catalog_symbols_are_unique()
    ensures
        forall|i: int, j: int|
            0 <= i < j < CATALOG_LEN ==> (#[trigger] catalog_entry(i)).symbol != (
            #[trigger] catalog_entry(j)).symbol,
{
    reveal_strlit("H");
    assert(symbol_code("H"@) == 72);
    reveal_strlit("He");
    assert(symbol_code("He"@) == 72101);
    reveal_strlit("Li");
    assert(symbol_code("Li"@) == 76105);
    reveal_strlit("Be");
    assert(symbol_code("Be"@) == 66101);
    reveal_strlit("B");
    assert(symbol_code("B"@) == 66);
    reveal_strlit("C");
    assert(symbol_code("C"@) == 67);
    reveal_strlit("N");
    assert(symbol_code("N"@) == 78);
    reveal_strlit("O");
    assert(symbol_code("O"@) == 79);
    reveal_strlit("F");
    assert(symbol_code("F"@) == 70);
    reveal_strlit("Ne");
    assert(symbol_code("Ne"@) == 78101);
    reveal_strlit("Na");
    assert(symbol_code("Na"@) == 78097);
    reveal_strlit("Mg");
    assert(symbol_code("Mg"@) == 77103);
    reveal_strlit("Al");
    assert(symbol_code("Al"@) == 65108);
    reveal_strlit("Si");
    assert(symbol_code("Si"@) == 83105);
    reveal_strlit("P");
    assert(symbol_code("P"@) == 80);
    reveal_strlit("S");
    assert(symbol_code("S"@) == 83);
    reveal_strlit("Cl");
    assert(symbol_code("Cl"@) == 67108);
    reveal_strlit("Ar");
    assert(symbol_code("Ar"@) == 65114);
    reveal_strlit("K");
    assert(symbol_code("K"@) == 75);
    reveal_strlit("Ca");
    assert(symbol_code("Ca"@) == 67097);
    reveal_strlit("Sc");
    assert(symbol_code("Sc"@) == 83099);
    reveal_strlit("Ti");
    assert(symbol_code("Ti"@) == 84105);
    reveal_strlit("V");
    assert(symbol_code("V"@) == 86);
    reveal_strlit("Cr");
    assert(symbol_code("Cr"@) == 67114);
    reveal_strlit("Mn");
    assert(symbol_code("Mn"@) == 77110);
    reveal_strlit("Fe");
    assert(symbol_code("Fe"@) == 70101);
    reveal_strlit("Co");
    assert(symbol_code("Co"@) == 67111);
    reveal_strlit("Ni");
    assert(symbol_code("Ni"@) == 78105);
    reveal_strlit("Cu");
    assert(symbol_code("Cu"@) == 67117);
    reveal_strlit("Zn");
    assert(symbol_code("Zn"@) == 90110);
    reveal_strlit("Ga");
    assert(symbol_code("Ga"@) == 71097);
    reveal_strlit("Ge");
    assert(symbol_code("Ge"@) == 71101);
    reveal_strlit("As");
    assert(symbol_code("As"@) == 65115);
    reveal_strlit("Se");
    assert(symbol_code("Se"@) == 83101);
    reveal_strlit("Br");
    assert(symbol_code("Br"@) == 66114);
    reveal_strlit("Kr");
    assert(symbol_code("Kr"@) == 75114);
    reveal_strlit("Rb");
    assert(symbol_code("Rb"@) == 82098);
    reveal_strlit("Sr");
    assert(symbol_code("Sr"@) == 83114);
    reveal_strlit("Y");
    assert(symbol_code("Y"@) == 89);
    reveal_strlit("Zr");
    assert(symbol_code("Zr"@) == 90114);
    reveal_strlit("Nb");
    assert(symbol_code("Nb"@) == 78098);
    reveal_strlit("Mo");
    assert(symbol_code("Mo"@) == 77111);
    reveal_strlit("Tc");
    assert(symbol_code("Tc"@) == 84099);
    reveal_strlit("Ru");
    assert(symbol_code("Ru"@) == 82117);
    reveal_strlit("Rh");
    assert(symbol_code("Rh"@) == 82104);
    reveal_strlit("Pd");
    assert(symbol_code("Pd"@) == 80100);
    reveal_strlit("Ag");
    assert(symbol_code("Ag"@) == 65103);
    reveal_strlit("Cd");
    assert(symbol_code("Cd"@) == 67100);
    reveal_strlit("In");
    assert(symbol_code("In"@) == 73110);
    reveal_strlit("Sn");
    assert(symbol_code("Sn"@) == 83110);
    reveal_strlit("Sb");
    assert(symbol_code("Sb"@) == 83098);
    reveal_strlit("Te");
    assert(symbol_code("Te"@) == 84101);
    reveal_strlit("I");
    assert(symbol_code("I"@) == 73);
    reveal_strlit("Xe");
    assert(symbol_code("Xe"@) == 88101);
    reveal_strlit("Cs");
    assert(symbol_code("Cs"@) == 67115);
    reveal_strlit("Ba");
    assert(symbol_code("Ba"@) == 66097);
    reveal_strlit("Hf");
    assert(symbol_code("Hf"@) == 72102);
    reveal_strlit("Ta");
    assert(symbol_code("Ta"@) == 84097);
}

/// Symbol and atomic number are both keys of the catalog: two of its
/// elements that share either one are the same element. So a lookup by
/// symbol and a lookup by atomic number that find elements with the same
/// symbol, or the same number, have found the same element.
pub proof fn catalog_keys_identify_elements(a: Element, b: Element)
    requires
        catalog().contains(a),
        catalog().contains(b),
        a.symbol == b.symbol || a.atomic_number == b.atomic_number,
    ensures
        a == b,
{
    let i = choose|i: int| 0 <= i < catalog().len() && catalog()[i] == a;
    let j = choose|j: int| 0 <= j < catalog().len() && catalog()[j] == b;
    catalog_numbers_are_unique();
    catalog_symbols_are_unique();
    assert(catalog_entry(i) == a && catalog_entry(j) == b);
    if i < j {
        assert(catalog_entry(i).symbol != catalog_entry(j).symbol);
    } else if j < i {
        assert(catalog_entry(j).symbol != catalog_entry(i).symbol);
    }
}

} // verus!
