use stoichiometry::atoms::object::Atom;
use stoichiometry::atoms::service::AtomRegistry;
use stoichiometry::notation::{append_decimal, NotationError};
use stoichiometry::species::constants::{
    carbon_dioxide, carbon_monoxide, hydrogen2, methane, water, SpeciesRegistry,
};
use stoichiometry::species::object::{AtomTuple, ChemicalSpecies};

fn atom<'a>(atoms: &'a AtomRegistry, symbol: &str) -> &'a Atom {
    atoms.get_by_symbol(symbol).unwrap()
}

fn species<'a>(atoms: &'a AtomRegistry, entries: &[(&str, u16)]) -> ChemicalSpecies<'a> {
    ChemicalSpecies::new(
        entries.iter().map(|(symbol, size)| AtomTuple::new(atom(atoms, symbol), *size)).collect(),
    )
}

fn decimal(n: u16) -> String {
    let mut text = String::new();
    append_decimal(&mut text, n);
    text
}

#[test]
fn species_equality_does_not_depend_on_the_order_of_construction() {
    let atoms = AtomRegistry::new();
    let one = species(&atoms, &[("O", 1), ("H", 2)]);
    let other = species(&atoms, &[("H", 2), ("O", 1)]);
    assert!(one.eq(&other));
    assert!(other.eq(&one));
    assert!(one.eq(&one));
    assert!(one.same_composition(&other));
    assert!(other.same_composition(&one));
    assert!(one == other);
}

#[test]
fn eq_asks_that_the_left_be_contained_in_the_right() {
    let atoms = AtomRegistry::new();
    let hydrogen = species(&atoms, &[("H", 2)]);
    let water = species(&atoms, &[("H", 2), ("O", 1)]);
    let empty = species(&atoms, &[]);
    assert!(hydrogen.eq(&water));
    assert!(!water.eq(&hydrogen));
    assert!(empty.eq(&water));
    assert!(empty.eq(&empty));
    assert!(!water.eq(&empty));
}

#[test]
fn eq_finds_an_entry_by_element_and_size() {
    let atoms = AtomRegistry::new();
    let monoxide = species(&atoms, &[("C", 1), ("O", 1)]);
    let dioxide = species(&atoms, &[("C", 1), ("O", 2)]);
    assert!(!monoxide.eq(&dioxide));
    assert!(!dioxide.eq(&monoxide));
    let split = species(&atoms, &[("H", 1), ("O", 1), ("H", 1)]);
    let merged = species(&atoms, &[("H", 2), ("O", 1)]);
    assert!(!split.eq(&merged));
    assert!(!merged.eq(&split));
    let repeated = species(&atoms, &[("H", 2), ("H", 2), ("O", 1)]);
    assert!(repeated.eq(&merged));
    assert!(merged.eq(&repeated));
}

#[test]
fn same_composition_is_not_one_sided_containment() {
    let atoms = AtomRegistry::new();
    let hydrogen = species(&atoms, &[("H", 2)]);
    let water = species(&atoms, &[("H", 2), ("O", 1)]);
    assert!(!hydrogen.same_composition(&water));
    assert!(!water.same_composition(&hydrogen));
    assert!(hydrogen != water);
}

#[test]
fn species_with_different_counts_differ() {
    let atoms = AtomRegistry::new();
    let monoxide = species(&atoms, &[("C", 1), ("O", 1)]);
    let dioxide = species(&atoms, &[("C", 1), ("O", 2)]);
    assert!(!monoxide.same_composition(&dioxide));
    assert!(!dioxide.same_composition(&monoxide));
}

#[test]
fn same_composition_adds_up_entries_of_one_element() {
    let atoms = AtomRegistry::new();
    let split = species(&atoms, &[("H", 1), ("O", 1), ("H", 1)]);
    let merged = species(&atoms, &[("H", 2), ("O", 1)]);
    let repeated = species(&atoms, &[("H", 2), ("H", 2), ("O", 1)]);
    assert!(split.same_composition(&merged));
    assert!(merged.same_composition(&split));
    assert!(!repeated.same_composition(&merged));
    assert_eq!(split.count_of(atom(&atoms, "H")), 2);
    assert_eq!(repeated.count_of(atom(&atoms, "H")), 4);
}

#[test]
fn same_composition_treats_an_absent_element_as_zero() {
    let atoms = AtomRegistry::new();
    let with_zero = species(&atoms, &[("H", 2), ("O", 0)]);
    let without = species(&atoms, &[("H", 2)]);
    let empty = species(&atoms, &[]);
    let only_zero = species(&atoms, &[("He", 0)]);
    assert!(with_zero.same_composition(&without));
    assert!(without.same_composition(&with_zero));
    assert!(empty.same_composition(&only_zero));
    assert!(only_zero.same_composition(&empty));
    assert!(!empty.same_composition(&without));
    assert!(!with_zero.eq(&without));
    assert!(without.eq(&with_zero));
}

#[test]
fn species_identity_goes_by_symbol_not_by_mass() {
    let protium = Atom::new(1, 100_800_000, "H");
    let deuterium = Atom::new(1, 201_410_000, "H");
    let light = ChemicalSpecies::new(vec![AtomTuple::new(&protium, 2)]);
    let heavy = ChemicalSpecies::new(vec![AtomTuple::new(&deuterium, 2)]);
    assert!(light.same_composition(&heavy));
    assert!(light.eq(&heavy));
    assert!(heavy.eq(&light));
}

#[test]
fn atom_tuples_are_equal_by_element_and_size() {
    let atoms = AtomRegistry::new();
    let heavy = Atom::new(1, 201_410_000, "H");
    assert!(AtomTuple::new(atom(&atoms, "H"), 2) == AtomTuple::new(&heavy, 2));
    assert!(AtomTuple::new(atom(&atoms, "H"), 2) != AtomTuple::new(atom(&atoms, "H"), 1));
    assert!(AtomTuple::new(atom(&atoms, "H"), 2) != AtomTuple::new(atom(&atoms, "He"), 2));
}

#[test]
fn count_of_sums_the_sizes_for_an_element() {
    let atoms = AtomRegistry::new();
    let glucose = species(&atoms, &[("C", 6), ("H", 12), ("O", 6)]);
    assert_eq!(glucose.count_of(atom(&atoms, "C")), 6);
    assert_eq!(glucose.count_of(atom(&atoms, "H")), 12);
    assert_eq!(glucose.count_of(atom(&atoms, "O")), 6);
    assert_eq!(glucose.count_of(atom(&atoms, "N")), 0);
    let many = species(&atoms, &[("H", 65535), ("H", 65535), ("H", 2)]);
    assert_eq!(many.count_of(atom(&atoms, "H")), 131072);
}

#[test]
fn atom_tuple_keeps_its_parts() {
    let atoms = AtomRegistry::new();
    let tuple = AtomTuple::new(atom(&atoms, "Fe"), 3);
    assert_eq!(tuple.atom.symbol, "Fe");
    assert_eq!(tuple.atom.atomic_number, 26);
    assert_eq!(tuple.size, 3);
}

#[test]
fn atom_tuple_is_written_as_symbol_and_count() {
    let atoms = AtomRegistry::new();
    assert_eq!(AtomTuple::new(atom(&atoms, "H"), 2).to_string(), "H2");
    assert_eq!(AtomTuple::new(atom(&atoms, "O"), 1).to_string(), "O");
    assert_eq!(AtomTuple::new(atom(&atoms, "Na"), 10).to_string(), "Na10");
    assert_eq!(AtomTuple::new(atom(&atoms, "C"), 65535).to_string(), "C65535");
    assert_eq!(AtomTuple::new(atom(&atoms, "C"), 0).to_string(), "C");
}

#[test]
fn species_is_written_as_its_entries_in_order() {
    let atoms = AtomRegistry::new();
    assert_eq!(species(&atoms, &[("H", 2), ("O", 1)]).to_string(), Ok("H2O".to_string()));
    assert_eq!(species(&atoms, &[("O", 1), ("H", 2)]).to_string(), Ok("OH2".to_string()));
    assert_eq!(
        species(&atoms, &[("C", 6), ("H", 12), ("O", 6)]).to_string(),
        Ok("C6H12O6".to_string())
    );
    assert_eq!(species(&atoms, &[("Na", 1), ("Cl", 1)]).to_string(), Ok("NaCl".to_string()));
    assert_eq!(species(&atoms, &[("C", 100), ("H", 202)]).to_string(), Ok("C100H202".to_string()));
}

#[test]
fn species_without_entries_has_no_formula() {
    let atoms = AtomRegistry::new();
    assert_eq!(species(&atoms, &[]).to_string(), Err(NotationError::EmptySpecies));
}

#[test]
fn decimal_notation_has_no_leading_zeros() {
    assert_eq!(decimal(0), "0");
    assert_eq!(decimal(7), "7");
    assert_eq!(decimal(10), "10");
    assert_eq!(decimal(109), "109");
    assert_eq!(decimal(1000), "1000");
    assert_eq!(decimal(65535), "65535");
    for n in 0..=u16::MAX {
        assert_eq!(decimal(n), format!("{}", n));
    }
}

#[test]
fn append_decimal_keeps_what_was_there() {
    let mut text = String::from("x");
    append_decimal(&mut text, 42);
    append_decimal(&mut text, 0);
    assert_eq!(text, "x420");
}

#[test]
fn named_species_have_their_formulas() {
    let atoms = AtomRegistry::new();
    assert_eq!(hydrogen2(&atoms).to_string(), Ok("H2".to_string()));
    assert_eq!(water(&atoms).to_string(), Ok("H2O".to_string()));
    assert_eq!(carbon_monoxide(&atoms).to_string(), Ok("CO".to_string()));
    assert_eq!(methane(&atoms).to_string(), Ok("CH4".to_string()));
    assert_eq!(carbon_dioxide(&atoms).to_string(), Ok("CO2".to_string()));
}

#[test]
fn named_species_are_made_of_catalog_elements() {
    let atoms = AtomRegistry::new();
    let water = water(&atoms);
    assert_eq!(water.atom_tuples.len(), 2);
    assert_eq!(water.atom_tuples[0].atom.atomic_number, 1);
    assert_eq!(water.atom_tuples[0].atom.atomic_mass, 100_800_000);
    assert_eq!(water.atom_tuples[0].size, 2);
    assert_eq!(water.atom_tuples[1].atom.atomic_number, 8);
    assert_eq!(water.atom_tuples[1].atom.atomic_mass, 1_599_900_000);
    assert_eq!(water.atom_tuples[1].size, 1);
    let methane = methane(&atoms);
    assert_eq!(methane.count_of(atom(&atoms, "C")), 1);
    assert_eq!(methane.count_of(atom(&atoms, "H")), 4);
}

#[test]
fn named_species_are_pairwise_different() {
    let atoms = AtomRegistry::new();
    let all = [
        hydrogen2(&atoms),
        water(&atoms),
        carbon_monoxide(&atoms),
        methane(&atoms),
        carbon_dioxide(&atoms),
    ];
    for (i, one) in all.iter().enumerate() {
        for (j, other) in all.iter().enumerate() {
            assert_eq!(one.same_composition(other), i == j);
            assert_eq!(one == other, i == j);
        }
    }
}

#[test]
fn registry_holds_the_named_species() {
    let atoms = AtomRegistry::new();
    let registry = SpeciesRegistry::new(&atoms);
    assert!(registry.hydrogen2.same_composition(&hydrogen2(&atoms)));
    assert!(registry.water.same_composition(&water(&atoms)));
    assert!(registry.carbon_monoxide.same_composition(&carbon_monoxide(&atoms)));
    assert!(registry.methane.same_composition(&methane(&atoms)));
    assert!(registry.carbon_dioxide.same_composition(&carbon_dioxide(&atoms)));
    assert!(registry.water.same_composition(&species(&atoms, &[("O", 1), ("H", 2)])));
}

#[test]
fn species_compare_with_the_equality_operator() {
    let atoms = AtomRegistry::new();
    let one = species(&atoms, &[("O", 1), ("H", 2)]);
    let other = species(&atoms, &[("H", 2), ("O", 1)]);
    let peroxide = species(&atoms, &[("H", 2), ("O", 2)]);
    assert!(one == other);
    assert!(other == one);
    assert!(one != peroxide);
    assert!(peroxide != other);
}

#[test]
fn element_counts_lists_each_element_once_with_its_atoms() {
    let atoms = AtomRegistry::new();
    let spread = species(&atoms, &[("H", 1), ("O", 1), ("He", 0), ("H", 2), ("O", 0), ("C", 4)]);
    let counts: Vec<(String, u128)> = spread
        .element_counts()
        .iter()
        .map(|(atom, count)| (atom.symbol.clone(), *count))
        .collect();
    assert_eq!(
        counts,
        vec![("H".to_string(), 3), ("O".to_string(), 1), ("C".to_string(), 4)]
    );
    assert!(species(&atoms, &[]).element_counts().is_empty());
    assert!(species(&atoms, &[("H", 0)]).element_counts().is_empty());
}

#[test]
fn element_counts_agree_for_species_of_one_composition() {
    let atoms = AtomRegistry::new();
    let one = species(&atoms, &[("O", 1), ("H", 2)]);
    let other = species(&atoms, &[("H", 1), ("H", 1), ("O", 1)]);
    assert!(one == other);
    let mut left: Vec<(String, u128)> =
        one.element_counts().iter().map(|(atom, count)| (atom.symbol.clone(), *count)).collect();
    let mut right: Vec<(String, u128)> =
        other.element_counts().iter().map(|(atom, count)| (atom.symbol.clone(), *count)).collect();
    assert_eq!(left, vec![("O".to_string(), 1), ("H".to_string(), 2)]);
    assert_eq!(right, vec![("H".to_string(), 2), ("O".to_string(), 1)]);
    left.sort();
    right.sort();
    assert_eq!(left, right);
}
