use stoichiometry::atoms::object::{Atom, MASS_UNITS_PER_DALTON};
use stoichiometry::atoms::service::{
    create_atomic_number_registry, create_atoms_vector, get_by_atomic_number, get_by_symbol,
    position_by_symbol, AtomRegistry, CATALOG_LEN,
};

fn daltons(atom: &Atom) -> f64 {
    atom.atomic_mass as f64 / MASS_UNITS_PER_DALTON as f64
}

#[test]
fn lookup_by_symbol_and_by_number_find_hydrogen() {
    let by_symbol = get_by_symbol("H").unwrap();
    let by_number = get_by_atomic_number(1).unwrap();
    assert!(by_symbol == by_number);
    assert_eq!(by_symbol.atomic_number, 1);
    assert_eq!(by_number.atomic_number, 1);
    assert_eq!(by_symbol.symbol, "H");
    assert_eq!(by_number.symbol, "H");
    assert_eq!(by_symbol.atomic_mass, 100_800_000);
    assert_eq!(by_number.atomic_mass, 100_800_000);
    assert!((daltons(&by_symbol) - 1.008).abs() < 1e-9);
}

#[test]
fn lookup_of_unknown_symbol_is_absent() {
    assert!(get_by_symbol("Xx").is_none());
    assert!(get_by_symbol("").is_none());
    assert!(get_by_symbol("h").is_none());
}

#[test]
fn lookup_of_unknown_number_is_absent() {
    assert!(get_by_atomic_number(0).is_none());
    assert!(get_by_atomic_number(57).is_none());
    assert!(get_by_atomic_number(71).is_none());
    assert!(get_by_atomic_number(74).is_none());
}

#[test]
fn catalog_runs_from_hydrogen_to_tantalum() {
    let atoms = create_atoms_vector();
    assert_eq!(atoms.len(), CATALOG_LEN);
    assert_eq!(atoms.len(), 58);
    assert_eq!(atoms[0].symbol, "H");
    assert_eq!(atoms[55].symbol, "Ba");
    assert_eq!(atoms[55].atomic_number, 56);
    assert_eq!(atoms[56].symbol, "Hf");
    assert_eq!(atoms[56].atomic_number, 72);
    assert_eq!(atoms[57].symbol, "Ta");
    assert_eq!(atoms[57].atomic_number, 73);
    assert_eq!(atoms[57].atomic_mass, 18_094_790_000);
}

#[test]
fn every_catalog_element_is_found_by_both_keys() {
    let atoms = create_atoms_vector();
    let places = create_atomic_number_registry(&atoms);
    assert_eq!(places.len(), atoms.len());
    for (index, atom) in atoms.iter().enumerate() {
        let by_symbol = get_by_symbol(&atom.symbol).unwrap();
        let by_number = get_by_atomic_number(atom.atomic_number).unwrap();
        assert_eq!(by_symbol.atomic_number, atom.atomic_number);
        assert_eq!(by_symbol.atomic_mass, atom.atomic_mass);
        assert_eq!(by_number.symbol, atom.symbol);
        assert_eq!(by_number.atomic_mass, atom.atomic_mass);
        assert_eq!(position_by_symbol(&atoms, &atom.symbol), Some(index));
        assert_eq!(places.get(&atom.atomic_number), Some(&index));
    }
}

#[test]
fn position_is_the_first_match() {
    let atoms = vec![Atom::new(1, 1, "A"), Atom::new(2, 2, "B"), Atom::new(1, 3, "B")];
    assert_eq!(position_by_symbol(&atoms, "B"), Some(1));
    assert_eq!(position_by_symbol(&atoms, "C"), None);
    assert_eq!(position_by_symbol(&Vec::new(), "A"), None);
}

#[test]
fn atoms_are_equal_by_symbol_alone() {
    let light = Atom::new(1, 100_800_000, "H");
    let heavy = Atom::new(1, 201_410_000, "H");
    let other = Atom::new(1, 100_800_000, "He");
    assert!(light == heavy);
    assert!(light != other);
    assert_eq!(light.to_string(), "H");
    let copy = other.clone();
    assert_eq!(copy.atomic_number, 1);
    assert_eq!(copy.atomic_mass, 100_800_000);
    assert_eq!(copy.symbol, "He");
}

#[test]
fn catalog_masses_are_in_hundred_millionths_of_a_dalton() {
    let fluorine = get_by_symbol("F").unwrap();
    assert_eq!(fluorine.atomic_mass, 1_899_840_316);
    assert!((daltons(&fluorine) - 18.99840316).abs() < 1e-9);
    let lithium = get_by_atomic_number(3).unwrap();
    assert_eq!(lithium.atomic_mass, 700_000_000);
}

#[test]
fn registry_lends_the_catalog_elements() {
    let registry = AtomRegistry::new();
    assert_eq!(registry.atoms().len(), 58);
    let iron = registry.get_by_symbol("Fe").unwrap();
    assert_eq!(iron.atomic_number, 26);
    assert_eq!(iron.atomic_mass, 5_584_000_000);
    let same = registry.get_by_atomic_number(26).unwrap();
    assert!(std::ptr::eq(iron, same));
    assert!(std::ptr::eq(iron, &registry.atoms()[25]));
    assert!(registry.get_by_symbol("Xx").is_none());
    assert!(registry.get_by_atomic_number(60).is_none());
    let owned = get_by_symbol("Fe").unwrap();
    assert!(owned == *iron);
    assert_eq!(owned.atomic_mass, iron.atomic_mass);
}

#[test]
fn number_registry_holds_the_last_place_of_each_number() {
    let atoms = vec![Atom::new(1, 1, "A"), Atom::new(2, 2, "B"), Atom::new(1, 3, "C")];
    let by_number = create_atomic_number_registry(&atoms);
    assert_eq!(by_number.len(), 2);
    assert_eq!(by_number.get(&1), Some(&2));
    assert_eq!(by_number.get(&2), Some(&1));
    assert_eq!(by_number.get(&3), None);
    assert!(create_atomic_number_registry(&Vec::new()).is_empty());
}
