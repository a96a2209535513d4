use stoichiometry::atoms::service::AtomRegistry;
use stoichiometry::notation::NotationError;
use stoichiometry::reactions::constants::{steam_methane_reforming, water_gas_shift};
use stoichiometry::reactions::object::{
    add_operands, balance_stoichiometric_coefficients, combine, sums_fit, try_combine,
    ChemicalReaction, ChemicalReactionFactor, ChemicalReactionOperand,
};
use stoichiometry::species::constants::SpeciesRegistry;
use stoichiometry::species::object::{AtomTuple, ChemicalSpecies};

fn species<'a>(atoms: &'a AtomRegistry, entries: &[(&str, u16)]) -> ChemicalSpecies<'a> {
    ChemicalSpecies::new(
        entries
            .iter()
            .map(|(symbol, size)| AtomTuple::new(atoms.get_by_symbol(symbol).unwrap(), *size))
            .collect(),
    )
}

fn operand<'a>(factors: &[(&'a ChemicalSpecies<'a>, u16)]) -> ChemicalReactionOperand<'a> {
    ChemicalReactionOperand::new(
        factors
            .iter()
            .map(|(species, coefficient)| ChemicalReactionFactor::new(species, *coefficient))
            .collect(),
    )
}

/// The factors of a side as (formula, coefficient) pairs, sorted.
fn pairs(side: &ChemicalReactionOperand) -> Vec<(String, u16)> {
    let mut pairs: Vec<(String, u16)> = side
        .factors()
        .iter()
        .map(|factor| (factor.species.to_string().unwrap(), factor.stoichiometric_coefficient))
        .collect();
    pairs.sort();
    pairs
}

fn expect(expected: &[(&str, u16)]) -> Vec<(String, u16)> {
    let mut pairs: Vec<(String, u16)> =
        expected.iter().map(|(formula, coefficient)| (formula.to_string(), *coefficient)).collect();
    pairs.sort();
    pairs
}

#[test]
fn reforming_and_shift_combine_to_their_net_reaction() {
    let atoms = AtomRegistry::new();
    let registry = SpeciesRegistry::new(&atoms);
    let reforming = steam_methane_reforming(&registry);
    let shift = water_gas_shift(&registry);
    let net = combine(&reforming, &shift);
    assert_eq!(pairs(net.reactants()), expect(&[("CH4", 1), ("H2O", 2)]));
    assert_eq!(pairs(net.products()), expect(&[("CO2", 1), ("H2", 3)]));
    assert_eq!(net.reactants().coefficient_of(&registry.methane), 1);
    assert_eq!(net.reactants().coefficient_of(&registry.water), 2);
    assert_eq!(net.reactants().coefficient_of(&registry.carbon_monoxide), 0);
    assert_eq!(net.products().coefficient_of(&registry.carbon_dioxide), 1);
    assert_eq!(net.products().coefficient_of(&registry.hydrogen2), 3);
    assert_eq!(net.products().coefficient_of(&registry.carbon_monoxide), 0);
}

#[test]
fn combination_does_not_depend_on_the_order_of_the_reactions() {
    let atoms = AtomRegistry::new();
    let registry = SpeciesRegistry::new(&atoms);
    let reforming = steam_methane_reforming(&registry);
    let shift = water_gas_shift(&registry);
    let one = combine(&reforming, &shift);
    let other = combine(&shift, &reforming);
    assert_eq!(pairs(one.reactants()), pairs(other.reactants()));
    assert_eq!(pairs(one.products()), pairs(other.products()));
}

#[test]
fn combination_leaves_its_arguments_as_they_were() {
    let atoms = AtomRegistry::new();
    let registry = SpeciesRegistry::new(&atoms);
    let reforming = steam_methane_reforming(&registry);
    let shift = water_gas_shift(&registry);
    let _ = combine(&reforming, &shift);
    assert_eq!(reforming.to_string(), Ok("CH4 + H2O -> CO + 2H2".to_string()));
    assert_eq!(shift.to_string(), Ok("CO + H2O -> CO2 + H2".to_string()));
}

#[test]
fn combined_sides_hold_no_zero_coefficient() {
    let atoms = AtomRegistry::new();
    let a = species(&atoms, &[("H", 2)]);
    let b = species(&atoms, &[("O", 2)]);
    let c = species(&atoms, &[("H", 2), ("O", 1)]);
    let first = ChemicalReaction::new(operand(&[(&a, 2), (&b, 1), (&c, 0)]), operand(&[(&c, 2)]));
    let second = ChemicalReaction::new(operand(&[(&c, 2)]), operand(&[(&a, 2), (&b, 1), (&a, 0)]));
    let net = combine(&first, &second);
    for factor in net.reactants().factors().iter().chain(net.products().factors().iter()) {
        assert!(factor.stoichiometric_coefficient > 0);
    }
    assert!(net.reactants().factors().is_empty());
    assert!(net.products().factors().is_empty());
}

#[test]
fn merge_sums_coefficients_by_species() {
    let atoms = AtomRegistry::new();
    let water = species(&atoms, &[("H", 2), ("O", 1)]);
    let water_again = species(&atoms, &[("O", 1), ("H", 2)]);
    let methane = species(&atoms, &[("C", 1), ("H", 4)]);
    let oxygen = species(&atoms, &[("O", 2)]);
    let left = operand(&[(&water, 2), (&methane, 1)]);
    let right = operand(&[(&oxygen, 3), (&water_again, 5)]);
    let sum = add_operands(&left, &right);
    assert_eq!(sum.factors().len(), 3);
    assert_eq!(sum.coefficient_of(&water), 7);
    assert_eq!(sum.coefficient_of(&methane), 1);
    assert_eq!(sum.coefficient_of(&oxygen), 3);
    assert_eq!(sum.coefficient_of(&species(&atoms, &[("N", 2)])), 0);
}

#[test]
fn merge_is_commutative() {
    let atoms = AtomRegistry::new();
    let a = species(&atoms, &[("H", 2)]);
    let b = species(&atoms, &[("O", 2)]);
    let c = species(&atoms, &[("H", 2), ("O", 1)]);
    let x = operand(&[(&a, 2), (&b, 1)]);
    let y = operand(&[(&c, 2), (&a, 5), (&b, 0)]);
    let xy = add_operands(&x, &y);
    let yx = add_operands(&y, &x);
    assert_eq!(pairs(&xy), pairs(&yx));
    assert_eq!(pairs(&xy), expect(&[("H2", 7), ("O2", 1), ("H2O", 2)]));
}

#[test]
fn merge_is_associative() {
    let atoms = AtomRegistry::new();
    let a = species(&atoms, &[("H", 2)]);
    let b = species(&atoms, &[("O", 2)]);
    let c = species(&atoms, &[("H", 2), ("O", 1)]);
    let x = operand(&[(&a, 2), (&b, 1)]);
    let y = operand(&[(&c, 2), (&a, 5)]);
    let z = operand(&[(&b, 4), (&c, 1), (&c, 1)]);
    let left_first = add_operands(&add_operands(&x, &y), &z);
    let right_first = add_operands(&x, &add_operands(&y, &z));
    assert_eq!(pairs(&left_first), pairs(&right_first));
    assert_eq!(pairs(&left_first), expect(&[("H2", 7), ("O2", 5), ("H2O", 4)]));
}

#[test]
fn merge_adds_up_repeated_factors_and_keeps_zero_coefficients() {
    let atoms = AtomRegistry::new();
    let a = species(&atoms, &[("H", 2)]);
    let b = species(&atoms, &[("O", 2)]);
    let left = operand(&[(&a, 1), (&a, 2), (&b, 0)]);
    let right = operand(&[]);
    let sum = add_operands(&left, &right);
    assert_eq!(pairs(&sum), expect(&[("H2", 3), ("O2", 0)]));
    let nothing = add_operands(&right, &right);
    assert!(nothing.factors().is_empty());
}

#[test]
fn merge_reaches_the_largest_coefficient() {
    let atoms = AtomRegistry::new();
    let a = species(&atoms, &[("H", 2)]);
    let left = operand(&[(&a, 65534)]);
    let right = operand(&[(&a, 1)]);
    assert!(sums_fit(&left, &right));
    assert_eq!(pairs(&add_operands(&left, &right)), expect(&[("H2", 65535)]));
}

#[test]
fn sums_that_do_not_fit_are_found_out() {
    let atoms = AtomRegistry::new();
    let a = species(&atoms, &[("H", 2)]);
    let b = species(&atoms, &[("O", 2)]);
    let left = operand(&[(&b, 1), (&a, 65535)]);
    let right = operand(&[(&a, 1)]);
    assert!(!sums_fit(&left, &right));
    assert!(!sums_fit(&right, &left));
    let twice = operand(&[(&a, 40000), (&a, 40000)]);
    assert!(!sums_fit(&twice, &operand(&[])));
    assert!(sums_fit(&operand(&[]), &operand(&[])));
    let reaction = ChemicalReaction::new(left, operand(&[(&b, 1)]));
    let other = ChemicalReaction::new(right, operand(&[(&b, 1)]));
    assert!(try_combine(&reaction, &other).is_none());
    assert!(try_combine(&other, &reaction).is_none());
    let products_overflow = ChemicalReaction::new(operand(&[(&b, 1)]), operand(&[(&a, 65535)]));
    let one_more = ChemicalReaction::new(operand(&[(&b, 1)]), operand(&[(&a, 1)]));
    assert!(try_combine(&products_overflow, &one_more).is_none());
}

#[test]
fn try_combine_gives_what_combine_gives() {
    let atoms = AtomRegistry::new();
    let registry = SpeciesRegistry::new(&atoms);
    let reforming = steam_methane_reforming(&registry);
    let shift = water_gas_shift(&registry);
    let net = try_combine(&reforming, &shift).unwrap();
    assert_eq!(pairs(net.reactants()), expect(&[("CH4", 1), ("H2O", 2)]));
    assert_eq!(pairs(net.products()), expect(&[("CO2", 1), ("H2", 3)]));
}

#[test]
fn balance_takes_the_smaller_coefficient_off_both_sides() {
    let atoms = AtomRegistry::new();
    let x = species(&atoms, &[("H", 2)]);
    let y = species(&atoms, &[("O", 2)]);
    let z = species(&atoms, &[("N", 2)]);
    let w = species(&atoms, &[("C", 1)]);
    let v = species(&atoms, &[("S", 1)]);
    let mut reactants = operand(&[(&x, 5), (&y, 2), (&z, 3), (&v, 4)]);
    let mut products = operand(&[(&z, 7), (&x, 2), (&y, 2), (&w, 1)]);
    balance_stoichiometric_coefficients(&mut reactants, &mut products);
    let left: Vec<u16> = reactants.factors().iter().map(|f| f.stoichiometric_coefficient).collect();
    let right: Vec<u16> = products.factors().iter().map(|f| f.stoichiometric_coefficient).collect();
    assert_eq!(left, vec![3, 0, 0, 4]);
    assert_eq!(right, vec![4, 0, 0, 1]);
    assert!(reactants.factors()[0].species.same_composition(&x));
    assert!(reactants.factors()[3].species.same_composition(&v));
    assert!(products.factors()[0].species.same_composition(&z));
    assert!(products.factors()[3].species.same_composition(&w));
}

#[test]
fn combination_cancels_partly_where_coefficients_differ() {
    let atoms = AtomRegistry::new();
    let x = species(&atoms, &[("H", 2)]);
    let y = species(&atoms, &[("O", 2)]);
    let first = ChemicalReaction::new(operand(&[(&x, 5)]), operand(&[(&y, 1)]));
    let second = ChemicalReaction::new(operand(&[(&y, 4)]), operand(&[(&x, 2)]));
    let net = combine(&first, &second);
    assert_eq!(pairs(net.reactants()), expect(&[("H2", 3), ("O2", 3)]));
    assert!(net.products().factors().is_empty());
}

#[test]
fn reactions_without_common_species_are_joined() {
    let atoms = AtomRegistry::new();
    let a = species(&atoms, &[("H", 2)]);
    let b = species(&atoms, &[("O", 2)]);
    let c = species(&atoms, &[("N", 2)]);
    let d = species(&atoms, &[("C", 1)]);
    let first = ChemicalReaction::new(operand(&[(&a, 1)]), operand(&[(&b, 2)]));
    let second = ChemicalReaction::new(operand(&[(&c, 3)]), operand(&[(&d, 4)]));
    let net = combine(&first, &second);
    assert_eq!(pairs(net.reactants()), expect(&[("H2", 1), ("N2", 3)]));
    assert_eq!(pairs(net.products()), expect(&[("O2", 2), ("C", 4)]));
}

#[test]
fn self_combination_of_a_mirrored_reaction_cancels_everything() {
    let atoms = AtomRegistry::new();
    let a = species(&atoms, &[("H", 2)]);
    let b = species(&atoms, &[("O", 2)]);
    let mirrored =
        ChemicalReaction::new(operand(&[(&a, 2), (&b, 1)]), operand(&[(&b, 1), (&a, 2)]));
    let net = combine(&mirrored, &mirrored);
    assert!(net.reactants().factors().is_empty());
    assert!(net.products().factors().is_empty());
    assert_eq!(net.to_string(), Err(NotationError::EmptyOperand));
}

#[test]
fn self_combination_of_another_reaction_doubles_what_does_not_cancel() {
    let atoms = AtomRegistry::new();
    let registry = SpeciesRegistry::new(&atoms);
    let reforming = steam_methane_reforming(&registry);
    let doubled = combine(&reforming, &reforming);
    assert_eq!(pairs(doubled.reactants()), expect(&[("CH4", 2), ("H2O", 2)]));
    assert_eq!(pairs(doubled.products()), expect(&[("CO", 2), ("H2", 4)]));
    let a = species(&atoms, &[("H", 2)]);
    let b = species(&atoms, &[("O", 2)]);
    let lopsided =
        ChemicalReaction::new(operand(&[(&a, 3), (&b, 1)]), operand(&[(&a, 1), (&b, 1)]));
    let net = combine(&lopsided, &lopsided);
    assert_eq!(pairs(net.reactants()), expect(&[("H2", 4)]));
    assert!(net.products().factors().is_empty());
}

#[test]
fn positive_factors_drops_zero_coefficients_and_keeps_the_order() {
    let atoms = AtomRegistry::new();
    let a = species(&atoms, &[("H", 2)]);
    let b = species(&atoms, &[("O", 2)]);
    let c = species(&atoms, &[("N", 2)]);
    let side = operand(&[(&a, 0), (&b, 2), (&c, 0), (&c, 1), (&a, 3)]);
    let kept = side.positive_factors();
    let formulas: Vec<String> =
        kept.factors().iter().map(|f| f.species.to_string().unwrap()).collect();
    let coefficients: Vec<u16> =
        kept.factors().iter().map(|f| f.stoichiometric_coefficient).collect();
    assert_eq!(formulas, vec!["O2", "N2", "H2"]);
    assert_eq!(coefficients, vec![2, 1, 3]);
    assert_eq!(side.factors().len(), 5);
}

#[test]
fn coefficient_of_sums_the_factors_of_a_species() {
    let atoms = AtomRegistry::new();
    let a = species(&atoms, &[("H", 2)]);
    let b = species(&atoms, &[("O", 2)]);
    let side = operand(&[(&a, 65535), (&b, 2), (&a, 65535), (&a, 1)]);
    assert_eq!(side.coefficient_of(&a), 131071);
    assert_eq!(side.coefficient_of(&b), 2);
    assert_eq!(side.coefficient_of(&species(&atoms, &[("H", 1), ("H", 1)])), 131071);
    assert_eq!(side.coefficient_of(&species(&atoms, &[])), 0);
}

#[test]
fn factor_keeps_its_parts() {
    let atoms = AtomRegistry::new();
    let water = species(&atoms, &[("H", 2), ("O", 1)]);
    let factor = ChemicalReactionFactor::new(&water, 7);
    assert!(factor.species.same_composition(&water));
    assert_eq!(factor.stoichiometric_coefficient, 7);
    let copy = factor;
    assert_eq!(copy.stoichiometric_coefficient, factor.stoichiometric_coefficient);
}

#[test]
fn factor_is_written_with_its_coefficient_unless_it_is_one() {
    let atoms = AtomRegistry::new();
    let hydrogen = species(&atoms, &[("H", 2)]);
    let oxygen = species(&atoms, &[("O", 2)]);
    assert_eq!(ChemicalReactionFactor::new(&hydrogen, 2).to_string(), Ok("2H2".to_string()));
    assert_eq!(ChemicalReactionFactor::new(&oxygen, 1).to_string(), Ok("O2".to_string()));
    assert_eq!(ChemicalReactionFactor::new(&oxygen, 0).to_string(), Ok("0O2".to_string()));
    assert_eq!(ChemicalReactionFactor::new(&oxygen, 12).to_string(), Ok("12O2".to_string()));
    let nothing = species(&atoms, &[]);
    assert_eq!(
        ChemicalReactionFactor::new(&nothing, 2).to_string(),
        Err(NotationError::EmptySpecies)
    );
}

#[test]
fn operand_is_written_as_its_factors_joined_by_plus() {
    let atoms = AtomRegistry::new();
    let hydrogen = species(&atoms, &[("H", 2)]);
    let oxygen = species(&atoms, &[("O", 2)]);
    let water = species(&atoms, &[("H", 2), ("O", 1)]);
    assert_eq!(operand(&[(&hydrogen, 2), (&oxygen, 1)]).to_string(), Ok("2H2 + O2".to_string()));
    assert_eq!(operand(&[(&water, 2)]).to_string(), Ok("2H2O".to_string()));
    assert_eq!(
        operand(&[(&water, 1), (&hydrogen, 3), (&oxygen, 10)]).to_string(),
        Ok("H2O + 3H2 + 10O2".to_string())
    );
}

#[test]
fn operand_without_factors_has_no_notation() {
    assert_eq!(operand(&[]).to_string(), Err(NotationError::EmptyOperand));
}

#[test]
fn operand_with_an_empty_species_has_no_notation() {
    let atoms = AtomRegistry::new();
    let hydrogen = species(&atoms, &[("H", 2)]);
    let nothing = species(&atoms, &[]);
    assert_eq!(
        operand(&[(&hydrogen, 2), (&nothing, 1)]).to_string(),
        Err(NotationError::EmptySpecies)
    );
    assert_eq!(operand(&[(&nothing, 1)]).to_string(), Err(NotationError::EmptySpecies));
}

#[test]
fn reaction_is_written_with_an_arrow() {
    let atoms = AtomRegistry::new();
    let hydrogen = species(&atoms, &[("H", 2)]);
    let oxygen = species(&atoms, &[("O", 2)]);
    let water = species(&atoms, &[("H", 2), ("O", 1)]);
    let reaction =
        ChemicalReaction::new(operand(&[(&hydrogen, 2), (&oxygen, 1)]), operand(&[(&water, 2)]));
    assert_eq!(reaction.to_string(), Ok("2H2 + O2 -> 2H2O".to_string()));
}

#[test]
fn reaction_reports_the_fault_of_its_reactants_first() {
    let atoms = AtomRegistry::new();
    let hydrogen = species(&atoms, &[("H", 2)]);
    let nothing = species(&atoms, &[]);
    let empty_left = ChemicalReaction::new(operand(&[]), operand(&[(&nothing, 1)]));
    assert_eq!(empty_left.to_string(), Err(NotationError::EmptyOperand));
    let empty_right = ChemicalReaction::new(operand(&[(&nothing, 1)]), operand(&[]));
    assert_eq!(empty_right.to_string(), Err(NotationError::EmptySpecies));
    let only_right = ChemicalReaction::new(operand(&[(&hydrogen, 1)]), operand(&[]));
    assert_eq!(only_right.to_string(), Err(NotationError::EmptyOperand));
}

#[test]
fn named_reactions_are_as_written() {
    let atoms = AtomRegistry::new();
    let registry = SpeciesRegistry::new(&atoms);
    let reforming = steam_methane_reforming(&registry);
    assert_eq!(reforming.to_string(), Ok("CH4 + H2O -> CO + 2H2".to_string()));
    assert_eq!(reforming.reactants().factors().len(), 2);
    assert_eq!(reforming.products().factors().len(), 2);
    let shift = water_gas_shift(&registry);
    assert_eq!(shift.to_string(), Ok("CO + H2O -> CO2 + H2".to_string()));
    let net = combine(&reforming, &shift);
    let text = net.to_string().unwrap();
    let sides: Vec<&str> = text.split(" -> ").collect();
    assert_eq!(sides.len(), 2);
    let mut left: Vec<&str> = sides[0].split(" + ").collect();
    let mut right: Vec<&str> = sides[1].split(" + ").collect();
    left.sort();
    right.sort();
    assert_eq!(left, vec!["2H2O", "CH4"]);
    assert_eq!(right, vec!["3H2", "CO2"]);
}

#[test]
fn merged_factors_refer_to_species_of_the_operands() {
    let atoms = AtomRegistry::new();
    let water = species(&atoms, &[("H", 2), ("O", 1)]);
    let water_again = species(&atoms, &[("O", 1), ("H", 2)]);
    let methane = species(&atoms, &[("C", 1), ("H", 4)]);
    let given = [&water, &water_again, &methane];
    let left = operand(&[(&water, 2), (&methane, 1)]);
    let right = operand(&[(&water_again, 5)]);
    let sum = add_operands(&left, &right);
    assert_eq!(sum.factors().len(), 2);
    for factor in sum.factors() {
        assert!(given.iter().any(|species| std::ptr::eq(*species, factor.species)));
    }
    let reaction = ChemicalReaction::new(left, operand(&[(&methane, 1)]));
    let other = ChemicalReaction::new(right, operand(&[(&water, 1)]));
    let net = combine(&reaction, &other);
    assert_eq!(net.reactants().coefficient_of(&water), 6);
    assert!(net.products().factors().is_empty());
    for factor in net.reactants().factors() {
        assert!(given.iter().any(|species| std::ptr::eq(*species, factor.species)));
    }
}
