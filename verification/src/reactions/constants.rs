//! Reactions that the library names.
use vstd::prelude::*;
use crate::reactions::object::{ChemicalReaction, ChemicalReactionFactor, ChemicalReactionOperand};
use crate::species::constants::SpeciesRegistry;
use crate::species::object::ChemicalSpecies;

verus! {

/// The factor of a species with a coefficient.
pub open spec fn factor_of<'a>(
    species: &'a ChemicalSpecies<'a>,
    stoichiometric_coefficient: u16,
) -> ChemicalReactionFactor<'a> {
    ChemicalReactionFactor { species, stoichiometric_coefficient }
}

/// A side of two factors.
fn operand_of_two<'a>(
    first: ChemicalReactionFactor<'a>,
    second: ChemicalReactionFactor<'a>,
) -> (operand: ChemicalReactionOperand<'a>)
    ensures
        operand.spec_factors() == seq![first, second],
{
    let mut factors: Vec<ChemicalReactionFactor<'a>> = Vec::new();
    factors.push(first);
    factors.push(second);
    assert(factors@ =~= seq![first, second]);
    ChemicalReactionOperand::new(factors)
}

/// Steam reforming of methane, as the library holds it:
/// CH4 + H2O -> CO + 2H2.
pub fn steam_methane_reforming<'a>(species: &'a SpeciesRegistry<'a>) -> (reaction:
    ChemicalReaction<'a>)
    ensures
        reaction.spec_reactants().spec_factors() == seq![
            factor_of(&species.methane, 1),
            factor_of(&species.water, 1),
        ],
        reaction.spec_products().spec_factors() == seq![
            factor_of(&species.carbon_monoxide, 1),
            factor_of(&species.hydrogen2, 2),
        ],
{
    ChemicalReaction::new(
        operand_of_two(
            ChemicalReactionFactor::new(&species.methane, 1),
            ChemicalReactionFactor::new(&species.water, 1),
        ),
        operand_of_two(
            ChemicalReactionFactor::new(&species.carbon_monoxide, 1),
            ChemicalReactionFactor::new(&species.hydrogen2, 2),
        ),
    )
}

/// The water-gas shift: CO + H2O -> CO2 + H2.
pub fn water_gas_shift<'a>(species: &'a SpeciesRegistry<'a>) -> (reaction: ChemicalReaction<'a>)
    ensures
        reaction.spec_reactants().spec_factors() == seq![
            factor_of(&species.carbon_monoxide, 1),
            factor_of(&species.water, 1),
        ],
        reaction.spec_products().spec_factors() == seq![
            factor_of(&species.carbon_dioxide, 1),
            factor_of(&species.hydrogen2, 1),
        ],
{
    ChemicalReaction::new(
        operand_of_two(
            ChemicalReactionFactor::new(&species.carbon_monoxide, 1),
            ChemicalReactionFactor::new(&species.water, 1),
        ),
        operand_of_two(
            ChemicalReactionFactor::new(&species.carbon_dioxide, 1),
            ChemicalReactionFactor::new(&species.hydrogen2, 1),
        ),
    )
}

} // verus!
