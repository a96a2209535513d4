//! Reaction factors, operands and reactions, and the combination of two
//! reactions into their net reaction.
use vstd::prelude::*;
use vstd::string::*;
use crate::notation::{append_decimal, decimal, NotationError};
use crate::reactions::algebra::{
    cancelled, coefficient, doubled_sides_cancel_iff_mirrored, fits_u16, merge_is_associative,
    merge_is_commutative, merged, net, positive,
};
use crate::species::object::{formula_text, ChemicalSpecies, Composition};

verus! {

/// A species together with its stoichiometric coefficient.
#[derive(Debug, Clone, Copy)]
pub struct ChemicalReactionFactor<'a> {
    pub species: &'a ChemicalSpecies<'a>,
    pub stoichiometric_coefficient: u16,
}

impl<'a> ChemicalReactionFactor<'a> {
    pub fn new(species: &'a ChemicalSpecies<'a>, stoichiometric_coefficient: u16) -> (factor:
        ChemicalReactionFactor<'a>)
        ensures
            factor.species == species,
            factor.stoichiometric_coefficient == stoichiometric_coefficient,
    {
        ChemicalReactionFactor { species, stoichiometric_coefficient }
    }

    /// The factor as text, such as `2H2`, or `O2` where the coefficient is
    /// one.
    ///
    /// A factor of a species without entries has no notation.
    pub fn to_string(&self) -> (notation: Result<String, NotationError>)
        ensures
            match notation {
                Ok(text) => self.species.atom_tuples.len() > 0 && text@ == factor_text(*self),
                Err(error) => self.species.atom_tuples.len() == 0 && error
                    == NotationError::EmptySpecies,
            },
    {
        match self.species.to_string() {
            Ok(formula) => {
                if self.stoichiometric_coefficient == 1 {
                    Ok(formula)
                } else {
                    let mut text = String::new();
                    append_decimal(&mut text, self.stoichiometric_coefficient);
                    text.append(formula.as_str());
                    Ok(text)
                }
            },
            Err(error) => Err(error),
        }
    }
}

/// How a factor is written: the coefficient, unless it is one, directly
/// followed by the formula of the species.
pub open spec fn factor_text(factor: ChemicalReactionFactor) -> Seq<char> {
    if factor.stoichiometric_coefficient == 1 {
        formula_text(factor.species.atom_tuples@)
    } else {
        decimal(factor.stoichiometric_coefficient as nat) + formula_text(
            factor.species.atom_tuples@,
        )
    }
}

/// How one side of a reaction is written: its factors in their order, joined
/// by `" + "`.
pub open spec fn side_text(factors: Seq<ChemicalReactionFactor>) -> Seq<char>
    decreases factors.len(),
{
    if factors.len() == 0 {
        Seq::empty()
    } else if factors.len() == 1 {
        factor_text(factors[0])
    } else {
        side_text(factors.drop_last()) + " + "@ + factor_text(factors.last())
    }
}

/// Why one side of a reaction cannot be written, if it cannot: it has no
/// factor, or one of its factors is of a species without entries.
pub open spec fn side_fault(factors: Seq<ChemicalReactionFactor>) -> Option<NotationError> {
    if factors.len() == 0 {
        Some(NotationError::EmptyOperand)
    } else if exists|i: int|
        0 <= i < factors.len() && (#[trigger] factors[i]).species.atom_tuples.len() == 0 {
        Some(NotationError::EmptySpecies)
    } else {
        None
    }
}

/// What one factor adds to the coefficient of a species: its own coefficient
/// if it is a factor of that species, nothing otherwise.
pub open spec fn share(factor: ChemicalReactionFactor, species: Composition) -> nat {
    if factor.species@ == species {
        factor.stoichiometric_coefficient as nat
    } else {
        0
    }
}

/// The coefficient of a species in a list of factors: the sum of the
/// coefficients of its factors.
pub open spec fn coefficient_total(
    factors: Seq<ChemicalReactionFactor>,
    species: Composition,
) -> nat
    decreases factors.len(),
{
    if factors.len() == 0 {
        0
    } else {
        coefficient_total(factors.drop_last(), species) + share(factors.last(), species)
    }
}

/// Whether some factor of the list is a factor of the species.
pub open spec fn lists(factors: Seq<ChemicalReactionFactor>, species: Composition) -> bool {
    exists|i: int| 0 <= i < factors.len() && (#[trigger] factors[i]).species@ == species
}

/// The side of a reaction that a list of factors denotes: each species that
/// the list names, with its coefficient.
pub open spec fn coefficients(factors: Seq<ChemicalReactionFactor>) -> Map<Composition, nat> {
    Map::new(
        |species: Composition| lists(factors, species),
        |species: Composition| coefficient_total(factors, species),
    )
}

/// No two factors of the list are factors of the same species.
pub open spec fn distinct_species(factors: Seq<ChemicalReactionFactor>) -> bool {
    forall|i: int, j: int|
        0 <= i < j < factors.len() ==> (#[trigger] factors[i]).species@ != (
        #[trigger] factors[j]).species@
}

/// No factor of the list has coefficient zero.
pub open spec fn no_zero_coefficient(factors: Seq<ChemicalReactionFactor>) -> bool {
    forall|i: int|
        0 <= i < factors.len() ==> (#[trigger] factors[i]).stoichiometric_coefficient > 0
}

proof fn lemma_total_push(
    factors: Seq<ChemicalReactionFactor>,
    factor: ChemicalReactionFactor,
    species: Composition,
)
    ensures
        coefficient_total(factors.push(factor), species) == coefficient_total(factors, species)
            + share(factor, species),
{
    assert(factors.push(factor).drop_last() =~= factors);
}

proof fn lemma_total_unlisted(factors: Seq<ChemicalReactionFactor>, species: Composition)
    requires
        !lists(factors, species),
    ensures
        coefficient_total(factors, species) == 0,
    decreases factors.len(),
{
    if factors.len() > 0 {
        let rest = factors.drop_last();
        assert(factors[factors.len() - 1].species@ != species);
        assert(!lists(rest, species)) by {
            if lists(rest, species) {
                let i = choose|i: int|
                    0 <= i < rest.len() && (#[trigger] rest[i]).species@ == species;
                assert(factors[i].species@ == species);
            }
        }
        lemma_total_unlisted(rest, species);
    }
}

/// The coefficient that the denoted side gives a species is the sum over the
/// list, whether the list names the species or not.
pub proof fn lemma_coefficient_is_total(factors: Seq<ChemicalReactionFactor>, species: Composition)
    ensures
        coefficient(coefficients(factors), species) == coefficient_total(factors, species),
{
    if !lists(factors, species) {
        lemma_total_unlisted(factors, species);
    }
}

proof fn lemma_total_update(
    factors: Seq<ChemicalReactionFactor>,
    j: int,
    factor: ChemicalReactionFactor,
    species: Composition,
)
    requires
        0 <= j < factors.len(),
    ensures
        coefficient_total(factors.update(j, factor), species) + share(factors[j], species)
            == coefficient_total(factors, species) + share(factor, species),
    decreases factors.len(),
{
    let updated = factors.update(j, factor);
    if j == factors.len() - 1 {
        assert(updated.drop_last() =~= factors.drop_last());
    } else {
        assert(updated.drop_last() =~= factors.drop_last().update(j, factor));
        lemma_total_update(factors.drop_last(), j, factor, species);
    }
}

proof fn lemma_total_covers_member(factors: Seq<ChemicalReactionFactor>, j: int)
    requires
        0 <= j < factors.len(),
    ensures
        factors[j].stoichiometric_coefficient <= coefficient_total(factors, factors[j].species@),
    decreases factors.len(),
{
    if j < factors.len() - 1 {
        lemma_total_covers_member(factors.drop_last(), j);
    }
}

proof fn lemma_total_of_prefix(factors: Seq<ChemicalReactionFactor>, i: int, species: Composition)
    requires
        0 <= i <= factors.len(),
    ensures
        coefficient_total(factors.take(i), species) <= coefficient_total(factors, species),
    decreases factors.len(),
{
    if i == factors.len() {
        assert(factors.take(i) =~= factors);
    } else {
        assert(factors.drop_last().take(i) =~= factors.take(i));
        lemma_total_of_prefix(factors.drop_last(), i, species);
    }
}

proof fn lemma_total_of_distinct(factors: Seq<ChemicalReactionFactor>, j: int)
    requires
        distinct_species(factors),
        0 <= j < factors.len(),
    ensures
        coefficient_total(factors, factors[j].species@) == factors[j].stoichiometric_coefficient,
    decreases factors.len(),
{
    let species = factors[j].species@;
    let rest = factors.drop_last();
    if j == factors.len() - 1 {
        assert(!lists(rest, species)) by {
            if lists(rest, species) {
                let i = choose|i: int|
                    0 <= i < rest.len() && (#[trigger] rest[i]).species@ == species;
                assert(factors[i].species@ == species);
            }
        }
        lemma_total_unlisted(rest, species);
    } else {
        assert(factors[j].species@ != factors[factors.len() - 1].species@);
        assert(rest[j] == factors[j]);
        lemma_total_of_distinct(rest, j);
    }
}

/// One side of a reaction: its factors, in the order they were given.
///
/// Mathematically an operand is the map returned by the view: each species
/// that a factor names, with the sum of the coefficients of its factors. An
/// operand with one factor per species [`has_distinct_species`]; one that in
/// addition holds no zero coefficient [`is_canonical`].
///
/// [`has_distinct_species`]: ChemicalReactionOperand::has_distinct_species
/// [`is_canonical`]: ChemicalReactionOperand::is_canonical
#[derive(Debug)]
pub struct ChemicalReactionOperand<'a> {
    factors: Vec<ChemicalReactionFactor<'a>>,
}

impl<'a> View for ChemicalReactionOperand<'a> {
    type V = Map<Composition, nat>;

    open spec fn view(&self) -> Map<Composition, nat> {
        coefficients(self.spec_factors())
    }
}

impl<'a> ChemicalReactionOperand<'a> {
    /// The factors of the operand, in order.
    pub closed spec fn spec_factors(&self) -> Seq<ChemicalReactionFactor<'a>> {
        self.factors@
    }

    /// No species has more than one factor.
    pub open spec fn has_distinct_species(&self) -> bool {
        distinct_species(self.spec_factors())
    }

    /// One factor per species, and none with coefficient zero: the factors
    /// are then exactly the (species, coefficient) pairs of the view.
    pub open spec fn is_canonical(&self) -> bool {
        distinct_species(self.spec_factors()) && no_zero_coefficient(self.spec_factors())
    }

    pub fn new(factors: Vec<ChemicalReactionFactor<'a>>) -> (operand: ChemicalReactionOperand<'a>)
        ensures
            operand.spec_factors() == factors@,
    {
        ChemicalReactionOperand { factors }
    }

    /// The factors of the operand, in order.
    pub fn factors(&self) -> (factors: &Vec<ChemicalReactionFactor<'a>>)
        ensures
            factors@ == self.spec_factors(),
    {
        &self.factors
    }

    /// The side as text, such as `CH4 + 2H2O`.
    ///
    /// A side without factors has no notation, nor has one with a factor of
    /// a species without entries.
    pub fn to_string(&self) -> (notation: Result<String, NotationError>)
        ensures
            match notation {
                Ok(text) => side_fault(self.spec_factors()) is None && text@ == side_text(
                    self.spec_factors(),
                ),
                Err(error) => side_fault(self.spec_factors()) == Some(error),
            },
    {
        if self.factors.len() == 0 {
            return Err(NotationError::EmptyOperand);
        }
        let mut text = String::new();
        let mut i: usize = 0;
        while i < self.factors.len()
            invariant
                i <= self.factors.len(),
                text@ == side_text(self.factors@.take(i as int)),
                forall|k: int|
                    0 <= k < i ==> (#[trigger] self.factors@[k]).species.atom_tuples.len() > 0,
            decreases self.factors.len() - i,
        {
            match self.factors[i].to_string() {
                Ok(factor) => {
                    if i > 0 {
                        text.append(" + ");
                    }
                    text.append(factor.as_str());
                },
                Err(error) => {
                    return Err(error);
                },
            }
            proof {
                let seen = self.factors@.take(i + 1);
                assert(seen.drop_last() =~= self.factors@.take(i as int));
                assert(seen.last() == self.factors@[i as int]);
                if i == 0 {
                    assert(text@ =~= factor_text(seen[0]));
                }
            }
            i = i + 1;
        }
        proof {
            assert(self.factors@.take(i as int) =~= self.factors@);
        }
        Ok(text)
    }

    /// The coefficient of a species on this side: the sum of the coefficients
    /// of its factors, zero if it has none.
    ///
    /// The result is wide enough for any operand: at most `usize::MAX` factors
    /// with a coefficient of at most `u16::MAX` each.
    pub fn coefficient_of(&self, species: &ChemicalSpecies) -> (total: u128)
        ensures
            total == coefficient(self@, species@),
    {
        let mut total: u128 = 0;
        let mut i: usize = 0;
        while i < self.factors.len()
            invariant
                i <= self.factors.len(),
                total == coefficient_total(self.factors@.take(i as int), species@),
                total <= i * 0xffff,
            decreases self.factors.len() - i,
        {
            proof {
                assert(self.factors@.take(i + 1) =~= self.factors@.take(i as int).push(
                    self.factors@[i as int],
                ));
                lemma_total_push(self.factors@.take(i as int), self.factors@[i as int], species@);
            }
            if self.factors[i].species.same_composition(species) {
                total = total + self.factors[i].stoichiometric_coefficient as u128;
            }
            i = i + 1;
        }
        proof {
            assert(self.factors@.take(i as int) =~= self.factors@);
            lemma_coefficient_is_total(self.factors@, species@);
        }
        total
    }
}

/// Some factor of `source` holds the very species of `factor`: the same
/// entries, not only the same composition.
pub open spec fn holds_species_of(
    source: Seq<ChemicalReactionFactor>,
    factor: ChemicalReactionFactor,
) -> bool {
    exists|j: int| 0 <= j < source.len() && (#[trigger] source[j]).species == factor.species
}

/// Every factor of the list has its species from a factor of `source`.
pub open spec fn draws_on(
    factors: Seq<ChemicalReactionFactor>,
    source: Seq<ChemicalReactionFactor>,
) -> bool {
    forall|k: int| 0 <= k < factors.len() ==> holds_species_of(source, #[trigger] factors[k])
}

proof fn lemma_draws_on_through(
    factors: Seq<ChemicalReactionFactor>,
    between: Seq<ChemicalReactionFactor>,
    source: Seq<ChemicalReactionFactor>,
)
    requires
        draws_on(factors, between),
        draws_on(between, source),
    ensures
        draws_on(factors, source),
{
    assert forall|k: int| 0 <= k < factors.len() implies holds_species_of(
        source,
        #[trigger] factors[k],
    ) by {
        let m = choose|m: int|
            0 <= m < between.len() && (#[trigger] between[m]).species == factors[k].species;
        let j = choose|j: int|
            0 <= j < source.len() && (#[trigger] source[j]).species == between[m].species;
        assert(source[j].species == factors[k].species);
    }
}

/// The index of a factor of the given species, if the list has one.
fn position_of<'a>(factors: &Vec<ChemicalReactionFactor<'a>>, species: &ChemicalSpecies) -> (found:
    Option<usize>)
    ensures
        match found {
            Some(j) => j < factors.len() && factors@[j as int].species@ == species@,
            None => !lists(factors@, species@),
        },
{
    let mut j: usize = 0;
    while j < factors.len()
        invariant
            j <= factors.len(),
            forall|k: int| 0 <= k < j ==> (#[trigger] factors@[k]).species@ != species@,
        decreases factors.len() - j,
    {
        if factors[j].species.same_composition(species) {
            return Some(j);
        }
        j = j + 1;
    }
    None
}

/// Adds every factor of `factors` to the running sums: onto the factor of the
/// same species where `sums` has one, as a new factor at the end otherwise.
fn accumulate<'a>(
    sums: &mut Vec<ChemicalReactionFactor<'a>>,
    factors: &Vec<ChemicalReactionFactor<'a>>,
)
    requires
        distinct_species(old(sums)@),
        fits_u16(merged(coefficients(old(sums)@), coefficients(factors@))),
    ensures
        distinct_species(final(sums)@),
        coefficients(final(sums)@) == merged(coefficients(old(sums)@), coefficients(factors@)),
        draws_on(final(sums)@, old(sums)@ + factors@),
{
    let ghost before = sums@;
    let ghost source = before + factors@;
    assert(draws_on(sums@, source)) by {
        assert forall|k: int| 0 <= k < sums@.len() implies holds_species_of(
            source,
            #[trigger] sums@[k],
        ) by {
            assert(source[k].species == sums@[k].species);
        }
    }
    proof {
        assert forall|s: Composition|
            coefficient_total(before, s) + #[trigger] coefficient_total(factors@, s)
                <= u16::MAX by {
            lemma_coefficient_is_total(before, s);
            lemma_coefficient_is_total(factors@, s);
            let m = merged(coefficients(before), coefficients(factors@));
            if m.dom().contains(s) {
                assert(m[s] <= u16::MAX);
            }
        }
    }
    let mut i: usize = 0;
    while i < factors.len()
        invariant
            i <= factors.len(),
            distinct_species(sums@),
            source == before + factors@,
            draws_on(sums@, source),
            forall|s: Composition|
                coefficient_total(before, s) + #[trigger] coefficient_total(factors@, s)
                    <= u16::MAX,
            forall|s: Composition| #[trigger]
                coefficient_total(sums@, s) == coefficient_total(before, s) + coefficient_total(
                    factors@.take(i as int),
                    s,
                ),
            forall|s: Composition| #[trigger]
                lists(sums@, s) <==> lists(before, s) || lists(factors@.take(i as int), s),
        decreases factors.len() - i,
    {
        let factor = factors[i];
        let ghost seen = factors@.take(i as int);
        let ghost current = sums@;
        proof {
            assert(factors@.take(i + 1) =~= seen.push(factor));
            assert forall|s: Composition| #[trigger]
                lists(factors@.take(i + 1), s) <==> lists(seen, s) || factor.species@ == s by {
                let next = factors@.take(i + 1);
                if lists(next, s) {
                    let k = choose|k: int|
                        0 <= k < next.len() && (#[trigger] next[k]).species@ == s;
                    if k < i {
                        assert(seen[k].species@ == s);
                    }
                }
                if lists(seen, s) {
                    let k = choose|k: int|
                        0 <= k < seen.len() && (#[trigger] seen[k]).species@ == s;
                    assert(next[k].species@ == s);
                }
                if factor.species@ == s {
                    assert(next[i as int].species@ == s);
                }
            }
            assert forall|s: Composition|
                coefficient_total(factors@.take(i + 1), s) == coefficient_total(seen, s) + share(
                    factor,
                    s,
                ) by {
                lemma_total_push(seen, factor, s);
            }
        }
        match position_of(sums, factor.species) {
            Some(j) => {
                let held = sums[j];
                proof {
                    let s = held.species@;
                    lemma_total_covers_member(current, j as int);
                    lemma_total_of_prefix(factors@, i + 1, s);
                    assert(coefficient_total(before, s) + coefficient_total(factors@, s)
                        <= u16::MAX);
                }
                let raised = ChemicalReactionFactor {
                    species: held.species,
                    stoichiometric_coefficient: held.stoichiometric_coefficient
                        + factor.stoichiometric_coefficient,
                };
                sums.set(j, raised);
                proof {
                    assert forall|s: Composition| #[trigger]
                        coefficient_total(sums@, s) == coefficient_total(before, s)
                            + coefficient_total(factors@.take(i + 1), s) by {
                        lemma_total_update(current, j as int, raised, s);
                    }
                    assert forall|s: Composition| #[trigger]
                        lists(sums@, s) <==> lists(current, s) by {
                        if lists(sums@, s) {
                            let k = choose|k: int|
                                0 <= k < sums@.len() && (#[trigger] sums@[k]).species@ == s;
                            assert(current[k].species@ == s);
                        }
                        if lists(current, s) {
                            let k = choose|k: int|
                                0 <= k < current.len() && (#[trigger] current[k]).species@ == s;
                            assert(sums@[k].species@ == s);
                        }
                    }
                    assert(lists(current, factor.species@)) by {
                        assert(current[j as int].species@ == factor.species@);
                    }
                    assert(distinct_species(sums@)) by {
                        assert forall|a: int, b: int| 0 <= a < b < sums@.len() implies (
                        #[trigger] sums@[a]).species@ != (#[trigger] sums@[b]).species@ by {
                            assert(sums@[a].species@ == current[a].species@);
                            assert(sums@[b].species@ == current[b].species@);
                        }
                    }
                    assert(draws_on(sums@, source)) by {
                        assert forall|k: int| 0 <= k < sums@.len() implies holds_species_of(
                            source,
                            #[trigger] sums@[k],
                        ) by {
                            let m = choose|m: int|
                                0 <= m < source.len() && (#[trigger] source[m]).species
                                    == current[k].species;
                            assert(source[m].species == sums@[k].species);
                        }
                    }
                }
            },
            None => {
                sums.push(factor);
                proof {
                    assert forall|s: Composition| #[trigger]
                        coefficient_total(sums@, s) == coefficient_total(before, s)
                            + coefficient_total(factors@.take(i + 1), s) by {
                        lemma_total_push(current, factor, s);
                    }
                    assert forall|s: Composition| #[trigger]
                        lists(sums@, s) <==> lists(current, s) || factor.species@ == s by {
                        if lists(sums@, s) {
                            let k = choose|k: int|
                                0 <= k < sums@.len() && (#[trigger] sums@[k]).species@ == s;
                            if k < current.len() {
                                assert(current[k].species@ == s);
                            }
                        }
                        if lists(current, s) {
                            let k = choose|k: int|
                                0 <= k < current.len() && (#[trigger] current[k]).species@ == s;
                            assert(sums@[k].species@ == s);
                        }
                        if factor.species@ == s {
                            assert(sums@[current.len() as int].species@ == s);
                        }
                    }
                    assert(distinct_species(sums@)) by {
                        assert forall|a: int, b: int| 0 <= a < b < sums@.len() implies (
                        #[trigger] sums@[a]).species@ != (#[trigger] sums@[b]).species@ by {
                            assert(sums@[a] == current[a]);
                            if b < current.len() {
                                assert(sums@[b] == current[b]);
                            } else {
                                assert(current[a].species@ != factor.species@);
                            }
                        }
                    }
                    assert(draws_on(sums@, source)) by {
                        assert forall|k: int| 0 <= k < sums@.len() implies holds_species_of(
                            source,
                            #[trigger] sums@[k],
                        ) by {
                            if k < current.len() {
                                let m = choose|m: int|
                                    0 <= m < source.len() && (#[trigger] source[m]).species
                                        == current[k].species;
                                assert(source[m].species == sums@[k].species);
                            } else {
                                assert(source[before.len() + i].species == sums@[k].species);
                            }
                        }
                    }
                }
            },
        }
        i = i + 1;
    }
    proof {
        assert(factors@.take(i as int) =~= factors@);
        assert forall|s: Composition| #[trigger]
            coefficient_total(sums@, s) == coefficient(coefficients(before), s) + coefficient(
                coefficients(factors@),
                s,
            ) by {
            lemma_coefficient_is_total(before, s);
            lemma_coefficient_is_total(factors@, s);
        }
        assert(coefficients(sums@) =~= merged(coefficients(before), coefficients(factors@)));
    }
}

/// Merges two sides: the result has one factor for each species that either
/// side names, with the sum of all its coefficients on both.
///
/// The sums must fit the coefficient type.
pub fn add_operands<'a>(
    left: &ChemicalReactionOperand<'a>,
    right: &ChemicalReactionOperand<'a>,
) -> (sum: ChemicalReactionOperand<'a>)
    requires
        fits_u16(merged(left@, right@)),
    ensures
        sum@ == merged(left@, right@),
        sum.has_distinct_species(),
        draws_on(sum.spec_factors(), left.spec_factors() + right.spec_factors()),
{
    let mut sums: Vec<ChemicalReactionFactor<'a>> = Vec::new();
    proof {
        assert(coefficients(sums@) =~= Map::<Composition, nat>::empty());
        assert(merged(coefficients(sums@), right@) =~= right@);
        assert(fits_u16(right@)) by {
            assert forall|s: Composition| right@.dom().contains(s) implies #[trigger] right@[s]
                <= u16::MAX by {
                assert(merged(left@, right@).dom().contains(s));
                assert(merged(left@, right@)[s] <= u16::MAX);
            }
        }
        merge_is_commutative(left@, right@);
    }
    accumulate(&mut sums, &right.factors);
    let ghost of_right = sums@;
    accumulate(&mut sums, &left.factors);
    proof {
        let both = left.factors@ + right.factors@;
        assert forall|k: int| 0 <= k < sums@.len() implies holds_species_of(
            both,
            #[trigger] sums@[k],
        ) by {
            let between = of_right + left.factors@;
            let m = choose|m: int|
                0 <= m < between.len() && (#[trigger] between[m]).species == sums@[k].species;
            if m < of_right.len() {
                let start = Seq::<ChemicalReactionFactor>::empty() + right.factors@;
                let j = choose|j: int|
                    0 <= j < start.len() && (#[trigger] start[j]).species == of_right[m].species;
                assert(both[left.factors@.len() + j].species == sums@[k].species);
            } else {
                assert(both[m - of_right.len()].species == sums@[k].species);
            }
        }
    }
    ChemicalReactionOperand { factors: sums }
}

/// Two lists of factors name the same species at the same places.
pub open spec fn same_species_in_order(
    a: Seq<ChemicalReactionFactor>,
    b: Seq<ChemicalReactionFactor>,
) -> bool {
    &&& a.len() == b.len()
    &&& forall|k: int| 0 <= k < a.len() ==> (#[trigger] a[k]).species == b[k].species
}

/// A coefficient lowered by the opposite one, but not below zero.
pub open spec fn lowered(own: nat, opposite: nat) -> nat {
    if own > opposite {
        (own - opposite) as nat
    } else {
        0
    }
}

proof fn lemma_same_species_lists(
    a: Seq<ChemicalReactionFactor>,
    b: Seq<ChemicalReactionFactor>,
    species: Composition,
)
    requires
        same_species_in_order(a, b),
    ensures
        lists(a, species) == lists(b, species),
{
    if lists(a, species) {
        let k = choose|k: int| 0 <= k < a.len() && (#[trigger] a[k]).species@ == species;
        assert(b[k].species@ == species);
    }
    if lists(b, species) {
        let k = choose|k: int| 0 <= k < b.len() && (#[trigger] b[k]).species@ == species;
        assert(a[k].species@ == species);
    }
}

proof fn lemma_same_species_distinct(
    a: Seq<ChemicalReactionFactor>,
    b: Seq<ChemicalReactionFactor>,
)
    requires
        same_species_in_order(a, b),
        distinct_species(b),
    ensures
        distinct_species(a),
{
    assert forall|i: int, j: int| 0 <= i < j < a.len() implies (#[trigger] a[i]).species@ != (
    #[trigger] a[j]).species@ by {
        assert(a[i].species == b[i].species);
        assert(a[j].species == b[j].species);
    }
}

proof fn lemma_prefix_of_distinct(factors: Seq<ChemicalReactionFactor>, i: int)
    requires
        distinct_species(factors),
        0 <= i < factors.len(),
    ensures
        coefficient_total(factors.take(i), factors[i].species@) == 0,
{
    let seen = factors.take(i);
    let species = factors[i].species@;
    assert(!lists(seen, species)) by {
        if lists(seen, species) {
            let k = choose|k: int| 0 <= k < seen.len() && (#[trigger] seen[k]).species@ == species;
            assert(factors[k].species@ == species);
        }
    }
    lemma_total_unlisted(seen, species);
}

/// What cancelling does to a list with one factor per species: where every
/// factor keeps its species and has its coefficient lowered by the opposite
/// side's coefficient for that species, the list denotes the cancelled side.
proof fn lemma_lowered_factors_denote_cancelled(
    after: Seq<ChemicalReactionFactor>,
    before: Seq<ChemicalReactionFactor>,
    opposite: Seq<ChemicalReactionFactor>,
)
    requires
        distinct_species(before),
        same_species_in_order(after, before),
        forall|k: int|
            0 <= k < before.len() ==> (#[trigger] after[k]).stoichiometric_coefficient == lowered(
                before[k].stoichiometric_coefficient as nat,
                coefficient_total(opposite, before[k].species@),
            ),
    ensures
        coefficients(after) == cancelled(coefficients(before), coefficients(opposite)),
{
    let target = cancelled(coefficients(before), coefficients(opposite));
    lemma_same_species_distinct(after, before);
    assert forall|s: Composition| coefficients(after).dom().contains(s) == target.dom().contains(
        s,
    ) by {
        lemma_same_species_lists(after, before, s);
    }
    assert forall|s: Composition| coefficients(after).dom().contains(s) implies coefficients(
        after,
    )[s] == target[s] by {
        let k = choose|k: int| 0 <= k < after.len() && (#[trigger] after[k]).species@ == s;
        assert(before[k].species@ == s);
        lemma_total_of_distinct(after, k);
        lemma_total_of_distinct(before, k);
        lemma_coefficient_is_total(opposite, s);
    }
    assert(coefficients(after) =~= target);
}

/// Cancels what two sides have in common. For each species with a factor on
/// both sides, the smaller of the two coefficients is taken off both: the
/// larger becomes the difference, the smaller becomes zero, and two equal
/// coefficients both become zero. A species on one side only is left alone.
/// Every factor stays where it is, zero coefficients included.
///
/// Both sides must hold one factor per species.
pub fn balance_stoichiometric_coefficients<'a>(
    reactants: &mut ChemicalReactionOperand<'a>,
    products: &mut ChemicalReactionOperand<'a>,
)
    requires
        old(reactants).has_distinct_species(),
        old(products).has_distinct_species(),
    ensures
        final(reactants)@ == cancelled(old(reactants)@, old(products)@),
        final(products)@ == cancelled(old(products)@, old(reactants)@),
        same_species_in_order(final(reactants).spec_factors(), old(reactants).spec_factors()),
        same_species_in_order(final(products).spec_factors(), old(products).spec_factors()),
        final(reactants).has_distinct_species(),
        final(products).has_distinct_species(),
{
    let ghost given_reactants = reactants.factors@;
    let ghost given_products = products.factors@;
    let mut i: usize = 0;
    while i < reactants.factors.len()
        invariant
            i <= given_reactants.len(),
            distinct_species(given_reactants),
            distinct_species(given_products),
            same_species_in_order(reactants.factors@, given_reactants),
            same_species_in_order(products.factors@, given_products),
            forall|k: int|
                0 <= k < i ==> (#[trigger] reactants.factors@[k]).stoichiometric_coefficient
                    == lowered(
                    given_reactants[k].stoichiometric_coefficient as nat,
                    coefficient_total(given_products, given_reactants[k].species@),
                ),
            forall|k: int|
                i <= k < given_reactants.len() ==> #[trigger] reactants.factors@[k]
                    == given_reactants[k],
            forall|j: int|
                0 <= j < given_products.len() ==> (
                #[trigger] products.factors@[j]).stoichiometric_coefficient == lowered(
                    given_products[j].stoichiometric_coefficient as nat,
                    coefficient_total(given_reactants.take(i as int), given_products[j].species@),
                ),
        decreases given_reactants.len() - i,
    {
        let reactant = reactants.factors[i];
        let ghost species = reactant.species@;
        let ghost products_now = products.factors@;
        proof {
            assert(reactant == given_reactants[i as int]);
            assert(given_reactants.take(i + 1) =~= given_reactants.take(i as int).push(reactant));
            assert forall|s: Composition|
                coefficient_total(given_reactants.take(i + 1), s) == coefficient_total(
                    given_reactants.take(i as int),
                    s,
                ) + share(reactant, s) by {
                lemma_total_push(given_reactants.take(i as int), reactant, s);
            }
            lemma_prefix_of_distinct(given_reactants, i as int);
        }
        match position_of(&products.factors, reactant.species) {
            Some(j) => {
                let product = products.factors[j];
                proof {
                    assert(products_now[j as int].species == given_products[j as int].species);
                    lemma_total_of_distinct(given_products, j as int);
                    assert(product.stoichiometric_coefficient == coefficient_total(
                        given_products,
                        species,
                    ));
                }
                let r = reactant.stoichiometric_coefficient;
                let p = product.stoichiometric_coefficient;
                if r > p {
                    reactants.factors.set(
                        i,
                        ChemicalReactionFactor {
                            species: reactant.species,
                            stoichiometric_coefficient: r - p,
                        },
                    );
                    products.factors.set(
                        j,
                        ChemicalReactionFactor {
                            species: product.species,
                            stoichiometric_coefficient: 0,
                        },
                    );
                } else if r == p {
                    reactants.factors.set(
                        i,
                        ChemicalReactionFactor {
                            species: reactant.species,
                            stoichiometric_coefficient: 0,
                        },
                    );
                    products.factors.set(
                        j,
                        ChemicalReactionFactor {
                            species: product.species,
                            stoichiometric_coefficient: 0,
                        },
                    );
                } else {
                    reactants.factors.set(
                        i,
                        ChemicalReactionFactor {
                            species: reactant.species,
                            stoichiometric_coefficient: 0,
                        },
                    );
                    products.factors.set(
                        j,
                        ChemicalReactionFactor {
                            species: product.species,
                            stoichiometric_coefficient: p - r,
                        },
                    );
                }
                proof {
                    assert forall|m: int| 0 <= m < given_products.len() implies (
                    #[trigger] products.factors@[m]).stoichiometric_coefficient == lowered(
                        given_products[m].stoichiometric_coefficient as nat,
                        coefficient_total(given_reactants.take(i + 1), given_products[m].species@),
                    ) by {
                        if m != j {
                            assert(products.factors@[m] == products_now[m]);
                            assert(given_products[m].species@ != given_products[j as int].species@);
                        }
                    }
                }
            },
            None => {
                proof {
                    lemma_same_species_lists(products_now, given_products, species);
                    lemma_total_unlisted(given_products, species);
                    assert forall|m: int|
                        0 <= m < given_products.len() implies given_products[m].species@
                        != species by {
                        assert(products_now[m].species == given_products[m].species);
                    }
                }
            },
        }
        i = i + 1;
    }
    proof {
        assert(given_reactants.take(i as int) =~= given_reactants);
        lemma_lowered_factors_denote_cancelled(reactants.factors@, given_reactants, given_products);
        lemma_lowered_factors_denote_cancelled(products.factors@, given_products, given_reactants);
        lemma_same_species_distinct(reactants.factors@, given_reactants);
        lemma_same_species_distinct(products.factors@, given_products);
    }
}

proof fn lemma_positive_total_is_listed(factors: Seq<ChemicalReactionFactor>, species: Composition)
    requires
        no_zero_coefficient(factors),
    ensures
        lists(factors, species) <==> coefficient_total(factors, species) > 0,
{
    if lists(factors, species) {
        let k = choose|k: int|
            0 <= k < factors.len() && (#[trigger] factors[k]).species@ == species;
        lemma_total_covers_member(factors, k);
    } else {
        lemma_total_unlisted(factors, species);
    }
}

/// A list of factors without those of coefficient zero; the others keep
/// their order.
pub open spec fn positive_only(factors: Seq<ChemicalReactionFactor>) -> Seq<ChemicalReactionFactor>
    decreases factors.len(),
{
    if factors.len() == 0 {
        factors
    } else if factors.last().stoichiometric_coefficient > 0 {
        positive_only(factors.drop_last()).push(factors.last())
    } else {
        positive_only(factors.drop_last())
    }
}

proof fn lemma_positive_only_draws_on(factors: Seq<ChemicalReactionFactor>)
    ensures
        draws_on(positive_only(factors), factors),
    decreases factors.len(),
{
    if factors.len() > 0 {
        let rest = factors.drop_last();
        lemma_positive_only_draws_on(rest);
        let kept = positive_only(factors);
        assert forall|k: int| 0 <= k < kept.len() implies holds_species_of(
            factors,
            #[trigger] kept[k],
        ) by {
            if k < positive_only(rest).len() {
                let j = choose|j: int|
                    0 <= j < rest.len() && (#[trigger] rest[j]).species == positive_only(
                        rest,
                    )[k].species;
                assert(factors[j].species == kept[k].species);
            } else {
                assert(factors[factors.len() - 1].species == kept[k].species);
            }
        }
    }
}

proof fn lemma_same_species_draws_on(
    after: Seq<ChemicalReactionFactor>,
    before: Seq<ChemicalReactionFactor>,
)
    requires
        same_species_in_order(after, before),
    ensures
        draws_on(after, before),
{
    assert forall|k: int| 0 <= k < after.len() implies holds_species_of(
        before,
        #[trigger] after[k],
    ) by {
        assert(before[k].species == after[k].species);
    }
}

impl<'a> ChemicalReactionOperand<'a> {
    /// The operand without its factors of coefficient zero; the factors that
    /// stay keep their order. What is left denotes the same side without its
    /// zero coefficients.
    pub fn positive_factors(&self) -> (kept: ChemicalReactionOperand<'a>)
        ensures
            kept.spec_factors() == positive_only(self.spec_factors()),
            kept@ == positive(self@),
            no_zero_coefficient(kept.spec_factors()),
            self.has_distinct_species() ==> kept.has_distinct_species(),
    {
        let mut kept: Vec<ChemicalReactionFactor<'a>> = Vec::new();
        let ghost mut origin: Seq<int> = Seq::empty();
        let mut i: usize = 0;
        while i < self.factors.len()
            invariant
                i <= self.factors.len(),
                kept@ == positive_only(self.factors@.take(i as int)),
                no_zero_coefficient(kept@),
                origin.len() == kept.len(),
                forall|a: int|
                    0 <= a < kept.len() ==> 0 <= #[trigger] origin[a] < i && kept@[a]
                        == self.factors@[origin[a]],
                forall|a: int, b: int|
                    0 <= a < b < kept.len() ==> #[trigger] origin[a] < #[trigger] origin[b],
                forall|s: Composition| #[trigger]
                    coefficient_total(kept@, s) == coefficient_total(
                        self.factors@.take(i as int),
                        s,
                    ),
            decreases self.factors.len() - i,
        {
            let factor = self.factors[i];
            let ghost kept_before = kept@;
            proof {
                assert(self.factors@.take(i + 1) =~= self.factors@.take(i as int).push(factor));
                assert(self.factors@.take(i + 1).drop_last() =~= self.factors@.take(i as int));
                assert forall|s: Composition|
                    coefficient_total(self.factors@.take(i + 1), s) == coefficient_total(
                        self.factors@.take(i as int),
                        s,
                    ) + share(factor, s) by {
                    lemma_total_push(self.factors@.take(i as int), factor, s);
                }
            }
            if factor.stoichiometric_coefficient > 0 {
                kept.push(factor);
                proof {
                    origin = origin.push(i as int);
                    assert forall|s: Composition| #[trigger]
                        coefficient_total(kept@, s) == coefficient_total(
                            self.factors@.take(i + 1),
                            s,
                        ) by {
                        lemma_total_push(kept_before, factor, s);
                    }
                }
            }
            i = i + 1;
        }
        proof {
            assert(self.factors@.take(i as int) =~= self.factors@);
            assert forall|s: Composition| coefficients(kept@).dom().contains(s) == positive(
                self@,
            ).dom().contains(s) by {
                lemma_positive_total_is_listed(kept@, s);
                if !lists(self.factors@, s) {
                    lemma_total_unlisted(self.factors@, s);
                }
            }
            assert(coefficients(kept@) =~= positive(self@));
            if distinct_species(self.factors@) {
                assert forall|a: int, b: int| 0 <= a < b < kept.len() implies (
                #[trigger] kept@[a]).species@ != (#[trigger] kept@[b]).species@ by {
                    assert(origin[a] < origin[b]);
                    assert(kept@[a] == self.factors@[origin[a]]);
                    assert(kept@[b] == self.factors@[origin[b]]);
                }
            }
        }
        ChemicalReactionOperand { factors: kept }
    }
}

/// The sum of the two sides' coefficients fits the coefficient type for every
/// species that `named` has a factor of.
spec fn sums_fit_on_holds(
    named: &ChemicalReactionOperand,
    left: &ChemicalReactionOperand,
    right: &ChemicalReactionOperand,
) -> bool {
    forall|k: int|
        0 <= k < named.spec_factors().len() ==> coefficient(
            left@,
            (#[trigger] named.spec_factors()[k]).species@,
        ) + coefficient(right@, named.spec_factors()[k].species@) <= u16::MAX
}

fn sums_fit_on<'a>(
    named: &ChemicalReactionOperand<'a>,
    left: &ChemicalReactionOperand<'a>,
    right: &ChemicalReactionOperand<'a>,
) -> (fit: bool)
    ensures
        fit == sums_fit_on_holds(named, left, right),
{
    let mut i: usize = 0;
    while i < named.factors.len()
        invariant
            i <= named.factors.len(),
            forall|k: int|
                0 <= k < i ==> coefficient(left@, (#[trigger] named.factors@[k]).species@)
                    + coefficient(right@, named.factors@[k].species@) <= u16::MAX,
        decreases named.factors.len() - i,
    {
        let species = named.factors[i].species;
        let on_left = left.coefficient_of(species);
        let on_right = right.coefficient_of(species);
        if on_left > 0xffff || on_right > 0xffff || on_left + on_right > 0xffff {
            assert(coefficient(left@, named.spec_factors()[i as int].species@) + coefficient(
                right@,
                named.spec_factors()[i as int].species@,
            ) > u16::MAX);
            return false;
        }
        i = i + 1;
    }
    true
}

/// Whether two sides can be merged: whether every summed coefficient fits the
/// coefficient type.
pub fn sums_fit<'a>(
    left: &ChemicalReactionOperand<'a>,
    right: &ChemicalReactionOperand<'a>,
) -> (fit: bool)
    ensures
        fit == fits_u16(merged(left@, right@)),
{
    let fit = sums_fit_on(left, left, right) && sums_fit_on(right, left, right);
    proof {
        let sum = merged(left@, right@);
        if fit {
            assert forall|s: Composition| sum.dom().contains(s) implies #[trigger] sum[s]
                <= u16::MAX by {
                if lists(left.factors@, s) {
                    let k = choose|k: int|
                        0 <= k < left.factors@.len() && (#[trigger] left.factors@[k]).species@ == s;
                    assert(left.spec_factors()[k].species@ == s);
                } else {
                    let k = choose|k: int|
                        0 <= k < right.factors@.len() && (#[trigger] right.factors@[k]).species@
                            == s;
                    assert(right.spec_factors()[k].species@ == s);
                }
            }
        } else {
            let named = if !sums_fit_on_holds(left, left, right) {
                left.factors@
            } else {
                right.factors@
            };
            let k = choose|k: int|
                0 <= k < named.len() && !(coefficient(left@, (#[trigger] named[k]).species@)
                    + coefficient(right@, named[k].species@) <= u16::MAX);
            let s = named[k].species@;
            assert(lists(named, s));
            assert(sum.dom().contains(s));
            assert(sum[s] > u16::MAX);
        }
    }
    fit
}

/// A chemical reaction: what goes in and what comes out.
#[derive(Debug)]
pub struct ChemicalReaction<'a> {
    reactants: ChemicalReactionOperand<'a>,
    products: ChemicalReactionOperand<'a>,
}

impl<'a> ChemicalReaction<'a> {
    /// The side that is consumed.
    pub closed spec fn spec_reactants(&self) -> ChemicalReactionOperand<'a> {
        self.reactants
    }

    /// The side that is produced.
    pub closed spec fn spec_products(&self) -> ChemicalReactionOperand<'a> {
        self.products
    }

    pub fn new(
        reactants: ChemicalReactionOperand<'a>,
        products: ChemicalReactionOperand<'a>,
    ) -> (reaction: ChemicalReaction<'a>)
        ensures
            reaction.spec_reactants() == reactants,
            reaction.spec_products() == products,
    {
        ChemicalReaction { reactants, products }
    }

    /// The side that is consumed.
    pub fn reactants(&self) -> (side: &ChemicalReactionOperand<'a>)
        ensures
            *side == self.spec_reactants(),
    {
        &self.reactants
    }

    /// The side that is produced.
    pub fn products(&self) -> (side: &ChemicalReactionOperand<'a>)
        ensures
            *side == self.spec_products(),
    {
        &self.products
    }

    /// The reaction as text, such as `CH4 + H2O -> CO + 2H2`.
    ///
    /// A reaction has no notation where one of its sides has none; the
    /// reactants are looked at first.
    pub fn to_string(&self) -> (notation: Result<String, NotationError>)
        ensures
            match notation {
                Ok(text) => reaction_fault(*self) is None && text@ == reaction_text(*self),
                Err(error) => reaction_fault(*self) == Some(error),
            },
    {
        match self.reactants.to_string() {
            Ok(reactants) => match self.products.to_string() {
                Ok(products) => {
                    let mut text = reactants;
                    text.append(" -> ");
                    text.append(products.as_str());
                    Ok(text)
                },
                Err(error) => Err(error),
            },
            Err(error) => Err(error),
        }
    }
}

/// How a reaction is written: the reactants, `" -> "`, the products.
pub open spec fn reaction_text(reaction: ChemicalReaction) -> Seq<char> {
    side_text(reaction.spec_reactants().spec_factors()) + " -> "@ + side_text(
        reaction.spec_products().spec_factors(),
    )
}

/// Why a reaction cannot be written, if it cannot: the fault of its
/// reactants, or else that of its products.
pub open spec fn reaction_fault(reaction: ChemicalReaction) -> Option<NotationError> {
    if side_fault(reaction.spec_reactants().spec_factors()) is Some {
        side_fault(reaction.spec_reactants().spec_factors())
    } else {
        side_fault(reaction.spec_products().spec_factors())
    }
}

/// The reactant side of the net reaction of `a` and `b`: the reactants of
/// both, merged, cancelled against the merged products, zero coefficients
/// dropped.
pub open spec fn combined_reactants(a: ChemicalReaction, b: ChemicalReaction) -> Map<
    Composition,
    nat,
> {
    net(
        merged(a.spec_reactants()@, b.spec_reactants()@),
        merged(a.spec_products()@, b.spec_products()@),
    )
}

/// The product side of the net reaction of `a` and `b`.
pub open spec fn combined_products(a: ChemicalReaction, b: ChemicalReaction) -> Map<
    Composition,
    nat,
> {
    net(
        merged(a.spec_products()@, b.spec_products()@),
        merged(a.spec_reactants()@, b.spec_reactants()@),
    )
}

/// Whether the merged coefficients of both sides fit the coefficient type.
pub open spec fn can_combine(a: ChemicalReaction, b: ChemicalReaction) -> bool {
    &&& fits_u16(merged(a.spec_reactants()@, b.spec_reactants()@))
    &&& fits_u16(merged(a.spec_products()@, b.spec_products()@))
}

/// Combines two reactions into their net reaction.
///
/// The reactants of both are merged, and so are the products. A species that
/// then stands on both sides is an intermediate: the smaller of its two
/// coefficients is taken off both sides. What is left with coefficient zero
/// is dropped. Both sides of the result are canonical; the order of their
/// factors is not part of the contract.
///
/// The merged coefficients must fit the coefficient type; [`try_combine`]
/// tests that first.
pub fn combine<'a>(a: &ChemicalReaction<'a>, b: &ChemicalReaction<'a>) -> (result: ChemicalReaction<
    'a,
>)
    requires
        can_combine(*a, *b),
    ensures
        result.spec_reactants()@ == combined_reactants(*a, *b),
        result.spec_products()@ == combined_products(*a, *b),
        result.spec_reactants().is_canonical(),
        result.spec_products().is_canonical(),
        draws_on(
            result.spec_reactants().spec_factors(),
            a.spec_reactants().spec_factors() + b.spec_reactants().spec_factors(),
        ),
        draws_on(
            result.spec_products().spec_factors(),
            a.spec_products().spec_factors() + b.spec_products().spec_factors(),
        ),
{
    let mut reactants = add_operands(&a.reactants, &b.reactants);
    let mut products = add_operands(&a.products, &b.products);
    let ghost merged_reactants = reactants.factors@;
    let ghost merged_products = products.factors@;
    balance_stoichiometric_coefficients(&mut reactants, &mut products);
    proof {
        lemma_positive_only_draws_on(reactants.factors@);
        lemma_same_species_draws_on(reactants.factors@, merged_reactants);
        lemma_draws_on_through(
            positive_only(reactants.factors@),
            reactants.factors@,
            merged_reactants,
        );
        lemma_draws_on_through(
            positive_only(reactants.factors@),
            merged_reactants,
            a.reactants.factors@ + b.reactants.factors@,
        );
        lemma_positive_only_draws_on(products.factors@);
        lemma_same_species_draws_on(products.factors@, merged_products);
        lemma_draws_on_through(
            positive_only(products.factors@),
            products.factors@,
            merged_products,
        );
        lemma_draws_on_through(
            positive_only(products.factors@),
            merged_products,
            a.products.factors@ + b.products.factors@,
        );
    }
    ChemicalReaction::new(reactants.positive_factors(), products.positive_factors())
}

/// Combines two reactions where [`combine`] can: `None` exactly when a merged
/// coefficient does not fit the coefficient type.
pub fn try_combine<'a>(a: &ChemicalReaction<'a>, b: &ChemicalReaction<'a>) -> (result: Option<
    ChemicalReaction<'a>,
>)
    ensures
        result is Some <==> can_combine(*a, *b),
        result matches Some(net) ==> {
            &&& net.spec_reactants()@ == combined_reactants(*a, *b)
            &&& net.spec_products()@ == combined_products(*a, *b)
            &&& net.spec_reactants().is_canonical()
            &&& net.spec_products().is_canonical()
            &&& draws_on(
                net.spec_reactants().spec_factors(),
                a.spec_reactants().spec_factors() + b.spec_reactants().spec_factors(),
            )
            &&& draws_on(
                net.spec_products().spec_factors(),
                a.spec_products().spec_factors() + b.spec_products().spec_factors(),
            )
        },
{
    if sums_fit(&a.reactants, &b.reactants) && sums_fit(&a.products, &b.products) {
        Some(combine(a, b))
    } else {
        None
    }
}

/// The (species, coefficient) pairs that a list of factors holds, whatever
/// their order.
pub open spec fn pairs(factors: Seq<ChemicalReactionFactor>) -> Set<(Composition, u16)> {
    Set::new(
        |pair: (Composition, u16)|
            exists|i: int|
                0 <= i < factors.len() && (#[trigger] factors[i]).species@ == pair.0
                    && factors[i].stoichiometric_coefficient == pair.1,
    )
}

proof fn lemma_pairs_follow_side(
    a: Seq<ChemicalReactionFactor>,
    b: Seq<ChemicalReactionFactor>,
    pair: (Composition, u16),
)
    requires
        distinct_species(a),
        distinct_species(b),
        coefficients(a) == coefficients(b),
        pairs(a).contains(pair),
    ensures
        pairs(b).contains(pair),
{
    let i = choose|i: int|
        0 <= i < a.len() && (#[trigger] a[i]).species@ == pair.0
            && a[i].stoichiometric_coefficient == pair.1;
    lemma_total_of_distinct(a, i);
    assert(coefficients(a).dom().contains(pair.0));
    assert(coefficients(b).dom().contains(pair.0));
    let j = choose|j: int| 0 <= j < b.len() && (#[trigger] b[j]).species@ == pair.0;
    lemma_total_of_distinct(b, j);
    assert(coefficients(a)[pair.0] == coefficient_total(a, a[i].species@));
    assert(coefficients(b)[pair.0] == coefficient_total(b, b[j].species@));
    assert(b[j].stoichiometric_coefficient == pair.1);
}

/// Two operands with one factor per species that denote the same side hold
/// the same (species, coefficient) pairs: they differ in the order of their
/// factors at most.
pub proof fn same_side_same_pairs(x: ChemicalReactionOperand, y: ChemicalReactionOperand)
    requires
        x.has_distinct_species(),
        y.has_distinct_species(),
        x@ == y@,
    ensures
        pairs(x.spec_factors()) == pairs(y.spec_factors()),
{
    let a = x.spec_factors();
    let b = y.spec_factors();
    assert forall|pair: (Composition, u16)| pairs(a).contains(pair) == pairs(b).contains(pair) by {
        if pairs(a).contains(pair) {
            lemma_pairs_follow_side(a, b, pair);
        }
        if pairs(b).contains(pair) {
            lemma_pairs_follow_side(b, a, pair);
        }
    }
    assert(pairs(a) =~= pairs(b));
}

/// Merging is commutative: whatever [`add_operands`] returns for two sides,
/// and whatever it returns for them in the other order, hold the same
/// (species, coefficient) pairs.
pub proof fn add_operands_is_commutative(
    x: ChemicalReactionOperand,
    y: ChemicalReactionOperand,
    xy: ChemicalReactionOperand,
    yx: ChemicalReactionOperand,
)
    requires
        xy@ == merged(x@, y@) && xy.has_distinct_species(),
        yx@ == merged(y@, x@) && yx.has_distinct_species(),
    ensures
        xy@ == yx@,
        pairs(xy.spec_factors()) == pairs(yx.spec_factors()),
{
    merge_is_commutative(x@, y@);
    same_side_same_pairs(xy, yx);
}

/// Merging is associative: three sides merged two at a time give the same
/// (species, coefficient) pairs whichever two are merged first.
pub proof fn add_operands_is_associative(
    x: ChemicalReactionOperand,
    y: ChemicalReactionOperand,
    z: ChemicalReactionOperand,
    xy: ChemicalReactionOperand,
    yz: ChemicalReactionOperand,
    xy_z: ChemicalReactionOperand,
    x_yz: ChemicalReactionOperand,
)
    requires
        xy@ == merged(x@, y@),
        yz@ == merged(y@, z@),
        xy_z@ == merged(xy@, z@) && xy_z.has_distinct_species(),
        x_yz@ == merged(x@, yz@) && x_yz.has_distinct_species(),
    ensures
        xy_z@ == x_yz@,
        pairs(xy_z.spec_factors()) == pairs(x_yz.spec_factors()),
{
    merge_is_associative(x@, y@, z@);
    same_side_same_pairs(xy_z, x_yz);
}

/// A reaction combined with itself cancels to nothing on both sides exactly
/// when its two sides mirror each other: when every species has the same
/// coefficient among the reactants as among the products, a species that is
/// missing on a side counting as zero. Otherwise a species with more on one
/// side stays on that side, with twice the difference.
///
/// The law speaks of the sides that [`combine`] is bound to return; it
/// returns them wherever every doubled coefficient fits the coefficient type.
pub proof fn self_combination_cancels_iff_mirrored(a: ChemicalReaction)
    ensures
        (combined_reactants(a, a) == Map::<Composition, nat>::empty() && combined_products(a, a)
            == Map::<Composition, nat>::empty()) <==> (forall|s: Composition|
            coefficient(a.spec_reactants()@, s) == coefficient(a.spec_products()@, s)),
        forall|s: Composition|
            coefficient(a.spec_reactants()@, s) > coefficient(a.spec_products()@, s)
                ==> #[trigger] coefficient(combined_reactants(a, a), s) == 2 * (coefficient(
                a.spec_reactants()@,
                s,
            ) - coefficient(a.spec_products()@, s)),
        forall|s: Composition|
            coefficient(a.spec_products()@, s) > coefficient(a.spec_reactants()@, s)
                ==> #[trigger] coefficient(combined_products(a, a), s) == 2 * (coefficient(
                a.spec_products()@,
                s,
            ) - coefficient(a.spec_reactants()@, s)),
{
    doubled_sides_cancel_iff_mirrored(a.spec_reactants()@, a.spec_products()@);
    doubled_sides_cancel_iff_mirrored(a.spec_products()@, a.spec_reactants()@);
}

/// No side of a combined reaction holds a coefficient of zero, and no species
/// stands on both of its sides.
pub proof fn combination_is_net(a: ChemicalReaction, b: ChemicalReaction)
    ensures
        forall|s: Composition|
            combined_reactants(a, b).dom().contains(s) ==> #[trigger] combined_reactants(a, b)[s]
                > 0,
        forall|s: Composition|
            combined_products(a, b).dom().contains(s) ==> #[trigger] combined_products(a, b)[s]
                > 0,
        forall|s: Composition|
            !(combined_reactants(a, b).dom().contains(s) && combined_products(a, b).dom().contains(
                s,
            )),
{
}

} // verus!
