//! The species type and its order-independent identity.
use vstd::prelude::*;
use vstd::std_specs::cmp::PartialEqSpecImpl;
use vstd::string::*;
use crate::atoms::object::Atom;
use crate::notation::{append_decimal, decimal, NotationError};

verus! {

/// What a species is made of: each element symbol that occurs in it, mapped to
/// the number of atoms of that element. A symbol with no atoms is absent.
pub type Composition = Map<Seq<char>, nat>;

/// One entry of a species: an element, shared with whoever holds it, and how
/// many atoms of it there are.
#[derive(Debug, Clone, Copy)]
pub struct AtomTuple<'a> {
    pub atom: &'a Atom,
    pub size: u16,
}

/// How an entry is written: the element's symbol, followed by the number of
/// atoms unless that number is one.
pub open spec fn tuple_text(tuple: AtomTuple) -> Seq<char> {
    if tuple.size > 1 {
        tuple.atom.symbol@ + decimal(tuple.size as nat)
    } else {
        tuple.atom.symbol@
    }
}

/// How a list of entries is written: one entry after the other, with nothing
/// in between.
pub open spec fn formula_text(tuples: Seq<AtomTuple>) -> Seq<char>
    decreases tuples.len(),
{
    if tuples.len() == 0 {
        Seq::empty()
    } else {
        formula_text(tuples.drop_last()) + tuple_text(tuples.last())
    }
}

impl<'a> AtomTuple<'a> {
    pub fn new(atom: &'a Atom, size: u16) -> (tuple: AtomTuple<'a>)
        ensures
            tuple.atom == atom,
            tuple.size == size,
    {
        AtomTuple { atom, size }
    }

    /// The entry as text, such as `H2` for two atoms of hydrogen and `O` for
    /// one atom of oxygen.
    pub fn to_string(&self) -> (text: String)
        ensures
            text@ == tuple_text(*self),
    {
        let mut text = self.atom.to_string();
        if self.size > 1 {
            append_decimal(&mut text, self.size);
        }
        text
    }
}

impl<'a> PartialEq for AtomTuple<'a> {
    fn eq(&self, other: &AtomTuple<'a>) -> (same: bool) {
        *self.atom == *other.atom && self.size == other.size
    }
}

impl<'a> PartialEqSpecImpl for AtomTuple<'a> {
    open spec fn obeys_eq_spec() -> bool {
        true
    }

    /// Two entries are equal when they are of the same element and have the
    /// same size.
    open spec fn eq_spec(&self, other: &AtomTuple<'a>) -> bool {
        self.atom.symbol@ == other.atom.symbol@ && self.size == other.size
    }
}

impl<'a> Eq for AtomTuple<'a> {}

/// A molecule, written as a list of entries.
///
/// The list is kept as given: its order is the order the species is written in.
/// What the species *is* does not depend on that order, nor on whether an
/// element's atoms are given in one entry or spread over several: it is the
/// [`Composition`] returned by the view.
#[derive(Debug)]
pub struct ChemicalSpecies<'a> {
    pub atom_tuples: Vec<AtomTuple<'a>>,
}

/// The number of atoms with the given symbol in a list of entries: the sum of
/// the sizes of the entries for that symbol.
pub open spec fn atom_total(tuples: Seq<AtomTuple>, symbol: Seq<char>) -> nat
    decreases tuples.len(),
{
    if tuples.len() == 0 {
        0
    } else {
        atom_total(tuples.drop_last(), symbol) + if tuples.last().atom.symbol@ == symbol {
            tuples.last().size as nat
        } else {
            0
        }
    }
}

/// A list of entries as plain values: the symbol and the size of each.
pub open spec fn entries(tuples: Seq<AtomTuple>) -> Seq<(Seq<char>, u16)> {
    Seq::new(tuples.len(), |i: int| (tuples[i].atom.symbol@, tuples[i].size))
}

/// Every entry of `a` is found in `b`, with the same symbol and the same
/// size.
pub open spec fn contained_in(a: Seq<AtomTuple>, b: Seq<AtomTuple>) -> bool {
    forall|i: int| 0 <= i < a.len() ==> entries(b).contains(#[trigger] entries(a)[i])
}

/// The composition that a list of entries denotes.
pub open spec fn composition(tuples: Seq<AtomTuple>) -> Composition {
    Map::new(
        |symbol: Seq<char>| atom_total(tuples, symbol) > 0,
        |symbol: Seq<char>| atom_total(tuples, symbol),
    )
}

impl<'a> View for ChemicalSpecies<'a> {
    type V = Composition;

    open spec fn view(&self) -> Composition {
        composition(self.atom_tuples@)
    }
}

/// A symbol that no entry names has no atoms.
pub proof fn lemma_unlisted_symbol_has_no_atoms(tuples: Seq<AtomTuple>, symbol: Seq<char>)
    requires
        forall|i: int| 0 <= i < tuples.len() ==> (#[trigger] tuples[i]).atom.symbol@ != symbol,
    ensures
        atom_total(tuples, symbol) == 0,
    decreases tuples.len(),
{
    if tuples.len() > 0 {
        let rest = tuples.drop_last();
        assert forall|i: int| 0 <= i < rest.len() implies (#[trigger] rest[i]).atom.symbol@
            != symbol by {
            assert(rest[i] == tuples[i]);
        }
        lemma_unlisted_symbol_has_no_atoms(rest, symbol);
    }
}

/// Two lists of entries denote the same composition exactly when they agree on
/// the number of atoms of every symbol, a missing symbol counting as zero.
pub proof fn lemma_same_composition_iff_same_totals(a: Seq<AtomTuple>, b: Seq<AtomTuple>)
    ensures
        composition(a) == composition(b) <==> forall|symbol: Seq<char>|
            atom_total(a, symbol) == atom_total(b, symbol),
{
    if composition(a) == composition(b) {
        assert forall|symbol: Seq<char>| atom_total(a, symbol) == atom_total(b, symbol) by {
            assert(composition(a).dom().contains(symbol) == composition(b).dom().contains(symbol));
            if composition(a).dom().contains(symbol) {
                assert(composition(a)[symbol] == composition(b)[symbol]);
            }
        }
    }
    if forall|symbol: Seq<char>| atom_total(a, symbol) == atom_total(b, symbol) {
        assert(composition(a) =~= composition(b));
    }
}

impl<'a> ChemicalSpecies<'a> {
    pub fn new(atom_tuples: Vec<AtomTuple<'a>>) -> (species: ChemicalSpecies<'a>)
        ensures
            species.atom_tuples == atom_tuples,
    {
        ChemicalSpecies { atom_tuples }
    }

    /// The number of atoms of the given element in this species.
    ///
    /// The result is wide enough for any list of entries: at most `usize::MAX`
    /// entries of at most `u16::MAX` atoms each.
    pub fn count_of(&self, atom: &Atom) -> (count: u128)
        ensures
            count == atom_total(self.atom_tuples@, atom.symbol@),
    {
        let mut count: u128 = 0;
        let mut i: usize = 0;
        while i < self.atom_tuples.len()
            invariant
                i <= self.atom_tuples.len(),
                count == atom_total(self.atom_tuples@.take(i as int), atom.symbol@),
                count <= i * 0xffff,
            decreases self.atom_tuples.len() - i,
        {
            assert(self.atom_tuples@.take(i + 1).drop_last() =~= self.atom_tuples@.take(i as int));
            if *self.atom_tuples[i].atom == *atom {
                count = count + self.atom_tuples[i].size as u128;
            }
            i = i + 1;
        }
        assert(self.atom_tuples@.take(i as int) =~= self.atom_tuples@);
        count
    }

    /// The formula of the species, such as `H2O`: its entries in their order.
    ///
    /// A species without entries has no formula.
    pub fn to_string(&self) -> (formula: Result<String, NotationError>)
        ensures
            match formula {
                Ok(text) => self.atom_tuples.len() > 0 && text@ == formula_text(self.atom_tuples@),
                Err(error) => self.atom_tuples.len() == 0 && error == NotationError::EmptySpecies,
            },
    {
        if self.atom_tuples.len() == 0 {
            return Err(NotationError::EmptySpecies);
        }
        let mut text = String::new();
        let mut i: usize = 0;
        while i < self.atom_tuples.len()
            invariant
                i <= self.atom_tuples.len(),
                text@ == formula_text(self.atom_tuples@.take(i as int)),
            decreases self.atom_tuples.len() - i,
        {
            let entry = self.atom_tuples[i].to_string();
            text.append(entry.as_str());
            proof {
                assert(self.atom_tuples@.take(i + 1).drop_last() =~= self.atom_tuples@.take(
                    i as int,
                ));
            }
            i = i + 1;
        }
        proof {
            assert(self.atom_tuples@.take(i as int) =~= self.atom_tuples@);
        }
        Ok(text)
    }

    /// Whether every element named by an entry of `self` has as many atoms in
    /// `other` as in `self`.
    fn agrees_on_own_elements(&self, other: &ChemicalSpecies) -> (agrees: bool)
        ensures
            agrees == forall|i: int|
                0 <= i < self.atom_tuples.len() ==> atom_total(
                    self.atom_tuples@,
                    (#[trigger] self.atom_tuples@[i]).atom.symbol@,
                ) == atom_total(other.atom_tuples@, self.atom_tuples@[i].atom.symbol@),
    {
        let mut i: usize = 0;
        while i < self.atom_tuples.len()
            invariant
                i <= self.atom_tuples.len(),
                forall|k: int|
                    0 <= k < i ==> atom_total(
                        self.atom_tuples@,
                        (#[trigger] self.atom_tuples@[k]).atom.symbol@,
                    ) == atom_total(other.atom_tuples@, self.atom_tuples@[k].atom.symbol@),
            decreases self.atom_tuples.len() - i,
        {
            let atom = self.atom_tuples[i].atom;
            if self.count_of(atom) != other.count_of(atom) {
                return false;
            }
            i = i + 1;
        }
        true
    }

    /// Whether every entry of `self` is found in `other`, with the same
    /// element and the same size.
    ///
    /// The test looks in one direction only. The order of the entries plays
    /// no part in it, but it is no equivalence: `H2` passes it against `H2O`,
    /// and `H2O` fails it against `H2`. Where a species serves as a key, use
    /// [`same_composition`](ChemicalSpecies::same_composition), which is
    /// also what `==` means. For species that name each element once, the
    /// two agree where this test holds in both directions.
    pub fn eq(&self, other: &ChemicalSpecies) -> (same: bool)
        ensures
            same == contained_in(self.atom_tuples@, other.atom_tuples@),
    {
        let mut i: usize = 0;
        while i < self.atom_tuples.len()
            invariant
                i <= self.atom_tuples.len(),
                forall|k: int|
                    0 <= k < i ==> entries(other.atom_tuples@).contains(
                        #[trigger] entries(self.atom_tuples@)[k],
                    ),
            decreases self.atom_tuples.len() - i,
        {
            if !other.holds_entry(&self.atom_tuples[i]) {
                assert(!entries(other.atom_tuples@).contains(entries(self.atom_tuples@)[i as int]));
                return false;
            }
            i = i + 1;
        }
        true
    }

    /// Whether the species has an entry with the element and the size of the
    /// given one.
    fn holds_entry(&self, entry: &AtomTuple) -> (found: bool)
        ensures
            found == entries(self.atom_tuples@).contains((entry.atom.symbol@, entry.size)),
    {
        let mut j: usize = 0;
        while j < self.atom_tuples.len()
            invariant
                j <= self.atom_tuples.len(),
                forall|k: int|
                    0 <= k < j ==> #[trigger] entries(self.atom_tuples@)[k] != (
                        entry.atom.symbol@,
                        entry.size,
                    ),
            decreases self.atom_tuples.len() - j,
        {
            if self.atom_tuples[j] == *entry {
                assert(entries(self.atom_tuples@)[j as int] == (entry.atom.symbol@, entry.size));
                return true;
            }
            j = j + 1;
        }
        false
    }

    /// Whether two species are the same: whether, for every element that
    /// occurs in either, both hold the same number of atoms of it, an element
    /// that does not occur counting as zero.
    ///
    /// This is an equivalence relation, and the order of the entries plays
    /// no part in it. It is the identity by which species are keys of a
    /// reaction side, and what `==` means on species.
    pub fn same_composition(&self, other: &ChemicalSpecies) -> (same: bool)
        ensures
            same == (self@ == other@),
    {
        let same = self.agrees_on_own_elements(other) && other.agrees_on_own_elements(self);
        proof {
            let a = self.atom_tuples@;
            let b = other.atom_tuples@;
            lemma_same_composition_iff_same_totals(a, b);
            if same {
                assert forall|symbol: Seq<char>| atom_total(a, symbol) == atom_total(
                    b,
                    symbol,
                ) by {
                    if exists|i: int| 0 <= i < a.len() && (#[trigger] a[i]).atom.symbol@ == symbol {
                        let i = choose|i: int|
                            0 <= i < a.len() && (#[trigger] a[i]).atom.symbol@ == symbol;
                        assert(a[i].atom.symbol@ == symbol);
                    } else if exists|j: int|
                        0 <= j < b.len() && (#[trigger] b[j]).atom.symbol@ == symbol {
                        let j = choose|j: int|
                            0 <= j < b.len() && (#[trigger] b[j]).atom.symbol@ == symbol;
                        assert(b[j].atom.symbol@ == symbol);
                    } else {
                        lemma_unlisted_symbol_has_no_atoms(a, symbol);
                        lemma_unlisted_symbol_has_no_atoms(b, symbol);
                    }
                }
            }
        }
        same
    }
}

/// The list gives a composition element by element: each element of the
/// composition once, with its number of atoms, and nothing else.
pub open spec fn counts_denote(counts: Seq<(&Atom, u128)>, composition: Composition) -> bool {
    &&& forall|k: int|
        0 <= k < counts.len() ==> composition.dom().contains((#[trigger] counts[k]).0.symbol@)
            && composition[counts[k].0.symbol@] == counts[k].1
    &&& forall|i: int, j: int|
        0 <= i < j < counts.len() ==> (#[trigger] counts[i]).0.symbol@ != (
        #[trigger] counts[j]).0.symbol@
    &&& forall|symbol: Seq<char>|
        composition.dom().contains(symbol) ==> names_symbol(counts, symbol)
}

/// Some pair of the list is of the element with the symbol.
pub open spec fn names_symbol(counts: Seq<(&Atom, u128)>, symbol: Seq<char>) -> bool {
    exists|k: int| 0 <= k < counts.len() && (#[trigger] counts[k]).0.symbol@ == symbol
}

impl<'a> ChemicalSpecies<'a> {
    /// Whether an entry before the given one is of the same element.
    fn named_before(&self, i: usize) -> (named: bool)
        requires
            i < self.atom_tuples.len(),
        ensures
            named == exists|m: int|
                0 <= m < i && (#[trigger] self.atom_tuples@[m]).atom.symbol@
                    == self.atom_tuples@[i as int].atom.symbol@,
    {
        let mut m: usize = 0;
        while m < i
            invariant
                m <= i < self.atom_tuples.len(),
                forall|k: int|
                    0 <= k < m ==> (#[trigger] self.atom_tuples@[k]).atom.symbol@
                        != self.atom_tuples@[i as int].atom.symbol@,
            decreases i - m,
        {
            if *self.atom_tuples[m].atom == *self.atom_tuples[i].atom {
                return true;
            }
            m = m + 1;
        }
        false
    }

    /// The composition as a list: each element of the species once, in the
    /// order in which the entries first name it, with its number of atoms.
    /// Elements without atoms are left out. Two species of the same
    /// composition give the same pairs, in whatever order.
    pub fn element_counts(&self) -> (counts: Vec<(&'a Atom, u128)>)
        ensures
            counts_denote(counts@, self@),
    {
        let mut counts: Vec<(&'a Atom, u128)> = Vec::new();
        let ghost mut origin: Seq<int> = Seq::empty();
        let mut i: usize = 0;
        while i < self.atom_tuples.len()
            invariant
                i <= self.atom_tuples.len(),
                origin.len() == counts.len(),
                forall|k: int|
                    0 <= k < counts.len() ==> {
                        &&& 0 <= #[trigger] origin[k] < i
                        &&& counts@[k].0 == self.atom_tuples@[origin[k]].atom
                        &&& counts@[k].1 == atom_total(self.atom_tuples@, counts@[k].0.symbol@)
                        &&& counts@[k].1 > 0
                        &&& forall|m: int|
                            0 <= m < origin[k] ==> (#[trigger] self.atom_tuples@[m]).atom.symbol@
                                != counts@[k].0.symbol@
                    },
                forall|a: int, b: int|
                    0 <= a < b < counts.len() ==> #[trigger] origin[a] < #[trigger] origin[b],
                forall|t: int|
                    0 <= t < i && atom_total(
                        self.atom_tuples@,
                        (#[trigger] self.atom_tuples@[t]).atom.symbol@,
                    ) > 0 ==> names_symbol(counts@, self.atom_tuples@[t].atom.symbol@),
            decreases self.atom_tuples.len() - i,
        {
            let atom = self.atom_tuples[i].atom;
            let ghost before = counts@;
            let named = self.named_before(i);
            let total = if named {
                0
            } else {
                self.count_of(atom)
            };
            if total > 0 {
                counts.push((atom, total));
                proof {
                    origin = origin.push(i as int);
                }
            }
            proof {
                assert forall|t: int|
                    0 <= t < i + 1 && atom_total(
                        self.atom_tuples@,
                        (#[trigger] self.atom_tuples@[t]).atom.symbol@,
                    ) > 0 implies names_symbol(counts@, self.atom_tuples@[t].atom.symbol@) by {
                    let symbol = self.atom_tuples@[t].atom.symbol@;
                    if t < i {
                        let k = choose|k: int|
                            0 <= k < before.len() && (#[trigger] before[k]).0.symbol@ == symbol;
                        assert(counts@[k].0.symbol@ == symbol);
                    } else if named {
                        let m = choose|m: int|
                            0 <= m < i && (#[trigger] self.atom_tuples@[m]).atom.symbol@ == symbol;
                        let k = choose|k: int|
                            0 <= k < before.len() && (#[trigger] before[k]).0.symbol@ == symbol;
                        assert(counts@[k].0.symbol@ == symbol);
                    } else {
                        assert(counts@[before.len() as int].0.symbol@ == symbol);
                    }
                }
            }
            i = i + 1;
        }
        proof {
            let tuples = self.atom_tuples@;
            assert forall|k: int| 0 <= k < counts.len() implies self@.dom().contains(
                (#[trigger] counts@[k]).0.symbol@,
            ) && self@[counts@[k].0.symbol@] == counts@[k].1 by {
                assert(0 <= origin[k]);
            }
            assert forall|a: int, b: int| 0 <= a < b < counts.len() implies (
            #[trigger] counts@[a]).0.symbol@ != (#[trigger] counts@[b]).0.symbol@ by {
                assert(origin[a] < origin[b]);
                assert(tuples[origin[a]].atom.symbol@ == counts@[a].0.symbol@);
            }
            assert forall|symbol: Seq<char>| self@.dom().contains(symbol) implies names_symbol(
                counts@,
                symbol,
            ) by {
                if forall|t: int| 0 <= t < tuples.len() ==> (#[trigger] tuples[t]).atom.symbol@
                    != symbol {
                    lemma_unlisted_symbol_has_no_atoms(tuples, symbol);
                } else {
                    let t = choose|t: int|
                        0 <= t < tuples.len() && (#[trigger] tuples[t]).atom.symbol@ == symbol;
                    assert(atom_total(tuples, tuples[t].atom.symbol@) > 0);
                }
            }
        }
        counts
    }
}

/// The (symbol, number of atoms) pairs of a list, whatever their order.
pub open spec fn count_pairs(counts: Seq<(&Atom, u128)>) -> Set<(Seq<char>, u128)> {
    Set::new(
        |pair: (Seq<char>, u128)|
            exists|k: int|
                0 <= k < counts.len() && (#[trigger] counts[k]).0.symbol@ == pair.0 && counts[k].1
                    == pair.1,
    )
}

proof fn lemma_count_pairs_follow(
    a: Seq<(&Atom, u128)>,
    b: Seq<(&Atom, u128)>,
    composition: Composition,
    pair: (Seq<char>, u128),
)
    requires
        counts_denote(a, composition),
        counts_denote(b, composition),
        count_pairs(a).contains(pair),
    ensures
        count_pairs(b).contains(pair),
{
    let k = choose|k: int|
        0 <= k < a.len() && (#[trigger] a[k]).0.symbol@ == pair.0 && a[k].1 == pair.1;
    assert(composition.dom().contains(pair.0));
    assert(names_symbol(b, pair.0));
    let m = choose|m: int| 0 <= m < b.len() && (#[trigger] b[m]).0.symbol@ == pair.0;
    assert(b[m].1 == composition[pair.0]);
}

/// Two lists that give the same composition element by element hold the same
/// (symbol, number of atoms) pairs. So what [`ChemicalSpecies::element_counts`]
/// returns for two species that are `==` differs in order at most, and a hash
/// that does not depend on the order of these pairs agrees with `==`.
pub proof fn same_composition_same_counts(
    a: Seq<(&Atom, u128)>,
    b: Seq<(&Atom, u128)>,
    composition: Composition,
)
    requires
        counts_denote(a, composition),
        counts_denote(b, composition),
    ensures
        count_pairs(a) == count_pairs(b),
{
    assert forall|pair: (Seq<char>, u128)| count_pairs(a).contains(pair) == count_pairs(
        b,
    ).contains(pair) by {
        if count_pairs(a).contains(pair) {
            lemma_count_pairs_follow(a, b, composition, pair);
        }
        if count_pairs(b).contains(pair) {
            lemma_count_pairs_follow(b, a, composition, pair);
        }
    }
    assert(count_pairs(a) =~= count_pairs(b));
}

impl<'a> PartialEq for ChemicalSpecies<'a> {
    /// `==` on species is [`ChemicalSpecies::same_composition`].
    fn eq(&self, other: &ChemicalSpecies<'a>) -> (same: bool) {
        self.same_composition(other)
    }
}

impl<'a> PartialEqSpecImpl for ChemicalSpecies<'a> {
    open spec fn obeys_eq_spec() -> bool {
        true
    }

    open spec fn eq_spec(&self, other: &ChemicalSpecies<'a>) -> bool {
        self@ == other@
    }
}

impl<'a> Eq for ChemicalSpecies<'a> {}

proof fn lemma_atom_total_without(tuples: Seq<AtomTuple>, k: int, symbol: Seq<char>)
    requires
        0 <= k < tuples.len(),
    ensures
        atom_total(tuples, symbol) == atom_total(tuples.remove(k), symbol) + if tuples[k].atom
            .symbol@ == symbol {
            tuples[k].size as nat
        } else {
            0
        },
    decreases tuples.len(),
{
    if k == tuples.len() - 1 {
        assert(tuples.remove(k) =~= tuples.drop_last());
    } else {
        assert(tuples.remove(k).drop_last() =~= tuples.drop_last().remove(k));
        assert(tuples.remove(k).last() == tuples.last());
        lemma_atom_total_without(tuples.drop_last(), k, symbol);
    }
}

proof fn lemma_totals_ignore_order(a: Seq<AtomTuple>, b: Seq<AtomTuple>, symbol: Seq<char>)
    requires
        entries(a).to_multiset() == entries(b).to_multiset(),
    ensures
        atom_total(a, symbol) == atom_total(b, symbol),
    decreases a.len(),
{
    entries(a).to_multiset_ensures();
    entries(b).to_multiset_ensures();
    if a.len() > 0 {
        let last = entries(a).last();
        let rest = a.drop_last();
        assert(entries(a) =~= entries(rest).push(last));
        assert(entries(a)[a.len() - 1] == last);
        assert(entries(b).to_multiset().count(last) > 0);
        let k = choose|k: int| 0 <= k < entries(b).len() && entries(b)[k] == last;
        assert(entries(b.remove(k)) =~= entries(b).remove(k));
        entries(rest).to_multiset_ensures();
        assert(entries(rest).to_multiset() =~= entries(b.remove(k)).to_multiset());
        lemma_totals_ignore_order(rest, b.remove(k), symbol);
        lemma_atom_total_without(b, k, symbol);
    }
}

/// The order of the entries plays no part in what a species is: two lists
/// with the same entries, in any order, denote the same composition.
pub proof fn composition_ignores_order(a: Seq<AtomTuple>, b: Seq<AtomTuple>)
    requires
        entries(a).to_multiset() == entries(b).to_multiset(),
    ensures
        composition(a) == composition(b),
{
    assert forall|symbol: Seq<char>| atom_total(a, symbol) == atom_total(b, symbol) by {
        lemma_totals_ignore_order(a, b, symbol);
    }
    lemma_same_composition_iff_same_totals(a, b);
}

/// The order of the entries plays no part in whether one list is contained
/// in another: two lists with the same entries, in any order, are contained
/// in each other.
pub proof fn containment_ignores_order(a: Seq<AtomTuple>, b: Seq<AtomTuple>)
    requires
        entries(a).to_multiset() == entries(b).to_multiset(),
    ensures
        contained_in(a, b),
        contained_in(b, a),
{
    entries(a).to_multiset_ensures();
    entries(b).to_multiset_ensures();
    assert forall|i: int| 0 <= i < a.len() implies entries(b).contains(
        #[trigger] entries(a)[i],
    ) by {
        assert(entries(a).contains(entries(a)[i]));
        assert(entries(b).to_multiset().count(entries(a)[i]) > 0);
    }
    assert forall|i: int| 0 <= i < b.len() implies entries(a).contains(
        #[trigger] entries(b)[i],
    ) by {
        assert(entries(b).contains(entries(b)[i]));
        assert(entries(a).to_multiset().count(entries(b)[i]) > 0);
    }
}

/// Every element that the list names is named once, with at least one atom.
pub open spec fn names_each_element_once(tuples: Seq<AtomTuple>) -> bool {
    &&& forall|i: int| 0 <= i < tuples.len() ==> (#[trigger] tuples[i]).size >= 1
    &&& forall|i: int, j: int|
        0 <= i < j < tuples.len() ==> (#[trigger] tuples[i]).atom.symbol@ != (
        #[trigger] tuples[j]).atom.symbol@
}

proof fn lemma_total_of_named_once(tuples: Seq<AtomTuple>, i: int)
    requires
        names_each_element_once(tuples),
        0 <= i < tuples.len(),
    ensures
        atom_total(tuples, tuples[i].atom.symbol@) == tuples[i].size,
    decreases tuples.len(),
{
    let symbol = tuples[i].atom.symbol@;
    let rest = tuples.drop_last();
    if i == tuples.len() - 1 {
        assert forall|k: int| 0 <= k < rest.len() implies (#[trigger] rest[k]).atom.symbol@
            != symbol by {
            assert(rest[k] == tuples[k]);
        }
        lemma_unlisted_symbol_has_no_atoms(rest, symbol);
    } else {
        assert(tuples[i].atom.symbol@ != tuples[tuples.len() - 1].atom.symbol@);
        assert(rest[i] == tuples[i]);
        assert forall|k: int, m: int| 0 <= k < m < rest.len() implies (
        #[trigger] rest[k]).atom.symbol@ != (#[trigger] rest[m]).atom.symbol@ by {
            assert(rest[k] == tuples[k] && rest[m] == tuples[m]);
        }
        assert forall|k: int| 0 <= k < rest.len() implies (#[trigger] rest[k]).size >= 1 by {
            assert(rest[k] == tuples[k]);
        }
        lemma_total_of_named_once(rest, i);
    }
}

proof fn lemma_contained_totals(a: Seq<AtomTuple>, b: Seq<AtomTuple>, i: int)
    requires
        names_each_element_once(a),
        names_each_element_once(b),
        contained_in(a, b),
        0 <= i < a.len(),
    ensures
        atom_total(a, a[i].atom.symbol@) == atom_total(b, a[i].atom.symbol@),
{
    assert(entries(b).contains(entries(a)[i]));
    let j = choose|j: int| 0 <= j < entries(b).len() && entries(b)[j] == entries(a)[i];
    lemma_total_of_named_once(a, i);
    lemma_total_of_named_once(b, j);
}

/// For species that name each element once, being the same species is the
/// same as each holding every entry of the other. Holding every entry of the
/// other in one direction only is not enough: `H2` is contained in `H2O`.
pub proof fn equality_is_mutual_containment(a: Seq<AtomTuple>, b: Seq<AtomTuple>)
    requires
        names_each_element_once(a),
        names_each_element_once(b),
    ensures
        composition(a) == composition(b) <==> contained_in(a, b) && contained_in(b, a),
{
    lemma_same_composition_iff_same_totals(a, b);
    if composition(a) == composition(b) {
        assert forall|i: int| 0 <= i < a.len() implies entries(b).contains(
            #[trigger] entries(a)[i],
        ) by {
            lemma_entry_is_found(a, b, i);
        }
        assert forall|i: int| 0 <= i < b.len() implies entries(a).contains(
            #[trigger] entries(b)[i],
        ) by {
            lemma_entry_is_found(b, a, i);
        }
    }
    if contained_in(a, b) && contained_in(b, a) {
        assert forall|symbol: Seq<char>| atom_total(a, symbol) == atom_total(b, symbol) by {
            if exists|i: int| 0 <= i < a.len() && (#[trigger] a[i]).atom.symbol@ == symbol {
                let i = choose|i: int| 0 <= i < a.len() && (#[trigger] a[i]).atom.symbol@ == symbol;
                lemma_contained_totals(a, b, i);
            } else if exists|j: int| 0 <= j < b.len() && (#[trigger] b[j]).atom.symbol@ == symbol {
                let j = choose|j: int| 0 <= j < b.len() && (#[trigger] b[j]).atom.symbol@ == symbol;
                lemma_contained_totals(b, a, j);
            } else {
                lemma_unlisted_symbol_has_no_atoms(a, symbol);
                lemma_unlisted_symbol_has_no_atoms(b, symbol);
            }
        }
    }
}

proof fn lemma_entry_is_found(a: Seq<AtomTuple>, b: Seq<AtomTuple>, i: int)
    requires
        names_each_element_once(a),
        names_each_element_once(b),
        forall|symbol: Seq<char>| atom_total(a, symbol) == atom_total(b, symbol),
        0 <= i < a.len(),
    ensures
        entries(b).contains(entries(a)[i]),
{
    let symbol = a[i].atom.symbol@;
    lemma_total_of_named_once(a, i);
    assert(atom_total(b, symbol) == a[i].size);
    if forall|j: int| 0 <= j < b.len() ==> (#[trigger] b[j]).atom.symbol@ != symbol {
        lemma_unlisted_symbol_has_no_atoms(b, symbol);
    } else {
        let j = choose|j: int| 0 <= j < b.len() && (#[trigger] b[j]).atom.symbol@ == symbol;
        lemma_total_of_named_once(b, j);
        assert(entries(b)[j] == entries(a)[i]);
    }
}

} // verus!
