//! The catalogue of functional groups: small pattern molecules, each with a name.
//!
//! In a pattern, the atom "R" is a wildcard: it stands for a bond to a hydrogen,
//! to a carbon, or to nothing. So a carboxylic acid contains R-O-R; to mean an
//! ether, a pattern must say C-O-C.

use crate::molecule::{symbols_of, Graph, Molecule};
use vstd::prelude::*;

verus! {

/// The mathematical model of a functional group: its name and its pattern.
pub struct Pattern {
    pub name: Seq<char>,
    pub graph: Graph,
}

/// A functional group: a name, and the pattern molecule that is looked for in
/// other molecules.
pub struct FunctGroup {
    pub name: &'static str,
    pub molecule: Molecule,
}

impl View for FunctGroup {
    type V = Pattern;

    open spec fn view(&self) -> Pattern {
        Pattern { name: self.name@, graph: self.molecule@ }
    }
}

impl FunctGroup {
    /// The group's name.
    pub fn to_string(&self) -> (s: String)
        ensures
            s@ == self@.name,
    {
        self.name.to_owned()
    }
}

/// The models of a list of functional groups, in order.
pub open spec fn patterns_of(groups: &Vec<FunctGroup>) -> Seq<Pattern> {
    Seq::new(groups@.len(), |i: int| groups@[i]@)
}

/// Every group of the list holds a well-formed molecule.
pub open spec fn all_well_formed(groups: &Vec<FunctGroup>) -> bool {
    forall|i: int| 0 <= i < groups@.len() ==> (#[trigger] groups@[i]).molecule.wf()
}

/// The catalogue: the patterns that a molecule is tested for, in the order in
/// which results are reported. A few of them stand in it twice.
pub open spec fn catalog() -> Seq<Pattern> {
    seq![
        carbonyl_pattern(),
        carboxyl_pattern(),
        acid_chloride_pattern(),
        aryl_pattern(),
        hydroxyl_pattern(),
        ester_pattern(),
        peroxide_pattern(),
        ether_pattern(),
        anhydride_pattern(),
        ether_pattern(),
        anhydride_pattern(),
        amide_pattern(),
        amine_pattern(),
        imine_pattern(),
        nitrile_pattern(),
        pyridyl_pattern(),
        nitro_pattern(),
        sulfide_pattern(),
        disulfide_pattern(),
        sulfide_pattern(),
        sulfoxide_pattern(),
        phosphonic_acid_pattern(),
        phosphate_pattern(),
        borino_pattern(),
        borono_pattern(),
        boronate_pattern(),
        rli_pattern(),
        grignard_pattern(),
    ]
}

/// Builds the catalogue.
pub fn get_funct_groups() -> (o: Vec<FunctGroup>)
    ensures
        patterns_of(&o) == catalog(),
        all_well_formed(&o),
{
    let mut o: Vec<FunctGroup> = Vec::new();
    o.push(carbonyl());
    o.push(carboxyl());
    o.push(acid_chloride());
    o.push(aryl());
    o.push(hydroxyl());
    o.push(ester());
    o.push(peroxide());
    o.push(ether());
    o.push(anhydride());
    o.push(ether());
    o.push(anhydride());
    o.push(amide());
    o.push(amine());
    o.push(imine());
    o.push(nitrile());
    o.push(pyridyl());
    o.push(nitro());
    o.push(sulfide());
    o.push(disulfide());
    o.push(sulfide());
    o.push(sulfoxide());
    o.push(phosphonic_acid());
    o.push(phosphate());
    o.push(borino());
    o.push(borono());
    o.push(boronate());
    o.push(RLi());
    o.push(grignard());
    assert(patterns_of(&o) =~= catalog());
    o
}

/// Two catalogues that were built by [`get_funct_groups`] hold the same names
/// and the same patterns in the same order.
pub proof fn lemma_catalog_repeatable(a: &Vec<FunctGroup>, b: &Vec<FunctGroup>)
    requires
        patterns_of(a) == catalog(),
        patterns_of(b) == catalog(),
    ensures
        a@.len() == b@.len(),
        forall|i: int|
            0 <= i < a@.len() ==> (#[trigger] a@[i]).name@ == b@[i].name@ && a@[i].molecule@
                == b@[i].molecule@,
{
    assert(patterns_of(a).len() == a@.len());
    assert(patterns_of(b).len() == b@.len());
    assert forall|i: int| 0 <= i < a@.len() implies (#[trigger] a@[i]).name@ == b@[i].name@
        && a@[i].molecule@ == b@[i].molecule@ by {
        assert(patterns_of(a)[i] == a@[i]@);
        assert(patterns_of(b)[i] == b@[i]@);
    }
}

/// A ring of six carbons with alternating double and single bonds.
pub open spec fn aryl_pattern() -> Pattern {
    Pattern {
        name: "Aryl"@,
        graph: Graph::unbonded(symbols_of(seq!["C", "C", "C", "C", "C", "C"])).with_bond(0, 1, 2).with_bond(1, 2, 1).with_bond(2, 3, 2).with_bond(3, 4, 1).with_bond(4, 5, 2).with_bond(5, 0, 1),
    }
}

/// A ring of six carbons with alternating double and single bonds.
pub fn aryl() -> (g: FunctGroup)
    ensures
        g@ == aryl_pattern(),
        g.molecule.wf(),
{
    let atoms = vec!["C", "C", "C", "C", "C", "C"];
    assert(atoms@ =~= seq!["C", "C", "C", "C", "C", "C"]);
    let mut molecule = Molecule::new(atoms);
    molecule.add_bond(0, 1, 2);
    molecule.add_bond(1, 2, 1);
    molecule.add_bond(2, 3, 2);
    molecule.add_bond(3, 4, 1);
    molecule.add_bond(4, 5, 2);
    molecule.add_bond(5, 0, 1);
    FunctGroup { molecule, name: "Aryl" }
}

/// A carbon with a double bond to an oxygen.
pub open spec fn carbonyl_pattern() -> Pattern {
    Pattern {
        name: "Carbonyl"@,
        graph: Graph::unbonded(symbols_of(seq!["C", "O"])).with_bond(0, 1, 2),
    }
}

/// A carbon with a double bond to an oxygen.
pub fn carbonyl() -> (g: FunctGroup)
    ensures
        g@ == carbonyl_pattern(),
        g.molecule.wf(),
{
    let atoms = vec!["C", "O"];
    assert(atoms@ =~= seq!["C", "O"]);
    let mut molecule = Molecule::new(atoms);
    molecule.add_bond(0, 1, 2);
    FunctGroup { molecule, name: "Carbonyl" }
}

/// A carbon with a double bond to one oxygen and a single bond to another.
pub open spec fn carboxyl_pattern() -> Pattern {
    Pattern {
        name: "Carboxyl"@,
        graph: Graph::unbonded(symbols_of(seq!["C", "O", "O"])).with_bond(0, 1, 2).with_bond(0, 2, 1),
    }
}

/// A carbon with a double bond to one oxygen and a single bond to another.
pub fn carboxyl() -> (g: FunctGroup)
    ensures
        g@ == carboxyl_pattern(),
        g.molecule.wf(),
{
    let atoms = vec!["C", "O", "O"];
    assert(atoms@ =~= seq!["C", "O", "O"]);
    let mut molecule = Molecule::new(atoms);
    molecule.add_bond(0, 1, 2);
    molecule.add_bond(0, 2, 1);
    FunctGroup { molecule, name: "Carboxyl" }
}

/// A carbon with a double bond to an oxygen and a single bond to a chlorine.
pub open spec fn acid_chloride_pattern() -> Pattern {
    Pattern {
        name: "Acid Chloride"@,
        graph: Graph::unbonded(symbols_of(seq!["C", "O", "Cl"])).with_bond(0, 1, 2).with_bond(0, 2, 1),
    }
}

/// A carbon with a double bond to an oxygen and a single bond to a chlorine.
pub fn acid_chloride() -> (g: FunctGroup)
    ensures
        g@ == acid_chloride_pattern(),
        g.molecule.wf(),
{
    let atoms = vec!["C", "O", "Cl"];
    assert(atoms@ =~= seq!["C", "O", "Cl"]);
    let mut molecule = Molecule::new(atoms);
    molecule.add_bond(0, 1, 2);
    molecule.add_bond(0, 2, 1);
    FunctGroup { molecule, name: "Acid Chloride" }
}

/// A carbon with a single bond to an oxygen.
pub open spec fn hydroxyl_pattern() -> Pattern {
    Pattern {
        name: "Hydroxyl"@,
        graph: Graph::unbonded(symbols_of(seq!["C", "O"])).with_bond(0, 1, 1),
    }
}

/// A carbon with a single bond to an oxygen.
pub fn hydroxyl() -> (g: FunctGroup)
    ensures
        g@ == hydroxyl_pattern(),
        g.molecule.wf(),
{
    let atoms = vec!["C", "O"];
    assert(atoms@ =~= seq!["C", "O"]);
    let mut molecule = Molecule::new(atoms);
    molecule.add_bond(0, 1, 1);
    FunctGroup { molecule, name: "Hydroxyl" }
}

/// A carboxyl whose single-bonded oxygen carries a carbon.
pub open spec fn ester_pattern() -> Pattern {
    Pattern {
        name: "Ester"@,
        graph: Graph::unbonded(symbols_of(seq!["C", "O", "O", "C"])).with_bond(0, 1, 2).with_bond(0, 2, 1).with_bond(2, 3, 1),
    }
}

/// A carboxyl whose single-bonded oxygen carries a carbon.
pub fn ester() -> (g: FunctGroup)
    ensures
        g@ == ester_pattern(),
        g.molecule.wf(),
{
    let atoms = vec!["C", "O", "O", "C"];
    assert(atoms@ =~= seq!["C", "O", "O", "C"]);
    let mut molecule = Molecule::new(atoms);
    molecule.add_bond(0, 1, 2);
    molecule.add_bond(0, 2, 1);
    molecule.add_bond(2, 3, 1);
    FunctGroup { molecule, name: "Ester" }
}

/// Two oxygens joined by a single bond, each with one substituent.
pub open spec fn peroxide_pattern() -> Pattern {
    Pattern {
        name: "Peroxide"@,
        graph: Graph::unbonded(symbols_of(seq!["R", "O", "O", "R"])).with_bond(0, 1, 1).with_bond(1, 2, 1).with_bond(2, 3, 1),
    }
}

/// Two oxygens joined by a single bond, each with one substituent.
pub fn peroxide() -> (g: FunctGroup)
    ensures
        g@ == peroxide_pattern(),
        g.molecule.wf(),
{
    let atoms = vec!["R", "O", "O", "R"];
    assert(atoms@ =~= seq!["R", "O", "O", "R"]);
    let mut molecule = Molecule::new(atoms);
    molecule.add_bond(0, 1, 1);
    molecule.add_bond(1, 2, 1);
    molecule.add_bond(2, 3, 1);
    FunctGroup { molecule, name: "Peroxide" }
}

/// An oxygen with single bonds to two carbons.
pub open spec fn ether_pattern() -> Pattern {
    Pattern {
        name: "Ether"@,
        graph: Graph::unbonded(symbols_of(seq!["C", "O", "C"])).with_bond(0, 1, 1).with_bond(1, 2, 1),
    }
}

/// An oxygen with single bonds to two carbons.
pub fn ether() -> (g: FunctGroup)
    ensures
        g@ == ether_pattern(),
        g.molecule.wf(),
{
    let atoms = vec!["C", "O", "C"];
    assert(atoms@ =~= seq!["C", "O", "C"]);
    let mut molecule = Molecule::new(atoms);
    molecule.add_bond(0, 1, 1);
    molecule.add_bond(1, 2, 1);
    FunctGroup { molecule, name: "Ether" }
}

/// Two carbonyl carbons joined through an oxygen, each with one substituent.
pub open spec fn anhydride_pattern() -> Pattern {
    Pattern {
        name: "Anhydride"@,
        graph: Graph::unbonded(symbols_of(seq!["R", "C", "O", "O", "C", "O", "R"])).with_bond(0, 1, 1).with_bond(1, 2, 2).with_bond(1, 3, 1).with_bond(3, 4, 1).with_bond(4, 5, 2).with_bond(4, 6, 1),
    }
}

/// Two carbonyl carbons joined through an oxygen, each with one substituent.
pub fn anhydride() -> (g: FunctGroup)
    ensures
        g@ == anhydride_pattern(),
        g.molecule.wf(),
{
    let atoms = vec!["R", "C", "O", "O", "C", "O", "R"];
    assert(atoms@ =~= seq!["R", "C", "O", "O", "C", "O", "R"]);
    let mut molecule = Molecule::new(atoms);
    molecule.add_bond(0, 1, 1);
    molecule.add_bond(1, 2, 2);
    molecule.add_bond(1, 3, 1);
    molecule.add_bond(3, 4, 1);
    molecule.add_bond(4, 5, 2);
    molecule.add_bond(4, 6, 1);
    FunctGroup { molecule, name: "Anhydride" }
}

/// A carbonyl carbon with a single bond to a nitrogen that has two substituents.
pub open spec fn amide_pattern() -> Pattern {
    Pattern {
        name: "Amide"@,
        graph: Graph::unbonded(symbols_of(seq!["R", "C", "O", "N", "R", "R"])).with_bond(0, 1, 1).with_bond(1, 2, 2).with_bond(1, 3, 1).with_bond(3, 4, 1).with_bond(3, 5, 1),
    }
}

/// A carbonyl carbon with a single bond to a nitrogen that has two substituents.
pub fn amide() -> (g: FunctGroup)
    ensures
        g@ == amide_pattern(),
        g.molecule.wf(),
{
    let atoms = vec!["R", "C", "O", "N", "R", "R"];
    assert(atoms@ =~= seq!["R", "C", "O", "N", "R", "R"]);
    let mut molecule = Molecule::new(atoms);
    molecule.add_bond(0, 1, 1);
    molecule.add_bond(1, 2, 2);
    molecule.add_bond(1, 3, 1);
    molecule.add_bond(3, 4, 1);
    molecule.add_bond(3, 5, 1);
    FunctGroup { molecule, name: "Amide" }
}

/// A nitrogen with a single bond to a substituent.
pub open spec fn amine_pattern() -> Pattern {
    Pattern {
        name: "Amine"@,
        graph: Graph::unbonded(symbols_of(seq!["N", "R"])).with_bond(0, 1, 1),
    }
}

/// A nitrogen with a single bond to a substituent.
pub fn amine() -> (g: FunctGroup)
    ensures
        g@ == amine_pattern(),
        g.molecule.wf(),
{
    let atoms = vec!["N", "R"];
    assert(atoms@ =~= seq!["N", "R"]);
    let mut molecule = Molecule::new(atoms);
    molecule.add_bond(0, 1, 1);
    FunctGroup { molecule, name: "Amine" }
}

/// A nitrogen with a double bond to a substituent.
pub open spec fn imine_pattern() -> Pattern {
    Pattern {
        name: "Imine"@,
        graph: Graph::unbonded(symbols_of(seq!["N", "R"])).with_bond(0, 1, 2),
    }
}

/// A nitrogen with a double bond to a substituent.
pub fn imine() -> (g: FunctGroup)
    ensures
        g@ == imine_pattern(),
        g.molecule.wf(),
{
    let atoms = vec!["N", "R"];
    assert(atoms@ =~= seq!["N", "R"]);
    let mut molecule = Molecule::new(atoms);
    molecule.add_bond(0, 1, 2);
    FunctGroup { molecule, name: "Imine" }
}

/// A carbon with a triple bond to a nitrogen and one substituent.
pub open spec fn nitrile_pattern() -> Pattern {
    Pattern {
        name: "Nitrile"@,
        graph: Graph::unbonded(symbols_of(seq!["R", "C", "N"])).with_bond(0, 1, 1).with_bond(1, 2, 3),
    }
}

/// A carbon with a triple bond to a nitrogen and one substituent.
pub fn nitrile() -> (g: FunctGroup)
    ensures
        g@ == nitrile_pattern(),
        g.molecule.wf(),
{
    let atoms = vec!["R", "C", "N"];
    assert(atoms@ =~= seq!["R", "C", "N"]);
    let mut molecule = Molecule::new(atoms);
    molecule.add_bond(0, 1, 1);
    molecule.add_bond(1, 2, 3);
    FunctGroup { molecule, name: "Nitrile" }
}

/// Five carbons and a nitrogen, bonded as listed.
pub open spec fn pyridyl_pattern() -> Pattern {
    Pattern {
        name: "Pyridyl"@,
        graph: Graph::unbonded(symbols_of(seq!["C", "C", "C", "C", "C", "N"])).with_bond(0, 1, 2).with_bond(1, 2, 1).with_bond(3, 4, 2).with_bond(4, 5, 1).with_bond(5, 0, 2),
    }
}

/// Five carbons and a nitrogen, bonded as listed.
pub fn pyridyl() -> (g: FunctGroup)
    ensures
        g@ == pyridyl_pattern(),
        g.molecule.wf(),
{
    let atoms = vec!["C", "C", "C", "C", "C", "N"];
    assert(atoms@ =~= seq!["C", "C", "C", "C", "C", "N"]);
    let mut molecule = Molecule::new(atoms);
    molecule.add_bond(0, 1, 2);
    molecule.add_bond(1, 2, 1);
    molecule.add_bond(3, 4, 2);
    molecule.add_bond(4, 5, 1);
    molecule.add_bond(5, 0, 2);
    FunctGroup { molecule, name: "Pyridyl" }
}

/// A nitrogen with a substituent and a double bond to an oxygen that carries another oxygen.
pub open spec fn nitro_pattern() -> Pattern {
    Pattern {
        name: "Nitro"@,
        graph: Graph::unbonded(symbols_of(seq!["R", "N", "O", "O"])).with_bond(0, 1, 1).with_bond(1, 2, 2).with_bond(2, 3, 1),
    }
}

/// A nitrogen with a substituent and a double bond to an oxygen that carries another oxygen.
pub fn nitro() -> (g: FunctGroup)
    ensures
        g@ == nitro_pattern(),
        g.molecule.wf(),
{
    let atoms = vec!["R", "N", "O", "O"];
    assert(atoms@ =~= seq!["R", "N", "O", "O"]);
    let mut molecule = Molecule::new(atoms);
    molecule.add_bond(0, 1, 1);
    molecule.add_bond(1, 2, 2);
    molecule.add_bond(2, 3, 1);
    FunctGroup { molecule, name: "Nitro" }
}

/// A sulfur with two substituents.
pub open spec fn sulfide_pattern() -> Pattern {
    Pattern {
        name: "Sulfide"@,
        graph: Graph::unbonded(symbols_of(seq!["R", "S", "R"])).with_bond(0, 1, 1).with_bond(1, 2, 1),
    }
}

/// A sulfur with two substituents.
pub fn sulfide() -> (g: FunctGroup)
    ensures
        g@ == sulfide_pattern(),
        g.molecule.wf(),
{
    let atoms = vec!["R", "S", "R"];
    assert(atoms@ =~= seq!["R", "S", "R"]);
    let mut molecule = Molecule::new(atoms);
    molecule.add_bond(0, 1, 1);
    molecule.add_bond(1, 2, 1);
    FunctGroup { molecule, name: "Sulfide" }
}

/// Two sulfurs joined by a single bond, each with one substituent.
pub open spec fn disulfide_pattern() -> Pattern {
    Pattern {
        name: "Disulfide"@,
        graph: Graph::unbonded(symbols_of(seq!["R", "S", "S", "R"])).with_bond(0, 1, 1).with_bond(1, 2, 1).with_bond(2, 3, 1),
    }
}

/// Two sulfurs joined by a single bond, each with one substituent.
pub fn disulfide() -> (g: FunctGroup)
    ensures
        g@ == disulfide_pattern(),
        g.molecule.wf(),
{
    let atoms = vec!["R", "S", "S", "R"];
    assert(atoms@ =~= seq!["R", "S", "S", "R"]);
    let mut molecule = Molecule::new(atoms);
    molecule.add_bond(0, 1, 1);
    molecule.add_bond(1, 2, 1);
    molecule.add_bond(2, 3, 1);
    FunctGroup { molecule, name: "Disulfide" }
}

/// A sulfur with a substituent and a double bond to an oxygen that carries a substituent.
pub open spec fn sulfoxide_pattern() -> Pattern {
    Pattern {
        name: "Sulfoxide"@,
        graph: Graph::unbonded(symbols_of(seq!["R", "S", "O", "R"])).with_bond(0, 1, 1).with_bond(1, 2, 2).with_bond(2, 3, 1),
    }
}

/// A sulfur with a substituent and a double bond to an oxygen that carries a substituent.
pub fn sulfoxide() -> (g: FunctGroup)
    ensures
        g@ == sulfoxide_pattern(),
        g.molecule.wf(),
{
    let atoms = vec!["R", "S", "O", "R"];
    assert(atoms@ =~= seq!["R", "S", "O", "R"]);
    let mut molecule = Molecule::new(atoms);
    molecule.add_bond(0, 1, 1);
    molecule.add_bond(1, 2, 2);
    molecule.add_bond(2, 3, 1);
    FunctGroup { molecule, name: "Sulfoxide" }
}

/// A phosphorus with a substituent, a double bond to one oxygen and single bonds to two more.
pub open spec fn phosphonic_acid_pattern() -> Pattern {
    Pattern {
        name: "Phosphonic Acid"@,
        graph: Graph::unbonded(symbols_of(seq!["R", "P", "O", "O", "O"])).with_bond(0, 1, 1).with_bond(1, 2, 2).with_bond(1, 3, 1).with_bond(1, 4, 1),
    }
}

/// A phosphorus with a substituent, a double bond to one oxygen and single bonds to two more.
pub fn phosphonic_acid() -> (g: FunctGroup)
    ensures
        g@ == phosphonic_acid_pattern(),
        g.molecule.wf(),
{
    let atoms = vec!["R", "P", "O", "O", "O"];
    assert(atoms@ =~= seq!["R", "P", "O", "O", "O"]);
    let mut molecule = Molecule::new(atoms);
    molecule.add_bond(0, 1, 1);
    molecule.add_bond(1, 2, 2);
    molecule.add_bond(1, 3, 1);
    molecule.add_bond(1, 4, 1);
    FunctGroup { molecule, name: "Phosphonic Acid" }
}

/// A phosphorus with four oxygens, one of them double bonded and one carrying a substituent.
pub open spec fn phosphate_pattern() -> Pattern {
    Pattern {
        name: "Phosphate"@,
        graph: Graph::unbonded(symbols_of(seq!["R", "O", "P", "O", "O", "O"])).with_bond(0, 1, 1).with_bond(1, 2, 1).with_bond(2, 3, 2).with_bond(2, 4, 1).with_bond(2, 5, 1),
    }
}

/// A phosphorus with four oxygens, one of them double bonded and one carrying a substituent.
pub fn phosphate() -> (g: FunctGroup)
    ensures
        g@ == phosphate_pattern(),
        g.molecule.wf(),
{
    let atoms = vec!["R", "O", "P", "O", "O", "O"];
    assert(atoms@ =~= seq!["R", "O", "P", "O", "O", "O"]);
    let mut molecule = Molecule::new(atoms);
    molecule.add_bond(0, 1, 1);
    molecule.add_bond(1, 2, 1);
    molecule.add_bond(2, 3, 2);
    molecule.add_bond(2, 4, 1);
    molecule.add_bond(2, 5, 1);
    FunctGroup { molecule, name: "Phosphate" }
}

/// A boron with a substituent and an oxygen that carries another oxygen.
pub open spec fn borono_pattern() -> Pattern {
    Pattern {
        name: "Borono"@,
        graph: Graph::unbonded(symbols_of(seq!["R", "B", "O", "O"])).with_bond(0, 1, 1).with_bond(1, 2, 1).with_bond(2, 3, 1),
    }
}

/// A boron with a substituent and an oxygen that carries another oxygen.
pub fn borono() -> (g: FunctGroup)
    ensures
        g@ == borono_pattern(),
        g.molecule.wf(),
{
    let atoms = vec!["R", "B", "O", "O"];
    assert(atoms@ =~= seq!["R", "B", "O", "O"]);
    let mut molecule = Molecule::new(atoms);
    molecule.add_bond(0, 1, 1);
    molecule.add_bond(1, 2, 1);
    molecule.add_bond(2, 3, 1);
    FunctGroup { molecule, name: "Borono" }
}

/// A boron with two substituents and an oxygen.
pub open spec fn boronate_pattern() -> Pattern {
    Pattern {
        name: "Boronate"@,
        graph: Graph::unbonded(symbols_of(seq!["R", "B", "R", "O"])).with_bond(0, 1, 1).with_bond(1, 2, 1).with_bond(1, 3, 1),
    }
}

/// A boron with two substituents and an oxygen.
pub fn boronate() -> (g: FunctGroup)
    ensures
        g@ == boronate_pattern(),
        g.molecule.wf(),
{
    let atoms = vec!["R", "B", "R", "O"];
    assert(atoms@ =~= seq!["R", "B", "R", "O"]);
    let mut molecule = Molecule::new(atoms);
    molecule.add_bond(0, 1, 1);
    molecule.add_bond(1, 2, 1);
    molecule.add_bond(1, 3, 1);
    FunctGroup { molecule, name: "Boronate" }
}

/// A boron with two substituents and an oxygen.
pub open spec fn borino_pattern() -> Pattern {
    Pattern {
        name: "Borino"@,
        graph: Graph::unbonded(symbols_of(seq!["R", "B", "R", "O"])).with_bond(0, 1, 1).with_bond(1, 2, 1).with_bond(1, 3, 1),
    }
}

/// A boron with two substituents and an oxygen.
pub fn borino() -> (g: FunctGroup)
    ensures
        g@ == borino_pattern(),
        g.molecule.wf(),
{
    let atoms = vec!["R", "B", "R", "O"];
    assert(atoms@ =~= seq!["R", "B", "R", "O"]);
    let mut molecule = Molecule::new(atoms);
    molecule.add_bond(0, 1, 1);
    molecule.add_bond(1, 2, 1);
    molecule.add_bond(1, 3, 1);
    FunctGroup { molecule, name: "Borino" }
}

/// A lithium with a single bond to a substituent.
pub open spec fn rli_pattern() -> Pattern {
    Pattern {
        name: "RLi"@,
        graph: Graph::unbonded(symbols_of(seq!["R", "Li"])).with_bond(0, 1, 1),
    }
}

/// A lithium with a single bond to a substituent.
#[allow(non_snake_case)]
pub fn RLi() -> (g: FunctGroup)
    ensures
        g@ == rli_pattern(),
        g.molecule.wf(),
{
    let atoms = vec!["R", "Li"];
    assert(atoms@ =~= seq!["R", "Li"]);
    let mut molecule = Molecule::new(atoms);
    molecule.add_bond(0, 1, 1);
    FunctGroup { molecule, name: "RLi" }
}

/// A magnesium with a substituent and a halide.
pub open spec fn grignard_pattern() -> Pattern {
    Pattern {
        name: "Grignard"@,
        graph: Graph::unbonded(symbols_of(seq!["R", "Mg", "X"])).with_bond(0, 1, 1).with_bond(1, 2, 1),
    }
}

/// A magnesium with a substituent and a halide.
pub fn grignard() -> (g: FunctGroup)
    ensures
        g@ == grignard_pattern(),
        g.molecule.wf(),
{
    let atoms = vec!["R", "Mg", "X"];
    assert(atoms@ =~= seq!["R", "Mg", "X"]);
    let mut molecule = Molecule::new(atoms);
    molecule.add_bond(0, 1, 1);
    molecule.add_bond(1, 2, 1);
    FunctGroup { molecule, name: "Grignard" }
}

} // verus!
