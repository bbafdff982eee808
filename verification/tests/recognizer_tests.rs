use mol_swatter::funct_groups::{
    amine, aryl, carbonyl, carboxyl, ester, ether, grignard, hydroxyl, nitrile, peroxide, sulfide,
};
use mol_swatter::molecule::Molecule;
use mol_swatter::recognizer::{get_bond_list, get_not_r, is_subgraph};

// CCCCC(=O)O
fn pentanoic_acid() -> Molecule {
    let mut mol = Molecule::new(vec!["C", "C", "C", "C", "C", "O", "O"]);
    mol.add_bond(0, 1, 1);
    mol.add_bond(1, 2, 1);
    mol.add_bond(2, 3, 1);
    mol.add_bond(3, 4, 1);
    mol.add_bond(4, 5, 2);
    mol.add_bond(4, 6, 1);
    mol
}

// A ring of six carbons with alternating bonds, and a carboxyl on atom 0.
fn benzoic_acid() -> Molecule {
    let mut mol = Molecule::new(vec!["C", "C", "C", "C", "C", "C", "C", "O", "O"]);
    mol.add_bond(0, 1, 2);
    mol.add_bond(1, 2, 1);
    mol.add_bond(2, 3, 2);
    mol.add_bond(3, 4, 1);
    mol.add_bond(4, 5, 2);
    mol.add_bond(5, 0, 1);
    mol.add_bond(0, 6, 1);
    mol.add_bond(6, 7, 2);
    mol.add_bond(6, 8, 1);
    mol
}

fn methane() -> Molecule {
    Molecule::new(vec!["C"])
}

#[test]
fn demonstration() {
    assert!(is_subgraph(&pentanoic_acid(), &carbonyl().molecule));
}

#[test]
fn test_is_subgraph() {
    let maj_mol = &pentanoic_acid();
    let sub_mol = &carbonyl().molecule;
    let mut res = is_subgraph(maj_mol, sub_mol);
    assert!(res);
    let sub_mol = &carboxyl().molecule;
    println!("{}", sub_mol.to_string());
    res = is_subgraph(maj_mol, sub_mol);
    assert!(res);

    let maj_mol = &benzoic_acid();
    let sub_mol = &carbonyl().molecule;
    res = is_subgraph(maj_mol, sub_mol);
    assert!(res);
    let sub_mol = &carboxyl().molecule;
    res = is_subgraph(maj_mol, sub_mol);
    assert!(res);

    let maj_mol = &methane();
    assert_eq!(is_subgraph(maj_mol, sub_mol), false);
    let sub_mol = &carboxyl().molecule;
    assert_eq!(is_subgraph(maj_mol, sub_mol), false);
    let sub_mol = &aryl().molecule;
    assert_eq!(is_subgraph(maj_mol, sub_mol), false);
}

#[test]
fn test_r_wildcard() {
    let maj_mol = &benzoic_acid();
    let sub_mol = &ether().molecule;
    assert_eq!(is_subgraph(maj_mol, sub_mol), false);
}

#[test]
fn test_cyclic() {
    let maj_mol = &benzoic_acid();
    println!("{}", maj_mol.to_string());
    assert!(is_subgraph(maj_mol, &carboxyl().molecule));
    assert!(is_subgraph(maj_mol, &aryl().molecule))
}

#[test]
fn carbonyl_in_a_carbonyl() {
    let mut target = Molecule::new(vec!["C", "O"]);
    target.add_bond(0, 1, 2);
    assert!(is_subgraph(&target, &carbonyl().molecule));
    assert!(!is_subgraph(&target, &hydroxyl().molecule));
    assert!(!is_subgraph(&target, &carboxyl().molecule));
}

#[test]
fn methane_holds_no_carbonyl() {
    assert_eq!(is_subgraph(&methane(), &carbonyl().molecule), false);
}

#[test]
fn bond_order_must_be_equal() {
    let mut target = Molecule::new(vec!["C", "O"]);
    target.add_bond(0, 1, 1);
    assert!(is_subgraph(&target, &hydroxyl().molecule));
    assert!(!is_subgraph(&target, &carbonyl().molecule));
    let mut triple = Molecule::new(vec!["C", "O"]);
    triple.add_bond(0, 1, 3);
    assert!(!is_subgraph(&triple, &hydroxyl().molecule));
    assert!(!is_subgraph(&triple, &carbonyl().molecule));
}

#[test]
fn empty_target_holds_nothing() {
    let target = Molecule::new(vec![]);
    assert!(!is_subgraph(&target, &carbonyl().molecule));
    assert!(!is_subgraph(&target, &amine().molecule));
}

#[test]
fn wildcard_is_met_by_a_carbon() {
    // C-N: the nitrogen's substituent is a carbon
    let mut target = Molecule::new(vec!["C", "N"]);
    target.add_bond(0, 1, 1);
    assert!(is_subgraph(&target, &amine().molecule));
    // C-C#N
    let mut target = Molecule::new(vec!["C", "C", "N"]);
    target.add_bond(0, 1, 1);
    target.add_bond(1, 2, 3);
    assert!(is_subgraph(&target, &nitrile().molecule));
}

#[test]
fn wildcard_is_met_by_an_atom_without_bonds() {
    // a lone nitrogen: its substituent is taken to be a hydrogen
    let target = Molecule::new(vec!["N"]);
    assert!(is_subgraph(&target, &amine().molecule));
    let target = Molecule::new(vec!["S"]);
    assert!(is_subgraph(&target, &sulfide().molecule));
}

#[test]
fn wildcard_is_not_met_by_another_element() {
    // O-N: the nitrogen has a bond, but neither to a carbon nor to an "R"
    let mut target = Molecule::new(vec!["O", "N"]);
    target.add_bond(0, 1, 1);
    assert!(!is_subgraph(&target, &amine().molecule));
    // C=N: a carbon, but at the wrong bond order
    let mut target = Molecule::new(vec!["C", "N"]);
    target.add_bond(0, 1, 2);
    assert!(!is_subgraph(&target, &amine().molecule));
}

#[test]
fn wildcard_is_met_by_a_wildcard_atom_through_a_rooted_match() {
    // R-N written out in the target
    let mut target = Molecule::new(vec!["R", "N"]);
    target.add_bond(0, 1, 1);
    assert!(is_subgraph(&target, &amine().molecule));
    // R-Mg-X
    let mut target = Molecule::new(vec!["R", "Mg", "X"]);
    target.add_bond(0, 1, 1);
    target.add_bond(1, 2, 1);
    assert!(is_subgraph(&target, &grignard().molecule));
}

#[test]
fn all_wildcard_pattern_is_rooted_at_atom_zero() {
    let mut pattern = Molecule::new(vec!["R", "R"]);
    pattern.add_bond(0, 1, 1);
    assert_eq!(get_not_r(pattern.atoms()), 0);
    // no atom of the target is called "R"
    let mut target = Molecule::new(vec!["C", "C"]);
    target.add_bond(0, 1, 1);
    assert!(!is_subgraph(&target, &pattern));
    // an "R" in the target is a candidate; its neighbour is a carbon
    let mut target = Molecule::new(vec!["R", "C"]);
    target.add_bond(0, 1, 1);
    assert!(is_subgraph(&target, &pattern));
}

#[test]
fn anchor_is_the_last_atom_that_is_no_wildcard() {
    assert_eq!(get_not_r(carbonyl().molecule.atoms()), 1);
    assert_eq!(get_not_r(peroxide().molecule.atoms()), 2);
    assert_eq!(get_not_r(amine().molecule.atoms()), 0);
    assert_eq!(get_not_r(aryl().molecule.atoms()), 5);
    let none: Vec<String> = Vec::new();
    assert_eq!(get_not_r(&none), 0);
    assert_eq!(get_not_r(&vec!["R".to_string(), "R".to_string()]), 0);
    assert_eq!(get_not_r(&vec!["R".to_string(), "Rb".to_string(), "R".to_string()]), 1);
}

#[test]
fn a_target_atom_serves_only_once() {
    // C-O-C needs two carbons; C-O has one
    let mut target = Molecule::new(vec!["C", "O"]);
    target.add_bond(0, 1, 1);
    assert!(!is_subgraph(&target, &ether().molecule));
    let mut target = Molecule::new(vec!["C", "O", "C"]);
    target.add_bond(0, 1, 1);
    target.add_bond(1, 2, 1);
    assert!(is_subgraph(&target, &ether().molecule));
}

#[test]
fn ester_in_methyl_acetate() {
    // CC(=O)OC
    let mut target = Molecule::new(vec!["C", "C", "O", "O", "C"]);
    target.add_bond(0, 1, 1);
    target.add_bond(1, 2, 2);
    target.add_bond(1, 3, 1);
    target.add_bond(3, 4, 1);
    assert!(is_subgraph(&target, &ester().molecule));
    assert!(is_subgraph(&target, &carboxyl().molecule));
    assert!(is_subgraph(&target, &carbonyl().molecule));
    assert!(is_subgraph(&target, &ether().molecule));
    assert!(!is_subgraph(&pentanoic_acid(), &ester().molecule));
}

#[test]
fn the_search_does_not_go_back_on_a_choice() {
    // Pattern: O(-C)(-C-N). From the oxygen, the first pattern carbon takes the
    // first carbon of the target, which is the one that carries the nitrogen;
    // the second pattern carbon then finds it taken.
    let mut pattern = Molecule::new(vec!["C", "C", "N", "O"]);
    pattern.add_bond(3, 0, 1);
    pattern.add_bond(3, 1, 1);
    pattern.add_bond(1, 2, 1);
    let mut target = Molecule::new(vec!["C", "C", "N", "O"]);
    target.add_bond(3, 0, 1);
    target.add_bond(3, 1, 1);
    target.add_bond(0, 2, 1);
    assert!(!is_subgraph(&target, &pattern));
    // with the nitrogen on the second carbon the greedy choice is the right one
    let mut target = Molecule::new(vec!["C", "C", "N", "O"]);
    target.add_bond(3, 0, 1);
    target.add_bond(3, 1, 1);
    target.add_bond(1, 2, 1);
    assert!(is_subgraph(&target, &pattern));
}

#[test]
fn bond_list_is_the_row_of_the_atom() {
    let mol = benzoic_acid();
    assert_eq!(get_bond_list(&mol, 0), vec![0, 2, 0, 0, 0, 1, 1, 0, 0]);
    assert_eq!(get_bond_list(&mol, 6), vec![1, 0, 0, 0, 0, 0, 0, 2, 1]);
    assert_eq!(get_bond_list(&mol, 8), vec![0, 0, 0, 0, 0, 0, 1, 0, 0]);
    assert_eq!(get_bond_list(&methane(), 0), vec![0]);
}

#[test]
fn empty_pattern_is_found_nowhere() {
    let pattern = Molecule::new(vec![]);
    assert_eq!(is_subgraph(&methane(), &pattern), false);
    assert_eq!(is_subgraph(&benzoic_acid(), &pattern), false);
    assert_eq!(is_subgraph(&pentanoic_acid(), &pattern), false);
    // nor in a molecule without atoms
    assert_eq!(is_subgraph(&Molecule::new(vec![]), &pattern), false);
    // the molecules are as they were
    assert_eq!(pattern.len(), 0);
    assert_eq!(methane().get_matrix(), &vec![vec![0]]);
}

#[test]
fn matching_leaves_both_molecules_as_they_were() {
    let target = benzoic_acid();
    let pattern = aryl().molecule;
    let target_text = target.to_string();
    let pattern_text = pattern.to_string();
    assert!(is_subgraph(&target, &pattern));
    assert!(!is_subgraph(&target, &ether().molecule));
    assert_eq!(target.to_string(), target_text);
    assert_eq!(pattern.to_string(), pattern_text);
}
