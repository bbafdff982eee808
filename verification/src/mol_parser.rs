//! Reading a molecule from the text of a mol file.
//!
//! The text has four header lines, the fourth of which starts with the number
//! of atoms; then one line per atom, with three coordinates before the atom's
//! symbol; then one line per bond, with the two atoms, counted from 1, and the
//! bond order. A line that starts with `M` or `A` ends the bonds.

use crate::common::{
    is_next_char_x, lemma_line_shorter, lemma_number_shorter, line, not_newline, not_whitespace,
    number, parse_i32, run1, whitespace, Class,
};
use crate::molecule::{bond_fault, symbols_of, BondError, Graph, Molecule};
use vstd::prelude::*;

verus! {

/// Why a text is not the text of a molecule.
#[derive(Clone, Copy, Debug, PartialEq, Eq, Structural)]
pub enum MolError {
    /// The text does not start with four lines, or the fourth does not start
    /// with a number.
    Header,
    /// A line of the atoms is missing or not of the expected form.
    Atom,
    /// A line of the bonds is missing or not of the expected form.
    Bond,
    /// A bond was read that the molecule cannot take.
    BadBond(BondError),
}

/// What a reader gave, with the rest as a sequence of characters.
pub open spec fn read<T>(r: Result<(&str, T), MolError>) -> Result<(Seq<char>, T), MolError> {
    match r {
        Ok(p) => Ok((p.0@, p.1)),
        Err(e) => Err(e),
    }
}

/// The text behind the first `k` lines of `s`.
pub open spec fn after_lines(s: Seq<char>, k: nat) -> Option<Seq<char>>
    decreases k,
{
    if k == 0 {
        Some(s)
    } else {
        match line(s) {
            Some((rest, _)) => after_lines(rest, (k - 1) as nat),
            None => None,
        }
    }
}

/// The header: three lines that are passed over, and a fourth that starts with
/// the number of atoms. The rest starts behind the fourth line.
pub open spec fn header(s: Seq<char>) -> Result<(Seq<char>, i32), MolError> {
    match after_lines(s, 3) {
        Some(fourth) => match (number(fourth), line(fourth)) {
            (Some((_, num_atoms)), Some((rest, _))) => Ok((rest, num_atoms)),
            _ => Err(MolError::Header),
        },
        None => Err(MolError::Header),
    }
}

/// The text behind `k` coordinates, each a run of blanks and tabs and then a
/// word.
pub open spec fn after_coordinates(s: Seq<char>, k: nat) -> Option<Seq<char>>
    decreases k,
{
    if k == 0 {
        Some(s)
    } else {
        match run1(s, Class::Of(" \t"@)) {
            Some((word, _)) => match run1(word, Class::NotOf(" \t\n"@)) {
                Some((rest, _)) => after_coordinates(rest, (k - 1) as nat),
                None => None,
            },
            None => None,
        }
    }
}

/// One line of the atoms: three coordinates, blanks or tabs, and the atom's
/// symbol, which is the next word. The rest starts on the next line.
pub open spec fn atom_line(s: Seq<char>) -> Option<(Seq<char>, Seq<char>)> {
    match after_coordinates(s, 3) {
        Some(blanks) => match run1(blanks, Class::Of(" \t"@)) {
            Some((word, _)) => match (run1(word, Class::NotOf(" \t\n"@)), line(word)) {
                (Some((_, symbol)), Some((rest, _))) => Some((rest, symbol)),
                _ => None,
            },
            None => None,
        },
        None => None,
    }
}

/// The symbols of `n` lines of atoms, in order, with the text behind them.
pub open spec fn atom_lines(s: Seq<char>, n: nat) -> Option<(Seq<char>, Seq<Seq<char>>)>
    decreases n,
{
    if n == 0 {
        Some((s, Seq::empty()))
    } else {
        match atom_line(s) {
            Some((rest, symbol)) => match atom_lines(rest, (n - 1) as nat) {
                Some((end, symbols)) => Some((end, seq![symbol] + symbols)),
                None => None,
            },
            None => None,
        }
    }
}

/// One line of the bonds: three numbers, which are the two atoms and the bond
/// order, and at least one more character before the line feed. The two atoms
/// must differ. The rest starts on the next line.
pub open spec fn bond_line(s: Seq<char>) -> Result<(Seq<char>, (i32, i32, i32)), MolError> {
    match number(s) {
        Some((s1, atom1)) => match number(s1) {
            Some((s2, atom2)) => match number(s2) {
                Some((s3, bond_type)) => match line(s3) {
                    Some((rest, _)) => if atom1 == atom2 {
                        Err(MolError::BadBond(BondError::SelfBond))
                    } else {
                        Ok((rest, (atom1, atom2, bond_type)))
                    },
                    None => Err(MolError::Bond),
                },
                None => Err(MolError::Bond),
            },
            None => Err(MolError::Bond),
        },
        None => Err(MolError::Bond),
    }
}

/// The molecule `g` with the bonds of the lines of `s` added, up to the first
/// line that starts with `M` or `A`. Atoms are counted from 1 in the text.
pub open spec fn with_bond_lines(s: Seq<char>, g: Graph) -> Result<Graph, MolError>
    decreases s.len(),
{
    if s.len() > 0 && (s[0] == 'M' || s[0] == 'A') {
        Ok(g)
    } else {
        match bond_line(s) {
            Ok((rest, bond)) => {
                proof {
                    lemma_bond_line_shorter(s);
                }
                match bond_fault(g, bond.0 - 1, bond.1 - 1, bond.2) {
                    Some(e) => Err(MolError::BadBond(e)),
                    None => with_bond_lines(rest, g.with_bond(bond.0 - 1, bond.1 - 1, bond.2)),
                }
            },
            Err(e) => Err(e),
        }
    }
}

/// The number of atom lines for the count that the header gives: none for a
/// negative count.
pub open spec fn line_count(num_atoms: i32) -> nat {
    if num_atoms < 0 {
        0
    } else {
        num_atoms as nat
    }
}

/// The molecule that a text describes.
pub open spec fn mol_of_text(s: Seq<char>) -> Result<Graph, MolError> {
    match header(s) {
        Ok((atoms, num_atoms)) => match atom_lines(atoms, line_count(num_atoms)) {
            Some((bonds, symbols)) => with_bond_lines(bonds, Graph::unbonded(symbols)),
            None => Err(MolError::Atom),
        },
        Err(e) => Err(e),
    }
}

/// The symbols `front`, followed by the symbols that were read behind them.
pub open spec fn behind(front: Seq<Seq<char>>, r: Option<(Seq<char>, Seq<Seq<char>>)>) -> Option<
    (Seq<char>, Seq<Seq<char>>),
> {
    match r {
        Some((end, symbols)) => Some((end, front + symbols)),
        None => None,
    }
}

/// Reads the header: passes over three lines and reads the number of atoms at
/// the start of the fourth. The rest starts behind the fourth line.
pub fn parse_header(i: &str) -> (r: Result<(&str, i32), MolError>)
    ensures
        read(r) == header(i@),
{
    let mut out = i;
    let mut x: usize = 0;
    while x < 3
        invariant
            x <= 3,
            after_lines(i@, 3) == after_lines(out@, (3 - x) as nat),
        decreases 3 - x,
    {
        match not_newline(out) {
            Ok(p) => {
                out = p.0;
            },
            Err(_) => {
                return Err(MolError::Header);
            },
        }
        x += 1;
    }
    // gets the number of atoms
    let num_atoms: i32 = match parse_i32(out) {
        Ok(p) => p.1,
        Err(_) => {
            return Err(MolError::Header);
        },
    };
    // finished parsing the header
    match not_newline(out) {
        Ok(p) => Ok((p.0, num_atoms)),
        Err(_) => Err(MolError::Header),
    }
}

/// Reads one line of the atoms: the atom's symbol, behind three coordinates.
/// The rest starts on the next line.
pub fn parse_atom_line(i: &str) -> (r: Result<(&str, &str), MolError>)
    ensures
        match r {
            Ok(p) => atom_line(i@) == Some((p.0@, p.1@)),
            Err(e) => e == MolError::Atom && atom_line(i@) is None,
        },
{
    let mut trimmed = i;
    // This section parses the 3d coordinates up the element character
    let mut x: usize = 0;
    while x < 3
        invariant
            x <= 3,
            after_coordinates(i@, 3) == after_coordinates(trimmed@, (3 - x) as nat),
        decreases 3 - x,
    {
        match whitespace(trimmed) {
            Ok(p) => {
                trimmed = p.0;
            },
            Err(_) => {
                return Err(MolError::Atom);
            },
        }
        match not_whitespace(trimmed) {
            Ok(p) => {
                trimmed = p.0;
            },
            Err(_) => {
                return Err(MolError::Atom);
            },
        }
        x += 1;
    }
    // for the remaining whitespace before the element
    match whitespace(trimmed) {
        Ok(p) => {
            trimmed = p.0;
        },
        Err(_) => {
            return Err(MolError::Atom);
        },
    }
    // takes the element
    let to_add = match not_whitespace(trimmed) {
        Ok(p) => p.1,
        Err(_) => {
            return Err(MolError::Atom);
        },
    };
    // Goes to the next line
    match not_newline(trimmed) {
        Ok(p) => Ok((p.0, to_add)),
        Err(_) => Err(MolError::Atom),
    }
}

/// Reads `num_atoms` lines of atoms, none if the number is negative, and gives
/// the atoms' symbols in order. The rest starts behind the last of the lines.
pub fn parse_atom_list(i: &str, num_atoms: i32) -> (r: Result<(&str, Vec<&str>), MolError>)
    ensures
        match r {
            Ok(p) => atom_lines(i@, line_count(num_atoms)) == Some((p.0@, symbols_of(p.1@))),
            Err(e) => e == MolError::Atom && atom_lines(i@, line_count(num_atoms)) is None,
        },
{
    let mut trimmed = i;
    let mut atoms: Vec<&str> = Vec::new();
    let mut k: i32 = 0;
    assert(symbols_of(atoms@) =~= Seq::<Seq<char>>::empty());
    proof {
        lemma_behind_nothing(atom_lines(i@, line_count(num_atoms)));
    }
    while k < num_atoms
        invariant
            0 <= k,
            k <= line_count(num_atoms),
            atom_lines(i@, line_count(num_atoms)) == behind(
                symbols_of(atoms@),
                atom_lines(trimmed@, (line_count(num_atoms) - k) as nat),
            ),
        decreases num_atoms - k,
    {
        let ghost before = symbols_of(atoms@);
        let ghost start = trimmed@;
        match parse_atom_line(trimmed) {
            Ok(p) => {
                trimmed = p.0;
                atoms.push(p.1);
                proof {
                    let left = (line_count(num_atoms) - k - 1) as nat;
                    assert(symbols_of(atoms@) =~= before.push(p.1@));
                    if let Some((end, symbols)) = atom_lines(trimmed@, left) {
                        assert(before.push(p.1@) + symbols =~= before + (seq![p.1@] + symbols));
                    }
                }
            },
            Err(e) => {
                return Err(MolError::Atom);
            },
        }
        k += 1;
    }
    assert(symbols_of(atoms@) + Seq::<Seq<char>>::empty() =~= symbols_of(atoms@));
    Ok((trimmed, atoms))
}

/// Reads one line of the bonds: the two atoms, counted from 1, and the bond
/// order. The rest starts on the next line.
pub fn parse_bonds(i: &str) -> (r: Result<(&str, (i32, i32, i32)), MolError>)
    ensures
        read(r) == bond_line(i@),
{
    let (i, atom1) = match parse_i32(i) {
        Ok(p) => p,
        Err(_) => {
            return Err(MolError::Bond);
        },
    };
    let (i, atom2) = match parse_i32(i) {
        Ok(p) => p,
        Err(_) => {
            return Err(MolError::Bond);
        },
    };
    let (i, bond_type) = match parse_i32(i) {
        Ok(p) => p,
        Err(_) => {
            return Err(MolError::Bond);
        },
    };
    let i = match not_newline(i) {
        Ok(p) => p.0,
        Err(_) => {
            return Err(MolError::Bond);
        },
    };
    // The two atoms must be different, (a bond can't be described between an atom and itself)
    if atom1 == atom2 {
        return Err(MolError::BadBond(BondError::SelfBond));
    }
    Ok((i, (atom1, atom2, bond_type)))
}

/// Builds the molecule that the text of a mol file describes, or says what is
/// wrong with the text.
pub fn parse_mol(contents: &str) -> (r: Result<Molecule, MolError>)
    ensures
        match r {
            Ok(m) => mol_of_text(contents@) == Ok::<Graph, MolError>(m@) && m.wf(),
            Err(e) => mol_of_text(contents@) == Err::<Graph, MolError>(e),
        },
{
    // removes the header, but gets the number of atoms and saves in num_atoms
    let (result, num_atoms) = match parse_header(contents) {
        Ok(p) => p,
        Err(e) => {
            return Err(e);
        },
    };
    let (mut left, atoms) = match parse_atom_list(result, num_atoms) {
        Ok(p) => p,
        Err(e) => {
            return Err(e);
        },
    };
    let ghost bonds = left@;
    let ghost symbols = symbols_of(atoms@);
    let mut molecule: Molecule = Molecule::new(atoms);

    // If the escape character is reached, 'M', then breaks the loop
    // In some mol files, 'A' marks the beggining of a new section after the bond adjacency
    // section
    let mut done = is_next_char_x(left, 'M') || is_next_char_x(left, 'A');
    while !done
        invariant
            molecule.wf(),
            mol_of_text(contents@) == with_bond_lines(bonds, Graph::unbonded(symbols)),
            done == (left@.len() > 0 && (left@[0] == 'M' || left@[0] == 'A')),
            with_bond_lines(left@, molecule@) == with_bond_lines(
                bonds,
                Graph::unbonded(symbols),
            ),
        decreases left@.len(),
    {
        proof {
            lemma_bond_line_shorter(left@);
        }
        let result = match parse_bonds(left) {
            Ok(p) => p,
            Err(e) => {
                return Err(e);
            },
        };
        left = result.0;
        let (atom1, atom2, bond_type) = result.1;
        // the -1 are there because the data in the mol file starts from 1 instead of 0.
        if atom1 < 1 || atom2 < 1 {
            return Err(MolError::BadBond(BondError::OutOfRange));
        }
        match molecule.try_add_bond((atom1 - 1) as usize, (atom2 - 1) as usize, bond_type) {
            Ok(_) => {},
            Err(e) => {
                return Err(MolError::BadBond(e));
            },
        }
        done = is_next_char_x(left, 'M') || is_next_char_x(left, 'A');
    }
    Ok(molecule)
}

/// Nothing in front of what was read changes nothing.
proof fn lemma_behind_nothing(r: Option<(Seq<char>, Seq<Seq<char>>)>)
    ensures
        behind(Seq::empty(), r) == r,
{
    if let Some((end, symbols)) = r {
        assert(Seq::<Seq<char>>::empty() + symbols =~= symbols);
    }
}

/// A line of the bonds that was read leaves less text than there was.
pub proof fn lemma_bond_line_shorter(s: Seq<char>)
    ensures
        bond_line(s) matches Ok(p) ==> p.0.len() < s.len(),
{
    lemma_number_shorter(s);
    if let Some((s1, _)) = number(s) {
        lemma_number_shorter(s1);
        if let Some((s2, _)) = number(s1) {
            lemma_number_shorter(s2);
            if let Some((s3, _)) = number(s2) {
                lemma_line_shorter(s3);
            }
        }
    }
}

} // verus!
