//! The matcher: does a pattern molecule occur inside a target molecule?
//!
//! The search is greedy. It roots the pattern at one of its atoms, tries every
//! target atom of the same element as the root, and from there walks pattern and
//! target side by side, committing to the first target neighbour that satisfies
//! each pattern neighbour. It never revisits a choice.

use crate::molecule::{texts_of, Graph, Molecule};
use vstd::prelude::*;
use vstd::string::StrSliceExecFns;

verus! {

/// The symbol of the wildcard atom: hydrogen, carbon, or no substituent.
pub open spec fn wildcard() -> Seq<char> {
    seq!['R']
}

/// The symbol of carbon.
pub open spec fn carbon() -> Seq<char> {
    seq!['C']
}

/// The index of the last atom among the first `n` that is no wildcard; 0 if
/// there is none.
pub open spec fn last_named(atoms: Seq<Seq<char>>, n: nat) -> int
    decreases n,
{
    if n == 0 {
        0
    } else if atoms[n - 1] != wildcard() {
        n - 1
    } else {
        last_named(atoms, (n - 1) as nat)
    }
}

/// The atom of a pattern at which the search is rooted: the last one that is no
/// wildcard, or atom 0 if all are wildcards.
pub open spec fn anchor(atoms: Seq<Seq<char>>) -> int {
    last_named(atoms, atoms.len())
}

/// Which atoms of the target and of the pattern one attempt has entered so far.
pub struct Marks {
    pub target: Seq<bool>,
    pub pattern: Seq<bool>,
}

impl Marks {
    /// The marks with the given entries.
    pub open spec fn of(target: Seq<bool>, pattern: Seq<bool>) -> Marks {
        Marks { target, pattern }
    }

    /// No atom entered yet.
    pub open spec fn fresh(target_len: nat, pattern_len: nat) -> Marks {
        Marks {
            target: Seq::new(target_len, |i: int| false),
            pattern: Seq::new(pattern_len, |i: int| false),
        }
    }

    /// The marks after entering target atom `ti` and pattern atom `pi`.
    pub open spec fn enter(self, ti: int, pi: int) -> Marks {
        Marks { target: self.target.update(ti, true), pattern: self.pattern.update(pi, true) }
    }
}

/// What a step of the search yields: whether it succeeded, and the marks it
/// leaves behind. Marks are never taken back, also not after a failure.
pub struct Outcome {
    pub matched: bool,
    pub marks: Marks,
}

impl Outcome {
    /// The outcome with the given result and marks.
    pub open spec fn of(matched: bool, target: Seq<bool>, pattern: Seq<bool>) -> Outcome {
        Outcome { matched, marks: Marks { target, pattern } }
    }
}

/// Number of `false` entries.
pub open spec fn unvisited(s: Seq<bool>) -> nat
    decreases s.len(),
{
    if s.len() == 0 {
        0
    } else {
        unvisited(s.drop_last()) + if s.last() {
            0nat
        } else {
            1nat
        }
    }
}

/// The rooted match of pattern atom `pi` at target atom `ti`.
///
/// A pattern atom that was entered before closes a cycle and matches. A target
/// atom that was entered before cannot serve a second time. Otherwise both are
/// entered, and every pattern neighbour of `pi` must be satisfied in turn.
///
/// `depth` bounds how many more pattern atoms may be entered. Every nested
/// rooted match enters a pattern atom that was not entered before, so a depth
/// of at least the number of pattern atoms not yet entered is never used up.
pub open spec fn rooted(t: Graph, p: Graph, ti: int, pi: int, m: Marks, depth: nat) -> Outcome
    decreases depth, 0int, 0int,
{
    if m.pattern[pi] {
        Outcome { matched: true, marks: m }
    } else if m.target[ti] {
        Outcome { matched: false, marks: m }
    } else if depth == 0 {
        Outcome { matched: false, marks: m }
    } else {
        demands(t, p, ti, pi, 0, m.enter(ti, pi), (depth - 1) as nat)
    }
}

/// The pattern neighbours `j, j + 1, ..` of `pi`, checked in turn at target atom
/// `ti`.
///
/// A neighbour is satisfied by the scan of the target neighbours of `ti`, or,
/// if it is a wildcard, by `ti` having no bond at all. The first neighbour that
/// is not satisfied fails the whole rooted match.
pub open spec fn demands(
    t: Graph,
    p: Graph,
    ti: int,
    pi: int,
    j: int,
    m: Marks,
    depth: nat,
) -> Outcome
    decreases depth, 2int, p.len() - j,
{
    if j < 0 || j >= p.len() {
        Outcome { matched: true, marks: m }
    } else if p.bond(pi, j) == 0 {
        demands(t, p, ti, pi, j + 1, m, depth)
    } else {
        let s = scan(t, p, ti, pi, j, 0, m, depth);
        if s.matched || (p.atoms[j] == wildcard() && t.isolated(ti)) {
            demands(t, p, ti, pi, j + 1, s.marks, depth)
        } else {
            Outcome { matched: false, marks: s.marks }
        }
    }
}

/// The target neighbours `i, i + 1, ..` of `ti`, tried in turn for the pattern
/// neighbour `j` of `pi`.
///
/// Only a neighbour with exactly the required bond order is a candidate. A
/// carbon satisfies a wildcard at once. Any other candidate must carry the same
/// symbol as `j` and pass a rooted match of its own; the first that does ends the
/// scan.
pub open spec fn scan(
    t: Graph,
    p: Graph,
    ti: int,
    pi: int,
    j: int,
    i: int,
    m: Marks,
    depth: nat,
) -> Outcome
    decreases depth, 1int, t.len() - i,
{
    if i < 0 || i >= t.len() {
        Outcome { matched: false, marks: m }
    } else if t.bond(ti, i) == 0 || t.bond(ti, i) != p.bond(pi, j) {
        scan(t, p, ti, pi, j, i + 1, m, depth)
    } else if p.atoms[j] == wildcard() && t.atoms[i] == carbon() {
        Outcome { matched: true, marks: m }
    } else if p.atoms[j] != t.atoms[i] {
        scan(t, p, ti, pi, j, i + 1, m, depth)
    } else {
        let r = rooted(t, p, i, j, m, depth);
        if r.matched {
            r
        } else {
            scan(t, p, ti, pi, j, i + 1, r.marks, depth)
        }
    }
}

/// The pattern, rooted at its atom `pi`, matches at target atom `ti` when the
/// search starts with no atom entered.
pub open spec fn matches_at(t: Graph, p: Graph, ti: int, pi: int) -> bool {
    rooted(t, p, ti, pi, Marks::fresh(t.len(), p.len()), p.len()).matched
}

/// The pattern occurs in the target: some target atom carries the symbol of the
/// pattern's anchor, and the pattern rooted at the anchor matches there. A
/// pattern without atoms has no anchor and occurs nowhere.
pub open spec fn occurs(t: Graph, p: Graph) -> bool {
    p.len() > 0 && exists|ti: int|
        0 <= ti < t.len() && t.atoms[ti] == p.atoms[anchor(p.atoms)] && #[trigger] matches_at(
            t,
            p,
            ti,
            anchor(p.atoms),
        )
}

/// Whether the symbol `s` is the single character `c`.
fn is_symbol(s: &String, c: char) -> (b: bool)
    ensures
        b == (s@ == seq![c]),
{
    let t = s.as_str();
    if t.unicode_len() == 1 {
        let same = t.get_char(0) == c;
        assert(same ==> s@ =~= seq![c]);
        assert(!same ==> s@[0] != seq![c][0]);
        same
    } else {
        assert(seq![c].len() == 1);
        false
    }
}

/// A vector of `n` times `false`.
fn no_marks(n: usize) -> (v: Vec<bool>)
    ensures
        v@ == Seq::new(n as nat, |i: int| false),
{
    let mut v: Vec<bool> = Vec::new();
    let mut k: usize = 0;
    while k < n
        invariant
            k <= n,
            v@.len() == k,
            forall|i: int| 0 <= i < k ==> !#[trigger] v@[i],
        decreases n - k,
    {
        v.push(false);
        k += 1;
    }
    assert(v@ =~= Seq::new(n as nat, |i: int| false));
    v
}

/// Whether the pattern `sub_mol` occurs in the molecule `maj_mol`.
///
/// The pattern is rooted at its last atom that is no wildcard. Every atom of
/// `maj_mol` with the same symbol is tried as the root's counterpart, each time
/// with no atom entered; the first rooted match that succeeds decides. A
/// pattern without atoms is found in no molecule.
pub fn is_subgraph(maj_mol: &Molecule, sub_mol: &Molecule) -> (res: bool)
    requires
        maj_mol.wf(),
        sub_mol.wf(),
    ensures
        res == occurs(maj_mol@, sub_mol@),
{
    let maj_atoms = maj_mol.atoms();
    let sub_atoms = sub_mol.atoms();
    // nothing to root the search at
    if sub_atoms.len() == 0 {
        return false;
    }
    let sub_atom_j = get_not_r(sub_atoms);
    proof {
        lemma_anchor(sub_mol@.atoms);
    }
    let sub_atom = &sub_atoms[sub_atom_j];
    let ghost t = maj_mol@;
    let ghost p = sub_mol@;
    let mut i: usize = maj_atoms.len();
    while i > 0
        invariant
            maj_mol.wf(),
            sub_mol.wf(),
            0 <= i <= t.len(),
            t == maj_mol@,
            p == sub_mol@,
            texts_of(maj_atoms) == t.atoms,
            texts_of(sub_atoms) == p.atoms,
            sub_atom_j == anchor(p.atoms),
            sub_atom_j < p.len(),
            sub_atom@ == p.atoms[sub_atom_j as int],
            forall|k: int|
                i <= k < t.len() ==> !(t.atoms[k] == p.atoms[anchor(p.atoms)] && #[trigger] matches_at(
                    t,
                    p,
                    k,
                    anchor(p.atoms),
                )),
        decreases i,
    {
        i -= 1;
        let maj_atom = &maj_atoms[i];
        assert(maj_atom@ == t.atoms[i as int]);
        if *maj_atom == *sub_atom {
            let mut sub_visited = no_marks(sub_atoms.len());
            let mut maj_visited = no_marks(maj_atoms.len());
            proof {
                lemma_unvisited_bound(sub_visited@);
            }
            let res = is_subgraph_from_here(
                maj_mol,
                i,
                sub_mol,
                sub_atom_j,
                &mut sub_visited,
                &mut maj_visited,
                Ghost(p.len()),
            );
            if res {
                assert(matches_at(t, p, i as int, anchor(p.atoms)));
                return true;
            }
        }
    }
    false
}

/// The atom at which a pattern is rooted: the last one that is no wildcard, or
/// atom 0 if there is none.
pub fn get_not_r(atoms: &Vec<String>) -> (a: usize)
    ensures
        a == anchor(texts_of(atoms)),
{
    let mut j: usize = atoms.len();
    while j > 0
        invariant
            j <= atoms@.len(),
            anchor(texts_of(atoms)) == last_named(texts_of(atoms), j as nat),
        decreases j,
    {
        j -= 1;
        if !is_symbol(&atoms[j], 'R') {
            return j;
        }
    }
    0
}

/// The rooted match of pattern atom `sub_i` at atom `maj_i` of the molecule,
/// with the marks of the attempt so far. The marks it makes stay.
#[verifier::loop_isolation(false)]
fn is_subgraph_from_here(
    maj_mol: &Molecule,
    maj_i: usize,
    sub_mol: &Molecule,
    sub_i: usize,
    visited_sub_atoms: &mut Vec<bool>,
    visited_maj_atoms: &mut Vec<bool>,
    Ghost(depth): Ghost<nat>,
) -> (res: bool)
    requires
        maj_mol.wf(),
        sub_mol.wf(),
        maj_i < maj_mol@.len(),
        sub_i < sub_mol@.len(),
        old(visited_sub_atoms)@.len() == sub_mol@.len(),
        old(visited_maj_atoms)@.len() == maj_mol@.len(),
        unvisited(old(visited_sub_atoms)@) <= depth,
    ensures
        Outcome::of(res, final(visited_maj_atoms)@, final(visited_sub_atoms)@) == rooted(
            maj_mol@,
            sub_mol@,
            maj_i as int,
            sub_i as int,
            Marks::of(old(visited_maj_atoms)@, old(visited_sub_atoms)@),
            depth,
        ),
        final(visited_sub_atoms)@.len() == old(visited_sub_atoms)@.len(),
        final(visited_maj_atoms)@.len() == old(visited_maj_atoms)@.len(),
        unvisited(final(visited_sub_atoms)@) <= unvisited(old(visited_sub_atoms)@),
    decreases depth,
{
    let ghost t = maj_mol@;
    let ghost p = sub_mol@;
    let ghost ti = maj_i as int;
    let ghost pi = sub_i as int;
    if visited_sub_atoms[sub_i] {
        return true;
    }
    if visited_maj_atoms[maj_i] {
        return false;
    }
    proof {
        lemma_unvisited_mark(visited_sub_atoms@, pi);
    }
    let ghost entered = Marks::of(visited_maj_atoms@, visited_sub_atoms@).enter(ti, pi);
    let ghost d = (depth - 1) as nat;
    visited_sub_atoms.set(sub_i, true);
    visited_maj_atoms.set(maj_i, true);

    let maj_bonds = get_bond_list(maj_mol, maj_i);
    let sub_bonds = get_bond_list(sub_mol, sub_i);
    let maj_atoms = maj_mol.atoms();
    let sub_atoms = sub_mol.atoms();

    let mut j: usize = 0;
    while j < sub_bonds.len()
        invariant
            maj_mol.wf(),
            sub_mol.wf(),
            t == maj_mol@,
            p == sub_mol@,
            ti == maj_i as int,
            pi == sub_i as int,
            ti < t.len(),
            pi < p.len(),
            texts_of(maj_atoms) == t.atoms,
            texts_of(sub_atoms) == p.atoms,
            maj_bonds@ == t.bonds[ti],
            sub_bonds@ == p.bonds[pi],
            maj_bonds@.len() == t.len(),
            sub_bonds@.len() == p.len(),
            j <= p.len(),
            visited_sub_atoms@.len() == p.len(),
            visited_maj_atoms@.len() == t.len(),
            unvisited(visited_sub_atoms@) <= d,
            d + 1 == depth,
            unvisited(visited_sub_atoms@) <= unvisited(old(visited_sub_atoms)@),
            demands(
                t,
                p,
                ti,
                pi,
                j as int,
                Marks::of(visited_maj_atoms@, visited_sub_atoms@),
                d,
            ) == demands(t, p, ti, pi, 0, entered, d),
        decreases p.len() - j,
    {
        if sub_bonds[j] != 0 {
            let is_wildcard = is_symbol(&sub_atoms[j], 'R');
            assert(sub_atoms@[j as int]@ == p.atoms[j as int]);
            let ghost before = Marks::of(visited_maj_atoms@, visited_sub_atoms@);
            let mut cntr: usize = 0;
            let mut at_least_one = false;
            let mut i: usize = 0;
            while i < maj_bonds.len() && !at_least_one
                invariant
                    maj_mol.wf(),
                    sub_mol.wf(),
                    t == maj_mol@,
                    p == sub_mol@,
                    ti == maj_i as int,
                    pi == sub_i as int,
                    ti < t.len(),
                    pi < p.len(),
                    j < p.len(),
                    texts_of(maj_atoms) == t.atoms,
                    texts_of(sub_atoms) == p.atoms,
                    maj_bonds@ == t.bonds[ti],
                    sub_bonds@ == p.bonds[pi],
                    maj_bonds@.len() == t.len(),
                    sub_bonds@.len() == p.len(),
                    sub_bonds@[j as int] != 0,
                    is_wildcard == (p.atoms[j as int] == wildcard()),
                    i <= t.len(),
                    cntr <= i,
                    visited_sub_atoms@.len() == p.len(),
                    visited_maj_atoms@.len() == t.len(),
                    unvisited(visited_sub_atoms@) <= d,
                    d + 1 == depth,
                    unvisited(visited_sub_atoms@) <= unvisited(old(visited_sub_atoms)@),
                    is_wildcard && at_least_one ==> cntr > 0,
                    is_wildcard && !at_least_one ==> (cntr == 0 <==> forall|k: int|
                        0 <= k < i ==> #[trigger] t.bond(ti, k) == 0),
                    at_least_one ==> scan(t, p, ti, pi, j as int, 0, before, d) == Outcome::of(
                        true,
                        visited_maj_atoms@,
                        visited_sub_atoms@,
                    ),
                    !at_least_one ==> scan(t, p, ti, pi, j as int, 0, before, d) == scan(
                        t,
                        p,
                        ti,
                        pi,
                        j as int,
                        i as int,
                        Marks::of(visited_maj_atoms@, visited_sub_atoms@),
                        d,
                    ),
                decreases t.len() - i,
            {
                assert(maj_bonds@[i as int] == t.bond(ti, i as int));
                assert(sub_bonds@[j as int] == p.bond(pi, j as int));
                if maj_bonds[i] != 0 {
                    if is_wildcard {
                        cntr += 1;
                    }
                    if sub_bonds[j] == maj_bonds[i] {
                        assert(maj_atoms@[i as int]@ == t.atoms[i as int]);
                        if is_wildcard && is_symbol(&maj_atoms[i], 'C') {
                            at_least_one = true;
                        } else if sub_atoms[j] == maj_atoms[i] {
                            at_least_one =
                            is_subgraph_from_here(
                                maj_mol,
                                i,
                                sub_mol,
                                j,
                                visited_sub_atoms,
                                visited_maj_atoms,
                                Ghost(d),
                            );
                        }
                    }
                }
                i += 1;
            }
            if !(is_wildcard && cntr == 0) {
                if !at_least_one {
                    return false;
                }
            }
        }
        j += 1;
    }
    true
}

/// The bond orders of the atom `index` against every atom of the molecule.
pub fn get_bond_list(mol: &Molecule, index: usize) -> (out: Vec<i32>)
    requires
        mol.wf(),
        index < mol@.len(),
    ensures
        out@ == mol@.bonds[index as int],
{
    let len = mol.len();
    let mut out: Vec<i32> = Vec::new();
    let mut x: usize = 0;
    while x < len
        invariant
            mol.wf(),
            index < mol@.len(),
            len == mol@.len(),
            x <= len,
            out@.len() == x,
            forall|k: int| 0 <= k < x ==> #[trigger] out@[k] == mol@.bond(index as int, k),
        decreases len - x,
    {
        out.push(mol.get(index, x));
        x += 1;
    }
    assert(mol@.bonds[index as int].len() == mol@.len());
    assert(out@ =~= mol@.bonds[index as int]);
    out
}

/// The anchor is an atom of the pattern that is no wildcard, with only
/// wildcards behind it; or it is 0, where every atom is a wildcard.
pub proof fn lemma_anchor(atoms: Seq<Seq<char>>)
    ensures
        atoms.len() > 0 ==> 0 <= anchor(atoms) < atoms.len(),
        atoms.len() == 0 ==> anchor(atoms) == 0,
        forall|k: int| anchor(atoms) < k < atoms.len() ==> atoms[k] == wildcard(),
        atoms.len() > 0 && atoms[anchor(atoms)] == wildcard() ==> anchor(atoms) == 0 && forall|
            k: int,
        |
            0 <= k < atoms.len() ==> atoms[k] == wildcard(),
{
    lemma_last_named(atoms, atoms.len());
}

proof fn lemma_last_named(atoms: Seq<Seq<char>>, n: nat)
    requires
        n <= atoms.len(),
    ensures
        n > 0 ==> 0 <= last_named(atoms, n) < n,
        n == 0 ==> last_named(atoms, n) == 0,
        forall|k: int| last_named(atoms, n) < k < n ==> atoms[k] == wildcard(),
        n > 0 && atoms[last_named(atoms, n)] == wildcard() ==> last_named(atoms, n) == 0 && forall|
            k: int,
        |
            0 <= k < n ==> atoms[k] == wildcard(),
    decreases n,
{
    if n > 0 && atoms[n - 1] == wildcard() {
        lemma_last_named(atoms, (n - 1) as nat);
    }
}

/// The marks have one entry for each atom of the target and of the pattern.
pub open spec fn fits(t: Graph, p: Graph, m: Marks) -> bool {
    m.target.len() == t.len() && m.pattern.len() == p.len()
}

/// A rooted match does not depend on the depth it is given, as long as that
/// is at least the number of pattern atoms not entered yet; and it takes no
/// mark back.
pub proof fn lemma_rooted_depth(
    t: Graph,
    p: Graph,
    ti: int,
    pi: int,
    m: Marks,
    d1: nat,
    d2: nat,
)
    requires
        fits(t, p, m),
        0 <= ti < t.len(),
        0 <= pi < p.len(),
        unvisited(m.pattern) <= d1,
        unvisited(m.pattern) <= d2,
    ensures
        rooted(t, p, ti, pi, m, d1) == rooted(t, p, ti, pi, m, d2),
        fits(t, p, rooted(t, p, ti, pi, m, d1).marks),
        unvisited(rooted(t, p, ti, pi, m, d1).marks.pattern) <= unvisited(m.pattern),
    decreases d1, 0int, 0int,
{
    if !m.pattern[pi] && !m.target[ti] {
        lemma_unvisited_mark(m.pattern, pi);
        lemma_demands_depth(t, p, ti, pi, 0, m.enter(ti, pi), (d1 - 1) as nat, (d2 - 1) as nat);
    }
}

/// The check of the pattern neighbours does not depend on the depth either.
proof fn lemma_demands_depth(
    t: Graph,
    p: Graph,
    ti: int,
    pi: int,
    j: int,
    m: Marks,
    d1: nat,
    d2: nat,
)
    requires
        fits(t, p, m),
        0 <= ti < t.len(),
        0 <= pi < p.len(),
        0 <= j,
        unvisited(m.pattern) <= d1,
        unvisited(m.pattern) <= d2,
    ensures
        demands(t, p, ti, pi, j, m, d1) == demands(t, p, ti, pi, j, m, d2),
        fits(t, p, demands(t, p, ti, pi, j, m, d1).marks),
        unvisited(demands(t, p, ti, pi, j, m, d1).marks.pattern) <= unvisited(m.pattern),
    decreases d1, 2int, p.len() - j,
{
    if j < p.len() {
        if p.bond(pi, j) == 0 {
            lemma_demands_depth(t, p, ti, pi, j + 1, m, d1, d2);
        } else {
            lemma_scan_depth(t, p, ti, pi, j, 0, m, d1, d2);
            let s = scan(t, p, ti, pi, j, 0, m, d1);
            if s.matched || (p.atoms[j] == wildcard() && t.isolated(ti)) {
                lemma_demands_depth(t, p, ti, pi, j + 1, s.marks, d1, d2);
            }
        }
    }
}

/// Nor does the scan of the target neighbours.
proof fn lemma_scan_depth(
    t: Graph,
    p: Graph,
    ti: int,
    pi: int,
    j: int,
    i: int,
    m: Marks,
    d1: nat,
    d2: nat,
)
    requires
        fits(t, p, m),
        0 <= ti < t.len(),
        0 <= pi < p.len(),
        0 <= j < p.len(),
        0 <= i,
        unvisited(m.pattern) <= d1,
        unvisited(m.pattern) <= d2,
    ensures
        scan(t, p, ti, pi, j, i, m, d1) == scan(t, p, ti, pi, j, i, m, d2),
        fits(t, p, scan(t, p, ti, pi, j, i, m, d1).marks),
        unvisited(scan(t, p, ti, pi, j, i, m, d1).marks.pattern) <= unvisited(m.pattern),
    decreases d1, 1int, t.len() - i,
{
    if i < t.len() {
        if t.bond(ti, i) == 0 || t.bond(ti, i) != p.bond(pi, j) {
            lemma_scan_depth(t, p, ti, pi, j, i + 1, m, d1, d2);
        } else if p.atoms[j] == wildcard() && t.atoms[i] == carbon() {
        } else if p.atoms[j] != t.atoms[i] {
            lemma_scan_depth(t, p, ti, pi, j, i + 1, m, d1, d2);
        } else {
            lemma_rooted_depth(t, p, i, j, m, d1, d2);
            let r = rooted(t, p, i, j, m, d1);
            if !r.matched {
                lemma_scan_depth(t, p, ti, pi, j, i + 1, r.marks, d1, d2);
            }
        }
    }
}

/// The depth that [`matches_at`] gives is enough: any greater depth gives the
/// same answer.
pub proof fn lemma_matches_at_any_depth(t: Graph, p: Graph, ti: int, pi: int, depth: nat)
    requires
        0 <= ti < t.len(),
        0 <= pi < p.len(),
        depth >= p.len(),
    ensures
        matches_at(t, p, ti, pi) == rooted(
            t,
            p,
            ti,
            pi,
            Marks::fresh(t.len(), p.len()),
            depth,
        ).matched,
{
    let m = Marks::fresh(t.len(), p.len());
    lemma_unvisited_bound(m.pattern);
    lemma_rooted_depth(t, p, ti, pi, m, p.len(), depth);
}

/// Every pattern neighbour of `pi` from `j` on is a wildcard.
pub open spec fn only_wildcards_from(p: Graph, pi: int, j: int) -> bool {
    forall|k: int| j <= k < p.len() && p.bond(pi, k) != 0 ==> #[trigger] p.atoms[k] == wildcard()
}

/// At a target atom without bonds the scan finds nothing and leaves the marks
/// as they were.
proof fn lemma_scan_isolated(
    t: Graph,
    p: Graph,
    ti: int,
    pi: int,
    j: int,
    i: int,
    m: Marks,
    depth: nat,
)
    requires
        0 <= ti < t.len(),
        t.isolated(ti),
        0 <= i,
    ensures
        scan(t, p, ti, pi, j, i, m, depth) == (Outcome { matched: false, marks: m }),
    decreases t.len() - i,
{
    if i < t.len() {
        assert(t.bond(ti, i) == 0);
        lemma_scan_isolated(t, p, ti, pi, j, i + 1, m, depth);
    }
}

/// At a target atom without bonds the pattern neighbours are satisfied just
/// when all of them are wildcards.
proof fn lemma_demands_isolated(
    t: Graph,
    p: Graph,
    ti: int,
    pi: int,
    j: int,
    m: Marks,
    depth: nat,
)
    requires
        0 <= ti < t.len(),
        t.isolated(ti),
        0 <= j,
    ensures
        demands(t, p, ti, pi, j, m, depth).matched == only_wildcards_from(p, pi, j),
    decreases p.len() - j,
{
    if j < p.len() {
        lemma_demands_isolated(t, p, ti, pi, j + 1, m, depth);
        if p.bond(pi, j) == 0 {
            assert(only_wildcards_from(p, pi, j) == only_wildcards_from(p, pi, j + 1));
        } else {
            lemma_scan_isolated(t, p, ti, pi, j, 0, m, depth);
            if p.atoms[j] == wildcard() {
                assert(only_wildcards_from(p, pi, j) == only_wildcards_from(p, pi, j + 1));
            } else {
                assert(!only_wildcards_from(p, pi, j));
            }
        }
    }
}

/// At a target atom without bonds a pattern atom matches just when all its
/// neighbours are wildcards: each then stands for a hydrogen, or for nothing.
pub proof fn lemma_match_at_isolated_atom(t: Graph, p: Graph, ti: int, pi: int)
    requires
        0 <= ti < t.len(),
        0 <= pi < p.len(),
        t.isolated(ti),
    ensures
        matches_at(t, p, ti, pi) == only_wildcards_from(p, pi, 0),
{
    let m = Marks::fresh(t.len(), p.len());
    lemma_demands_isolated(t, p, ti, pi, 0, m.enter(ti, pi), (p.len() - 1) as nat);
}

/// A pattern does not occur in a target that has no atom with the symbol of
/// the pattern's anchor; so it occurs in no empty target.
pub proof fn lemma_no_candidate(t: Graph, p: Graph)
    requires
        forall|k: int| 0 <= k < t.len() ==> t.atoms[k] != p.atoms[anchor(p.atoms)],
    ensures
        !occurs(t, p),
{
}

/// At most as many entries are `false` as there are entries.
pub proof fn lemma_unvisited_bound(s: Seq<bool>)
    ensures
        unvisited(s) <= s.len(),
    decreases s.len(),
{
    if s.len() > 0 {
        lemma_unvisited_bound(s.drop_last());
    }
}

/// Marking an entry that was `false` leaves one `false` entry less.
pub proof fn lemma_unvisited_mark(s: Seq<bool>, k: int)
    requires
        0 <= k < s.len(),
        !s[k],
    ensures
        unvisited(s.update(k, true)) + 1 == unvisited(s),
    decreases s.len(),
{
    let u = s.update(k, true);
    if k == s.len() - 1 {
        assert(u.drop_last() =~= s.drop_last());
    } else {
        assert(u.drop_last() =~= s.drop_last().update(k, true));
        lemma_unvisited_mark(s.drop_last(), k);
    }
}

} // verus!
