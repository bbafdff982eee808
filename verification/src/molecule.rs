//! Molecules as atom lists with a symmetric matrix of bond orders.

use vstd::prelude::*;
use vstd::string::StringExecFns;

verus! {

/// The mathematical model of a molecule: the atoms' symbols, in order, and the
/// bond order between every pair of atom indices (0 for "no bond").
pub struct Graph {
    pub atoms: Seq<Seq<char>>,
    pub bonds: Seq<Seq<i32>>,
}

impl Graph {
    /// Number of atoms.
    pub open spec fn len(self) -> nat {
        self.atoms.len()
    }

    /// The bond order between atoms `i` and `j`.
    pub open spec fn bond(self, i: int, j: int) -> i32 {
        self.bonds[i][j]
    }

    /// The matrix has one row and one column per atom.
    pub open spec fn square(self) -> bool {
        &&& self.bonds.len() == self.atoms.len()
        &&& forall|i: int| 0 <= i < self.len() ==> (#[trigger] self.bonds[i]).len() == self.len()
    }

    /// A well-formed molecule: a square, symmetric matrix with a zero diagonal.
    pub open spec fn wf(self) -> bool {
        &&& self.square()
        &&& forall|i: int, j: int|
            0 <= i < self.len() && 0 <= j < self.len() ==> #[trigger] self.bond(i, j) == self.bond(
                j,
                i,
            )
        &&& forall|i: int| 0 <= i < self.len() ==> #[trigger] self.bond(i, i) == 0
    }

    /// Atom `i` has no bond at all.
    pub open spec fn isolated(self, i: int) -> bool {
        forall|k: int| 0 <= k < self.len() ==> #[trigger] self.bond(i, k) == 0
    }

    /// The molecule with the given atoms and no bonds.
    pub open spec fn unbonded(atoms: Seq<Seq<char>>) -> Graph {
        Graph { atoms, bonds: zero_matrix(atoms.len()) }
    }

    /// The molecule with the bond between `x` and `y` set to `order`, in both
    /// directions.
    pub open spec fn with_bond(self, x: int, y: int, order: i32) -> Graph {
        Graph { atoms: self.atoms, bonds: with_entry(self.bonds, x, y, order) }
    }
}

/// The `n` by `n` matrix of zeros.
pub open spec fn zero_matrix(n: nat) -> Seq<Seq<i32>> {
    Seq::new(n, |i: int| Seq::new(n, |j: int| 0i32))
}

/// The matrix `m` with the entries at `(x, y)` and `(y, x)` replaced by `v`.
pub open spec fn with_entry(m: Seq<Seq<i32>>, x: int, y: int, v: i32) -> Seq<Seq<i32>> {
    Seq::new(
        m.len(),
        |i: int|
            Seq::new(
                m[i].len(),
                |j: int|
                    if (i == x && j == y) || (i == y && j == x) {
                        v
                    } else {
                        m[i][j]
                    },
            ),
    )
}

/// A matrix is square when every row is as long as the matrix is high.
pub open spec fn is_square(m: Seq<Seq<i32>>) -> bool {
    forall|i: int| 0 <= i < m.len() ==> (#[trigger] m[i]).len() == m.len()
}

/// The symbols of a list of atoms given as string slices.
pub open spec fn symbols_of(atoms: Seq<&str>) -> Seq<Seq<char>> {
    Seq::new(atoms.len(), |i: int| atoms[i]@)
}

/// The strings of a vector, each as a sequence of characters.
pub open spec fn texts_of(v: &Vec<String>) -> Seq<Seq<char>> {
    Seq::new(v@.len(), |i: int| v@[i]@)
}

/// The decimal digit `d` as a character.
pub open spec fn digit(d: int) -> char {
    seq!['0', '1', '2', '3', '4', '5', '6', '7', '8', '9'][d]
}

/// The decimal digits of `n`, without leading zeros.
pub open spec fn digits(n: nat) -> Seq<char>
    decreases n,
{
    if n < 10 {
        seq![digit(n as int)]
    } else {
        digits(n / 10).push(digit((n % 10) as int))
    }
}

/// The decimal text of `v`, with a minus sign in front of a negative number.
pub open spec fn decimal(v: int) -> Seq<char> {
    if v < 0 {
        seq!['-'] + digits((-v) as nat)
    } else {
        digits(v as nat)
    }
}

/// The texts of a row's entries, one after the other.
pub open spec fn row_text(row: Seq<i32>) -> Seq<char>
    decreases row.len(),
{
    if row.len() == 0 {
        Seq::empty()
    } else {
        row_text(row.drop_last()) + decimal(row.last() as int)
    }
}

/// The text of a matrix: each row's text, followed by a line feed.
pub open spec fn matrix_text(m: Seq<Seq<i32>>) -> Seq<char>
    decreases m.len(),
{
    if m.len() == 0 {
        Seq::empty()
    } else {
        matrix_text(m.drop_last()) + row_text(m.last()) + seq!['\n']
    }
}

/// The given texts, one after the other.
pub open spec fn joined(parts: Seq<Seq<char>>) -> Seq<char>
    decreases parts.len(),
{
    if parts.len() == 0 {
        Seq::empty()
    } else {
        joined(parts.drop_last()) + parts.last()
    }
}

/// The text of a molecule: the atoms' symbols on one line, then the matrix.
pub open spec fn graph_text(g: Graph) -> Seq<char> {
    joined(g.atoms) + seq!['\n'] + matrix_text(g.bonds)
}

/// The decimal text of an integer, as `i32::to_string` of the standard library
/// gives it: the digits without leading zeros, after a minus sign if the number
/// is negative.
#[verifier::external_body]
fn int_text(v: i32) -> (s: String)
    ensures
        s@ == decimal(v as int),
{
    v.to_string()
}

/// A square matrix of bond orders.
pub struct Matrix {
    matrix: Vec<Vec<i32>>,
}

/// The rows of a vector of vectors, each as a sequence.
pub open spec fn rows_of(v: &Vec<Vec<i32>>) -> Seq<Seq<i32>> {
    Seq::new(v@.len(), |i: int| v@[i]@)
}

impl View for Matrix {
    type V = Seq<Seq<i32>>;

    closed spec fn view(&self) -> Seq<Seq<i32>> {
        rows_of(&self.matrix)
    }
}

impl Matrix {
    /// The matrix is square.
    pub open spec fn wf(&self) -> bool {
        is_square(self@)
    }

    /// A `size` by `size` matrix of zeros.
    pub fn new(size: usize) -> (m: Matrix)
        ensures
            m@ == zero_matrix(size as nat),
            m.wf(),
    {
        let mut rows: Vec<Vec<i32>> = Vec::new();
        let mut x: usize = 0;
        while x < size
            invariant
                x <= size,
                rows@.len() == x,
                forall|i: int| 0 <= i < x ==> (#[trigger] rows@[i])@ == Seq::new(
                    size as nat,
                    |j: int| 0i32,
                ),
            decreases size - x,
        {
            let mut row: Vec<i32> = Vec::new();
            let mut y: usize = 0;
            while y < size
                invariant
                    y <= size,
                    row@.len() == y,
                    forall|j: int| 0 <= j < y ==> #[trigger] row@[j] == 0,
                decreases size - y,
            {
                row.push(0);
                y += 1;
            }
            assert(row@ =~= Seq::new(size as nat, |j: int| 0i32));
            rows.push(row);
            x += 1;
        }
        let m = Matrix { matrix: rows };
        assert(m@ =~= zero_matrix(size as nat));
        m
    }

    /// Writes `amount` at `(x, y)` and at `(y, x)`.
    pub fn set(&mut self, x: usize, y: usize, amount: i32)
        requires
            old(self).wf(),
            x < old(self)@.len(),
            y < old(self)@.len(),
        ensures
            final(self)@ == with_entry(old(self)@, x as int, y as int, amount),
            final(self).wf(),
    {
        assert(self@[x as int].len() == self@.len() && self@[y as int].len() == self@.len());
        let mut row_x = self.matrix[x].clone();
        assert(row_x@ == self.matrix@[x as int]@);
        row_x.set(y, amount);
        self.matrix.set(x, row_x);
        let mut row_y = self.matrix[y].clone();
        assert(row_y@ == self.matrix@[y as int]@);
        row_y.set(x, amount);
        self.matrix.set(y, row_y);
        assert(self@ =~~= with_entry(old(self)@, x as int, y as int, amount));
    }

    /// The entry at `(x, y)`.
    pub fn get(&self, x: usize, y: usize) -> (v: i32)
        requires
            self.wf(),
            x < self@.len(),
            y < self@.len(),
        ensures
            v == self@[x as int][y as int],
    {
        assert(self@[x as int].len() == self@.len());
        self.matrix[x][y]
    }

    /// The matrix as text, one line per row.
    pub fn to_string(&self) -> (out: String)
        ensures
            out@ == matrix_text(self@),
    {
        let mut out = String::new();
        let mut x: usize = 0;
        while x < self.matrix.len()
            invariant
                x <= self@.len(),
                self@.len() == self.matrix@.len(),
                out@ == matrix_text(self@.take(x as int)),
            decreases self@.len() - x,
        {
            let ghost row = self@[x as int];
            let ghost start = out@;
            let mut y: usize = 0;
            while y < self.matrix[x].len()
                invariant
                    x < self@.len(),
                    self@.len() == self.matrix@.len(),
                    row == self@[x as int],
                    row == self.matrix@[x as int]@,
                    y <= row.len(),
                    out@ == start + row_text(row.take(y as int)),
                decreases row.len() - y,
            {
                let entry = int_text(self.matrix[x][y]);
                out.append(entry.as_str());
                proof {
                    assert(row.take(y + 1).drop_last() =~= row.take(y as int));
                    assert(row.take(y + 1).last() == row[y as int]);
                    assert(out@ =~= start + row_text(row.take(y + 1)));
                }
                y += 1;
            }
            out.append("\n");
            proof {
                reveal_strlit("\n");
                assert("\n"@ =~= seq!['\n']);
                assert(row.take(row.len() as int) =~= row);
                assert(self@.take(x + 1).drop_last() =~= self@.take(x as int));
                assert(self@.take(x + 1).last() == row);
                assert(out@ =~= matrix_text(self@.take(x + 1)));
            }
            x += 1;
        }
        assert(self@.take(self@.len() as int) =~= self@);
        out
    }
}

/// Why a bond cannot be added to a molecule.
#[derive(Clone, Copy, Debug, PartialEq, Eq, Structural)]
pub enum BondError {
    /// One of the two indices names no atom.
    OutOfRange,
    /// Both indices name the same atom.
    SelfBond,
    /// The bond order is 0, which stands for "no bond".
    ZeroOrder,
    /// The pair of atoms already has a bond.
    Occupied,
}

/// The reason, if any, why the bond `(x, y, order)` cannot be added to `g`.
pub open spec fn bond_fault(g: Graph, x: int, y: int, order: i32) -> Option<BondError> {
    if !(0 <= x < g.len() && 0 <= y < g.len()) {
        Some(BondError::OutOfRange)
    } else if x == y {
        Some(BondError::SelfBond)
    } else if order == 0 {
        Some(BondError::ZeroOrder)
    } else if g.bond(x, y) != 0 {
        Some(BondError::Occupied)
    } else {
        None
    }
}

/// A molecule: its atoms, and the bond orders between them.
pub struct Molecule {
    matrix: Matrix,
    atoms: Vec<String>,
}

impl View for Molecule {
    type V = Graph;

    open spec fn view(&self) -> Graph {
        Graph { atoms: self.symbols(), bonds: self.bonds() }
    }
}

impl Molecule {
    /// The atoms' symbols, in order; the index of an atom is its row and column
    /// in the matrix.
    pub closed spec fn symbols(&self) -> Seq<Seq<char>> {
        texts_of(&self.atoms)
    }

    /// The matrix of bond orders.
    pub closed spec fn bonds(&self) -> Seq<Seq<i32>> {
        self.matrix@
    }

    /// The molecule's model is well formed.
    pub open spec fn wf(&self) -> bool {
        self@.wf()
    }

    /// A molecule with the given atoms and no bonds.
    pub fn new(atoms: Vec<&str>) -> (m: Molecule)
        ensures
            m@ == Graph::unbonded(symbols_of(atoms@)),
            m.wf(),
    {
        let mut out: Vec<String> = Vec::new();
        let mut k: usize = 0;
        while k < atoms.len()
            invariant
                k <= atoms@.len(),
                out@.len() == k,
                forall|i: int| 0 <= i < k ==> (#[trigger] out@[i])@ == atoms@[i]@,
            decreases atoms@.len() - k,
        {
            out.push(atoms[k].to_owned());
            k += 1;
        }
        let m = Molecule { matrix: Matrix::new(out.len()), atoms: out };
        assert(m.symbols() =~= symbols_of(atoms@));
        proof {
            lemma_unbonded_wf(symbols_of(atoms@));
        }
        m
    }

    /// Adds a bond of the given order between the atoms `x` and `y`.
    ///
    /// The two atoms must be distinct, the order nonzero, and the pair must not
    /// have a bond yet.
    pub fn add_bond(&mut self, x: usize, y: usize, z: i32)
        requires
            old(self).wf(),
            bond_fault(old(self)@, x as int, y as int, z) is None,
        ensures
            final(self)@ == old(self)@.with_bond(x as int, y as int, z),
            final(self).wf(),
    {
        proof {
            lemma_with_bond_wf(self@, x as int, y as int, z);
        }
        self.matrix.set(x, y, z);
    }

    /// Adds a bond as [`Molecule::add_bond`] does, or says why it cannot be added
    /// and leaves the molecule as it was.
    pub fn try_add_bond(&mut self, x: usize, y: usize, z: i32) -> (r: Result<(), BondError>)
        requires
            old(self).wf(),
        ensures
            final(self).wf(),
            match bond_fault(old(self)@, x as int, y as int, z) {
                Some(e) => r == Err::<(), BondError>(e) && final(self)@ == old(self)@,
                None => r is Ok && final(self)@ == old(self)@.with_bond(x as int, y as int, z),
            },
    {
        let n = self.atoms.len();
        if x >= n || y >= n {
            Err(BondError::OutOfRange)
        } else if x == y {
            Err(BondError::SelfBond)
        } else if z == 0 {
            Err(BondError::ZeroOrder)
        } else if self.matrix.get(x, y) != 0 {
            Err(BondError::Occupied)
        } else {
            self.add_bond(x, y, z);
            Ok(())
        }
    }

    /// The molecule as text: the atoms' symbols on one line, then the matrix,
    /// one line per row.
    pub fn to_string(&self) -> (out: String)
        ensures
            out@ == graph_text(self@),
    {
        let mut out = String::new();
        let mut k: usize = 0;
        while k < self.atoms.len()
            invariant
                k <= self.atoms@.len(),
                self.symbols().len() == self.atoms@.len(),
                out@ == joined(self.symbols().take(k as int)),
            decreases self.atoms@.len() - k,
        {
            out.append(self.atoms[k].as_str());
            proof {
                let parts = self.symbols();
                assert(parts.take(k + 1).drop_last() =~= parts.take(k as int));
                assert(parts.take(k + 1).last() == self.atoms@[k as int]@);
            }
            k += 1;
        }
        assert(self.symbols().take(self.atoms@.len() as int) =~= self.symbols());
        out.append("\n");
        proof {
            reveal_strlit("\n");
            assert("\n"@ =~= seq!['\n']);
        }
        let rows = self.matrix.to_string();
        out.append(rows.as_str());
        out
    }

    /// Number of atoms.
    pub fn len(&self) -> (n: usize)
        ensures
            n == self@.len(),
    {
        self.atoms.len()
    }

    /// The atoms' symbols, in order.
    pub fn atoms(&self) -> (a: &Vec<String>)
        ensures
            texts_of(a) == self@.atoms,
    {
        &self.atoms
    }

    /// The bond order between the atoms `x` and `y`, 0 if there is no bond. It
    /// is the same in both directions.
    pub fn get(&self, x: usize, y: usize) -> (v: i32)
        requires
            self.wf(),
            x < self@.len(),
            y < self@.len(),
        ensures
            v == self@.bond(x as int, y as int),
            v == self@.bond(y as int, x as int),
    {
        self.matrix.get(x, y)
    }

    /// The whole matrix of bond orders.
    pub fn get_matrix(&self) -> (m: &Vec<Vec<i32>>)
        ensures
            rows_of(m) == self@.bonds,
    {
        &self.matrix.matrix
    }
}

/// A molecule without bonds is well formed.
pub proof fn lemma_unbonded_wf(atoms: Seq<Seq<char>>)
    ensures
        Graph::unbonded(atoms).wf(),
{
}

/// Adding a bond between two distinct atoms keeps a molecule well formed: the
/// matrix stays square and symmetric, and its diagonal stays zero.
pub proof fn lemma_with_bond_wf(g: Graph, x: int, y: int, order: i32)
    requires
        g.wf(),
        0 <= x < g.len(),
        0 <= y < g.len(),
        x != y,
    ensures
        g.with_bond(x, y, order).wf(),
        g.with_bond(x, y, order).bond(x, y) == order,
        g.with_bond(x, y, order).bond(y, x) == order,
{
    let h = g.with_bond(x, y, order);
    assert forall|i: int, j: int| 0 <= i < h.len() && 0 <= j < h.len() implies #[trigger] h.bond(
        i,
        j,
    ) == h.bond(j, i) by {
        assert(g.bond(i, j) == g.bond(j, i));
        assert(g.bonds[i].len() == g.len());
        assert(g.bonds[j].len() == g.len());
    }
    assert forall|i: int| 0 <= i < h.len() implies #[trigger] h.bond(i, i) == 0 by {
        assert(g.bond(i, i) == 0);
        assert(g.bonds[i].len() == g.len());
    }
    assert(g.bonds[x].len() == g.len());
    assert(g.bonds[y].len() == g.len());
}

/// The bond order between two atoms of a well-formed molecule does not depend
/// on the order in which the atoms are named.
pub proof fn lemma_bond_symmetric(g: Graph, i: int, j: int)
    requires
        g.wf(),
        0 <= i < g.len(),
        0 <= j < g.len(),
    ensures
        g.bond(i, j) == g.bond(j, i),
{
}

/// Once a pair of atoms has a bond, no second bond can be added to it, in
/// either direction.
pub proof fn lemma_second_bond_rejected(g: Graph, x: int, y: int, first: i32, second: i32)
    requires
        g.wf(),
        bond_fault(g, x, y, first) is None,
    ensures
        bond_fault(g.with_bond(x, y, first), x, y, second) is Some,
        bond_fault(g.with_bond(x, y, first), y, x, second) is Some,
        second != 0 ==> bond_fault(g.with_bond(x, y, first), x, y, second) == Some(
            BondError::Occupied,
        ) && bond_fault(g.with_bond(x, y, first), y, x, second) == Some(BondError::Occupied),
{
    lemma_with_bond_wf(g, x, y, first);
}

} // verus!
