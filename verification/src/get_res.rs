//! Testing one molecule for every functional group of the catalogue.

use crate::funct_groups::{all_well_formed, catalog, get_funct_groups, patterns_of, FunctGroup, Pattern};
use crate::mol_parser::{mol_of_text, parse_mol, MolError};
use crate::molecule::{rows_of, texts_of, Graph, Molecule};
use crate::recognizer::{get_bond_list, is_subgraph, occurs};
use vstd::prelude::*;
use vstd::string::StringExecFns;

verus! {

/// For each pattern, in order, whether it occurs in the molecule `t`.
pub open spec fn verdicts(t: Graph, patterns: Seq<Pattern>) -> Seq<bool> {
    Seq::new(patterns.len(), |i: int| occurs(t, patterns[i].graph))
}

/// The names of the patterns, in order.
pub open spec fn names_of(patterns: Seq<Pattern>) -> Seq<Seq<char>> {
    Seq::new(patterns.len(), |i: int| patterns[i].name)
}

/// The result of testing a molecule: the functional groups it was tested for,
/// and for each of them, at the same index, whether it was found.
pub struct FunctGroupResult<'a> {
    pub functional_groups: &'a Vec<FunctGroup>,
    pub result: Vec<bool>,
}

/// The text of a truth value.
pub open spec fn bool_text(b: bool) -> Seq<char> {
    if b {
        "true"@
    } else {
        "false"@
    }
}

/// The texts of the first `k` entries of a result: for each the name, ` : `,
/// the truth value and `, `.
pub open spec fn entries_text(patterns: Seq<Pattern>, result: Seq<bool>, k: nat) -> Seq<char>
    decreases k,
{
    if k == 0 {
        Seq::empty()
    } else {
        entries_text(patterns, result, (k - 1) as nat) + patterns[k - 1].name + " : "@ + bool_text(
            result[k - 1],
        ) + ", "@
    }
}

/// The text of a result: its entries between square brackets, and a line feed.
pub open spec fn result_text(patterns: Seq<Pattern>, result: Seq<bool>) -> Seq<char> {
    "["@ + entries_text(patterns, result, patterns.len()) + "]\n"@
}

impl<'a> FunctGroupResult<'a> {
    /// The result as text, one entry for each functional group. There must be
    /// a truth value for each group.
    pub fn to_string(&self) -> (out: String)
        requires
            self.functional_groups@.len() <= self.result@.len(),
        ensures
            out@ == result_text(patterns_of(self.functional_groups), self.result@),
    {
        let ghost patterns = patterns_of(self.functional_groups);
        let mut out = String::new();
        out.append("[");
        let mut i: usize = 0;
        while i < self.functional_groups.len()
            invariant
                patterns == patterns_of(self.functional_groups),
                self.functional_groups@.len() <= self.result@.len(),
                i <= self.functional_groups@.len(),
                out@ == "["@ + entries_text(patterns, self.result@, i as nat),
            decreases self.functional_groups@.len() - i,
        {
            let ghost start = out@;
            out.append(self.functional_groups[i].name);
            out.append(" : ");
            out.append(if self.result[i] { "true" } else { "false" });
            out.append(", ");
            proof {
                let before = entries_text(patterns, self.result@, i as nat);
                let name = patterns[i as int].name;
                let value = bool_text(self.result@[i as int]);
                assert(out@ =~= "["@ + (before + name + " : "@ + value + ", "@));
            }
            i += 1;
        }
        out.append("]\n");
        out
    }
}

/// Tests molecules for the functional groups of the catalogue. The catalogue is
/// built when it is first needed, and kept.
pub struct GetRes {
    pub functional_groups: Option<Vec<FunctGroup>>,
}

impl GetRes {
    /// The catalogue, once built, is the catalogue of this crate.
    pub open spec fn wf(&self) -> bool {
        self.functional_groups matches Some(groups) ==> patterns_of(&groups) == catalog()
            && all_well_formed(&groups)
    }

    /// A tester that has not built the catalogue yet.
    pub fn new() -> (r: GetRes)
        ensures
            r.functional_groups is None,
            r.wf(),
    {
        GetRes { functional_groups: None }
    }

    /// The names of the functional groups, in the order of the catalogue.
    pub fn get_funct_groups(&mut self) -> (out: Vec<String>)
        requires
            old(self).wf(),
        ensures
            texts_of(&out) == names_of(catalog()),
            final(self).wf(),
            final(self).functional_groups is Some,
            old(self).functional_groups is Some ==> *final(self) == *old(self),
    {
        self.gen_funct_groups();
        let mut out: Vec<String> = Vec::new();
        let groups = self.functional_groups.as_ref().unwrap();
        let mut k: usize = 0;
        while k < groups.len()
            invariant
                patterns_of(groups) == catalog(),
                k <= groups@.len(),
                out@.len() == k,
                forall|i: int| 0 <= i < k ==> (#[trigger] out@[i])@ == catalog()[i].name,
            decreases groups@.len() - k,
        {
            assert(patterns_of(groups)[k as int] == groups@[k as int]@);
            out.push(groups[k].name.to_owned());
            k += 1;
        }
        assert(patterns_of(groups).len() == groups@.len());
        assert(texts_of(&out) =~= names_of(catalog()));
        out
    }

    /// Tests the molecule for every functional group of the catalogue, in order.
    pub fn get_res(&mut self, mol: &Molecule) -> (r: FunctGroupResult<'_>)
        requires
            old(self).wf(),
            mol.wf(),
        ensures
            r.result@ == verdicts(mol@, catalog()),
            patterns_of(r.functional_groups) == catalog(),
            final(self).wf(),
            final(self).functional_groups == Some(*r.functional_groups),
            old(self).functional_groups is Some ==> *final(self) == *old(self),
    {
        self.gen_funct_groups();
        let groups = self.functional_groups.as_ref().unwrap();
        let mut res: Vec<bool> = Vec::new();
        let mut k: usize = 0;
        while k < groups.len()
            invariant
                mol.wf(),
                patterns_of(groups) == catalog(),
                all_well_formed(groups),
                k <= groups@.len(),
                res@.len() == k,
                forall|i: int|
                    0 <= i < k ==> #[trigger] res@[i] == occurs(mol@, catalog()[i].graph),
            decreases groups@.len() - k,
        {
            assert(patterns_of(groups)[k as int] == groups@[k as int]@);
            res.push(is_subgraph(mol, &groups[k].molecule));
            k += 1;
        }
        assert(patterns_of(groups).len() == groups@.len());
        assert(res@ =~= verdicts(mol@, catalog()));
        FunctGroupResult { functional_groups: groups, result: res }
    }

    /// Tests the molecule that the text of a mol file describes, or says what is
    /// wrong with the text.
    pub fn get_res_from_file(&mut self, mol_file: &str) -> (r: Result<
        FunctGroupResult<'_>,
        MolError,
    >)
        requires
            old(self).wf(),
        ensures
            final(self).wf(),
            match r {
                Ok(res) => mol_of_text(mol_file@) matches Ok(g) && res.result@ == verdicts(
                    g,
                    catalog(),
                ) && patterns_of(res.functional_groups) == catalog()
                    && final(self).functional_groups == Some(*res.functional_groups),
                Err(e) => mol_of_text(mol_file@) == Err::<Graph, MolError>(e) && *final(self)
                    == *old(self),
            },
    {
        match parse_mol(mol_file) {
            Ok(mol) => Ok(self.get_res(&mol)),
            Err(e) => Err(e),
        }
    }

    /// A copy of the molecule's matrix of bond orders.
    pub fn get_matrix(&self, mol: &Molecule) -> (m: Vec<Vec<i32>>)
        requires
            mol.wf(),
        ensures
            rows_of(&m) == mol@.bonds,
    {
        let n = mol.len();
        let mut m: Vec<Vec<i32>> = Vec::new();
        let mut k: usize = 0;
        while k < n
            invariant
                mol.wf(),
                n == mol@.len(),
                k <= n,
                m@.len() == k,
                forall|i: int| 0 <= i < k ==> (#[trigger] m@[i])@ == mol@.bonds[i],
            decreases n - k,
        {
            m.push(get_bond_list(mol, k));
            k += 1;
        }
        assert(rows_of(&m) =~= mol@.bonds);
        m
    }

    /// Builds the catalogue unless it is there already.
    fn gen_funct_groups(&mut self)
        requires
            old(self).wf(),
        ensures
            final(self).wf(),
            final(self).functional_groups is Some,
            old(self).functional_groups is Some ==> *final(self) == *old(self),
    {
        if self.functional_groups.is_none() {
            self.functional_groups = Some(get_funct_groups());
        }
    }
}

} // verus!
