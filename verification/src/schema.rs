//! What the library reads of the parameter schema: the kind, family and gate
//! of each gene, the modulation targets, and which slider keys of a formula
//! are frequency-like. The schema itself is a JSON file read by the program;
//! the numeric ranges in it stay with the audio code.

use vstd::prelude::*;
use crate::text::str_eq;

verus! {

/// How a gene is stored in a genome.
#[derive(Clone, Copy, PartialEq, Eq, Debug, Structural)]
pub enum GeneKind {
    /// A value normalized to [0, 1].
    Cont,
    /// 0 or 1.
    Bool,
    /// An integer index into a list of options.
    Choice,
}

/// A parameter a modulation route can aim at.
#[derive(Clone, Debug)]
pub struct ModTarget {
    pub target: String,
    pub param: String,
    pub exp: bool,
    pub label: String,
}

/// The non-numeric part of a gene definition: its id, its kind, its family
/// for structural mutation (`a.<formula>`, `fx`, `v.<card>`, `lfo.<i>`,
/// `route.<i>`, `coupling`) and the bool gene that gates it, if any.
#[derive(Clone, Debug)]
pub struct GeneMeta {
    pub id: String,
    pub kind: GeneKind,
    pub group: String,
    pub active_if: Option<String>,
}

/// One slider of a formula, by key, and whether it is frequency-like.
#[derive(Clone, Debug)]
pub struct SliderKey {
    pub k: String,
    pub exp: bool,
}

/// A formula of the schema with its sliders.
#[derive(Clone, Debug)]
pub struct FormulaKeys {
    pub id: String,
    pub sliders: Vec<SliderKey>,
}

/// Whether formula `i` is the first one of the list with id `id`.
pub open spec fn is_first_formula(formulas: Seq<FormulaKeys>, id: Seq<char>, i: int) -> bool {
    &&& 0 <= i < formulas.len()
    &&& formulas[i].id@ == id
    &&& forall|j: int| 0 <= j < i ==> formulas[j].id@ != id
}

/// The keys of the frequency-like sliders among the first `n`, in order.
pub open spec fn exp_keys(sliders: Seq<SliderKey>, n: int) -> Seq<Seq<char>>
    decreases n,
{
    if n <= 0 {
        seq![]
    } else if sliders[n - 1].exp {
        exp_keys(sliders, n - 1).push(sliders[n - 1].k@)
    } else {
        exp_keys(sliders, n - 1)
    }
}

/// The characters of each string of a list.
pub open spec fn texts(v: Seq<String>) -> Seq<Seq<char>> {
    v.map_values(|s: String| s@)
}

/// The position of the first formula with id `id`.
pub fn formula_def(formulas: &Vec<FormulaKeys>, id: &str) -> (r: Option<usize>)
    ensures
        match r {
            Some(i) => is_first_formula(formulas@, id@, i as int),
            None => forall|j: int| 0 <= j < formulas@.len() ==> formulas@[j].id@ != id@,
        },
{
    let mut i: usize = 0;
    while i < formulas.len()
        invariant
            i <= formulas@.len(),
            forall|j: int| 0 <= j < i ==> formulas@[j].id@ != id@,
        decreases formulas@.len() - i,
    {
        if str_eq(formulas[i].id.as_str(), id) {
            return Some(i);
        }
        i = i + 1;
    }
    None
}

/// Which slider keys of formula `id` are frequency-like, in slider order;
/// empty for an unknown formula.
pub fn formula_exp_params(formulas: &Vec<FormulaKeys>, id: &str) -> (r: Vec<String>)
    ensures
        match formula_def_spec(formulas@, id@) {
            Some(i) => texts(r@) == exp_keys(formulas@[i].sliders@, formulas@[i].sliders@.len() as int),
            None => r@.len() == 0,
        },
{
    let found = formula_def(formulas, id);
    proof {
        lemma_formula_def_spec(formulas@, id@, found);
    }
    match found {
        None => Vec::new(),
        Some(fi) => {
            let sliders = &formulas[fi].sliders;
            let mut out: Vec<String> = Vec::new();
            let mut i: usize = 0;
            while i < sliders.len()
                invariant
                    i <= sliders@.len(),
                    texts(out@) == exp_keys(sliders@, i as int),
                decreases sliders@.len() - i,
            {
                if sliders[i].exp {
                    let k = sliders[i].k.clone();
                    out.push(k);
                    proof {
                        assert(texts(out@) =~= exp_keys(sliders@, i as int).push(sliders@[i as int].k@));
                    }
                } else {
                    proof {
                        assert(texts(out@) =~= exp_keys(sliders@, i as int + 1));
                    }
                }
                i = i + 1;
            }
            out
        },
    }
}

/// The formula that `id` names, if any: the first with that id.
pub open spec fn formula_def_spec(formulas: Seq<FormulaKeys>, id: Seq<char>) -> Option<int> {
    if exists|i: int| is_first_formula(formulas, id, i) {
        Some(choose|i: int| is_first_formula(formulas, id, i))
    } else {
        None
    }
}

proof fn lemma_formula_def_spec(formulas: Seq<FormulaKeys>, id: Seq<char>, r: Option<usize>)
    requires
        match r {
            Some(i) => is_first_formula(formulas, id, i as int),
            None => forall|j: int| 0 <= j < formulas.len() ==> formulas[j].id@ != id,
        },
    ensures
        formula_def_spec(formulas, id) == match r {
            Some(i) => Some(i as int),
            None => None::<int>,
        },
{
    match r {
        Some(i) => {
            let c = choose|k: int| is_first_formula(formulas, id, k);
            assert(is_first_formula(formulas, id, c));
            if c < i {
                assert(formulas[c].id@ != id);
            }
            if i < c {
                assert(formulas[i as int].id@ != id);
            }
        },
        None => {},
    }
}

} // verus!
