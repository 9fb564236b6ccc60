//! The 21 formula generators as the genome and the point files name them,
//! and the one generator whose arithmetic is integer: bytebeat.

use vstd::prelude::*;
use crate::text::str_eq;

verus! {

/// The 21 formulas, in the order the genome stores them.
#[derive(Clone, Copy, PartialEq, Eq, Hash, Debug, Structural)]
pub enum FormulaId {
    Fm,
    Logistic,
    Gliss,
    Additive,
    Pm,
    Beats,
    Dist,
    Quasi,
    Lorenz,
    Karplus,
    Noiselp,
    Pinknoise,
    Brownnoise,
    Velvetnoise,
    Rossler,
    Shepard,
    Bytebeat,
    Bell,
    Ocean,
    Risset,
    Rain,
}

/// The name of a formula, as the point files and the schema spell it.
pub open spec fn formula_name(id: FormulaId) -> Seq<char> {
    match id {
        FormulaId::Fm => "fm"@,
        FormulaId::Logistic => "logistic"@,
        FormulaId::Gliss => "gliss"@,
        FormulaId::Additive => "additive"@,
        FormulaId::Pm => "pm"@,
        FormulaId::Beats => "beats"@,
        FormulaId::Dist => "dist"@,
        FormulaId::Quasi => "quasi"@,
        FormulaId::Lorenz => "lorenz"@,
        FormulaId::Karplus => "karplus"@,
        FormulaId::Noiselp => "noiselp"@,
        FormulaId::Pinknoise => "pinknoise"@,
        FormulaId::Brownnoise => "brownnoise"@,
        FormulaId::Velvetnoise => "velvetnoise"@,
        FormulaId::Rossler => "rossler"@,
        FormulaId::Shepard => "shepard"@,
        FormulaId::Bytebeat => "bytebeat"@,
        FormulaId::Bell => "bell"@,
        FormulaId::Ocean => "ocean"@,
        FormulaId::Risset => "risset"@,
        FormulaId::Rain => "rain"@,
    }
}

/// The formula a name denotes, if any.
pub open spec fn formula_of_name(s: Seq<char>) -> Option<FormulaId> {
    if exists|id: FormulaId| formula_name(id) == s {
        Some(choose|id: FormulaId| formula_name(id) == s)
    } else {
        None
    }
}

/// Position of a formula in genome order.
pub open spec fn formula_index(id: FormulaId) -> int {
    match id {
        FormulaId::Fm => 0,
        FormulaId::Logistic => 1,
        FormulaId::Gliss => 2,
        FormulaId::Additive => 3,
        FormulaId::Pm => 4,
        FormulaId::Beats => 5,
        FormulaId::Dist => 6,
        FormulaId::Quasi => 7,
        FormulaId::Lorenz => 8,
        FormulaId::Karplus => 9,
        FormulaId::Noiselp => 10,
        FormulaId::Pinknoise => 11,
        FormulaId::Brownnoise => 12,
        FormulaId::Velvetnoise => 13,
        FormulaId::Rossler => 14,
        FormulaId::Shepard => 15,
        FormulaId::Bytebeat => 16,
        FormulaId::Bell => 17,
        FormulaId::Ocean => 18,
        FormulaId::Risset => 19,
        FormulaId::Rain => 20,
    }
}

impl FormulaId {
    pub fn as_str(self) -> (r: &'static str)
        ensures
            r@ == formula_name(self),
    {
        match self {
            FormulaId::Fm => "fm",
            FormulaId::Logistic => "logistic",
            FormulaId::Gliss => "gliss",
            FormulaId::Additive => "additive",
            FormulaId::Pm => "pm",
            FormulaId::Beats => "beats",
            FormulaId::Dist => "dist",
            FormulaId::Quasi => "quasi",
            FormulaId::Lorenz => "lorenz",
            FormulaId::Karplus => "karplus",
            FormulaId::Noiselp => "noiselp",
            FormulaId::Pinknoise => "pinknoise",
            FormulaId::Brownnoise => "brownnoise",
            FormulaId::Velvetnoise => "velvetnoise",
            FormulaId::Rossler => "rossler",
            FormulaId::Shepard => "shepard",
            FormulaId::Bytebeat => "bytebeat",
            FormulaId::Bell => "bell",
            FormulaId::Ocean => "ocean",
            FormulaId::Risset => "risset",
            FormulaId::Rain => "rain",
        }
    }

    pub fn parse(s: &str) -> (r: Option<Self>)
        ensures
            r == formula_of_name(s@),
    {
        proof {
            reveal_strlit("fm");
            reveal_strlit("logistic");
            reveal_strlit("gliss");
            reveal_strlit("additive");
            reveal_strlit("pm");
            reveal_strlit("beats");
            reveal_strlit("dist");
            reveal_strlit("quasi");
            reveal_strlit("lorenz");
            reveal_strlit("karplus");
            reveal_strlit("noiselp");
            reveal_strlit("pinknoise");
            reveal_strlit("brownnoise");
            reveal_strlit("velvetnoise");
            reveal_strlit("rossler");
            reveal_strlit("shepard");
            reveal_strlit("bytebeat");
            reveal_strlit("bell");
            reveal_strlit("ocean");
            reveal_strlit("risset");
            reveal_strlit("rain");
        }
        if str_eq(s, "fm") {
            proof {
                lemma_formula_name_round_trip(FormulaId::Fm);
            }
            return Some(FormulaId::Fm);
        }
        if str_eq(s, "logistic") {
            proof {
                lemma_formula_name_round_trip(FormulaId::Logistic);
            }
            return Some(FormulaId::Logistic);
        }
        if str_eq(s, "gliss") {
            proof {
                lemma_formula_name_round_trip(FormulaId::Gliss);
            }
            return Some(FormulaId::Gliss);
        }
        if str_eq(s, "additive") {
            proof {
                lemma_formula_name_round_trip(FormulaId::Additive);
            }
            return Some(FormulaId::Additive);
        }
        if str_eq(s, "pm") {
            proof {
                lemma_formula_name_round_trip(FormulaId::Pm);
            }
            return Some(FormulaId::Pm);
        }
        if str_eq(s, "beats") {
            proof {
                lemma_formula_name_round_trip(FormulaId::Beats);
            }
            return Some(FormulaId::Beats);
        }
        if str_eq(s, "dist") {
            proof {
                lemma_formula_name_round_trip(FormulaId::Dist);
            }
            return Some(FormulaId::Dist);
        }
        if str_eq(s, "quasi") {
            proof {
                lemma_formula_name_round_trip(FormulaId::Quasi);
            }
            return Some(FormulaId::Quasi);
        }
        if str_eq(s, "lorenz") {
            proof {
                lemma_formula_name_round_trip(FormulaId::Lorenz);
            }
            return Some(FormulaId::Lorenz);
        }
        if str_eq(s, "karplus") {
            proof {
                lemma_formula_name_round_trip(FormulaId::Karplus);
            }
            return Some(FormulaId::Karplus);
        }
        if str_eq(s, "noiselp") {
            proof {
                lemma_formula_name_round_trip(FormulaId::Noiselp);
            }
            return Some(FormulaId::Noiselp);
        }
        if str_eq(s, "pinknoise") {
            proof {
                lemma_formula_name_round_trip(FormulaId::Pinknoise);
            }
            return Some(FormulaId::Pinknoise);
        }
        if str_eq(s, "brownnoise") {
            proof {
                lemma_formula_name_round_trip(FormulaId::Brownnoise);
            }
            return Some(FormulaId::Brownnoise);
        }
        if str_eq(s, "velvetnoise") {
            proof {
                lemma_formula_name_round_trip(FormulaId::Velvetnoise);
            }
            return Some(FormulaId::Velvetnoise);
        }
        if str_eq(s, "rossler") {
            proof {
                lemma_formula_name_round_trip(FormulaId::Rossler);
            }
            return Some(FormulaId::Rossler);
        }
        if str_eq(s, "shepard") {
            proof {
                lemma_formula_name_round_trip(FormulaId::Shepard);
            }
            return Some(FormulaId::Shepard);
        }
        if str_eq(s, "bytebeat") {
            proof {
                lemma_formula_name_round_trip(FormulaId::Bytebeat);
            }
            return Some(FormulaId::Bytebeat);
        }
        if str_eq(s, "bell") {
            proof {
                lemma_formula_name_round_trip(FormulaId::Bell);
            }
            return Some(FormulaId::Bell);
        }
        if str_eq(s, "ocean") {
            proof {
                lemma_formula_name_round_trip(FormulaId::Ocean);
            }
            return Some(FormulaId::Ocean);
        }
        if str_eq(s, "risset") {
            proof {
                lemma_formula_name_round_trip(FormulaId::Risset);
            }
            return Some(FormulaId::Risset);
        }
        if str_eq(s, "rain") {
            proof {
                lemma_formula_name_round_trip(FormulaId::Rain);
            }
            return Some(FormulaId::Rain);
        }
        proof {
            assert forall|k: FormulaId| formula_name(k) != s@ by {
                match k {
                    FormulaId::Fm => {},
                    FormulaId::Logistic => {},
                    FormulaId::Gliss => {},
                    FormulaId::Additive => {},
                    FormulaId::Pm => {},
                    FormulaId::Beats => {},
                    FormulaId::Dist => {},
                    FormulaId::Quasi => {},
                    FormulaId::Lorenz => {},
                    FormulaId::Karplus => {},
                    FormulaId::Noiselp => {},
                    FormulaId::Pinknoise => {},
                    FormulaId::Brownnoise => {},
                    FormulaId::Velvetnoise => {},
                    FormulaId::Rossler => {},
                    FormulaId::Shepard => {},
                    FormulaId::Bytebeat => {},
                    FormulaId::Bell => {},
                    FormulaId::Ocean => {},
                    FormulaId::Risset => {},
                    FormulaId::Rain => {},
                }
            }
        }
        None
    }

    /// Every formula, in genome order.
    pub fn all() -> (r: Vec<FormulaId>)
        ensures
            r@.len() == 21,
            forall|i: int| 0 <= i < 21 ==> formula_index(#[trigger] r@[i]) == i,
    {
        let mut v: Vec<FormulaId> = Vec::new();
        v.push(FormulaId::Fm);
        v.push(FormulaId::Logistic);
        v.push(FormulaId::Gliss);
        v.push(FormulaId::Additive);
        v.push(FormulaId::Pm);
        v.push(FormulaId::Beats);
        v.push(FormulaId::Dist);
        v.push(FormulaId::Quasi);
        v.push(FormulaId::Lorenz);
        v.push(FormulaId::Karplus);
        v.push(FormulaId::Noiselp);
        v.push(FormulaId::Pinknoise);
        v.push(FormulaId::Brownnoise);
        v.push(FormulaId::Velvetnoise);
        v.push(FormulaId::Rossler);
        v.push(FormulaId::Shepard);
        v.push(FormulaId::Bytebeat);
        v.push(FormulaId::Bell);
        v.push(FormulaId::Ocean);
        v.push(FormulaId::Risset);
        v.push(FormulaId::Rain);
        v
    }
}

/// Distinct formulas have distinct names.
pub proof fn lemma_formula_name_injective(a: FormulaId, b: FormulaId)
    requires
        formula_name(a) == formula_name(b),
    ensures
        a == b,
{
    reveal_strlit("fm");
    reveal_strlit("logistic");
    reveal_strlit("gliss");
    reveal_strlit("additive");
    reveal_strlit("pm");
    reveal_strlit("beats");
    reveal_strlit("dist");
    reveal_strlit("quasi");
    reveal_strlit("lorenz");
    reveal_strlit("karplus");
    reveal_strlit("noiselp");
    reveal_strlit("pinknoise");
    reveal_strlit("brownnoise");
    reveal_strlit("velvetnoise");
    reveal_strlit("rossler");
    reveal_strlit("shepard");
    reveal_strlit("bytebeat");
    reveal_strlit("bell");
    reveal_strlit("ocean");
    reveal_strlit("risset");
    reveal_strlit("rain");
    if a != b {
        let x = formula_name(a);
        let y = formula_name(b);
        assert(x.len() != y.len() || exists|i: int| 0 <= i < x.len() && x[i] != y[i]) by {
            match a {
                FormulaId::Fm => {
                    match b {
                        FormulaId::Fm => {},
                        FormulaId::Logistic => {},
                        FormulaId::Gliss => {},
                        FormulaId::Additive => {},
                        FormulaId::Pm => { assert(x[0] != y[0]); },
                        FormulaId::Beats => {},
                        FormulaId::Dist => {},
                        FormulaId::Quasi => {},
                        FormulaId::Lorenz => {},
                        FormulaId::Karplus => {},
                        FormulaId::Noiselp => {},
                        FormulaId::Pinknoise => {},
                        FormulaId::Brownnoise => {},
                        FormulaId::Velvetnoise => {},
                        FormulaId::Rossler => {},
                        FormulaId::Shepard => {},
                        FormulaId::Bytebeat => {},
                        FormulaId::Bell => {},
                        FormulaId::Ocean => {},
                        FormulaId::Risset => {},
                        FormulaId::Rain => {},
                    }
                }
                FormulaId::Logistic => {
                    match b {
                        FormulaId::Fm => {},
                        FormulaId::Logistic => {},
                        FormulaId::Gliss => {},
                        FormulaId::Additive => { assert(x[0] != y[0]); },
                        FormulaId::Pm => {},
                        FormulaId::Beats => {},
                        FormulaId::Dist => {},
                        FormulaId::Quasi => {},
                        FormulaId::Lorenz => {},
                        FormulaId::Karplus => {},
                        FormulaId::Noiselp => {},
                        FormulaId::Pinknoise => {},
                        FormulaId::Brownnoise => {},
                        FormulaId::Velvetnoise => {},
                        FormulaId::Rossler => {},
                        FormulaId::Shepard => {},
                        FormulaId::Bytebeat => { assert(x[0] != y[0]); },
                        FormulaId::Bell => {},
                        FormulaId::Ocean => {},
                        FormulaId::Risset => {},
                        FormulaId::Rain => {},
                    }
                }
                FormulaId::Gliss => {
                    match b {
                        FormulaId::Fm => {},
                        FormulaId::Logistic => {},
                        FormulaId::Gliss => {},
                        FormulaId::Additive => {},
                        FormulaId::Pm => {},
                        FormulaId::Beats => { assert(x[0] != y[0]); },
                        FormulaId::Dist => {},
                        FormulaId::Quasi => { assert(x[0] != y[0]); },
                        FormulaId::Lorenz => {},
                        FormulaId::Karplus => {},
                        FormulaId::Noiselp => {},
                        FormulaId::Pinknoise => {},
                        FormulaId::Brownnoise => {},
                        FormulaId::Velvetnoise => {},
                        FormulaId::Rossler => {},
                        FormulaId::Shepard => {},
                        FormulaId::Bytebeat => {},
                        FormulaId::Bell => {},
                        FormulaId::Ocean => { assert(x[0] != y[0]); },
                        FormulaId::Risset => {},
                        FormulaId::Rain => {},
                    }
                }
                FormulaId::Additive => {
                    match b {
                        FormulaId::Fm => {},
                        FormulaId::Logistic => { assert(x[0] != y[0]); },
                        FormulaId::Gliss => {},
                        FormulaId::Additive => {},
                        FormulaId::Pm => {},
                        FormulaId::Beats => {},
                        FormulaId::Dist => {},
                        FormulaId::Quasi => {},
                        FormulaId::Lorenz => {},
                        FormulaId::Karplus => {},
                        FormulaId::Noiselp => {},
                        FormulaId::Pinknoise => {},
                        FormulaId::Brownnoise => {},
                        FormulaId::Velvetnoise => {},
                        FormulaId::Rossler => {},
                        FormulaId::Shepard => {},
                        FormulaId::Bytebeat => { assert(x[0] != y[0]); },
                        FormulaId::Bell => {},
                        FormulaId::Ocean => {},
                        FormulaId::Risset => {},
                        FormulaId::Rain => {},
                    }
                }
                FormulaId::Pm => {
                    match b {
                        FormulaId::Fm => { assert(x[0] != y[0]); },
                        FormulaId::Logistic => {},
                        FormulaId::Gliss => {},
                        FormulaId::Additive => {},
                        FormulaId::Pm => {},
                        FormulaId::Beats => {},
                        FormulaId::Dist => {},
                        FormulaId::Quasi => {},
                        FormulaId::Lorenz => {},
                        FormulaId::Karplus => {},
                        FormulaId::Noiselp => {},
                        FormulaId::Pinknoise => {},
                        FormulaId::Brownnoise => {},
                        FormulaId::Velvetnoise => {},
                        FormulaId::Rossler => {},
                        FormulaId::Shepard => {},
                        FormulaId::Bytebeat => {},
                        FormulaId::Bell => {},
                        FormulaId::Ocean => {},
                        FormulaId::Risset => {},
                        FormulaId::Rain => {},
                    }
                }
                FormulaId::Beats => {
                    match b {
                        FormulaId::Fm => {},
                        FormulaId::Logistic => {},
                        FormulaId::Gliss => { assert(x[0] != y[0]); },
                        FormulaId::Additive => {},
                        FormulaId::Pm => {},
                        FormulaId::Beats => {},
                        FormulaId::Dist => {},
                        FormulaId::Quasi => { assert(x[0] != y[0]); },
                        FormulaId::Lorenz => {},
                        FormulaId::Karplus => {},
                        FormulaId::Noiselp => {},
                        FormulaId::Pinknoise => {},
                        FormulaId::Brownnoise => {},
                        FormulaId::Velvetnoise => {},
                        FormulaId::Rossler => {},
                        FormulaId::Shepard => {},
                        FormulaId::Bytebeat => {},
                        FormulaId::Bell => {},
                        FormulaId::Ocean => { assert(x[0] != y[0]); },
                        FormulaId::Risset => {},
                        FormulaId::Rain => {},
                    }
                }
                FormulaId::Dist => {
                    match b {
                        FormulaId::Fm => {},
                        FormulaId::Logistic => {},
                        FormulaId::Gliss => {},
                        FormulaId::Additive => {},
                        FormulaId::Pm => {},
                        FormulaId::Beats => {},
                        FormulaId::Dist => {},
                        FormulaId::Quasi => {},
                        FormulaId::Lorenz => {},
                        FormulaId::Karplus => {},
                        FormulaId::Noiselp => {},
                        FormulaId::Pinknoise => {},
                        FormulaId::Brownnoise => {},
                        FormulaId::Velvetnoise => {},
                        FormulaId::Rossler => {},
                        FormulaId::Shepard => {},
                        FormulaId::Bytebeat => {},
                        FormulaId::Bell => { assert(x[0] != y[0]); },
                        FormulaId::Ocean => {},
                        FormulaId::Risset => {},
                        FormulaId::Rain => { assert(x[0] != y[0]); },
                    }
                }
                FormulaId::Quasi => {
                    match b {
                        FormulaId::Fm => {},
                        FormulaId::Logistic => {},
                        FormulaId::Gliss => { assert(x[0] != y[0]); },
                        FormulaId::Additive => {},
                        FormulaId::Pm => {},
                        FormulaId::Beats => { assert(x[0] != y[0]); },
                        FormulaId::Dist => {},
                        FormulaId::Quasi => {},
                        FormulaId::Lorenz => {},
                        FormulaId::Karplus => {},
                        FormulaId::Noiselp => {},
                        FormulaId::Pinknoise => {},
                        FormulaId::Brownnoise => {},
                        FormulaId::Velvetnoise => {},
                        FormulaId::Rossler => {},
                        FormulaId::Shepard => {},
                        FormulaId::Bytebeat => {},
                        FormulaId::Bell => {},
                        FormulaId::Ocean => { assert(x[0] != y[0]); },
                        FormulaId::Risset => {},
                        FormulaId::Rain => {},
                    }
                }
                FormulaId::Lorenz => {
                    match b {
                        FormulaId::Fm => {},
                        FormulaId::Logistic => {},
                        FormulaId::Gliss => {},
                        FormulaId::Additive => {},
                        FormulaId::Pm => {},
                        FormulaId::Beats => {},
                        FormulaId::Dist => {},
                        FormulaId::Quasi => {},
                        FormulaId::Lorenz => {},
                        FormulaId::Karplus => {},
                        FormulaId::Noiselp => {},
                        FormulaId::Pinknoise => {},
                        FormulaId::Brownnoise => {},
                        FormulaId::Velvetnoise => {},
                        FormulaId::Rossler => {},
                        FormulaId::Shepard => {},
                        FormulaId::Bytebeat => {},
                        FormulaId::Bell => {},
                        FormulaId::Ocean => {},
                        FormulaId::Risset => { assert(x[0] != y[0]); },
                        FormulaId::Rain => {},
                    }
                }
                FormulaId::Karplus => {
                    match b {
                        FormulaId::Fm => {},
                        FormulaId::Logistic => {},
                        FormulaId::Gliss => {},
                        FormulaId::Additive => {},
                        FormulaId::Pm => {},
                        FormulaId::Beats => {},
                        FormulaId::Dist => {},
                        FormulaId::Quasi => {},
                        FormulaId::Lorenz => {},
                        FormulaId::Karplus => {},
                        FormulaId::Noiselp => { assert(x[0] != y[0]); },
                        FormulaId::Pinknoise => {},
                        FormulaId::Brownnoise => {},
                        FormulaId::Velvetnoise => {},
                        FormulaId::Rossler => { assert(x[0] != y[0]); },
                        FormulaId::Shepard => { assert(x[0] != y[0]); },
                        FormulaId::Bytebeat => {},
                        FormulaId::Bell => {},
                        FormulaId::Ocean => {},
                        FormulaId::Risset => {},
                        FormulaId::Rain => {},
                    }
                }
                FormulaId::Noiselp => {
                    match b {
                        FormulaId::Fm => {},
                        FormulaId::Logistic => {},
                        FormulaId::Gliss => {},
                        FormulaId::Additive => {},
                        FormulaId::Pm => {},
                        FormulaId::Beats => {},
                        FormulaId::Dist => {},
                        FormulaId::Quasi => {},
                        FormulaId::Lorenz => {},
                        FormulaId::Karplus => { assert(x[0] != y[0]); },
                        FormulaId::Noiselp => {},
                        FormulaId::Pinknoise => {},
                        FormulaId::Brownnoise => {},
                        FormulaId::Velvetnoise => {},
                        FormulaId::Rossler => { assert(x[0] != y[0]); },
                        FormulaId::Shepard => { assert(x[0] != y[0]); },
                        FormulaId::Bytebeat => {},
                        FormulaId::Bell => {},
                        FormulaId::Ocean => {},
                        FormulaId::Risset => {},
                        FormulaId::Rain => {},
                    }
                }
                FormulaId::Pinknoise => {
                    match b {
                        FormulaId::Fm => {},
                        FormulaId::Logistic => {},
                        FormulaId::Gliss => {},
                        FormulaId::Additive => {},
                        FormulaId::Pm => {},
                        FormulaId::Beats => {},
                        FormulaId::Dist => {},
                        FormulaId::Quasi => {},
                        FormulaId::Lorenz => {},
                        FormulaId::Karplus => {},
                        FormulaId::Noiselp => {},
                        FormulaId::Pinknoise => {},
                        FormulaId::Brownnoise => {},
                        FormulaId::Velvetnoise => {},
                        FormulaId::Rossler => {},
                        FormulaId::Shepard => {},
                        FormulaId::Bytebeat => {},
                        FormulaId::Bell => {},
                        FormulaId::Ocean => {},
                        FormulaId::Risset => {},
                        FormulaId::Rain => {},
                    }
                }
                FormulaId::Brownnoise => {
                    match b {
                        FormulaId::Fm => {},
                        FormulaId::Logistic => {},
                        FormulaId::Gliss => {},
                        FormulaId::Additive => {},
                        FormulaId::Pm => {},
                        FormulaId::Beats => {},
                        FormulaId::Dist => {},
                        FormulaId::Quasi => {},
                        FormulaId::Lorenz => {},
                        FormulaId::Karplus => {},
                        FormulaId::Noiselp => {},
                        FormulaId::Pinknoise => {},
                        FormulaId::Brownnoise => {},
                        FormulaId::Velvetnoise => {},
                        FormulaId::Rossler => {},
                        FormulaId::Shepard => {},
                        FormulaId::Bytebeat => {},
                        FormulaId::Bell => {},
                        FormulaId::Ocean => {},
                        FormulaId::Risset => {},
                        FormulaId::Rain => {},
                    }
                }
                FormulaId::Velvetnoise => {
                    match b {
                        FormulaId::Fm => {},
                        FormulaId::Logistic => {},
                        FormulaId::Gliss => {},
                        FormulaId::Additive => {},
                        FormulaId::Pm => {},
                        FormulaId::Beats => {},
                        FormulaId::Dist => {},
                        FormulaId::Quasi => {},
                        FormulaId::Lorenz => {},
                        FormulaId::Karplus => {},
                        FormulaId::Noiselp => {},
                        FormulaId::Pinknoise => {},
                        FormulaId::Brownnoise => {},
                        FormulaId::Velvetnoise => {},
                        FormulaId::Rossler => {},
                        FormulaId::Shepard => {},
                        FormulaId::Bytebeat => {},
                        FormulaId::Bell => {},
                        FormulaId::Ocean => {},
                        FormulaId::Risset => {},
                        FormulaId::Rain => {},
                    }
                }
                FormulaId::Rossler => {
                    match b {
                        FormulaId::Fm => {},
                        FormulaId::Logistic => {},
                        FormulaId::Gliss => {},
                        FormulaId::Additive => {},
                        FormulaId::Pm => {},
                        FormulaId::Beats => {},
                        FormulaId::Dist => {},
                        FormulaId::Quasi => {},
                        FormulaId::Lorenz => {},
                        FormulaId::Karplus => { assert(x[0] != y[0]); },
                        FormulaId::Noiselp => { assert(x[0] != y[0]); },
                        FormulaId::Pinknoise => {},
                        FormulaId::Brownnoise => {},
                        FormulaId::Velvetnoise => {},
                        FormulaId::Rossler => {},
                        FormulaId::Shepard => { assert(x[0] != y[0]); },
                        FormulaId::Bytebeat => {},
                        FormulaId::Bell => {},
                        FormulaId::Ocean => {},
                        FormulaId::Risset => {},
                        FormulaId::Rain => {},
                    }
                }
                FormulaId::Shepard => {
                    match b {
                        FormulaId::Fm => {},
                        FormulaId::Logistic => {},
                        FormulaId::Gliss => {},
                        FormulaId::Additive => {},
                        FormulaId::Pm => {},
                        FormulaId::Beats => {},
                        FormulaId::Dist => {},
                        FormulaId::Quasi => {},
                        FormulaId::Lorenz => {},
                        FormulaId::Karplus => { assert(x[0] != y[0]); },
                        FormulaId::Noiselp => { assert(x[0] != y[0]); },
                        FormulaId::Pinknoise => {},
                        FormulaId::Brownnoise => {},
                        FormulaId::Velvetnoise => {},
                        FormulaId::Rossler => { assert(x[0] != y[0]); },
                        FormulaId::Shepard => {},
                        FormulaId::Bytebeat => {},
                        FormulaId::Bell => {},
                        FormulaId::Ocean => {},
                        FormulaId::Risset => {},
                        FormulaId::Rain => {},
                    }
                }
                FormulaId::Bytebeat => {
                    match b {
                        FormulaId::Fm => {},
                        FormulaId::Logistic => { assert(x[0] != y[0]); },
                        FormulaId::Gliss => {},
                        FormulaId::Additive => { assert(x[0] != y[0]); },
                        FormulaId::Pm => {},
                        FormulaId::Beats => {},
                        FormulaId::Dist => {},
                        FormulaId::Quasi => {},
                        FormulaId::Lorenz => {},
                        FormulaId::Karplus => {},
                        FormulaId::Noiselp => {},
                        FormulaId::Pinknoise => {},
                        FormulaId::Brownnoise => {},
                        FormulaId::Velvetnoise => {},
                        FormulaId::Rossler => {},
                        FormulaId::Shepard => {},
                        FormulaId::Bytebeat => {},
                        FormulaId::Bell => {},
                        FormulaId::Ocean => {},
                        FormulaId::Risset => {},
                        FormulaId::Rain => {},
                    }
                }
                FormulaId::Bell => {
                    match b {
                        FormulaId::Fm => {},
                        FormulaId::Logistic => {},
                        FormulaId::Gliss => {},
                        FormulaId::Additive => {},
                        FormulaId::Pm => {},
                        FormulaId::Beats => {},
                        FormulaId::Dist => { assert(x[0] != y[0]); },
                        FormulaId::Quasi => {},
                        FormulaId::Lorenz => {},
                        FormulaId::Karplus => {},
                        FormulaId::Noiselp => {},
                        FormulaId::Pinknoise => {},
                        FormulaId::Brownnoise => {},
                        FormulaId::Velvetnoise => {},
                        FormulaId::Rossler => {},
                        FormulaId::Shepard => {},
                        FormulaId::Bytebeat => {},
                        FormulaId::Bell => {},
                        FormulaId::Ocean => {},
                        FormulaId::Risset => {},
                        FormulaId::Rain => { assert(x[0] != y[0]); },
                    }
                }
                FormulaId::Ocean => {
                    match b {
                        FormulaId::Fm => {},
                        FormulaId::Logistic => {},
                        FormulaId::Gliss => { assert(x[0] != y[0]); },
                        FormulaId::Additive => {},
                        FormulaId::Pm => {},
                        FormulaId::Beats => { assert(x[0] != y[0]); },
                        FormulaId::Dist => {},
                        FormulaId::Quasi => { assert(x[0] != y[0]); },
                        FormulaId::Lorenz => {},
                        FormulaId::Karplus => {},
                        FormulaId::Noiselp => {},
                        FormulaId::Pinknoise => {},
                        FormulaId::Brownnoise => {},
                        FormulaId::Velvetnoise => {},
                        FormulaId::Rossler => {},
                        FormulaId::Shepard => {},
                        FormulaId::Bytebeat => {},
                        FormulaId::Bell => {},
                        FormulaId::Ocean => {},
                        FormulaId::Risset => {},
                        FormulaId::Rain => {},
                    }
                }
                FormulaId::Risset => {
                    match b {
                        FormulaId::Fm => {},
                        FormulaId::Logistic => {},
                        FormulaId::Gliss => {},
                        FormulaId::Additive => {},
                        FormulaId::Pm => {},
                        FormulaId::Beats => {},
                        FormulaId::Dist => {},
                        FormulaId::Quasi => {},
                        FormulaId::Lorenz => { assert(x[0] != y[0]); },
                        FormulaId::Karplus => {},
                        FormulaId::Noiselp => {},
                        FormulaId::Pinknoise => {},
                        FormulaId::Brownnoise => {},
                        FormulaId::Velvetnoise => {},
                        FormulaId::Rossler => {},
                        FormulaId::Shepard => {},
                        FormulaId::Bytebeat => {},
                        FormulaId::Bell => {},
                        FormulaId::Ocean => {},
                        FormulaId::Risset => {},
                        FormulaId::Rain => {},
                    }
                }
                FormulaId::Rain => {
                    match b {
                        FormulaId::Fm => {},
                        FormulaId::Logistic => {},
                        FormulaId::Gliss => {},
                        FormulaId::Additive => {},
                        FormulaId::Pm => {},
                        FormulaId::Beats => {},
                        FormulaId::Dist => { assert(x[0] != y[0]); },
                        FormulaId::Quasi => {},
                        FormulaId::Lorenz => {},
                        FormulaId::Karplus => {},
                        FormulaId::Noiselp => {},
                        FormulaId::Pinknoise => {},
                        FormulaId::Brownnoise => {},
                        FormulaId::Velvetnoise => {},
                        FormulaId::Rossler => {},
                        FormulaId::Shepard => {},
                        FormulaId::Bytebeat => {},
                        FormulaId::Bell => { assert(x[0] != y[0]); },
                        FormulaId::Ocean => {},
                        FormulaId::Risset => {},
                        FormulaId::Rain => {},
                    }
                }
            }
        }
    }
}

/// Every name parses back to the formula it names.
pub proof fn lemma_formula_name_round_trip(id: FormulaId)
    ensures
        formula_of_name(formula_name(id)) == Some(id),
{
    let s = formula_name(id);
    assert(formula_name(id) == s);
    let c = choose|k: FormulaId| formula_name(k) == s;
    lemma_formula_name_injective(c, id);
}

/// How many bytebeat recipes there are.
pub const BYTEBEAT_RECIPES: usize = 5;

/// The bytebeat counter stays below this for the integer recipes to agree
/// with the same recipes computed on doubles: below it every product is
/// under 2^53 and therefore exact.
pub const BYTEBEAT_EXACT_LIMIT: u64 = 0x2000_0000;

/// `x | 0` of a non-negative integer below 2^64: its low 32 bits, as int32.
pub open spec fn js_i32(x: int) -> i32 {
    (x as u32) as i32
}

/// The five classic bytebeat recipes at integer time `t`, taken mod 256.
pub open spec fn bytebeat_spec(recipe: usize, t: u64) -> i32 {
    let ti = t;
    if recipe == 0 {
        js_i32(((ti >> 10u64) & 42u64) * t) & 255i32
    } else if recipe == 1 {
        js_i32(t * (((ti >> 12u64) | (ti >> 8u64)) & 63u64 & (ti >> 4u64))) & 255i32
    } else if recipe == 2 {
        let prod = t * ((ti >> 5u64) | (ti >> 8u64));
        (js_i32(prod) >> ((ti >> 16u64) & 31u64) as i32) & 255i32
    } else if recipe == 3 {
        let a = js_i32(t * 5) & ((ti >> 7u64) as i32);
        let b = js_i32(t * 3) & (js_i32(t * 4) >> 10i32);
        (a | b) & 255i32
    } else {
        let a = ((ti >> 7u64) | ti | (ti >> 6u64)) * 10;
        let b = 4 * ((ti & (ti >> 13u64)) | (ti >> 6u64));
        js_i32(a + b) & 255i32
    }
}

/// The low byte of an int32, `x & 255`.
fn low_byte(v: i32) -> (r: i32)
    ensures
        r == v & 255i32,
        0 <= r < 256,
{
    assert(0 <= v & 255i32 < 256) by (bit_vector);
    v & 255
}

/// `x | 0` of a non-negative integer: its low 32 bits, as int32.
fn to_js_i32(x: u64) -> (r: i32)
    ensures
        r == js_i32(x as int),
{
    let lo: u32 = #[verifier::truncate] (x as u32);
    #[verifier::truncate] (lo as i32)
}

/// The low byte of a 64-bit value, read through int32 as the recipes do,
/// is the value mod 256.
proof fn lemma_js_low_byte(x: u64)
    ensures
        js_i32(x as int) & 255i32 == (x % 256) as i32,
{
    assert(((x as u32) as i32) & 255i32 == ((x & 255u64) as i32)) by (bit_vector);
    assert(x & 255u64 == x % 256) by (bit_vector);
}

/// Recipe 0 is the classic `((t >> 10) & 42) * t`, mod 256.
pub proof fn lemma_bytebeat_recipe_0(t: u64)
    requires
        t < BYTEBEAT_EXACT_LIMIT,
    ensures
        bytebeat_spec(0, t) as int == (((t >> 10u64) & 42u64) as int * t as int) % 256,
{
    let m = (t >> 10u64) & 42u64;
    assert(m <= 42) by (bit_vector)
        requires
            m == (t >> 10u64) & 42u64;
    assert(m * t <= 42 * 0x2000_0000) by (nonlinear_arith)
        requires
            m <= 42,
            t < 0x2000_0000;
    let x = (m * t) as u64;
    lemma_js_low_byte(x);
}

/// Recipe 1 is `t * (((t >> 12) | (t >> 8)) & 63 & (t >> 4))`, mod 256.
pub proof fn lemma_bytebeat_recipe_1(t: u64)
    requires
        t < BYTEBEAT_EXACT_LIMIT,
    ensures
        bytebeat_spec(1, t) as int == (t as int * (((t >> 12u64) | (t >> 8u64)) & 63u64 & (t >> 4u64)) as int)
            % 256,
{
    let m = ((t >> 12u64) | (t >> 8u64)) & 63u64 & (t >> 4u64);
    assert(m <= 63) by (bit_vector)
        requires
            m == ((t >> 12u64) | (t >> 8u64)) & 63u64 & (t >> 4u64);
    assert(t * m <= 63 * 0x2000_0000) by (nonlinear_arith)
        requires
            m <= 63,
            t < 0x2000_0000;
    lemma_js_low_byte((t * m) as u64);
}

/// Recipe 2 is `t * ((t >> 5) | (t >> 8))` taken to int32 (its low 32 bits,
/// sign-extended), shifted right by `(t >> 16) & 31`, mod 256.
pub proof fn lemma_bytebeat_recipe_2(t: u64)
    requires
        t < BYTEBEAT_EXACT_LIMIT,
    ensures
        ({
            let p = (t as int * ((t >> 5u64) | (t >> 8u64)) as int) % 0x1_0000_0000;
            let wide = if p >= 0x8000_0000 { p + 0xffff_ffff_0000_0000 } else { p };
            bytebeat_spec(2, t) as int == ((wide as u64) >> ((t >> 16u64) & 31u64)) as int % 256
        }),
{
    let m = (t >> 5u64) | (t >> 8u64);
    assert(m <= t) by (bit_vector)
        requires
            m == (t >> 5u64) | (t >> 8u64);
    assert(t * m <= 0x2000_0000 * 0x2000_0000) by (nonlinear_arith)
        requires
            m <= t,
            t < 0x2000_0000;
    let x = (t * m) as u64;
    let sh = (t >> 16u64) & 31u64;
    assert(sh < 32) by (bit_vector)
        requires
            sh == (t >> 16u64) & 31u64;
    let p = (x % 0x1_0000_0000) as u64;
    let wide: u64 = if p >= 0x8000_0000 { (p + 0xffff_ffff_0000_0000) as u64 } else { p };
    assert(x % 0x1_0000_0000 < 0x1_0000_0000);
    let j = (x as u32) as i32;
    assert(j >> (sh as i32) == j >> (sh as u32));
    assert((((x as u32) as i32) >> (sh as u32)) & 255i32 == ((wide >> sh) & 255u64) as i32) by (bit_vector)
        requires
            sh < 32,
            p == x % 0x1_0000_0000,
            wide == if p >= 0x8000_0000 { (p + 0xffff_ffff_0000_0000) as u64 } else { p };
    assert((wide >> sh) & 255u64 == (wide >> sh) % 256) by (bit_vector);
}

/// Recipe 3 is `((5t) & (t >> 7)) | ((3t) & ((4t) >> 10))`, mod 256.
pub proof fn lemma_bytebeat_recipe_3(t: u64)
    requires
        t < BYTEBEAT_EXACT_LIMIT,
    ensures
        bytebeat_spec(3, t) as int == (((t * 5) as u64 & (t >> 7u64)) | ((t * 3) as u64 & ((t * 4) as u64 >> 10u64)))
            as int % 256,
{
    let t5 = (t * 5) as u64;
    let t3 = (t * 3) as u64;
    let t4 = (t * 4) as u64;
    assert((((t5 as u32) as i32) & ((t >> 7u64) as i32) | (((t3 as u32) as i32) & (((t4 as u32) as i32) >> 10i32))) & 255i32
        == (((t5 & (t >> 7u64)) | (t3 & (t4 >> 10u64))) & 255u64) as i32) by (bit_vector)
        requires
            t < 0x2000_0000,
            t5 == t * 5,
            t3 == t * 3,
            t4 == t * 4;
    let v = (t5 & (t >> 7u64)) | (t3 & (t4 >> 10u64));
    assert(v & 255u64 == v % 256) by (bit_vector);
}

/// Recipe 4 (and every one above it) is
/// `((t >> 7) | t | (t >> 6)) * 10 + 4 * ((t & (t >> 13)) | (t >> 6))`, mod 256.
pub proof fn lemma_bytebeat_recipe_4(recipe: usize, t: u64)
    requires
        recipe >= 4,
        t < BYTEBEAT_EXACT_LIMIT,
    ensures
        bytebeat_spec(recipe, t) as int == (((t >> 7u64) | t | (t >> 6u64)) as int * 10 + 4 * ((t & (t
            >> 13u64)) | (t >> 6u64)) as int) % 256,
{
    let o = (t >> 7u64) | t | (t >> 6u64);
    let n = (t & (t >> 13u64)) | (t >> 6u64);
    assert(o <= 0x3fff_ffff && n <= 0x3fff_ffff) by (bit_vector)
        requires
            t < 0x2000_0000,
            o == (t >> 7u64) | t | (t >> 6u64),
            n == (t & (t >> 13u64)) | (t >> 6u64);
    lemma_js_low_byte((o * 10 + 4 * n) as u64);
}

/// One bytebeat byte: recipe `recipe` (0-based; 4 and above all play the
/// last one) at integer time `t`.
pub fn bytebeat(recipe: usize, t: u64) -> (r: i32)
    requires
        t < BYTEBEAT_EXACT_LIMIT,
    ensures
        r == bytebeat_spec(recipe, t),
        0 <= r < 256,
        recipe == 0 ==> r as int == (((t >> 10u64) & 42u64) as int * t as int) % 256,
        recipe == 1 ==> r as int == (t as int * (((t >> 12u64) | (t >> 8u64)) & 63u64 & (t >> 4u64)) as int)
            % 256,
        recipe >= 4 ==> r as int == (((t >> 7u64) | t | (t >> 6u64)) as int * 10 + 4 * ((t & (t
            >> 13u64)) | (t >> 6u64)) as int) % 256,
{
    proof {
        if recipe == 0 {
            lemma_bytebeat_recipe_0(t);
        } else if recipe == 1 {
            lemma_bytebeat_recipe_1(t);
        } else if recipe >= 4 {
            lemma_bytebeat_recipe_4(recipe, t);
        }
    }
    let ti = t;
    if recipe == 0 {
        let m = (ti >> 10) & 42;
        assert(m <= 42) by (bit_vector)
            requires m == (ti >> 10) & 42;
        assert(m * t <= 42 * 0x2000_0000) by (nonlinear_arith)
            requires m <= 42, t < 0x2000_0000;
        low_byte(to_js_i32(m * t))
    } else if recipe == 1 {
        let m = ((ti >> 12) | (ti >> 8)) & 63 & (ti >> 4);
        assert(m <= 63) by (bit_vector)
            requires m == ((ti >> 12) | (ti >> 8)) & 63 & (ti >> 4);
        assert(t * m <= 63 * 0x2000_0000) by (nonlinear_arith)
            requires m <= 63, t < 0x2000_0000;
        low_byte(to_js_i32(t * m))
    } else if recipe == 2 {
        let m = (ti >> 5) | (ti >> 8);
        assert(m <= ti) by (bit_vector)
            requires m == (ti >> 5) | (ti >> 8);
        assert(t * m <= 0x2000_0000 * 0x2000_0000) by (nonlinear_arith)
            requires m <= t, t < 0x2000_0000;
        let prod = t * m;
        let shv = (ti >> 16) & 31;
        assert(shv < 32) by (bit_vector)
            requires shv == (ti >> 16) & 31;
        let sh = shv as i32;
        low_byte(to_js_i32(prod) >> sh)
    } else if recipe == 3 {
        let a = to_js_i32(t * 5) & ((ti >> 7) as i32);
        let b = to_js_i32(t * 3) & (to_js_i32(t * 4) >> 10);
        low_byte(a | b)
    } else {
        let o = (ti >> 7) | ti | (ti >> 6);
        let n = (ti & (ti >> 13)) | (ti >> 6);
        assert(o <= 0x3fff_ffff && n <= 0x3fff_ffff) by (bit_vector)
            requires
                ti < 0x2000_0000,
                o == (ti >> 7) | ti | (ti >> 6),
                n == (ti & (ti >> 13)) | (ti >> 6);
        let a = o * 10;
        let b = 4 * n;
        low_byte(to_js_i32(a + b))
    }
}

} // verus!
