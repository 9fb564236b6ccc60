//! The index tables over the gene list: where a gene id sits, which genes are
//! continuous, which are card toggles, which gene gates which. Gene order is
//! what share links depend on, so every table is a pure function of the list.

use vstd::prelude::*;
use crate::schema::{texts, GeneKind, GeneMeta, ModTarget};
use crate::text::{decimal_string, decimal_text, join3, match_at, occurs_at, str_eq, starts_with, to_chars};

verus! {

/// Whether some gene of the list has id `id`.
pub open spec fn has_gene(genes: Seq<GeneMeta>, id: Seq<char>) -> bool {
    exists|j: int| 0 <= j < genes.len() && #[trigger] genes[j].id@ == id
}

/// Whether `i` is where the list maps `id`: the last gene with that id (the
/// table is built by inserting the genes in order, so a later one wins).
pub open spec fn names_gene_at(genes: Seq<GeneMeta>, id: Seq<char>, i: int) -> bool {
    &&& 0 <= i < genes.len()
    &&& genes[i].id@ == id
    &&& forall|j: int| i < j < genes.len() ==> #[trigger] genes[j].id@ != id
}

/// An id maps to one position only.
pub proof fn lemma_names_gene_unique(genes: Seq<GeneMeta>, id: Seq<char>, i: int, k: int)
    requires
        names_gene_at(genes, id, i),
        names_gene_at(genes, id, k),
    ensures
        i == k,
{
    if i < k {
        assert(genes[k].id@ != id);
    }
    if k < i {
        assert(genes[i].id@ != id);
    }
}

/// No two genes of the list share an id.
pub open spec fn ids_unique(genes: Seq<GeneMeta>) -> bool {
    forall|i: int, j: int| 0 <= i < j < genes.len() ==> #[trigger] genes[i].id@ != #[trigger] genes[j].id@
}

/// With unique ids, every gene's id leads back to its own position: the
/// table inverts the gene order that share links depend on.
pub proof fn lemma_index_of_own_id(genes: Seq<GeneMeta>, i: int)
    requires
        ids_unique(genes),
        0 <= i < genes.len(),
    ensures
        has_gene(genes, genes[i].id@),
        names_gene_at(genes, genes[i].id@, i),
{
    assert forall|j: int| i < j < genes.len() implies #[trigger] genes[j].id@ != genes[i].id@ by {
        assert(genes[i].id@ != genes[j].id@);
    }
}

/// How many genes a genome holds.
pub fn genome_length(genes: &Vec<GeneMeta>) -> (r: usize)
    ensures
        r == genes@.len(),
{
    genes.len()
}

/// The position of gene `id`, if the list has it.
pub fn gene_index_of(genes: &Vec<GeneMeta>, id: &str) -> (r: Option<usize>)
    ensures
        match r {
            Some(i) => names_gene_at(genes@, id@, i as int),
            None => !has_gene(genes@, id@),
        },
{
    let mut i: usize = genes.len();
    while i > 0
        invariant
            i <= genes@.len(),
            forall|j: int| i <= j < genes@.len() ==> #[trigger] genes@[j].id@ != id@,
        decreases i,
    {
        i = i - 1;
        if str_eq(genes[i].id.as_str(), id) {
            return Some(i);
        }
    }
    None
}

/// The position of gene `id`, which the list must have.
pub fn gene_index(genes: &Vec<GeneMeta>, id: &str) -> (r: usize)
    requires
        has_gene(genes@, id@),
    ensures
        names_gene_at(genes@, id@, r as int),
{
    match gene_index_of(genes, id) {
        Some(i) => i,
        None => {
            proof {
                assert(false);
            }
            0
        },
    }
}

/// Whether target `i` is the first one aiming at `param` of `target`.
pub open spec fn is_first_target(targets: Seq<ModTarget>, target: Seq<char>, param: Seq<char>, i: int) -> bool {
    &&& 0 <= i < targets.len()
    &&& targets[i].target@ == target && targets[i].param@ == param
    &&& forall|j: int| 0 <= j < i ==> !(#[trigger] targets[j].target@ == target && targets[j].param@ == param)
}

/// The position of the modulation target for `param` of `target`.
pub fn mod_target_index(targets: &Vec<ModTarget>, target: &str, param: &str) -> (r: Option<usize>)
    ensures
        match r {
            Some(i) => is_first_target(targets@, target@, param@, i as int),
            None => forall|j: int| 0 <= j < targets@.len() ==> !(#[trigger] targets@[j].target@ == target@
                && targets@[j].param@ == param@),
        },
{
    let mut i: usize = 0;
    while i < targets.len()
        invariant
            i <= targets@.len(),
            forall|j: int| 0 <= j < i ==> !(#[trigger] targets@[j].target@ == target@ && targets@[j].param@ == param@),
        decreases targets@.len() - i,
    {
        if str_eq(targets[i].target.as_str(), target) && str_eq(targets[i].param.as_str(), param) {
            return Some(i);
        }
        i = i + 1;
    }
    None
}

/// Whether a card is shown whatever its toggle says (it has no `on` gene).
pub fn always_on(always_on_ids: &Vec<String>, card: &str) -> (r: bool)
    ensures
        r == exists|j: int| 0 <= j < always_on_ids@.len() && #[trigger] always_on_ids@[j]@ == card@,
{
    let mut i: usize = 0;
    while i < always_on_ids.len()
        invariant
            i <= always_on_ids@.len(),
            forall|j: int| 0 <= j < i ==> #[trigger] always_on_ids@[j]@ != card@,
        decreases always_on_ids@.len() - i,
    {
        if str_eq(always_on_ids[i].as_str(), card) {
            return true;
        }
        i = i + 1;
    }
    false
}

/// Whether `v` is one of the options.
pub open spec fn is_option(list: Seq<Seq<char>>, v: Seq<char>) -> bool {
    exists|j: int| 0 <= j < list.len() && #[trigger] list[j] == v
}

/// Whether `i` is the first position of `v` among the options.
pub open spec fn first_option_at(list: Seq<Seq<char>>, v: Seq<char>, i: int) -> bool {
    &&& 0 <= i < list.len()
    &&& list[i] == v
    &&& forall|j: int| 0 <= j < i ==> #[trigger] list[j] != v
}

/// The index a choice gene stores for `v`: its first position among the
/// options, or 0 when it is none of them.
pub open spec fn choice_spec(list: Seq<Seq<char>>, v: Seq<char>) -> int {
    if is_option(list, v) {
        choose|i: int| first_option_at(list, v, i)
    } else {
        0
    }
}

/// The option index `i` picks: the option at `i`, the first one past the
/// end, empty text for an empty list.
pub open spec fn option_text(list: Seq<Seq<char>>, i: int) -> Seq<char> {
    if 0 <= i < list.len() {
        list[i]
    } else if list.len() > 0 {
        list[0]
    } else {
        Seq::empty()
    }
}

proof fn lemma_first_option_exists(list: Seq<Seq<char>>, v: Seq<char>, j: int) -> (f: int)
    requires
        0 <= j < list.len(),
        list[j] == v,
    ensures
        first_option_at(list, v, f),
    decreases j,
{
    if exists|k: int| 0 <= k < j && #[trigger] list[k] == v {
        let k = choose|k: int| 0 <= k < j && #[trigger] list[k] == v;
        lemma_first_option_exists(list, v, k)
    } else {
        j
    }
}

proof fn lemma_choice_spec_is(list: Seq<Seq<char>>, v: Seq<char>, i: int)
    requires
        first_option_at(list, v, i),
    ensures
        choice_spec(list, v) == i,
{
    let c = choose|k: int| first_option_at(list, v, k);
    assert(first_option_at(list, v, c));
    if c < i {
        assert(list[c] != v);
    }
    if i < c {
        assert(list[i] != v);
    }
}

/// A choice gene written for one of the options reads back as that option;
/// one written for anything else reads back as the first option.
pub proof fn lemma_choice_reads_back(list: Seq<Seq<char>>, v: Seq<char>)
    ensures
        is_option(list, v) ==> option_text(list, choice_spec(list, v)) == v,
        !is_option(list, v) && list.len() > 0 ==> option_text(list, choice_spec(list, v)) == list[0],
{
    if is_option(list, v) {
        let j = choose|j: int| 0 <= j < list.len() && #[trigger] list[j] == v;
        let f = lemma_first_option_exists(list, v, j);
        lemma_choice_spec_is(list, v, f);
    }
}

/// The index a choice gene stores for `v`: its first position in the
/// option list, or 0 when the list lacks it.
pub fn choice_index(list: &Vec<String>, v: &str) -> (r: usize)
    ensures
        r as int == choice_spec(texts(list@), v@),
{
    let ghost l = texts(list@);
    let mut i: usize = 0;
    while i < list.len()
        invariant
            l == texts(list@),
            i <= list@.len(),
            forall|j: int| 0 <= j < i ==> #[trigger] l[j] != v@,
        decreases list@.len() - i,
    {
        if str_eq(list[i].as_str(), v) {
            proof {
                assert(l[i as int] == v@);
                lemma_choice_spec_is(l, v@, i as int);
            }
            return i;
        }
        i = i + 1;
    }
    proof {
        if is_option(l, v@) {
            let j = choose|j: int| 0 <= j < l.len() && #[trigger] l[j] == v@;
            assert(l[j] != v@);
        }
    }
    0
}

/// The positions, in order, of the first `n` genes that are continuous.
pub open spec fn cont_positions(genes: Seq<GeneMeta>, n: int) -> Seq<usize>
    decreases n,
{
    if n <= 0 {
        seq![]
    } else if genes[n - 1].kind == GeneKind::Cont {
        cont_positions(genes, n - 1).push((n - 1) as usize)
    } else {
        cont_positions(genes, n - 1)
    }
}

/// The continuous genes: the ones a gaussian step moves.
pub fn cont_idx(genes: &Vec<GeneMeta>) -> (r: Vec<usize>)
    requires
        genes@.len() <= usize::MAX,
    ensures
        r@ == cont_positions(genes@, genes@.len() as int),
{
    let mut out: Vec<usize> = Vec::new();
    let mut i: usize = 0;
    while i < genes.len()
        invariant
            i <= genes@.len(),
            out@ == cont_positions(genes@, i as int),
        decreases genes@.len() - i,
    {
        if genes[i].kind == GeneKind::Cont {
            out.push(i);
        }
        i = i + 1;
    }
    out
}

/// Whether a gene switches a visual card on and off.
pub open spec fn is_card_toggle(g: GeneMeta) -> bool {
    g.kind == GeneKind::Bool && starts_with(g.group@, seq!['v', '.'])
}

/// The positions, in order, of the card toggles among the first `n` genes.
pub open spec fn toggle_positions(genes: Seq<GeneMeta>, n: int) -> Seq<usize>
    decreases n,
{
    if n <= 0 {
        seq![]
    } else if is_card_toggle(genes[n - 1]) {
        toggle_positions(genes, n - 1).push((n - 1) as usize)
    } else {
        toggle_positions(genes, n - 1)
    }
}

/// The card toggles: bool genes of a `v.` family.
pub fn card_toggles(genes: &Vec<GeneMeta>) -> (r: Vec<usize>)
    ensures
        r@ == toggle_positions(genes@, genes@.len() as int),
{
    let prefix: Vec<char> = vec!['v', '.'];
    let mut out: Vec<usize> = Vec::new();
    let mut i: usize = 0;
    while i < genes.len()
        invariant
            i <= genes@.len(),
            prefix@ == seq!['v', '.'],
            out@ == toggle_positions(genes@, i as int),
        decreases genes@.len() - i,
    {
        if genes[i].kind == GeneKind::Bool {
            let group = to_chars(genes[i].group.as_str());
            if match_at(group.as_slice(), prefix.as_slice(), 0) {
                out.push(i);
            }
        }
        i = i + 1;
    }
    out
}

/// Every gate named in the list is a gene of the list.
pub open spec fn gates_resolve(genes: Seq<GeneMeta>) -> bool {
    forall|i: int| 0 <= i < genes.len() && (#[trigger] genes[i].active_if) is Some
        ==> has_gene(genes, genes[i].active_if->0@)
}

/// Whether `e` is right for gene `i`: nothing for an ungated gene, else the position of its gate.
pub open spec fn gate_entry_ok(genes: Seq<GeneMeta>, i: int, e: Option<usize>) -> bool {
    match genes[i].active_if {
        None => e is None,
        Some(gate) => e matches Some(p) && names_gene_at(genes, gate@, p as int),
    }
}

/// For each gene, the position of the gene that gates it.
pub fn gate_idx(genes: &Vec<GeneMeta>) -> (r: Vec<Option<usize>>)
    requires
        gates_resolve(genes@),
    ensures
        r@.len() == genes@.len(),
        forall|i: int| 0 <= i < genes@.len() ==> gate_entry_ok(genes@, i, #[trigger] r@[i]),
{
    let mut out: Vec<Option<usize>> = Vec::new();
    let mut i: usize = 0;
    while i < genes.len()
        invariant
            i <= genes@.len(),
            gates_resolve(genes@),
            out@.len() == i,
            forall|j: int| 0 <= j < i ==> gate_entry_ok(genes@, j, #[trigger] out@[j]),
        decreases genes@.len() - i,
    {
        let e = match &genes[i].active_if {
            None => None,
            Some(gate) => {
                proof {
                    assert(genes@[i as int].active_if is Some);
                }
                Some(gene_index(genes, gate.as_str()))
            },
        };
        out.push(e);
        i = i + 1;
    }
    out
}

/// Whether gene `p` gates some gene of the list.
pub open spec fn gates_something(genes: Seq<GeneMeta>, p: int) -> bool {
    exists|j: int|
        0 <= j < genes.len() && (#[trigger] genes[j].active_if) is Some && names_gene_at(
            genes,
            genes[j].active_if->0@,
            p,
        )
}

/// For each gene, whether another gene's `active_if` names it.
pub fn is_gate(genes: &Vec<GeneMeta>) -> (r: Vec<bool>)
    requires
        gates_resolve(genes@),
    ensures
        r@.len() == genes@.len(),
        forall|p: int| 0 <= p < genes@.len() ==> (#[trigger] r@[p] <==> gates_something(genes@, p)),
{
    let gates = gate_idx(genes);
    let n = genes.len();
    let mut out: Vec<bool> = Vec::new();
    let mut i: usize = 0;
    while i < n
        invariant
            n == genes@.len(),
            i <= n,
            out@.len() == i,
            forall|p: int| 0 <= p < i ==> !(#[trigger] out@[p]),
        decreases n - i,
    {
        out.push(false);
        i = i + 1;
    }
    let mut k: usize = 0;
    while k < n
        invariant
            n == genes@.len(),
            k <= n,
            gates@.len() == n,
            out@.len() == n,
            forall|i: int| 0 <= i < n ==> gate_entry_ok(genes@, i, #[trigger] gates@[i]),
            forall|p: int|
                0 <= p < n ==> (#[trigger] out@[p] <==> exists|j: int| 0 <= j < k && gates@[j] == Some(p as usize)),
        decreases n - k,
    {
        let e = gates[k];
        match e {
            Some(p) => {
                proof {
                    assert(gate_entry_ok(genes@, k as int, gates@[k as int]));
                }
                out.set(p, true);
                proof {
                    assert forall|q: int| 0 <= q < n implies (#[trigger] out@[q] <==> exists|j: int|
                        0 <= j < k + 1 && gates@[j] == Some(q as usize)) by {
                        if q == p as int {
                            assert(gates@[k as int] == Some(q as usize));
                        } else {
                            if exists|j: int| 0 <= j < k + 1 && gates@[j] == Some(q as usize) {
                                let j = choose|j: int| 0 <= j < k + 1 && gates@[j] == Some(q as usize);
                                assert(j != k);
                            }
                        }
                    }
                }
            },
            None => {
                proof {
                    assert forall|q: int| 0 <= q < n implies (#[trigger] out@[q] <==> exists|j: int|
                        0 <= j < k + 1 && gates@[j] == Some(q as usize)) by {
                        if exists|j: int| 0 <= j < k + 1 && gates@[j] == Some(q as usize) {
                            let j = choose|j: int| 0 <= j < k + 1 && gates@[j] == Some(q as usize);
                            assert(j != k);
                        }
                    }
                }
            },
        }
        k = k + 1;
    }
    proof {
        assert forall|p: int| 0 <= p < n implies (#[trigger] out@[p] <==> gates_something(genes@, p)) by {
            if out@[p] {
                let j = choose|j: int| 0 <= j < n && gates@[j] == Some(p as usize);
                assert(gate_entry_ok(genes@, j, gates@[j]));
                assert(genes@[j].active_if is Some);
            }
            if gates_something(genes@, p) {
                let j = choose|j: int|
                    0 <= j < genes@.len() && (#[trigger] genes@[j].active_if) is Some
                        && names_gene_at(genes@, genes@[j].active_if->0@, p);
                assert(gate_entry_ok(genes@, j, gates@[j]));
                let gate = genes@[j].active_if->0;
                let q = gates@[j]->0;
                lemma_names_gene_unique(genes@, gate@, p, q as int);
                assert(gates@[j] == Some(p as usize));
            }
        }
    }
    out
}

/// The positions of the genes named `prefix + key + suffix`, one per key.
pub open spec fn keyed_positions_ok(
    genes: Seq<GeneMeta>,
    prefix: Seq<char>,
    keys: Seq<Seq<char>>,
    suffix: Seq<char>,
    r: Seq<usize>,
) -> bool {
    &&& r.len() == keys.len()
    &&& forall|k: int| 0 <= k < keys.len() ==> names_gene_at(genes, prefix + keys[k] + suffix, #[trigger] r[k] as int)
}

/// Every id `prefix + key + suffix` is a gene of the list.
pub open spec fn keyed_genes_exist(genes: Seq<GeneMeta>, prefix: Seq<char>, keys: Seq<Seq<char>>, suffix: Seq<char>) -> bool {
    forall|k: int| 0 <= k < keys.len() ==> has_gene(genes, prefix + #[trigger] keys[k] + suffix)
}

fn keyed_indices(genes: &Vec<GeneMeta>, prefix: &str, keys: &Vec<String>, suffix: &str) -> (r: Vec<usize>)
    requires
        keyed_genes_exist(genes@, prefix@, crate::schema::texts(keys@), suffix@),
    ensures
        keyed_positions_ok(genes@, prefix@, crate::schema::texts(keys@), suffix@, r@),
{
    let ghost ks = crate::schema::texts(keys@);
    let mut out: Vec<usize> = Vec::new();
    let mut k: usize = 0;
    while k < keys.len()
        invariant
            ks == crate::schema::texts(keys@),
            keyed_genes_exist(genes@, prefix@, ks, suffix@),
            k <= keys@.len(),
            out@.len() == k,
            forall|j: int| 0 <= j < k ==> names_gene_at(genes@, prefix@ + ks[j] + suffix@, #[trigger] out@[j] as int),
        decreases keys@.len() - k,
    {
        let id = join3(prefix, keys[k].as_str(), suffix);
        proof {
            assert(ks[k as int] == keys@[k as int]@);
        }
        let p = gene_index(genes, id.as_str());
        out.push(p);
        k = k + 1;
    }
    out
}

/// For each formula id, its `a.<id>.enabled` gene.
pub fn formula_enabled_idx(genes: &Vec<GeneMeta>, formula_ids: &Vec<String>) -> (r: Vec<usize>)
    requires
        keyed_genes_exist(genes@, "a."@, crate::schema::texts(formula_ids@), ".enabled"@),
    ensures
        keyed_positions_ok(genes@, "a."@, crate::schema::texts(formula_ids@), ".enabled"@, r@),
{
    keyed_indices(genes, "a.", formula_ids, ".enabled")
}

/// For each effect switch key, its `fx.<key>` gene.
pub fn fx_toggles(genes: &Vec<GeneMeta>, fx_on_keys: &Vec<String>) -> (r: Vec<usize>)
    requires
        keyed_genes_exist(genes@, "fx."@, crate::schema::texts(fx_on_keys@), ""@),
    ensures
        keyed_positions_ok(genes@, "fx."@, crate::schema::texts(fx_on_keys@), ""@, r@),
{
    keyed_indices(genes, "fx.", fx_on_keys, "")
}

/// The names of the effect choices, in the order the search visits them.
pub open spec fn fx_choice_ids() -> Seq<Seq<char>> {
    seq!["fx.filterType"@, "fx.chorusMode"@, "fx.phaserStages"@]
}

/// The three choice genes of the effects: filter type, chorus mode, phaser
/// stages.
pub fn fx_choices(genes: &Vec<GeneMeta>) -> (r: Vec<usize>)
    requires
        forall|k: int| 0 <= k < 3 ==> has_gene(genes@, #[trigger] fx_choice_ids()[k]),
    ensures
        r@.len() == 3,
        forall|k: int| 0 <= k < 3 ==> names_gene_at(genes@, fx_choice_ids()[k], #[trigger] r@[k] as int),
{
    assert(has_gene(genes@, fx_choice_ids()[0]));
    assert(has_gene(genes@, fx_choice_ids()[1]));
    assert(has_gene(genes@, fx_choice_ids()[2]));
    let a = gene_index(genes, "fx.filterType");
    let b = gene_index(genes, "fx.chorusMode");
    let c = gene_index(genes, "fx.phaserStages");
    let out = vec![a, b, c];
    assert(out@[0] == a && out@[1] == b && out@[2] == c);
    out
}

/// The explicit sound-to-image couplings, the ones the coupling floor lifts.
pub open spec fn explicit_coupling_ids() -> Seq<Seq<char>> {
    seq!["c.loudToPulse"@, "c.onsetToFlash"@, "c.onsetToSeed"@, "c.spectrumToTint"@]
}

/// The genes of the explicit sound-to-image couplings.
pub fn explicit_coupling_idx(genes: &Vec<GeneMeta>) -> (r: Vec<usize>)
    requires
        forall|k: int| 0 <= k < 4 ==> has_gene(genes@, #[trigger] explicit_coupling_ids()[k]),
    ensures
        r@.len() == 4,
        forall|k: int| 0 <= k < 4 ==> names_gene_at(genes@, explicit_coupling_ids()[k], #[trigger] r@[k] as int),
{
    assert(has_gene(genes@, explicit_coupling_ids()[0]));
    assert(has_gene(genes@, explicit_coupling_ids()[1]));
    assert(has_gene(genes@, explicit_coupling_ids()[2]));
    assert(has_gene(genes@, explicit_coupling_ids()[3]));
    let a = gene_index(genes, "c.loudToPulse");
    let b = gene_index(genes, "c.onsetToFlash");
    let c = gene_index(genes, "c.onsetToSeed");
    let d = gene_index(genes, "c.spectrumToTint");
    let out = vec![a, b, c, d];
    assert(out@[0] == a && out@[1] == b && out@[2] == c && out@[3] == d);
    out
}

/// The id of the shape gene of LFO `i`.
pub open spec fn lfo_shape_id(i: nat) -> Seq<char> {
    "lfo."@ + decimal_text(i) + ".shape"@
}

/// For each LFO, its shape gene.
pub fn lfo_shape_idx(genes: &Vec<GeneMeta>, lfo_count: usize) -> (r: Vec<usize>)
    requires
        forall|i: nat| i < lfo_count ==> has_gene(genes@, #[trigger] lfo_shape_id(i)),
    ensures
        r@.len() == lfo_count,
        forall|i: int| 0 <= i < lfo_count ==> names_gene_at(genes@, lfo_shape_id(i as nat), #[trigger] r@[i] as int),
{
    let mut out: Vec<usize> = Vec::new();
    let mut i: usize = 0;
    while i < lfo_count
        invariant
            i <= lfo_count,
            forall|j: nat| j < lfo_count ==> has_gene(genes@, #[trigger] lfo_shape_id(j)),
            out@.len() == i,
            forall|j: int| 0 <= j < i ==> names_gene_at(genes@, lfo_shape_id(j as nat), #[trigger] out@[j] as int),
        decreases lfo_count - i,
    {
        let digits = decimal_string(i);
        let id = join3("lfo.", digits.as_str(), ".shape");
        assert(has_gene(genes@, lfo_shape_id(i as nat)));
        let p = gene_index(genes, id.as_str());
        out.push(p);
        i = i + 1;
    }
    out
}

/// How a gene changed between two genomes, as the change list words it.
#[derive(Clone, Copy, PartialEq, Eq, Debug, Structural)]
pub enum ChangeDir {
    Up,
    Down,
    On,
    Off,
    Switch,
}

/// The direction a change of a gene of kind `kind` is shown with: a bool is
/// switched on or off (`now_on`: its new value is 1), a choice is switched,
/// a continuous gene goes up or down (`rose`: its new value is the larger).
pub open spec fn change_dir_spec(kind: GeneKind, now_on: bool, rose: bool) -> ChangeDir {
    match kind {
        GeneKind::Bool => if now_on { ChangeDir::On } else { ChangeDir::Off },
        GeneKind::Choice => ChangeDir::Switch,
        GeneKind::Cont => if rose { ChangeDir::Up } else { ChangeDir::Down },
    }
}

pub fn change_dir(kind: GeneKind, now_on: bool, rose: bool) -> (r: ChangeDir)
    ensures
        r == change_dir_spec(kind, now_on, rose),
{
    match kind {
        GeneKind::Bool => if now_on { ChangeDir::On } else { ChangeDir::Off },
        GeneKind::Choice => ChangeDir::Switch,
        GeneKind::Cont => if rose { ChangeDir::Up } else { ChangeDir::Down },
    }
}

/// The option a choice gene's index picks: the option at `i`, the first one
/// for an index past the end, and empty text for an empty list.
pub fn option_at(list: &Vec<String>, i: usize) -> (r: String)
    ensures
        r@ == option_text(texts(list@), i as int),
{
    if i < list.len() {
        list[i].clone()
    } else if list.len() > 0 {
        list[0].clone()
    } else {
        String::new()
    }
}

} // verus!
