use vstd::prelude::*;

use crate::ast::{Ast, Node, NodeKind, OpType};

verus! {

// ---------------------------------------------------------------------------
// Branching sensitivity of the variables
// ---------------------------------------------------------------------------

/// Weight that an operator applied directly to a variable adds to that
/// variable's branching sensitivity: strongly non-linear operators weigh more.
pub open spec fn spec_op_weight(op: OpType) -> nat {
    match op {
        OpType::Exp => 10,
        OpType::Sqr => 3,
        OpType::Sin | OpType::Cos => 2,
        _ => 1,
    }
}

/// `kind` is a variable node called `name`.
pub open spec fn names_variable(kind: NodeKind, name: Seq<char>) -> bool {
    match kind {
        NodeKind::Variable(v) => v@ == name,
        _ => false,
    }
}

/// Weight that node `i` of `nodes` adds to the variable called `name`:
/// a variable node adds 1 to its own name, and a unary node whose operand is a
/// variable node adds the operator's weight to that variable.
pub open spec fn node_contribution(nodes: Seq<Node>, i: int, name: Seq<char>) -> nat {
    match nodes[i].kind {
        NodeKind::Variable(v) => if v@ == name { 1 } else { 0 },
        NodeKind::Unary { op, child } => {
            if child < nodes.len() && names_variable(nodes[child as int].kind, name) {
                spec_op_weight(op)
            } else {
                0
            }
        },
        _ => 0,
    }
}

/// Sensitivity of the variable `name` accumulated over the first `n` nodes.
pub open spec fn sensitivity_of(nodes: Seq<Node>, n: int, name: Seq<char>) -> nat
    decreases n,
{
    if n <= 0 {
        0
    } else {
        sensitivity_of(nodes, n - 1, name) + node_contribution(nodes, n - 1, name)
    }
}

/// The variable `name` occurs as a variable node among `nodes`.
pub open spec fn is_variable_of(nodes: Seq<Node>, name: Seq<char>) -> bool {
    exists|i: int|
        0 <= i < nodes.len() && names_variable(#[trigger] nodes[i].kind, name)
}

fn op_weight(op: OpType) -> (w: u128)
    ensures
        w == spec_op_weight(op),
{
    match op {
        OpType::Exp => 10,
        OpType::Sqr => 3,
        OpType::Sin | OpType::Cos => 2,
        _ => 1,
    }
}

proof fn lemma_contribution_bounded(nodes: Seq<Node>, i: int, name: Seq<char>)
    ensures
        node_contribution(nodes, i, name) <= 10,
{
}

proof fn lemma_sensitivity_bounded(nodes: Seq<Node>, n: int, name: Seq<char>)
    requires
        0 <= n,
    ensures
        sensitivity_of(nodes, n, name) <= 10 * n,
    decreases n,
{
    if n > 0 {
        lemma_sensitivity_bounded(nodes, n - 1, name);
        lemma_contribution_bounded(nodes, n - 1, name);
    }
}

/// Per-variable branching weights of an expression tree.
pub struct SensitivityMap {
    entries: Vec<(String, u128)>,
}

/// Some entry is named `name`.
pub open spec fn has_entry(entries: Seq<(String, u128)>, name: Seq<char>) -> bool {
    exists|j: int| 0 <= j < entries.len() && (#[trigger] entries[j]).0@ == name
}

/// The weight stored for `name`, or 0 when there is none.
pub open spec fn entry_weight(entries: Seq<(String, u128)>, name: Seq<char>) -> nat {
    if has_entry(entries, name) {
        entries[choose|j: int| 0 <= j < entries.len() && (#[trigger] entries[j]).0@ == name].1
            as nat
    } else {
        0
    }
}

/// No two entries share a name, and every stored weight is positive.
pub open spec fn entries_wf(entries: Seq<(String, u128)>) -> bool {
    &&& forall|a: int, b: int|
        0 <= a < entries.len() && 0 <= b < entries.len() && a != b ==> (#[trigger] entries[a]).0@
            != (#[trigger] entries[b]).0@
    &&& forall|j: int| 0 <= j < entries.len() ==> (#[trigger] entries[j]).1 > 0
}

proof fn lemma_entry_weight_at(entries: Seq<(String, u128)>, j: int)
    requires
        entries_wf(entries),
        0 <= j < entries.len(),
    ensures
        has_entry(entries, entries[j].0@),
        entry_weight(entries, entries[j].0@) == entries[j].1,
{
    let name = entries[j].0@;
    assert(has_entry(entries, name));
    let k: int = choose|k: int| 0 <= k < entries.len() && (#[trigger] entries[k]).0@ == name;
    assert(k == j);
}

impl View for SensitivityMap {
    type V = Map<Seq<char>, nat>;

    closed spec fn view(&self) -> Map<Seq<char>, nat> {
        Map::new(
            |name: Seq<char>| has_entry(self.entries@, name),
            |name: Seq<char>| entry_weight(self.entries@, name),
        )
    }
}

/// Adds `w` to the weight of `name`, creating its entry when missing.
fn add_weight(entries: &mut Vec<(String, u128)>, name: &String, w: u128)
    requires
        entries_wf(old(entries)@),
        w > 0,
        entry_weight(old(entries)@, name@) + w <= u128::MAX,
    ensures
        entries_wf(final(entries)@),
        forall|k: Seq<char>|
            #[trigger] has_entry(final(entries)@, k) == (has_entry(old(entries)@, k) || k == name@),
        forall|k: Seq<char>|
            #[trigger] entry_weight(final(entries)@, k) == if k == name@ {
                entry_weight(old(entries)@, k) + w
            } else {
                entry_weight(old(entries)@, k) as int
            },
{
    let n: usize = entries.len();
    let mut j: usize = 0;
    while j < n
        invariant
            n == entries@.len(),
            entries@ == old(entries)@,
            entries_wf(entries@),
            w > 0,
            entry_weight(entries@, name@) + w <= u128::MAX,
            0 <= j <= n,
            forall|i: int| 0 <= i < j ==> (#[trigger] entries@[i]).0@ != name@,
        decreases n - j,
    {
        if entries[j].0 == *name {
            let ghost e = entries@;
            proof {
                lemma_entry_weight_at(e, j as int);
            }
            let cur: u128 = entries[j].1;
            let key = entries[j].0.clone();
            entries.set(j, (key, cur + w));
            let ghost e2 = entries@;
            proof {
                assert(entries_wf(e2));
                lemma_entry_weight_at(e2, j as int);
                assert forall|k: Seq<char>| #[trigger] has_entry(e2, k) == has_entry(e, k) by {
                    if has_entry(e, k) {
                        let i: int = choose|i: int| 0 <= i < e.len() && (#[trigger] e[i]).0@ == k;
                        assert(e2[i].0@ == k);
                    }
                    if has_entry(e2, k) {
                        let i: int = choose|i: int| 0 <= i < e2.len() && (#[trigger] e2[i]).0@ == k;
                        assert(e[i].0@ == k);
                    }
                }
                assert forall|k: Seq<char>| k != name@ implies #[trigger] entry_weight(e2, k)
                    == entry_weight(e, k) by {
                    if has_entry(e, k) {
                        let i: int = choose|i: int| 0 <= i < e.len() && (#[trigger] e[i]).0@ == k;
                        lemma_entry_weight_at(e, i);
                        lemma_entry_weight_at(e2, i);
                    }
                }
            }
            return ;
        }
        j += 1;
    }
    let ghost e = entries@;
    entries.push((name.clone(), w));
    let ghost e2 = entries@;
    proof {
        assert(!has_entry(e, name@));
        assert(entries_wf(e2));
        lemma_entry_weight_at(e2, n as int);
        assert forall|k: Seq<char>| #[trigger] has_entry(e2, k) == (has_entry(e, k) || k == name@) by {
            if has_entry(e, k) {
                let i: int = choose|i: int| 0 <= i < e.len() && (#[trigger] e[i]).0@ == k;
                assert(e2[i].0@ == k);
            }
            if has_entry(e2, k) && k != name@ {
                let i: int = choose|i: int| 0 <= i < e2.len() && (#[trigger] e2[i]).0@ == k;
                assert(e[i].0@ == k);
            }
        }
        assert forall|k: Seq<char>| k != name@ implies #[trigger] entry_weight(e2, k)
            == entry_weight(e, k) by {
            if has_entry(e, k) {
                let i: int = choose|i: int| 0 <= i < e.len() && (#[trigger] e[i]).0@ == k;
                lemma_entry_weight_at(e, i);
                lemma_entry_weight_at(e2, i);
            }
        }
    }
}

impl SensitivityMap {
    #[verifier::type_invariant]
    closed spec fn wf(&self) -> bool {
        entries_wf(self.entries@)
    }

    /// Branching sensitivity of the variables of `ast`: each variable node adds 1
    /// to its variable, and each unary node applied directly to a variable node
    /// adds the weight of its operator (`Exp` 10, `Sqr` 3, `Sin` and `Cos` 2,
    /// any other 1) to that variable.
    pub fn from_ast(ast: &Ast) -> (m: Self)
        requires
            ast.unary_children_in_bounds(),
        ensures
            forall|name: Seq<char>|
                #[trigger] m@.contains_key(name) == (sensitivity_of(
                    ast.nodes@,
                    ast.nodes@.len() as int,
                    name,
                ) > 0),
            forall|name: Seq<char>|
                m@.contains_key(name) ==> #[trigger] m@[name] == sensitivity_of(
                    ast.nodes@,
                    ast.nodes@.len() as int,
                    name,
                ),
    {
        let mut entries: Vec<(String, u128)> = Vec::new();
        let n: usize = ast.nodes.len();
        let mut i: usize = 0;
        while i < n
            invariant
                n == ast.nodes@.len(),
                ast.unary_children_in_bounds(),
                0 <= i <= n,
                entries_wf(entries@),
                forall|name: Seq<char>|
                    #[trigger] entry_weight(entries@, name) == sensitivity_of(
                        ast.nodes@,
                        i as int,
                        name,
                    ),
            decreases n - i,
        {
            match &ast.nodes[i].kind {
                NodeKind::Unary { op, child } => {
                    let c: usize = *child;
                    if let NodeKind::Variable(name) = &ast.nodes[c].kind {
                        proof {
                            lemma_sensitivity_bounded(ast.nodes@, i as int, name@);
                            lemma_sensitivity_bounded(ast.nodes@, i as int + 1, name@);
                        }
                        let w: u128 = op_weight(*op);
                        add_weight(&mut entries, name, w);
                    }
                },
                NodeKind::Variable(name) => {
                    proof {
                        lemma_sensitivity_bounded(ast.nodes@, i as int, name@);
                        lemma_sensitivity_bounded(ast.nodes@, i as int + 1, name@);
                    }
                    add_weight(&mut entries, name, 1);
                },
                _ => {},
            }
            assert forall|name: Seq<char>|
                #[trigger] entry_weight(entries@, name) == sensitivity_of(
                    ast.nodes@,
                    i + 1,
                    name,
                ) by {
                assert(sensitivity_of(ast.nodes@, i + 1, name) == sensitivity_of(
                    ast.nodes@,
                    i as int,
                    name,
                ) + node_contribution(ast.nodes@, i as int, name));
            }
            i += 1;
        }
        proof {
            lemma_weight_positive_iff_entry(entries@);
        }
        SensitivityMap { entries }
    }

    /// The branching weight of `name`, or 1 when `name` is not a variable of the tree.
    pub fn occurrence(&self, name: &str) -> (w: u128)
        ensures
            w == if self@.contains_key(name@) {
                self@[name@]
            } else {
                1
            },
    {
        proof {
            use_type_invariant(self);
        }
        let key = name.to_string();
        proof {
            broadcast use vstd::string::to_string_from_display_ensures_for_str;
        }
        let n: usize = self.entries.len();
        let mut j: usize = 0;
        while j < n
            invariant
                n == self.entries@.len(),
                entries_wf(self.entries@),
                key@ == name@,
                0 <= j <= n,
                forall|i: int| 0 <= i < j ==> (#[trigger] self.entries@[i]).0@ != name@,
            decreases n - j,
        {
            if self.entries[j].0 == key {
                proof {
                    lemma_entry_weight_at(self.entries@, j as int);
                }
                return self.entries[j].1;
            }
            j += 1;
        }
        1
    }

    /// The (name, weight) pairs of the map: one per variable, names pairwise distinct.
    pub fn entries(&self) -> (r: &Vec<(String, u128)>)
        ensures
            forall|j: int|
                0 <= j < r@.len() ==> self@.contains_key(#[trigger] r@[j].0@) && self@[r@[j].0@]
                    == r@[j].1,
            forall|name: Seq<char>|
                #[trigger] self@.contains_key(name) ==> exists|j: int|
                    0 <= j < r@.len() && #[trigger] r@[j].0@ == name,
            forall|a: int, b: int|
                0 <= a < r@.len() && 0 <= b < r@.len() && a != b ==> (#[trigger] r@[a]).0@ != (
                #[trigger] r@[b]).0@,
    {
        proof {
            use_type_invariant(self);
            assert forall|j: int| 0 <= j < self.entries@.len() implies self@.contains_key(
                #[trigger] self.entries@[j].0@,
            ) && self@[self.entries@[j].0@] == self.entries@[j].1 by {
                lemma_entry_weight_at(self.entries@, j);
            }
        }
        &self.entries
    }
}

proof fn lemma_weight_positive_iff_entry(entries: Seq<(String, u128)>)
    requires
        entries_wf(entries),
    ensures
        forall|name: Seq<char>| #[trigger] has_entry(entries, name) == (entry_weight(entries, name) > 0),
{
    assert forall|name: Seq<char>| #[trigger] has_entry(entries, name) == (entry_weight(
        entries,
        name,
    ) > 0) by {
        if has_entry(entries, name) {
            let j: int = choose|j: int| 0 <= j < entries.len() && (#[trigger] entries[j]).0@ == name;
            lemma_entry_weight_at(entries, j);
        }
    }
}

/// Exactly the variables of the tree carry a branching weight: a name has a
/// positive sensitivity if and only if some variable node of the tree carries it.
pub proof fn lemma_weighted_names_are_variables(ast: &Ast, name: Seq<char>)
    requires
        ast.unary_children_in_bounds(),
    ensures
        (sensitivity_of(ast.nodes@, ast.nodes@.len() as int, name) > 0) == is_variable_of(
            ast.nodes@,
            name,
        ),
{
    let nodes = ast.nodes@;
    lemma_positive_means_variable(ast, nodes.len() as int, name);
    if is_variable_of(nodes, name) {
        let i: int = choose|i: int| 0 <= i < nodes.len() && names_variable(#[trigger] nodes[i].kind, name);
        lemma_variable_node_counts(nodes, i, nodes.len() as int, name);
    }
}

proof fn lemma_positive_means_variable(ast: &Ast, n: int, name: Seq<char>)
    requires
        ast.unary_children_in_bounds(),
        0 <= n <= ast.nodes@.len(),
    ensures
        sensitivity_of(ast.nodes@, n, name) > 0 ==> is_variable_of(ast.nodes@, name),
    decreases n,
{
    let nodes = ast.nodes@;
    if n > 0 {
        lemma_positive_means_variable(ast, n - 1, name);
        if node_contribution(nodes, n - 1, name) > 0 {
            match nodes[n - 1].kind {
                NodeKind::Unary { op, child } => {
                    assert(names_variable(nodes[child as int].kind, name));
                },
                _ => {
                    assert(names_variable(nodes[n - 1].kind, name));
                },
            }
        }
    }
}

proof fn lemma_variable_node_counts(nodes: Seq<Node>, i: int, n: int, name: Seq<char>)
    requires
        0 <= i < n,
        names_variable(nodes[i].kind, name),
    ensures
        sensitivity_of(nodes, n, name) > 0,
    decreases n,
{
    if i < n - 1 {
        lemma_variable_node_counts(nodes, i, n - 1, name);
    }
}

/// Binary operator nodes and constant nodes carry no branching weight: taking
/// one more such node into account leaves every name's sensitivity unchanged.
pub proof fn lemma_binary_and_constant_nodes_add_nothing(nodes: Seq<Node>, i: int, name: Seq<char>)
    requires
        0 <= i < nodes.len(),
        nodes[i].kind is Binary || nodes[i].kind is Constant,
    ensures
        sensitivity_of(nodes, i + 1, name) == sensitivity_of(nodes, i, name),
{
}

/// A unary node whose operand is not a variable node (an operator, a constant,
/// or an index outside the arena) carries no branching weight for any name.
pub proof fn lemma_unary_over_non_variable_adds_nothing(nodes: Seq<Node>, i: int, name: Seq<char>)
    requires
        0 <= i < nodes.len(),
        nodes[i].kind is Unary,
        !(nodes[i].kind->child < nodes.len() && nodes[nodes[i].kind->child as int].kind is Variable),
    ensures
        sensitivity_of(nodes, i + 1, name) == sensitivity_of(nodes, i, name),
{
}

/// A variable node adds exactly 1 to the sensitivity of its own name and
/// nothing to any other name.
pub proof fn lemma_variable_node_adds_one(nodes: Seq<Node>, i: int, name: Seq<char>)
    requires
        0 <= i < nodes.len(),
        nodes[i].kind is Variable,
    ensures
        sensitivity_of(nodes, i + 1, name) == sensitivity_of(nodes, i, name) + if nodes[i].kind->Variable_0@
            == name {
            1int
        } else {
            0int
        },
{
}

/// A unary node applied directly to a variable node adds its operator's weight
/// to that variable (`Exp` 10, `Sqr` 3, `Sin` and `Cos` 2, any other operator 1)
/// and nothing to any other name.
pub proof fn lemma_unary_over_variable_adds_weight(nodes: Seq<Node>, i: int, name: Seq<char>)
    requires
        0 <= i < nodes.len(),
        nodes[i].kind is Unary,
        nodes[i].kind->child < nodes.len(),
        nodes[nodes[i].kind->child as int].kind is Variable,
    ensures
        sensitivity_of(nodes, i + 1, name) == sensitivity_of(nodes, i, name) + if nodes[nodes[i].kind->child as int].kind->Variable_0@
            == name {
            match nodes[i].kind->Unary_op {
                OpType::Exp => 10int,
                OpType::Sqr => 3int,
                OpType::Sin | OpType::Cos => 2int,
                _ => 1int,
            }
        } else {
            0int
        },
{
}

// ---------------------------------------------------------------------------
// Branch-and-prune decisions
// ---------------------------------------------------------------------------

/// Outcome of a branch-and-prune search over boxes of type `B`.
#[derive(Debug, PartialEq, Clone)]
pub enum SolverResult<B> {
    /// A box whose every variable interval is within the requested precision.
    Sat(B),
    /// No box of the search space survives contraction.
    Unsat,
}

/// What the search does with a box once contraction has been applied to it.
#[derive(Debug, Clone, Copy, PartialEq, Eq, Structural)]
pub enum SearchStep {
    /// Contraction found a conflict: the box holds no solution.
    Unsat,
    /// Every variable interval of the contracted box is within the precision.
    Sat,
    /// Bisect the box and search the halves one after the other, left first.
    SplitSequential,
    /// Bisect the box and search both halves in parallel.
    SplitParallel,
}

/// Depth beyond which the two halves of a box are searched sequentially.
pub const PARALLEL_DEPTH_LIMIT: usize = 12;

/// Decides the next step for a box at search depth `depth`, given whether its
/// contraction succeeded and whether the contracted box is small enough.
pub fn search_step(contracted: bool, small_enough: bool, depth: usize) -> (step: SearchStep)
    ensures
        !contracted ==> step == SearchStep::Unsat,
        contracted && small_enough ==> step == SearchStep::Sat,
        contracted && !small_enough && depth > PARALLEL_DEPTH_LIMIT ==> step
            == SearchStep::SplitSequential,
        contracted && !small_enough && depth <= PARALLEL_DEPTH_LIMIT ==> step
            == SearchStep::SplitParallel,
{
    if !contracted {
        SearchStep::Unsat
    } else if small_enough {
        SearchStep::Sat
    } else if depth > PARALLEL_DEPTH_LIMIT {
        SearchStep::SplitSequential
    } else {
        SearchStep::SplitParallel
    }
}

/// How the results of two halves searched in parallel combine: an answer of
/// the left half wins, then one of the right half; otherwise there is none.
pub open spec fn spec_merge_results<B>(left: SolverResult<B>, right: SolverResult<B>) -> SolverResult<B> {
    match (left, right) {
        (SolverResult::Sat(b), _) => SolverResult::Sat(b),
        (_, SolverResult::Sat(b)) => SolverResult::Sat(b),
        _ => SolverResult::Unsat,
    }
}

/// Combines the results of the two halves of a box searched in parallel.
pub fn merge_results<B>(left: SolverResult<B>, right: SolverResult<B>) -> (res: SolverResult<B>)
    ensures
        res == spec_merge_results(left, right),
{
    match (left, right) {
        (SolverResult::Sat(b), _) => SolverResult::Sat(b),
        (_, SolverResult::Sat(b)) => SolverResult::Sat(b),
        _ => SolverResult::Unsat,
    }
}

/// In a sequential search, whether the right half must still be searched
/// once the left half gave `left`: only when the left half has no answer.
pub fn explores_right_half<B>(left: &SolverResult<B>) -> (explore: bool)
    ensures
        explore == (*left is Unsat),
{
    match left {
        SolverResult::Sat(_) => false,
        SolverResult::Unsat => true,
    }
}

/// Searching the halves one after the other, stopping at the first answer,
/// gives the same result as searching them in parallel and merging.
pub proof fn lemma_sequential_matches_parallel<B>(left: SolverResult<B>, right: SolverResult<B>)
    ensures
        (if left is Unsat {
            right
        } else {
            left
        }) == spec_merge_results(left, right),
{
}

/// A merged search reports no answer exactly when neither half has one, and
/// an answer it reports is an answer of one of the halves.
pub proof fn lemma_merge_keeps_answers<B>(left: SolverResult<B>, right: SolverResult<B>)
    ensures
        (spec_merge_results(left, right) is Unsat) == (left is Unsat && right is Unsat),
        spec_merge_results(left, right) is Sat ==> spec_merge_results(left, right) == left
            || spec_merge_results(left, right) == right,
{
}

} // verus!
