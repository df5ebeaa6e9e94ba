use vstd::prelude::*;
use crate::diagnostics::{Diagnostic, DiagnosticKind};
use crate::syntax_node::{
    ExprModel, FunctionNode, StatementNode, StmtModel, branch_pairs_model,
    lemma_branch_pairs_model_index, lemma_stmts_model_index, stmts_model,
};

verus! {

// ---------------------------------------------------------------------------
// Flow nodes and their model
// ---------------------------------------------------------------------------

/// Mathematical model of a flow node.
pub struct FlowModel {
    pub children: Seq<FlowModel>,
    pub name: Seq<char>,
    pub has_return: bool,
}

/// A transient node of the return-path tree: a label, whether the node is a
/// terminating (return) leaf, and its ordered children.
#[derive(Debug)]
pub struct FlowNode {
    pub child_nodes: Vec<FlowNode>,
    pub name: String,
    pub has_return: bool,
}

/// The model of a flow node.
pub open spec fn flow_model(n: FlowNode) -> FlowModel
    decreases n,
{
    FlowModel { children: flows_model(n.child_nodes@), name: n.name@, has_return: n.has_return }
}

/// The models of a list of flow nodes.
pub open spec fn flows_model(s: Seq<FlowNode>) -> Seq<FlowModel>
    decreases s,
{
    if s.len() == 0 {
        Seq::empty()
    } else {
        seq![flow_model(s[0])] + flows_model(s.drop_first())
    }
}

/// The model of a list of flow nodes is the list of the models.
pub proof fn lemma_flows_model_index(s: Seq<FlowNode>)
    ensures
        flows_model(s).len() == s.len(),
        forall|i: int| 0 <= i < s.len() ==> flows_model(s)[i] == flow_model(#[trigger] s[i]),
    decreases s,
{
    if s.len() > 0 {
        lemma_flows_model_index(s.drop_first());
        assert forall|i: int| 0 <= i < s.len() implies flows_model(s)[i] == flow_model(
            #[trigger] s[i],
        ) by {
            if i > 0 {
                assert(s.drop_first()[i - 1] == s[i]);
                assert(flows_model(s)[i] == flows_model(s.drop_first())[i - 1]);
            }
        }
    }
}

/// Appending a node appends its model.
pub proof fn lemma_flows_model_push(s: Seq<FlowNode>, n: FlowNode)
    ensures
        flows_model(s.push(n)) == flows_model(s).push(flow_model(n)),
{
    lemma_flows_model_index(s);
    lemma_flows_model_index(s.push(n));
    assert forall|i: int|
        0 <= i < flows_model(s.push(n)).len() implies flows_model(s.push(n))[i] == flows_model(
        s,
    ).push(flow_model(n))[i] by {
        assert(flows_model(s.push(n))[i] == flow_model(s.push(n)[i]));
        if i < s.len() {
            assert(s.push(n)[i] == s[i]);
        } else {
            assert(s.push(n)[i] == n);
        }
    }
    assert(flows_model(s.push(n)) =~= flows_model(s).push(flow_model(n)));
}

impl View for FlowNode {
    type V = FlowModel;

    open spec fn view(&self) -> FlowModel {
        flow_model(*self)
    }
}

impl FlowNode {
    /// A non-terminating node with no children yet.
    pub fn new(name: String) -> (r: FlowNode)
        ensures
            r@ == (FlowModel { children: Seq::<FlowModel>::empty(), name: name@, has_return: false }),
    {
        let r = FlowNode { child_nodes: Vec::new(), name, has_return: false };
        proof {
            assert(flows_model(r.child_nodes@) =~= Seq::<FlowModel>::empty());
        }
        r
    }

    /// A childless node with the given termination mark.
    pub fn from(has_return: bool, name: String) -> (r: FlowNode)
        ensures
            r@ == (FlowModel { children: Seq::<FlowModel>::empty(), name: name@, has_return }),
    {
        let r = FlowNode { child_nodes: Vec::new(), name, has_return };
        proof {
            assert(flows_model(r.child_nodes@) =~= Seq::<FlowModel>::empty());
        }
        r
    }
}

// ---------------------------------------------------------------------------
// The tree a function body induces
// ---------------------------------------------------------------------------

/// The flow nodes a single statement contributes to its enclosing block: a
/// return becomes a terminating leaf; an if/else chain contributes one
/// sibling per branch, with an empty non-terminating node synthesized where
/// no explicit else exists — this is what makes an if-without-else
/// non-exhaustive even when its then-branch always returns. Every other
/// statement (declarations, assignments, calls, loops) contributes nothing.
pub open spec fn flow_of_stmt(s: StmtModel) -> Seq<FlowModel>
    decreases s,
{
    match s {
        StmtModel::Return(_) => seq![
            FlowModel { children: Seq::empty(), name: "return"@, has_return: true },
        ],
        StmtModel::IfElse(c, then_body, else_ifs, else_body) => seq![
            FlowModel { children: flow_of_block(then_body), name: "if"@, has_return: false },
        ] + flow_of_branches(else_ifs) + seq![
            match else_body {
                Some(b) => FlowModel {
                    children: flow_of_block(b),
                    name: "else"@,
                    has_return: false,
                },
                None => FlowModel { children: Seq::empty(), name: "else"@, has_return: false },
            },
        ],
        _ => Seq::empty(),
    }
}

/// The flow nodes of a block: the contributions of its statements in order.
pub open spec fn flow_of_block(body: Seq<StmtModel>) -> Seq<FlowModel>
    decreases body,
{
    if body.len() == 0 {
        Seq::empty()
    } else {
        flow_of_stmt(body[0]) + flow_of_block(body.drop_first())
    }
}

/// The flow nodes of a list of else-if branches: one node per branch.
pub open spec fn flow_of_branches(ps: Seq<(ExprModel, Seq<StmtModel>)>) -> Seq<FlowModel>
    decreases ps,
{
    if ps.len() == 0 {
        Seq::empty()
    } else {
        seq![
            FlowModel { children: flow_of_block(ps[0].1), name: "else if"@, has_return: false },
        ] + flow_of_branches(ps.drop_first())
    }
}

/// A block's flow nodes split at its `i`-th statement.
pub proof fn lemma_flow_of_block_snoc(body: Seq<StmtModel>, i: int)
    requires
        0 <= i < body.len(),
    ensures
        flow_of_block(body.take(i + 1)) == flow_of_block(body.take(i)) + flow_of_stmt(body[i]),
    decreases i,
{
    if i == 0 {
        assert(body.take(1)[0] == body[0]);
        assert(body.take(1).drop_first() =~= Seq::<StmtModel>::empty());
        assert(body.take(0) =~= Seq::<StmtModel>::empty());
        assert(flow_of_block(body.take(1)) =~= flow_of_block(body.take(0)) + flow_of_stmt(
            body[0],
        ));
    } else {
        lemma_flow_of_block_snoc(body.drop_first(), i - 1);
        assert(body.take(i + 1)[0] == body[0]);
        assert(body.take(i)[0] == body[0]);
        assert(body.take(i + 1).drop_first() =~= body.drop_first().take(i));
        assert(body.take(i).drop_first() =~= body.drop_first().take(i - 1));
        assert(body.drop_first()[i - 1] == body[i]);
        assert(flow_of_block(body.take(i + 1)) =~= flow_of_block(body.take(i)) + flow_of_stmt(
            body[i],
        ));
    }
}

/// A branch list's flow nodes split at its `i`-th branch.
pub proof fn lemma_flow_of_branches_snoc(ps: Seq<(ExprModel, Seq<StmtModel>)>, i: int)
    requires
        0 <= i < ps.len(),
    ensures
        flow_of_branches(ps.take(i + 1)) == flow_of_branches(ps.take(i)) + seq![
            FlowModel { children: flow_of_block(ps[i].1), name: "else if"@, has_return: false },
        ],
    decreases i,
{
    if i == 0 {
        assert(ps.take(1)[0] == ps[0]);
        assert(ps.take(1).drop_first() =~= Seq::<(ExprModel, Seq<StmtModel>)>::empty());
        assert(ps.take(0) =~= Seq::<(ExprModel, Seq<StmtModel>)>::empty());
        assert(flow_of_branches(ps.take(1)) =~= flow_of_branches(ps.take(0)) + seq![
            FlowModel { children: flow_of_block(ps[0].1), name: "else if"@, has_return: false },
        ]);
    } else {
        lemma_flow_of_branches_snoc(ps.drop_first(), i - 1);
        assert(ps.take(i + 1)[0] == ps[0]);
        assert(ps.take(i)[0] == ps[0]);
        assert(ps.take(i + 1).drop_first() =~= ps.drop_first().take(i));
        assert(ps.take(i).drop_first() =~= ps.drop_first().take(i - 1));
        assert(ps.drop_first()[i - 1] == ps[i]);
        assert(flow_of_branches(ps.take(i + 1)) =~= flow_of_branches(ps.take(i)) + seq![
            FlowModel { children: flow_of_block(ps[i].1), name: "else if"@, has_return: false },
        ]);
    }
}

/// The root of the return-path tree of a function body.
pub open spec fn root_flow(body: Seq<StmtModel>) -> FlowModel {
    FlowModel { children: flow_of_block(body), name: "root"@, has_return: false }
}

// ---------------------------------------------------------------------------
// Exhaustiveness
// ---------------------------------------------------------------------------

/// The right-to-left depth-first exhaustiveness check: a node is
/// all-paths-return if one of its children is a terminating leaf (a return
/// in a block dominates every statement around it), or it has at least one
/// child and every child is all-paths-return, or it is itself a terminating
/// leaf. Loop bodies contribute no nodes, so a return inside a while loop
/// never satisfies the surrounding function by itself.
pub open spec fn dfs_spec(n: FlowModel) -> bool
    decreases n,
{
    (exists|i: int|
        0 <= i < n.children.len() && (#[trigger] n.children[i]).has_return && dfs_spec(
            n.children[i],
        )) || (n.children.len() > 0 && (forall|i: int|
        0 <= i < n.children.len() ==> dfs_spec(#[trigger] n.children[i]))) || n.has_return
}

/// A function body passes the return-path check exactly when the root of
/// its flow tree is all-paths-return.
pub open spec fn all_paths_return(body: Seq<StmtModel>) -> bool {
    dfs_spec(root_flow(body))
}

// ---------------------------------------------------------------------------
// The executable checker
// ---------------------------------------------------------------------------

/// Adds the flow nodes of one statement to `parent`.
#[verifier::loop_isolation(false)]
fn visit_node(s: &StatementNode, parent: &mut FlowNode)
    ensures
        final(parent)@ == (FlowModel {
            children: old(parent)@.children + flow_of_stmt(s@),
            ..old(parent)@
        }),
    decreases *s,
{
    match s {
        StatementNode::Return(_) => {
            let leaf = FlowNode::from(true, "return".to_owned());
            proof {
                lemma_flows_model_push(parent.child_nodes@, leaf);
            }
            parent.child_nodes.push(leaf);
            proof {
                assert(parent@.children =~= old(parent)@.children + flow_of_stmt(s@));
            }
        },
        StatementNode::IfElse(_, then_body, else_ifs, else_body) => {
            let ghost sm = s@;
            let ghost then_flow = FlowModel {
                children: flow_of_block(stmts_model(then_body@)),
                name: "if"@,
                has_return: false,
            };
            let mut if_node = FlowNode::new("if".to_owned());
            visit_block(then_body, &mut if_node);
            proof {
                lemma_flows_model_push(parent.child_nodes@, if_node);
                assert(if_node@.children =~= flow_of_block(stmts_model(then_body@)));
                assert(if_node@ == then_flow);
            }
            parent.child_nodes.push(if_node);
            let ghost pairs = branch_pairs_model(else_ifs@);
            let n = else_ifs.len();
            let mut i: usize = 0;
            proof {
                lemma_branch_pairs_model_index(else_ifs@);
                assert(pairs.take(0) =~= Seq::<(ExprModel, Seq<StmtModel>)>::empty());
                assert(parent@.children =~= old(parent)@.children + seq![then_flow]
                    + flow_of_branches(pairs.take(0)));
            }
            while i < n
                invariant
                    n == else_ifs@.len(),
                    0 <= i <= n,
                    pairs == branch_pairs_model(else_ifs@),
                    pairs.len() == n,
                    forall|k: int|
                        0 <= k < n ==> #[trigger] pairs[k] == (
                            crate::syntax_node::expr_model(else_ifs@[k].0),
                            stmts_model(else_ifs@[k].1@),
                        ),
                    parent@.name == old(parent)@.name,
                    parent@.has_return == old(parent)@.has_return,
                    parent@.children == old(parent)@.children + seq![then_flow]
                        + flow_of_branches(pairs.take(i as int)),
                decreases n - i,
            {
                let mut b_node = FlowNode::new("else if".to_owned());
                proof {
                    assert(*else_ifs == (*s)->2);
                    assert(decreases_to!(*s => (*s)->2));
                    assert(decreases_to!(*else_ifs => else_ifs@));
                    assert(decreases_to!(else_ifs@ => else_ifs@[i as int]));
                    assert(decreases_to!(else_ifs@[i as int] => else_ifs@[i as int].1));
                    assert(decreases_to!(*s => else_ifs@[i as int].1));
                }
                visit_block(&else_ifs[i].1, &mut b_node);
                proof {
                    lemma_flows_model_push(parent.child_nodes@, b_node);
                    lemma_flow_of_branches_snoc(pairs, i as int);
                    assert(b_node@.children =~= flow_of_block(pairs[i as int].1));
                }
                parent.child_nodes.push(b_node);
                proof {
                    assert(parent@.children =~= old(parent)@.children + seq![then_flow]
                        + flow_of_branches(pairs.take(i + 1)));
                }
                i = i + 1;
            }
            proof {
                assert(pairs.take(n as int) =~= pairs);
            }
            let mut e_node = FlowNode::new("else".to_owned());
            match else_body {
                Some(b) => {
                    visit_block(b, &mut e_node);
                },
                None => {},
            }
            proof {
                lemma_flows_model_push(parent.child_nodes@, e_node);
            }
            parent.child_nodes.push(e_node);
            proof {
                assert(parent@.children =~= old(parent)@.children + flow_of_stmt(sm));
            }
        },
        _ => {
            proof {
                assert(parent@.children =~= old(parent)@.children + flow_of_stmt(s@));
            }
        },
    }
}

/// Adds the flow nodes of every statement of a block to `parent`, in order.
fn visit_block(body: &Vec<StatementNode>, parent: &mut FlowNode)
    ensures
        final(parent)@ == (FlowModel {
            children: old(parent)@.children + flow_of_block(stmts_model(body@)),
            ..old(parent)@
        }),
    decreases *body,
{
    let ghost bm = stmts_model(body@);
    let n = body.len();
    let mut i: usize = 0;
    proof {
        lemma_stmts_model_index(body@);
        assert(bm.take(0) =~= Seq::<StmtModel>::empty());
        assert(parent@.children =~= old(parent)@.children + flow_of_block(bm.take(0)));
    }
    while i < n
        invariant
            n == body@.len(),
            0 <= i <= n,
            bm == stmts_model(body@),
            bm.len() == n,
            forall|k: int|
                0 <= k < n ==> bm[k] == crate::syntax_node::stmt_model(#[trigger] body@[k]),
            parent@.name == old(parent)@.name,
            parent@.has_return == old(parent)@.has_return,
            parent@.children == old(parent)@.children + flow_of_block(bm.take(i as int)),
        decreases n - i,
    {
        visit_node(&body[i], parent);
        proof {
            lemma_flow_of_block_snoc(bm, i as int);
            assert(parent@.children =~= old(parent)@.children + flow_of_block(bm.take(i + 1)));
        }
        i = i + 1;
    }
    proof {
        assert(bm.take(n as int) =~= bm);
    }
}

/// Decides `dfs_spec` on a concrete node, scanning the children from right
/// to left and short-circuiting on a terminating child.
fn dfs_exec(node: &FlowNode) -> (r: bool)
    ensures
        r == dfs_spec(node@),
    decreases *node,
{
    let ghost children = node@.children;
    proof {
        lemma_flows_model_index(node.child_nodes@);
    }
    let n = node.child_nodes.len();
    let mut all_true = true;
    let mut i: usize = n;
    while i > 0
        invariant
            n == node.child_nodes@.len(),
            children == node@.children,
            children.len() == n,
            forall|k: int|
                0 <= k < n ==> children[k] == flow_model(#[trigger] node.child_nodes@[k]),
            0 <= i <= n,
            all_true == forall|k: int| i <= k < n ==> dfs_spec(#[trigger] children[k]),
            forall|k: int|
                i <= k < n ==> !((#[trigger] children[k]).has_return && dfs_spec(children[k])),
        decreases i,
    {
        i = i - 1;
        let is_child_true = dfs_exec(&node.child_nodes[i]);
        if is_child_true && node.child_nodes[i].has_return {
            proof {
                assert(children[i as int].has_return && dfs_spec(children[i as int]));
            }
            return true;
        }
        if !is_child_true {
            all_true = false;
        }
    }
    if n != 0 && all_true {
        return true;
    }
    if node.has_return {
        return true;
    }
    proof {
        assert(!dfs_spec(node@));
    }
    false
}

// ---------------------------------------------------------------------------
// The per-function graph
// ---------------------------------------------------------------------------

/// The return-path checker for one function: builds the flow tree of the
/// function's body and decides whether every execution path returns.
#[derive(Debug)]
pub struct FunctionControlGraph<'a> {
    root_node: Option<FlowNode>,
    function: &'a FunctionNode,
}

impl<'a> FunctionControlGraph<'a> {
    pub fn new(function: &'a FunctionNode) -> (r: FunctionControlGraph<'a>)
        ensures
            r.func() == function@,
    {
        FunctionControlGraph { root_node: None, function }
    }

    /// The model of the function under check.
    pub closed spec fn func(&self) -> crate::syntax_node::FunctionModel {
        self.function@
    }

    /// Runs the check: trivially succeeds for a void function; otherwise
    /// builds the flow tree and fails with a control-flow diagnostic naming
    /// the function where some path misses a return.
    pub fn build(&mut self) -> (r: Result<(), Diagnostic>)
        ensures
            old(self).func().return_type is None ==> r is Ok,
            old(self).func().return_type is Some ==> (r is Ok <==> all_paths_return(
                old(self).func().body,
            )),
            r is Err ==> r->Err_0@.kind == DiagnosticKind::ControlFlowError,
            final(self).func() == old(self).func(),
    {
        match &self.function.return_type {
            None => Ok(()),
            Some(_) => {
                self.create_graph();
                self.check_non_void_return()
            },
        }
    }

    /// Builds the flow tree of the function's body under a fresh root.
    fn create_graph(&mut self)
        ensures
            final(self).function == old(self).function,
            final(self).root_node is Some,
            final(self).root_node->0@ == root_flow(old(self).func().body),
    {
        let mut root = FlowNode::from(false, "root".to_owned());
        visit_block(&self.function.body, &mut root);
        proof {
            assert(root@.children =~= flow_of_block(stmts_model(self.function.body@)));
        }
        self.root_node = Some(root);
    }

    /// Decides exhaustiveness on the built tree.
    fn check_non_void_return(&mut self) -> (r: Result<(), Diagnostic>)
        requires
            old(self).root_node is Some,
        ensures
            *final(self) == *old(self),
            r is Ok <==> dfs_spec(old(self).root_node->0@),
            r is Err ==> r->Err_0@.kind == DiagnosticKind::ControlFlowError,
    {
        let ok = match &self.root_node {
            Some(root) => dfs_exec(root),
            None => false,
        };
        if ok {
            Ok(())
        } else {
            let mut m = "'".to_owned();
            m.append(self.function.name.text.as_str());
            m.append("': not all code paths return a value");
            Err(
                Diagnostic::new(
                    DiagnosticKind::ControlFlowError,
                    m,
                    self.function.name.position.line_no,
                    self.function.name.position.col_no,
                ),
            )
        }
    }
}

// ---------------------------------------------------------------------------
// Laws
// ---------------------------------------------------------------------------

/// A block that directly contains a return statement is all-paths-return.
pub proof fn lemma_block_with_return(body: Seq<StmtModel>, i: int)
    requires
        0 <= i < body.len(),
        body[i] is Return,
    ensures
        dfs_spec(FlowModel { children: flow_of_block(body), name: "if"@, has_return: false }),
        dfs_spec(FlowModel { children: flow_of_block(body), name: "else"@, has_return: false }),
        all_paths_return(body),
    decreases i,
{
    let leaf = FlowModel { children: Seq::empty(), name: "return"@, has_return: true };
    lemma_flow_of_block_contains_leaf(body, i);
    let children = flow_of_block(body);
    let k = choose|k: int| 0 <= k < children.len() && children[k] == leaf;
    assert(children[k].has_return && dfs_spec(children[k]));
}

/// The flow nodes of a block with a return statement include a terminating
/// leaf.
pub proof fn lemma_flow_of_block_contains_leaf(body: Seq<StmtModel>, i: int)
    requires
        0 <= i < body.len(),
        body[i] is Return,
    ensures
        exists|k: int|
            0 <= k < flow_of_block(body).len() && flow_of_block(body)[k] == (FlowModel {
                children: Seq::<FlowModel>::empty(),
                name: "return"@,
                has_return: true,
            }),
    decreases i,
{
    let leaf = FlowModel { children: Seq::empty(), name: "return"@, has_return: true };
    if i == 0 {
        assert(flow_of_stmt(body[0])[0] == leaf);
        assert(flow_of_block(body)[0] == leaf);
    } else {
        lemma_flow_of_block_contains_leaf(body.drop_first(), i - 1);
        let k0 = choose|k: int|
            0 <= k < flow_of_block(body.drop_first()).len() && flow_of_block(body.drop_first())[k]
                == leaf;
        let off = flow_of_stmt(body[0]).len();
        assert(flow_of_block(body)[k0 + off] == leaf);
    }
}

/// Law: a non-void function whose whole body is one `if` with a
/// then-branch return but no `else` fails the return-path check, whatever
/// the then-branch holds; adding an `else` branch that returns makes the
/// same function pass.
pub proof fn lemma_if_needs_else(c: ExprModel, then_body: Seq<StmtModel>, i: int)
    requires
        0 <= i < then_body.len(),
        then_body[i] is Return,
    ensures
        !all_paths_return(seq![StmtModel::IfElse(c, then_body, Seq::empty(), None)]),
        all_paths_return(
            seq![
                StmtModel::IfElse(
                    c,
                    then_body,
                    Seq::empty(),
                    Some(seq![StmtModel::Return(None)]),
                ),
            ],
        ),
{
    let s_no = StmtModel::IfElse(c, then_body, Seq::empty(), None);
    let body_no = seq![s_no];
    let children_no = flow_of_block(body_no);
    assert(flow_of_branches(Seq::empty()) =~= Seq::<FlowModel>::empty());
    assert(body_no.drop_first() =~= Seq::<StmtModel>::empty());
    assert(flow_of_block(body_no.drop_first()) =~= Seq::<FlowModel>::empty());
    assert(body_no[0] == s_no);
    let if_node = FlowModel {
        children: flow_of_block(then_body),
        name: "if"@,
        has_return: false,
    };
    let else_node = FlowModel { children: Seq::empty(), name: "else"@, has_return: false };
    assert(flow_of_stmt(s_no) =~= seq![if_node, else_node]);
    assert(children_no =~= seq![if_node, else_node]);
    assert(!dfs_spec(else_node));
    assert(!dfs_spec(root_flow(body_no)));

    let else_body = seq![StmtModel::Return(None)];
    let s_yes = StmtModel::IfElse(c, then_body, Seq::empty(), Some(else_body));
    let body_yes = seq![s_yes];
    assert(body_yes.drop_first() =~= Seq::<StmtModel>::empty());
    assert(flow_of_block(body_yes.drop_first()) =~= Seq::<FlowModel>::empty());
    assert(body_yes[0] == s_yes);
    let else_node_yes = FlowModel {
        children: flow_of_block(else_body),
        name: "else"@,
        has_return: false,
    };
    let children_yes = flow_of_block(body_yes);
    assert(flow_of_stmt(s_yes) =~= seq![if_node, else_node_yes]);
    assert(children_yes =~= seq![if_node, else_node_yes]);
    lemma_block_with_return(then_body, i);
    lemma_block_with_return(else_body, 0);
    assert(dfs_spec(if_node));
    assert(dfs_spec(else_node_yes));
    assert(forall|k: int|
        0 <= k < children_yes.len() ==> dfs_spec(#[trigger] children_yes[k]));
    assert(dfs_spec(root_flow(body_yes)));
}

} // verus!
