//! Reverse-mode automatic differentiation.
//!
//! A [`Graph`] records each operation of a forward pass as a node that names
//! its inputs. A node is always created after its inputs, so visiting nodes
//! from the last created to the first visits every node after all of its
//! consumers: each node's gradient is complete before it is passed on.
//! Gradients from several consumers are summed, never overwritten, and a
//! gradient slot is allocated the first time something is added to it.

use vstd::prelude::*;

use crate::dims::{lemma_product_2, product, shape_fits, shape_size};
use crate::error::{DeviceError, Error};
use crate::ops::shapes_equal;
use crate::tensor::{
    add_elems, add_vec, fill, fill_vec, matmul, matmul_spec, sum_elems, sum_vec, Tensor,
    TensorModel,
};

verus! {

/// How a node was computed from earlier nodes.
#[derive(Clone, Copy, Debug, PartialEq, Eq, Structural)]
pub enum Op {
    /// A value given from outside.
    Input,
    /// The value of the parameter with this index.
    Parameter(usize),
    /// The elementwise sum of two nodes of one shape.
    Add(usize, usize),
    /// The sum of all elements of a node, as a scalar.
    Sum(usize),
    /// The matrix product of an `m`×`k` node and a `k`×`n` node.
    Dot(usize, usize),
}

/// What a node holds.
pub struct NodeModel {
    pub op: Op,
    pub value: TensorModel,
    pub requires_grad: bool,
}

/// A handle to a node of a graph.
#[derive(Clone, Copy, Debug, PartialEq, Eq, Structural)]
pub struct Variable {
    id: usize,
}

impl Variable {
    /// The position of the node in its graph.
    pub closed spec fn index(self) -> int {
        self.id as int
    }

    /// The position of the node in its graph.
    pub fn id(&self) -> (r: usize)
        ensures
            r == self.index(),
    {
        self.id
    }
}

/// Whether node `c` is consistent with the nodes before it: its inputs come
/// earlier, its shape follows from theirs, and it requires a gradient exactly
/// where one of its inputs does (a parameter always does).
pub open spec fn node_ok(nodes: Seq<NodeModel>, c: int) -> bool {
    let n = nodes[c];
    &&& n.value.wf()
    &&& match n.op {
        Op::Input => true,
        Op::Parameter(_) => n.requires_grad,
        Op::Add(a, b) => {
            &&& a < c
            &&& b < c
            &&& nodes[a as int].value.shape == n.value.shape
            &&& nodes[b as int].value.shape == n.value.shape
            &&& n.requires_grad == (nodes[a as int].requires_grad || nodes[b as int].requires_grad)
        },
        Op::Sum(a) => {
            &&& a < c
            &&& n.value.shape == Seq::<usize>::empty()
            &&& n.requires_grad == nodes[a as int].requires_grad
        },
        Op::Dot(a, b) => {
            &&& a < c
            &&& b < c
            &&& nodes[a as int].value.shape.len() == 2
            &&& nodes[b as int].value.shape.len() == 2
            &&& nodes[a as int].value.shape[1] == nodes[b as int].value.shape[0]
            &&& n.value.shape == seq![nodes[a as int].value.shape[0], nodes[b as int].value.shape[1]]
            &&& n.requires_grad == (nodes[a as int].requires_grad || nodes[b as int].requires_grad)
        },
    }
}

/// Every node is consistent with the nodes before it.
pub open spec fn graph_wf(nodes: Seq<NodeModel>) -> bool {
    forall|c: int| 0 <= c < nodes.len() ==> #[trigger] node_ok(nodes, c)
}

/// The node that edge `e` of an operation leads to.
pub open spec fn edge_input(op: Op, e: int) -> int {
    match op {
        Op::Add(a, b) => if e == 0 {
            a as int
        } else {
            b as int
        },
        Op::Dot(a, b) => if e == 0 {
            a as int
        } else {
            b as int
        },
        Op::Sum(a) => a as int,
        _ => 0,
    }
}

/// The gradient that edge `e` of node `c` passes to its input, given the
/// gradient `g` of node `c`.
pub open spec fn contribution(nodes: Seq<NodeModel>, c: int, e: int, g: Seq<i64>) -> Seq<i64> {
    match nodes[c].op {
        Op::Add(_, _) => g,
        Op::Sum(a) => fill(nodes[a as int].value.data.len(), g[0]),
        Op::Dot(a, b) => {
            let m = nodes[a as int].value.shape[0] as nat;
            let k = nodes[a as int].value.shape[1] as nat;
            let n = nodes[b as int].value.shape[1] as nat;
            if e == 0 {
                matmul_spec(g, false, nodes[b as int].value.data, true, m, n, k)
            } else {
                matmul_spec(nodes[a as int].value.data, true, g, false, k, m, n)
            }
        },
        _ => Seq::empty(),
    }
}

/// The gradient slots during a backward pass: one per node, one per parameter.
pub struct GradState {
    pub nodes: Seq<Option<Seq<i64>>>,
    pub params: Seq<Option<Seq<i64>>>,
}

/// Adds `x` into a gradient slot, allocating the slot if it is absent.
pub open spec fn accumulate(slot: Option<Seq<i64>>, x: Seq<i64>) -> Option<Seq<i64>> {
    match slot {
        None => Some(x),
        Some(s) => Some(add_elems(s, x)),
    }
}

/// Passes the gradient `g` of node `c` along its edge `e`, where the input
/// requires a gradient.
pub open spec fn push_edge(nodes: Seq<NodeModel>, st: GradState, c: int, e: int, g: Seq<i64>) -> GradState {
    let i = edge_input(nodes[c].op, e);
    if nodes[i].requires_grad {
        GradState {
            nodes: st.nodes.update(i, accumulate(st.nodes[i], contribution(nodes, c, e, g))),
            params: st.params,
        }
    } else {
        st
    }
}

/// Visits node `c`: its gradient, where it has one, goes along each of its
/// edges in order, or into its parameter's slot.
pub open spec fn step(nodes: Seq<NodeModel>, st: GradState, c: int) -> GradState {
    match st.nodes[c] {
        None => st,
        Some(g) => match nodes[c].op {
            Op::Input => st,
            Op::Parameter(p) => GradState {
                nodes: st.nodes,
                params: st.params.update(p as int, accumulate(st.params[p as int], g)),
            },
            Op::Sum(_) => push_edge(nodes, st, c, 0, g),
            _ => push_edge(nodes, push_edge(nodes, st, c, 0, g), c, 1, g),
        },
    }
}

/// The slots after visiting nodes `root`, `root - 1`, ..., `c`, starting from `st0`.
pub open spec fn run(nodes: Seq<NodeModel>, root: int, st0: GradState, c: int) -> GradState
    decreases root + 1 - c,
{
    if c > root {
        st0
    } else {
        step(nodes, run(nodes, root, st0, c + 1), c)
    }
}

/// The slots before a backward pass from `root`: the seed 1 at the root, and
/// the parameters' gradients as they stand.
pub open spec fn seed_state(n: nat, root: int, params: Seq<Option<Seq<i64>>>) -> GradState {
    GradState {
        nodes: Seq::new(n, |i: int| if i == root { Some(seq![1i64]) } else { None }),
        params,
    }
}

/// The slots after a backward pass from `root`.
pub open spec fn backward_spec(
    nodes: Seq<NodeModel>,
    root: int,
    params: Seq<Option<Seq<i64>>>,
) -> GradState {
    run(nodes, root, seed_state(nodes.len(), root, params), 0)
}

/// Whether a backward pass may start at `root`: a scalar that requires a gradient.
pub open spec fn is_backward_target(nodes: Seq<NodeModel>, root: int) -> bool {
    &&& 0 <= root < nodes.len()
    &&& nodes[root].requires_grad
    &&& nodes[root].value.data.len() == 1
}

/// Every parameter node names a parameter, and has its number of elements.
pub open spec fn params_match(nodes: Seq<NodeModel>, plens: Seq<nat>) -> bool {
    forall|c: int|
        0 <= c < nodes.len() ==> match #[trigger] nodes[c].op {
            Op::Parameter(p) => p < plens.len() && nodes[c].value.data.len() == plens[p as int],
            _ => true,
        }
}

/// Every present slot has the length of what it belongs to.
pub open spec fn slots_fit(nodes: Seq<NodeModel>, plens: Seq<nat>, st: GradState) -> bool {
    &&& st.nodes.len() == nodes.len()
    &&& st.params.len() == plens.len()
    &&& forall|i: int|
        0 <= i < st.nodes.len() && #[trigger] st.nodes[i] is Some ==> st.nodes[i]->Some_0.len()
            == nodes[i].value.data.len()
    &&& forall|p: int|
        0 <= p < st.params.len() && #[trigger] st.params[p] is Some ==> st.params[p]->Some_0.len()
            == plens[p]
}

/// What a sequence of gradient slots holds.
pub open spec fn slot_models(v: Seq<Option<Vec<i64>>>) -> Seq<Option<Seq<i64>>> {
    Seq::new(
        v.len(),
        |i: int|
            match v[i] {
                Some(x) => Some(x@),
                None => None,
            },
    )
}

struct Node {
    op: Op,
    value: Tensor,
    requires_grad: bool,
}

impl View for Node {
    type V = NodeModel;

    closed spec fn view(&self) -> NodeModel {
        NodeModel { op: self.op, value: self.value@, requires_grad: self.requires_grad }
    }
}

/// The record of a forward pass.
pub struct Graph {
    nodes: Vec<Node>,
}

impl View for Graph {
    type V = Seq<NodeModel>;

    closed spec fn view(&self) -> Seq<NodeModel> {
        self.nodes@.map_values(|n: Node| n@)
    }
}

/// A trainable value: the value, its gradient (absent until a backward pass
/// adds to it) and the optimizer's velocity (absent until first used).
pub struct Parameter {
    value: Tensor,
    grad: Option<Vec<i64>>,
    velocity: Option<Vec<i64>>,
}

/// What a parameter holds.
pub struct ParameterModel {
    pub value: TensorModel,
    pub grad: Option<Seq<i64>>,
    pub velocity: Option<Seq<i64>>,
}

impl ParameterModel {
    /// The value is well formed, and the gradient and velocity, where present,
    /// have as many elements as the value.
    pub open spec fn wf(self) -> bool {
        &&& self.value.wf()
        &&& self.grad matches Some(g) ==> g.len() == self.value.data.len()
        &&& self.velocity matches Some(v) ==> v.len() == self.value.data.len()
    }
}

impl View for Parameter {
    type V = ParameterModel;

    closed spec fn view(&self) -> ParameterModel {
        ParameterModel {
            value: self.value@,
            grad: match self.grad {
                Some(g) => Some(g@),
                None => None,
            },
            velocity: match self.velocity {
                Some(v) => Some(v@),
                None => None,
            },
        }
    }
}

/// The number of elements of each parameter.
pub open spec fn param_lens(ps: Seq<Parameter>) -> Seq<nat> {
    Seq::new(ps.len(), |p: int| ps[p]@.value.data.len())
}

/// The gradient slot of each parameter.
pub open spec fn param_grads(ps: Seq<Parameter>) -> Seq<Option<Seq<i64>>> {
    Seq::new(ps.len(), |p: int| ps[p]@.grad)
}

fn copy_slot(s: &Option<Vec<i64>>) -> (r: Option<Vec<i64>>)
    ensures
        match s {
            Some(x) => r matches Some(y) && y@ == x@,
            None => r is None,
        },
{
    match s {
        Some(x) => Some(x.clone()),
        None => None,
    }
}

impl Parameter {
    /// A parameter with value `value`, no gradient and no velocity.
    pub fn new(value: Tensor) -> (r: Parameter)
        ensures
            r@ == (ParameterModel { value: value@, grad: None, velocity: None }),
    {
        Parameter { value, grad: None, velocity: None }
    }

    /// The value.
    pub fn value(&self) -> (r: &Tensor)
        ensures
            r@ == self@.value,
    {
        &self.value
    }

    /// The gradient, where a backward pass has added one.
    pub fn grad(&self) -> (r: Option<Vec<i64>>)
        ensures
            match self@.grad {
                Some(g) => r matches Some(x) && x@ == g,
                None => r is None,
            },
    {
        copy_slot(&self.grad)
    }

    /// The optimizer's velocity, where it has used one.
    pub fn velocity(&self) -> (r: Option<Vec<i64>>)
        ensures
            match self@.velocity {
                Some(v) => r matches Some(x) && x@ == v,
                None => r is None,
            },
    {
        copy_slot(&self.velocity)
    }

    /// Discards the gradient, so that the next backward pass starts afresh.
    pub fn init_grad(&mut self)
        ensures
            final(self)@ == (ParameterModel { grad: None, ..old(self)@ }),
    {
        self.grad = None;
    }

    /// Replaces the elements of the value, keeping its shape, and the velocity.
    pub(crate) fn set_value_and_velocity(&mut self, data: Vec<i64>, velocity: Option<Vec<i64>>)
        requires
            data@.len() == old(self)@.value.data.len(),
            old(self)@.value.wf(),
        ensures
            final(self)@ == (ParameterModel {
                value: TensorModel { shape: old(self)@.value.shape, data: data@ },
                grad: old(self)@.grad,
                velocity: match velocity {
                    Some(v) => Some(v@),
                    None => None,
                },
            }),
    {
        let dim = self.value.raw_dim();
        self.value = Tensor::from_parts(dim, data);
        self.velocity = velocity;
    }

    fn set_grad(&mut self, grad: Option<Vec<i64>>)
        ensures
            final(self)@ == (ParameterModel {
                grad: match grad {
                    Some(g) => Some(g@),
                    None => None,
                },
                ..old(self)@
            }),
    {
        self.grad = grad;
    }
}

/// The node that adds nodes `a` and `b` of `nodes` elementwise.
pub open spec fn add_node(nodes: Seq<NodeModel>, a: int, b: int) -> NodeModel {
    NodeModel {
        op: Op::Add(a as usize, b as usize),
        value: TensorModel {
            shape: nodes[a].value.shape,
            data: add_elems(nodes[a].value.data, nodes[b].value.data),
        },
        requires_grad: nodes[a].requires_grad || nodes[b].requires_grad,
    }
}

/// The node that sums the elements of node `a` of `nodes`.
pub open spec fn sum_node(nodes: Seq<NodeModel>, a: int) -> NodeModel {
    NodeModel {
        op: Op::Sum(a as usize),
        value: TensorModel { shape: Seq::empty(), data: seq![sum_elems(nodes[a].value.data)] },
        requires_grad: nodes[a].requires_grad,
    }
}

/// Whether nodes with shapes `sa` and `sb` can be multiplied as matrices.
pub open spec fn dot_shapes_ok(sa: Seq<usize>, sb: Seq<usize>) -> bool {
    sa.len() == 2 && sb.len() == 2 && sa[1] == sb[0]
}

/// The node that multiplies nodes `a` and `b` of `nodes` as matrices.
pub open spec fn dot_node(nodes: Seq<NodeModel>, a: int, b: int) -> NodeModel {
    let sa = nodes[a].value.shape;
    let sb = nodes[b].value.shape;
    NodeModel {
        op: Op::Dot(a as usize, b as usize),
        value: TensorModel {
            shape: seq![sa[0], sb[1]],
            data: matmul_spec(
                nodes[a].value.data,
                false,
                nodes[b].value.data,
                false,
                sa[0] as nat,
                sa[1] as nat,
                sb[1] as nat,
            ),
        },
        requires_grad: nodes[a].requires_grad || nodes[b].requires_grad,
    }
}

proof fn lemma_push_wf(nodes: Seq<NodeModel>, n: NodeModel)
    requires
        graph_wf(nodes),
        node_ok(nodes.push(n), nodes.len() as int),
    ensures
        graph_wf(nodes.push(n)),
{
    let s = nodes.push(n);
    assert forall|c: int| 0 <= c < s.len() implies #[trigger] node_ok(s, c) by {
        if c < nodes.len() {
            assert(node_ok(nodes, c));
        }
    }
}

/// The gradients of the nodes of a graph after a backward pass.
pub struct Gradients {
    grads: Vec<Option<Vec<i64>>>,
}

impl View for Gradients {
    type V = Seq<Option<Seq<i64>>>;

    closed spec fn view(&self) -> Seq<Option<Seq<i64>>> {
        slot_models(self.grads@)
    }
}

impl Gradients {
    /// The number of nodes.
    pub fn len(&self) -> (r: usize)
        ensures
            r == self@.len(),
    {
        self.grads.len()
    }

    /// The gradient of `v`, where the pass reached it.
    pub fn get(&self, v: Variable) -> (r: Option<Vec<i64>>)
        ensures
            v.index() < self@.len() ==> match self@[v.index()] {
                Some(g) => r matches Some(x) && x@ == g,
                None => r is None,
            },
            v.index() >= self@.len() ==> r is None,
    {
        if v.id < self.grads.len() {
            copy_slot(&self.grads[v.id])
        } else {
            None
        }
    }
}

proof fn lemma_slot(v: Seq<Option<Vec<i64>>>, i: int)
    requires
        0 <= i < v.len(),
    ensures
        match v[i] {
            Some(x) => slot_models(v)[i] == Some(x@),
            None => slot_models(v)[i] is None,
        },
{
}

fn accumulate_into(slots: &mut Vec<Option<Vec<i64>>>, i: usize, x: Vec<i64>)
    requires
        i < old(slots)@.len(),
        old(slots)@[i as int] matches Some(s) ==> s@.len() == x@.len(),
    ensures
        final(slots)@.len() == old(slots)@.len(),
        slot_models(final(slots)@) == slot_models(old(slots)@).update(
            i as int,
            accumulate(slot_models(old(slots)@)[i as int], x@),
        ),
{
    let next = match &slots[i] {
        Some(s) => add_vec(s.as_slice(), x.as_slice()),
        None => x,
    };
    slots[i] = Some(next);
    proof {
        assert(slot_models(slots@) =~= slot_models(old(slots)@).update(
            i as int,
            accumulate(slot_models(old(slots)@)[i as int], x@),
        ));
    }
}

impl Graph {
    /// A graph with no nodes.
    pub fn new() -> (r: Graph)
        ensures
            r@ == Seq::<NodeModel>::empty(),
            graph_wf(r@),
    {
        let g = Graph { nodes: Vec::new() };
        proof {
            assert(g@ =~= Seq::<NodeModel>::empty());
        }
        g
    }

    /// The number of nodes.
    pub fn len(&self) -> (r: usize)
        ensures
            r == self@.len(),
    {
        self.nodes.len()
    }

    /// The value of `v`.
    pub fn value(&self, v: Variable) -> (r: &Tensor)
        requires
            0 <= v.index() < self@.len(),
        ensures
            r@ == self@[v.index()].value,
    {
        &self.nodes[v.id].value
    }

    /// Whether `v` requires a gradient.
    pub fn requires_grad(&self, v: Variable) -> (r: bool)
        requires
            0 <= v.index() < self@.len(),
        ensures
            r == self@[v.index()].requires_grad,
    {
        self.nodes[v.id].requires_grad
    }

    fn push_node(&mut self, op: Op, value: Tensor, requires_grad: bool) -> (r: Variable)
        ensures
            final(self)@ == old(self)@.push(NodeModel { op, value: value@, requires_grad }),
            r.index() == old(self)@.len(),
    {
        let id = self.nodes.len();
        self.nodes.push(Node { op, value, requires_grad });
        proof {
            assert(self@ =~= old(self)@.push(NodeModel { op, value: value@, requires_grad }));
        }
        Variable { id }
    }

    /// Records a value given from outside; with `requires_grad` its gradient
    /// is computed by a backward pass.
    pub fn input(&mut self, value: Tensor, requires_grad: bool) -> (r: Variable)
        requires
            graph_wf(old(self)@),
            value@.wf(),
        ensures
            graph_wf(final(self)@),
            final(self)@ == old(self)@.push(
                NodeModel { op: Op::Input, value: value@, requires_grad },
            ),
            r.index() == old(self)@.len(),
    {
        let ghost n = NodeModel { op: Op::Input, value: value@, requires_grad };
        let r = self.push_node(Op::Input, value, requires_grad);
        proof {
            lemma_push_wf(old(self)@, n);
        }
        r
    }

    /// Records the value of parameter `p`: a backward pass adds the gradient
    /// of this node into that parameter's gradient.
    pub fn parameter(&mut self, params: &Vec<Parameter>, p: usize) -> (r: Variable)
        requires
            graph_wf(old(self)@),
            p < params@.len(),
            params@[p as int]@.wf(),
        ensures
            graph_wf(final(self)@),
            final(self)@ == old(self)@.push(
                NodeModel {
                    op: Op::Parameter(p),
                    value: params@[p as int]@.value,
                    requires_grad: true,
                },
            ),
            r.index() == old(self)@.len(),
    {
        let value = params[p].value().clone();
        let ghost n = NodeModel { op: Op::Parameter(p), value: value@, requires_grad: true };
        let r = self.push_node(Op::Parameter(p), value, true);
        proof {
            lemma_push_wf(old(self)@, n);
        }
        r
    }

    /// Records the elementwise sum of `a` and `b`.
    ///
    /// Fails with a shape error, recording nothing, where their shapes differ.
    pub fn add(&mut self, a: Variable, b: Variable) -> (r: Result<Variable, Error>)
        requires
            graph_wf(old(self)@),
            0 <= a.index() < old(self)@.len(),
            0 <= b.index() < old(self)@.len(),
        ensures
            graph_wf(final(self)@),
            match r {
                Ok(v) => {
                    &&& old(self)@[a.index()].value.shape == old(self)@[b.index()].value.shape
                    &&& final(self)@ == old(self)@.push(add_node(old(self)@, a.index(), b.index()))
                    &&& v.index() == old(self)@.len()
                },
                Err(e) => {
                    &&& old(self)@[a.index()].value.shape != old(self)@[b.index()].value.shape
                    &&& e == Error::Shape
                    &&& final(self)@ == old(self)@
                },
            },
    {
        let na = &self.nodes[a.id];
        let nb = &self.nodes[b.id];
        if !shapes_equal(na.value.shape(), nb.value.shape()) {
            return Err(Error::Shape);
        }
        proof {
            assert(node_ok(self@, a.index()));
            assert(node_ok(self@, b.index()));
        }
        let data = add_vec(na.value.as_slice(), nb.value.as_slice());
        let value = Tensor::from_parts(na.value.raw_dim(), data);
        let requires_grad = na.requires_grad || nb.requires_grad;
        let ghost n = add_node(old(self)@, a.index(), b.index());
        let r = self.push_node(Op::Add(a.id, b.id), value, requires_grad);
        proof {
            lemma_push_wf(old(self)@, n);
        }
        Ok(r)
    }

    /// Records the sum of all elements of `a`, a scalar.
    pub fn sum(&mut self, a: Variable) -> (r: Variable)
        requires
            graph_wf(old(self)@),
            0 <= a.index() < old(self)@.len(),
        ensures
            graph_wf(final(self)@),
            final(self)@ == old(self)@.push(sum_node(old(self)@, a.index())),
            r.index() == old(self)@.len(),
    {
        let na = &self.nodes[a.id];
        let s = sum_vec(na.value.as_slice());
        let mut data: Vec<i64> = Vec::new();
        data.push(s);
        let value = Tensor::from_parts(Vec::new(), data);
        let requires_grad = na.requires_grad;
        let ghost n = sum_node(old(self)@, a.index());
        let r = self.push_node(Op::Sum(a.id), value, requires_grad);
        proof {
            assert(data@ =~= seq![s]);
            lemma_push_wf(old(self)@, n);
        }
        r
    }

    /// Records the matrix product of `a` (`m`×`k`) and `b` (`k`×`n`).
    ///
    /// Fails, recording nothing, with a shape error where the shapes do not
    /// allow the product, and with a device error where the `m`×`n` result
    /// has too many elements.
    pub fn dot(&mut self, a: Variable, b: Variable) -> (r: Result<Variable, Error>)
        requires
            graph_wf(old(self)@),
            0 <= a.index() < old(self)@.len(),
            0 <= b.index() < old(self)@.len(),
        ensures
            graph_wf(final(self)@),
            ({
                let sa = old(self)@[a.index()].value.shape;
                let sb = old(self)@[b.index()].value.shape;
                match r {
                    Ok(v) => {
                        &&& dot_shapes_ok(sa, sb)
                        &&& shape_fits(seq![sa[0], sb[1]])
                        &&& final(self)@ == old(self)@.push(
                            dot_node(old(self)@, a.index(), b.index()),
                        )
                        &&& v.index() == old(self)@.len()
                    },
                    Err(e) => {
                        &&& final(self)@ == old(self)@
                        &&& if !dot_shapes_ok(sa, sb) {
                            e == Error::Shape
                        } else {
                            !shape_fits(seq![sa[0], sb[1]]) && e == Error::Device(
                                DeviceError::AllocationTooLarge,
                            )
                        }
                    },
                }
            }),
    {
        let na = &self.nodes[a.id];
        let nb = &self.nodes[b.id];
        let sa = na.value.shape();
        let sb = nb.value.shape();
        if sa.len() != 2 || sb.len() != 2 || sa[1] != sb[0] {
            return Err(Error::Shape);
        }
        let m = sa[0];
        let k = sa[1];
        let n = sb[1];
        let mut dim: Vec<usize> = Vec::new();
        dim.push(m);
        dim.push(n);
        proof {
            assert(dim@ =~= seq![m, n]);
            assert(node_ok(self@, a.index()));
            assert(node_ok(self@, b.index()));
            assert(self@[a.index()].value.shape =~= seq![m, k]);
            assert(self@[b.index()].value.shape =~= seq![k, n]);
            lemma_product_2(m, k);
            lemma_product_2(k, n);
            lemma_product_2(m, n);
        }
        match shape_size(&dim) {
            Some(_) => {},
            None => {
                return Err(Error::Device(DeviceError::AllocationTooLarge));
            },
        }
        let data = matmul(na.value.as_slice(), false, nb.value.as_slice(), false, m, k, n);
        let value = Tensor::from_parts(dim, data);
        let requires_grad = na.requires_grad || nb.requires_grad;
        let ghost nd = dot_node(old(self)@, a.index(), b.index());
        let r = self.push_node(Op::Dot(a.id, b.id), value, requires_grad);
        proof {
            lemma_push_wf(old(self)@, nd);
        }
        Ok(r)
    }

    /// Visits node `c` of a backward pass.
    fn process(
        &self,
        c: usize,
        grads: &mut Vec<Option<Vec<i64>>>,
        pgrads: &mut Vec<Option<Vec<i64>>>,
        Ghost(plens): Ghost<Seq<nat>>,
    )
        requires
            graph_wf(self@),
            c < self@.len(),
            params_match(self@, plens),
            slots_fit(
                self@,
                plens,
                GradState { nodes: slot_models(old(grads)@), params: slot_models(old(pgrads)@) },
            ),
        ensures
            ({
                let before = GradState {
                    nodes: slot_models(old(grads)@),
                    params: slot_models(old(pgrads)@),
                };
                let after = GradState {
                    nodes: slot_models(final(grads)@),
                    params: slot_models(final(pgrads)@),
                };
                &&& after == step(self@, before, c as int)
                &&& slots_fit(self@, plens, after)
            }),
    {
        let ghost nodes = self@;
        assert(node_ok(nodes, c as int));
        let g = match &grads[c] {
            Some(g) => g.clone(),
            None => {
                return;
            },
        };
        match self.nodes[c].op {
            Op::Input => {},
            Op::Parameter(p) => {
                proof {
                    lemma_slot(pgrads@, p as int);
                }
                accumulate_into(pgrads, p, g);
            },
            Op::Sum(a) => {
                let na = &self.nodes[a];
                if na.requires_grad {
                    proof {
                        assert(node_ok(nodes, a as int));
                        assert(g@.len() == product(Seq::<usize>::empty()));
                        lemma_slot(grads@, a as int);
                    }
                    let x = fill_vec(na.value.len(), g[0]);
                    accumulate_into(grads, a, x);
                }
            },
            Op::Add(a, b) => {
                proof {
                    assert(node_ok(nodes, a as int));
                    assert(node_ok(nodes, b as int));
                    lemma_slot(grads@, a as int);
                }
                if self.nodes[a].requires_grad {
                    accumulate_into(grads, a, g.clone());
                }
                proof {
                    lemma_slot(grads@, b as int);
                }
                if self.nodes[b].requires_grad {
                    accumulate_into(grads, b, g);
                }
            },
            Op::Dot(a, b) => {
                let sa = self.nodes[a].value.shape();
                let m = sa[0];
                let k = sa[1];
                let n = self.nodes[b].value.shape()[1];
                proof {
                    assert(node_ok(nodes, a as int));
                    assert(node_ok(nodes, b as int));
                    assert(nodes[a as int].value.shape =~= seq![m, k]);
                    assert(nodes[b as int].value.shape =~= seq![k, n]);
                    assert(nodes[c as int].value.shape =~= seq![m, n]);
                    lemma_product_2(m, k);
                    lemma_product_2(k, n);
                    lemma_product_2(m, n);
                    assert(k * n == n * k) by (nonlinear_arith);
                    assert(m * k == k * m) by (nonlinear_arith);
                }
                if self.nodes[a].requires_grad {
                    let x = matmul(
                        g.as_slice(),
                        false,
                        self.nodes[b].value.as_slice(),
                        true,
                        m,
                        n,
                        k,
                    );
                    proof {
                        lemma_slot(grads@, a as int);
                    }
                    accumulate_into(grads, a, x);
                }
                proof {
                    lemma_slot(grads@, b as int);
                }
                if self.nodes[b].requires_grad {
                    let x = matmul(
                        self.nodes[a].value.as_slice(),
                        true,
                        g.as_slice(),
                        false,
                        k,
                        m,
                        n,
                    );
                    accumulate_into(grads, b, x);
                }
            },
        }
    }

    /// Runs a backward pass from `root`: seeds its gradient with 1, visits
    /// every node from `root` down to the first, and adds the gradient of each
    /// parameter node into that parameter's gradient. Returns the gradient of
    /// every node that the pass reached.
    ///
    /// Fails with an invalid-target error, changing no parameter, unless
    /// `root` is a scalar that requires a gradient.
    pub fn backward(&self, root: Variable, params: &mut Vec<Parameter>) -> (r: Result<
        Gradients,
        Error,
    >)
        requires
            graph_wf(self@),
            params_match(self@, param_lens(old(params)@)),
            forall|p: int| 0 <= p < old(params)@.len() ==> (#[trigger] old(params)@[p])@.wf(),
        ensures
            match r {
                Ok(gs) => {
                    let st = backward_spec(self@, root.index(), param_grads(old(params)@));
                    &&& is_backward_target(self@, root.index())
                    &&& gs@ == st.nodes
                    &&& final(params)@.len() == old(params)@.len()
                    &&& forall|p: int|
                        0 <= p < old(params)@.len() ==> (#[trigger] final(params)@[p])@ == (
                        ParameterModel { grad: st.params[p], ..old(params)@[p]@ })
                },
                Err(e) => {
                    &&& !is_backward_target(self@, root.index())
                    &&& e == Error::InvalidBackwardTarget
                    &&& final(params)@ == old(params)@
                },
            },
    {
        let n = self.nodes.len();
        if root.id >= n || !self.nodes[root.id].requires_grad || self.nodes[root.id].value.len()
            != 1 {
            return Err(Error::InvalidBackwardTarget);
        }
        let ghost nodes = self@;
        let ghost plens = param_lens(params@);
        let ghost st0 = seed_state(nodes.len(), root.index(), param_grads(params@));
        let mut grads: Vec<Option<Vec<i64>>> = Vec::new();
        let mut i: usize = 0;
        while i < n
            invariant
                i <= n == nodes.len(),
                root.index() < n,
                grads@.len() == i,
                forall|j: int|
                    0 <= j < i ==> if j == root.index() {
                        (#[trigger] grads@[j]) matches Some(v) && v@ == seq![1i64]
                    } else {
                        grads@[j] is None
                    },
            decreases n - i,
        {
            if i == root.id {
                let mut one: Vec<i64> = Vec::new();
                one.push(1);
                proof {
                    assert(one@ =~= seq![1i64]);
                }
                grads.push(Some(one));
            } else {
                grads.push(None);
            }
            i += 1;
        }
        let mut pgrads: Vec<Option<Vec<i64>>> = Vec::new();
        let mut q: usize = 0;
        while q < params.len()
            invariant
                q <= params@.len(),
                params@ == old(params)@,
                pgrads@.len() == q,
                forall|j: int|
                    0 <= j < q ==> match params@[j]@.grad {
                        Some(g) => (#[trigger] pgrads@[j]) matches Some(v) && v@ == g,
                        None => pgrads@[j] is None,
                    },
            decreases params@.len() - q,
        {
            let g = params[q].grad();
            pgrads.push(g);
            q += 1;
        }
        proof {
            assert(slot_models(grads@) =~= st0.nodes);
            assert(slot_models(pgrads@) =~= st0.params);
        }
        let mut c: usize = root.id + 1;
        while c > 0
            invariant
                c <= root.index() + 1,
                root.index() < nodes.len(),
                nodes == self@,
                graph_wf(nodes),
                params_match(nodes, plens),
                (GradState { nodes: slot_models(grads@), params: slot_models(pgrads@) }) == run(
                    nodes,
                    root.index(),
                    st0,
                    c as int,
                ),
                slots_fit(
                    nodes,
                    plens,
                    GradState { nodes: slot_models(grads@), params: slot_models(pgrads@) },
                ),
            decreases c,
        {
            self.process(c - 1, &mut grads, &mut pgrads, Ghost(plens));
            c -= 1;
        }
        let ghost st = run(nodes, root.index(), st0, 0);
        let mut p: usize = 0;
        while p < params.len()
            invariant
                p <= params@.len() == old(params)@.len() == pgrads@.len(),
                slot_models(pgrads@) == st.params,
                forall|j: int|
                    0 <= j < params@.len() ==> (#[trigger] params@[j])@ == if j < p {
                        ParameterModel { grad: st.params[j], ..old(params)@[j]@ }
                    } else {
                        old(params)@[j]@
                    },
            decreases params@.len() - p,
        {
            let g = copy_slot(&pgrads[p]);
            params[p].set_grad(g);
            p += 1;
        }
        Ok(Gradients { grads })
    }
}

} // verus!

verus! {

proof fn lemma_run_keeps_param(
    nodes: Seq<NodeModel>,
    root: int,
    st0: GradState,
    c: int,
    p: int,
)
    requires
        0 <= c <= root + 1,
        0 <= p < st0.params.len(),
        forall|i: int|
            0 <= i < nodes.len() ==> match #[trigger] nodes[i].op {
                Op::Parameter(q) => q < st0.params.len() && q != p,
                _ => true,
            },
        root < nodes.len(),
    ensures
        run(nodes, root, st0, c).params.len() == st0.params.len(),
        run(nodes, root, st0, c).params[p] == st0.params[p],
    decreases root + 1 - c,
{
    if c <= root {
        lemma_run_keeps_param(nodes, root, st0, c + 1, p);
    }
}

/// A backward pass leaves the gradient of a parameter that no node of the
/// graph reads as it was: after `init_grad`, it stays absent.
pub proof fn lemma_unreached_parameter_keeps_grad(
    nodes: Seq<NodeModel>,
    root: int,
    grads: Seq<Option<Seq<i64>>>,
    p: int,
)
    requires
        0 <= root < nodes.len(),
        0 <= p < grads.len(),
        forall|i: int|
            0 <= i < nodes.len() ==> match #[trigger] nodes[i].op {
                Op::Parameter(q) => q < grads.len() && q != p,
                _ => true,
            },
    ensures
        backward_spec(nodes, root, grads).params[p] == grads[p],
{
    lemma_run_keeps_param(nodes, root, seed_state(nodes.len(), root, grads), 0, p);
}

/// Gradients from two consumers are summed. Let `x` require a gradient and
/// feed both `f = x·w1` and `g = x·w2`, where `w1` and `w2` do not, and let
/// the scalar loss be `l = f + g`. A backward pass from `l` leaves in `x` the
/// sum of what a pass from `f` alone and a pass from `g` alone leave there.
pub proof fn lemma_gradient_accumulation(nodes: Seq<NodeModel>)
    requires
        graph_wf(nodes),
        nodes.len() == 6,
        nodes[0].op == Op::Input,
        nodes[0].requires_grad,
        nodes[1].op == Op::Input,
        !nodes[1].requires_grad,
        nodes[2].op == Op::Input,
        !nodes[2].requires_grad,
        nodes[3].op == Op::Dot(0, 1),
        nodes[4].op == Op::Dot(0, 2),
        nodes[5].op == Op::Add(3, 4),
    ensures
        ({
            let via_f = backward_spec(nodes, 3, Seq::empty()).nodes[0];
            let via_g = backward_spec(nodes, 4, Seq::empty()).nodes[0];
            let both = backward_spec(nodes, 5, Seq::empty()).nodes[0];
            &&& via_f is Some
            &&& via_g is Some
            &&& both == Some(add_elems(via_f->Some_0, via_g->Some_0))
        }),
{
    assert(node_ok(nodes, 3));
    assert(node_ok(nodes, 4));
    assert(node_ok(nodes, 5));
    let one = seq![1i64];
    let cf = contribution(nodes, 3, 0, one);
    let cg = contribution(nodes, 4, 0, one);
    let e: Seq<Option<Seq<i64>>> = Seq::empty();

    let s0 = seed_state(6, 5, e);
    assert(run(nodes, 5, s0, 6) == s0);
    let a5 = run(nodes, 5, s0, 5);
    assert(a5 == step(nodes, s0, 5));
    assert(s0.nodes[5] == Some(one));
    let a4 = run(nodes, 5, s0, 4);
    assert(a4 == step(nodes, a5, 4));
    assert(a5.nodes[4] == Some(one));
    assert(a5.nodes[3] == Some(one));
    assert(a5.nodes[0] is None);
    assert(a4.nodes[0] == Some(cg));
    assert(a4.nodes[3] == Some(one));
    let a3 = run(nodes, 5, s0, 3);
    assert(a3 == step(nodes, a4, 3));
    assert(a3.nodes[0] == Some(add_elems(cg, cf)));
    let a2 = run(nodes, 5, s0, 2);
    assert(a2 == step(nodes, a3, 2));
    assert(a3.nodes[2] is None);
    let a1 = run(nodes, 5, s0, 1);
    assert(a1 == step(nodes, a2, 1));
    assert(a2.nodes[1] is None);
    let a0 = run(nodes, 5, s0, 0);
    assert(a0 == step(nodes, a1, 0));
    assert(a0.nodes[0] == Some(add_elems(cg, cf)));

    let f0 = seed_state(6, 3, e);
    assert(run(nodes, 3, f0, 4) == f0);
    let b3 = run(nodes, 3, f0, 3);
    assert(b3 == step(nodes, f0, 3));
    assert(f0.nodes[3] == Some(one));
    assert(b3.nodes[0] == Some(cf));
    let b2 = run(nodes, 3, f0, 2);
    assert(b2 == step(nodes, b3, 2));
    let b1 = run(nodes, 3, f0, 1);
    assert(b1 == step(nodes, b2, 1));
    let b0 = run(nodes, 3, f0, 0);
    assert(b0 == step(nodes, b1, 0));
    assert(b0.nodes[0] == Some(cf));

    let g0 = seed_state(6, 4, e);
    assert(run(nodes, 4, g0, 5) == g0);
    let c4 = run(nodes, 4, g0, 4);
    assert(c4 == step(nodes, g0, 4));
    assert(g0.nodes[4] == Some(one));
    assert(c4.nodes[0] == Some(cg));
    let c3 = run(nodes, 4, g0, 3);
    assert(c3 == step(nodes, c4, 3));
    assert(c4.nodes[3] is None);
    let c2 = run(nodes, 4, g0, 2);
    assert(c2 == step(nodes, c3, 2));
    let c1 = run(nodes, 4, g0, 1);
    assert(c1 == step(nodes, c2, 1));
    let c0 = run(nodes, 4, g0, 0);
    assert(c0 == step(nodes, c1, 0));
    assert(c0.nodes[0] == Some(cg));

    assert(add_elems(cg, cf) =~= add_elems(cf, cg));
}

proof fn lemma_run_len(nodes: Seq<NodeModel>, root: int, st0: GradState, c: int)
    requires
        graph_wf(nodes),
        0 <= c <= root + 1,
        root < nodes.len(),
        st0.nodes.len() == nodes.len(),
    ensures
        run(nodes, root, st0, c).nodes.len() == nodes.len(),
    decreases root + 1 - c,
{
    if c <= root {
        lemma_run_len(nodes, root, st0, c + 1);
        assert(node_ok(nodes, c));
    }
}

proof fn lemma_later_visits_keep(nodes: Seq<NodeModel>, root: int, st0: GradState, c: int, j: int)
    requires
        graph_wf(nodes),
        0 <= j <= c,
        c <= root,
        root < nodes.len(),
        st0.nodes.len() == nodes.len(),
    ensures
        run(nodes, root, st0, j).nodes[c] == run(nodes, root, st0, c).nodes[c],
    decreases c - j,
{
    if j < c {
        lemma_later_visits_keep(nodes, root, st0, c, j + 1);
        lemma_run_len(nodes, root, st0, j + 1);
        assert(node_ok(nodes, j));
    }
}

/// Each node passes on its gradient only once every contribution to it has
/// been added: the gradient that node `c` holds when it is visited is the
/// one it holds at the end of the pass.
pub proof fn lemma_visited_gradient_is_final(
    nodes: Seq<NodeModel>,
    root: int,
    params: Seq<Option<Seq<i64>>>,
    c: int,
)
    requires
        graph_wf(nodes),
        0 <= c <= root,
        root < nodes.len(),
    ensures
        backward_spec(nodes, root, params).nodes[c] == run(
            nodes,
            root,
            seed_state(nodes.len(), root, params),
            c + 1,
        ).nodes[c],
{
    let st0 = seed_state(nodes.len(), root, params);
    lemma_later_visits_keep(nodes, root, st0, c, 0);
    lemma_run_len(nodes, root, st0, c + 1);
    assert(node_ok(nodes, c));
}

} // verus!
