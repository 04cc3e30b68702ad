//! Layers: components that hold trainable parameters and map an input
//! variable to an output variable, composed without the graph knowing them.
//!
//! A model keeps its parameters in one list; a layer names its own by their
//! positions in that list.

use vstd::prelude::*;

use crate::autograd::{
    dot_node, dot_shapes_ok, graph_wf, Graph, NodeModel, Op, Parameter, ParameterModel, Variable,
};
use crate::dims::{lemma_product_2, shape_fits};
use crate::error::{DeviceError, Error};
use crate::optimizer::Sgd;
use crate::tensor::{fill, Tensor, TensorModel};

verus! {

/// Whether every position in `indices` names a well-formed parameter of `params`.
pub open spec fn indices_valid(indices: Seq<usize>, params: Seq<Parameter>) -> bool {
    forall|i: int|
        0 <= i < indices.len() ==> #[trigger] indices[i] < params.len()
            && params[indices[i] as int]@.wf()
}

/// Whether `a` is `b` with possibly more nodes after it.
pub open spec fn extends<T>(a: Seq<T>, b: Seq<T>) -> bool {
    a.len() >= b.len() && a.subrange(0, b.len() as int) == b
}

/// A component that holds trainable parameters.
pub trait Layer {
    /// The positions of the layer's parameters in the model's list.
    spec fn indices(&self) -> Seq<usize>;

    /// The positions of the layer's parameters in the model's list.
    fn parameter_indices(&self) -> (r: Vec<usize>)
        ensures
            r@ == self.indices(),
    ;
}

/// A layer that maps an input variable to an output variable.
pub trait Forward: Layer {
    /// The nodes that `forward` leaves in a graph that held `nodes`, given the
    /// parameters `params` and the input node `x`, and the index of the output
    /// node or the error.
    spec fn forward_spec(&self, nodes: Seq<NodeModel>, params: Seq<Parameter>, x: int) -> (
        Seq<NodeModel>,
        Result<int, Error>,
    );

    /// Records the layer's operations on `x` in `graph`; the graph only grows.
    fn forward(&self, graph: &mut Graph, params: &Vec<Parameter>, x: Variable) -> (r: Result<
        Variable,
        Error,
    >)
        requires
            graph_wf(old(graph)@),
            0 <= x.index() < old(graph)@.len(),
            indices_valid(self.indices(), params@),
        ensures
            graph_wf(final(graph)@),
            extends(final(graph)@, old(graph)@),
            r matches Ok(v) ==> 0 <= v.index() < final(graph)@.len(),
            (final(graph)@, result_index(r)) == self.forward_spec(old(graph)@, params@, x.index()),
    ;
}

/// The index of the output node, or the error.
pub open spec fn result_index(r: Result<Variable, Error>) -> Result<int, Error> {
    match r {
        Ok(v) => Ok(v.index()),
        Err(e) => Err(e),
    }
}

/// Discards the gradients of the layer's parameters before a training step.
pub fn init_parameter_grads<L: Layer>(layer: &L, params: &mut Vec<Parameter>)
    requires
        forall|i: int|
            0 <= i < layer.indices().len() ==> #[trigger] layer.indices()[i] < old(params)@.len(),
    ensures
        final(params)@.len() == old(params)@.len(),
        forall|p: int|
            0 <= p < old(params)@.len() ==> (#[trigger] final(params)@[p])@ == if layer.indices().contains(
                p as usize,
            ) {
                ParameterModel { grad: None, ..old(params)@[p]@ }
            } else {
                old(params)@[p]@
            },
{
    let indices = layer.parameter_indices();
    let mut k: usize = 0;
    while k < indices.len()
        invariant
            k <= indices@.len(),
            indices@ == layer.indices(),
            params@.len() == old(params)@.len(),
            forall|i: int| 0 <= i < indices@.len() ==> #[trigger] indices@[i] < params@.len(),
            forall|p: int|
                0 <= p < params@.len() ==> (#[trigger] params@[p])@ == if exists|j: int|
                    0 <= j < k && #[trigger] indices@[j] == p as usize {
                    ParameterModel { grad: None, ..old(params)@[p]@ }
                } else {
                    old(params)@[p]@
                },
        decreases indices@.len() - k,
    {
        let p = indices[k];
        params[p].init_grad();
        let n = params.len();
        proof {
            assert(params@.len() == n);
            assert forall|q: int| 0 <= q < params@.len() implies (#[trigger] params@[q])@ == if exists|j: int|
                0 <= j < k + 1 && #[trigger] indices@[j] == q as usize {
                ParameterModel { grad: None, ..old(params)@[q]@ }
            } else {
                old(params)@[q]@
            } by {
                if q == p as int {
                    assert(indices@[k as int] == q as usize);
                } else {
                    if exists|j: int| 0 <= j < k + 1 && #[trigger] indices@[j] == q as usize {
                        let j = choose|j: int| 0 <= j < k + 1 && #[trigger] indices@[j] == q as usize;
                        assert(j != k);
                    }
                }
            }
        }
        k += 1;
    }
}

/// What each parameter holds.
pub open spec fn param_models(ps: Seq<Parameter>) -> Seq<ParameterModel> {
    ps.map_values(|p: Parameter| p@)
}

/// The parameters after updating those at `indices`, in order, with
/// `optimizer` at rate `lr`; one without a gradient is left as it is.
pub open spec fn updates_applied(
    ps: Seq<ParameterModel>,
    indices: Seq<usize>,
    optimizer: Sgd,
    lr: i64,
) -> Seq<ParameterModel>
    decreases indices.len(),
{
    if indices.len() == 0 {
        ps
    } else {
        let prev = updates_applied(ps, indices.drop_last(), optimizer, lr);
        let p = indices.last() as int;
        if prev[p].grad is Some {
            prev.update(p, optimizer.updated(prev[p], lr))
        } else {
            prev
        }
    }
}

/// How many of those updates find a gradient.
pub open spec fn updates_count(
    ps: Seq<ParameterModel>,
    indices: Seq<usize>,
    optimizer: Sgd,
    lr: i64,
) -> nat
    decreases indices.len(),
{
    if indices.len() == 0 {
        0
    } else {
        let prev = updates_applied(ps, indices.drop_last(), optimizer, lr);
        let n = updates_count(ps, indices.drop_last(), optimizer, lr);
        if prev[indices.last() as int].grad is Some {
            n + 1
        } else {
            n
        }
    }
}

/// Updates each of the layer's parameters with `optimizer` at rate `lr`;
/// those without a gradient are skipped. Returns how many were updated.
pub fn update<L: Layer>(layer: &L, params: &mut Vec<Parameter>, lr: i64, optimizer: &Sgd) -> (r:
    usize)
    requires
        indices_valid(layer.indices(), old(params)@),
    ensures
        param_models(final(params)@) == updates_applied(
            param_models(old(params)@),
            layer.indices(),
            *optimizer,
            lr,
        ),
        r == updates_count(param_models(old(params)@), layer.indices(), *optimizer, lr),
{
    let indices = layer.parameter_indices();
    let ghost start = param_models(params@);
    let mut count: usize = 0;
    let mut k: usize = 0;
    while k < indices.len()
        invariant
            k <= indices@.len(),
            indices@ == layer.indices(),
            start == param_models(old(params)@),
            params@.len() == old(params)@.len(),
            indices_valid(indices@, params@),
            param_models(params@) == updates_applied(
                start,
                indices@.subrange(0, k as int),
                *optimizer,
                lr,
            ),
            count == updates_count(start, indices@.subrange(0, k as int), *optimizer, lr),
            count <= k,
        decreases indices@.len() - k,
    {
        let p = indices[k];
        let ghost before = params@;
        proof {
            assert(params@[p as int]@.wf());
            assert(indices@.subrange(0, k + 1).drop_last() =~= indices@.subrange(0, k as int));
        }
        let updated = optimizer.update(lr, &mut params[p]);
        if updated {
            count += 1;
        }
        k += 1;
        proof {
            assert(param_models(params@) =~= updates_applied(
                start,
                indices@.subrange(0, k as int),
                *optimizer,
                lr,
            ));
            assert forall|i: int| 0 <= i < indices@.len() implies #[trigger] indices@[i]
                < params@.len() && params@[indices@[i] as int]@.wf() by {
                if indices@[i] != p {
                    assert(params@[indices@[i] as int] == before[indices@[i] as int]);
                }
            }
        }
    }
    proof {
        assert(indices@.subrange(0, k as int) =~= indices@);
    }
    count
}

/// A fully connected layer without bias: `y = x·w` for an `inputs`×`outputs`
/// weight `w`.
#[derive(Clone, Copy, Debug, PartialEq, Eq, Structural)]
pub struct Dense {
    weight: usize,
}

impl Dense {
    /// A layer whose weight, every element `init`, is added to `params`.
    ///
    /// Fails with a device error where the weight has too many elements.
    pub fn new(params: &mut Vec<Parameter>, inputs: usize, outputs: usize, init: i64) -> (r:
        Result<Dense, Error>)
        ensures
            r is Ok <==> shape_fits(seq![inputs, outputs]),
            match r {
                Ok(d) => {
                    &&& final(params)@.len() == old(params)@.len() + 1
                    &&& final(params)@.subrange(0, old(params)@.len() as int) == old(params)@
                    &&& d.indices() == seq![old(params)@.len() as usize]
                    &&& final(params)@[old(params)@.len() as int]@ == (ParameterModel {
                        value: TensorModel {
                            shape: seq![inputs, outputs],
                            data: fill((inputs * outputs) as nat, init),
                        },
                        grad: None,
                        velocity: None,
                    })
                    &&& final(params)@[old(params)@.len() as int]@.wf()
                },
                Err(e) => final(params)@ == old(params)@ && e == Error::Device(
                    DeviceError::AllocationTooLarge,
                ),
            },
    {
        let mut shape: Vec<usize> = Vec::new();
        shape.push(inputs);
        shape.push(outputs);
        proof {
            assert(shape@ =~= seq![inputs, outputs]);
        }
        let value = match Tensor::from_elem(shape, init) {
            Ok(t) => t,
            Err(e) => {
                return Err(e);
            },
        };
        let weight = params.len();
        params.push(Parameter::new(value));
        proof {
            lemma_product_2(inputs, outputs);
            assert(params@.subrange(0, old(params)@.len() as int) =~= old(params)@);
            assert(shape@ =~= seq![inputs, outputs]);
        }
        Ok(Dense { weight })
    }
}

impl Layer for Dense {
    open spec fn indices(&self) -> Seq<usize> {
        seq![self.weight_index()]
    }

    fn parameter_indices(&self) -> (r: Vec<usize>) {
        let mut r: Vec<usize> = Vec::new();
        r.push(self.weight);
        proof {
            assert(r@ =~= seq![self.weight]);
        }
        r
    }
}

impl Dense {
    /// The position of the weight in the model's list.
    pub closed spec fn weight_index(&self) -> usize {
        self.weight
    }

    /// Records the weight and `x·w`.
    ///
    /// Fails with a shape error where `x` is not a matrix with as many columns
    /// as `w` has rows, and with a device error where the product has too
    /// many elements; the weight's node stays recorded.
    pub fn apply(&self, graph: &mut Graph, params: &Vec<Parameter>, x: Variable) -> (r: Result<
        Variable,
        Error,
    >)
        requires
            graph_wf(old(graph)@),
            0 <= x.index() < old(graph)@.len(),
            self.weight_index() < params@.len(),
            params@[self.weight_index() as int]@.wf(),
        ensures
            graph_wf(final(graph)@),
            ({
                let w = old(graph)@.len() as int;
                let with_w = old(graph)@.push(
                    NodeModel {
                        op: Op::Parameter(self.weight_index()),
                        value: params@[self.weight_index() as int]@.value,
                        requires_grad: true,
                    },
                );
                let sx = with_w[x.index()].value.shape;
                let sw = with_w[w].value.shape;
                match r {
                    Ok(v) => {
                        &&& dot_shapes_ok(sx, sw)
                        &&& shape_fits(seq![sx[0], sw[1]])
                        &&& final(graph)@ == with_w.push(dot_node(with_w, x.index(), w))
                        &&& v.index() == w + 1
                    },
                    Err(e) => {
                        &&& final(graph)@ == with_w
                        &&& if !dot_shapes_ok(sx, sw) {
                            e == Error::Shape
                        } else {
                            !shape_fits(seq![sx[0], sw[1]]) && e == Error::Device(
                                DeviceError::AllocationTooLarge,
                            )
                        }
                    },
                }
            }),
    {
        let w = graph.parameter(params, self.weight);
        graph.dot(x, w)
    }
}

impl Forward for Dense {
    /// The weight's node, then `x·w` where the shapes allow it.
    open spec fn forward_spec(&self, nodes: Seq<NodeModel>, params: Seq<Parameter>, x: int) -> (
        Seq<NodeModel>,
        Result<int, Error>,
    ) {
        let w = nodes.len() as int;
        let with_w = nodes.push(
            NodeModel {
                op: Op::Parameter(self.weight_index()),
                value: params[self.weight_index() as int]@.value,
                requires_grad: true,
            },
        );
        let sx = with_w[x].value.shape;
        let sw = with_w[w].value.shape;
        if !dot_shapes_ok(sx, sw) {
            (with_w, Err(Error::Shape))
        } else if !shape_fits(seq![sx[0], sw[1]]) {
            (with_w, Err(Error::Device(DeviceError::AllocationTooLarge)))
        } else {
            (with_w.push(dot_node(with_w, x, w)), Ok(w + 1))
        }
    }

    /// Records `x·w`; fails with a shape error where `x` is not a matrix
    /// with as many columns as `w` has rows.
    fn forward(&self, graph: &mut Graph, params: &Vec<Parameter>, x: Variable) -> (r: Result<
        Variable,
        Error,
    >) {
        proof {
            assert(self.indices()[0] == self.weight);
        }
        let r = self.apply(graph, params, x);
        proof {
            assert(graph@.subrange(0, old(graph)@.len() as int) =~= old(graph)@);
        }
        r
    }
}

/// Two layers applied in sequence.
pub struct Chain<A, B> {
    pub first: A,
    pub second: B,
}

impl<A: Layer, B: Layer> Layer for Chain<A, B> {
    open spec fn indices(&self) -> Seq<usize> {
        self.first.indices() + self.second.indices()
    }

    fn parameter_indices(&self) -> (r: Vec<usize>) {
        let mut r = self.first.parameter_indices();
        let mut s = self.second.parameter_indices();
        r.append(&mut s);
        r
    }
}

impl<A: Forward, B: Forward> Forward for Chain<A, B> {
    /// `first`'s nodes and error where it fails; else `second`'s nodes and
    /// result, run on `first`'s graph and output.
    open spec fn forward_spec(&self, nodes: Seq<NodeModel>, params: Seq<Parameter>, x: int) -> (
        Seq<NodeModel>,
        Result<int, Error>,
    ) {
        let (mid, first) = self.first.forward_spec(nodes, params, x);
        match first {
            Err(e) => (mid, Err(e)),
            Ok(y) => self.second.forward_spec(mid, params, y),
        }
    }

    fn forward(&self, graph: &mut Graph, params: &Vec<Parameter>, x: Variable) -> (r: Result<
        Variable,
        Error,
    >) {
        proof {
            let fi = self.first.indices();
            let si = self.second.indices();
            assert forall|i: int| 0 <= i < fi.len() implies #[trigger] fi[i] < params@.len()
                && params@[fi[i] as int]@.wf() by {
                assert(self.indices()[i] == fi[i]);
            }
            assert forall|i: int| 0 <= i < si.len() implies #[trigger] si[i] < params@.len()
                && params@[si[i] as int]@.wf() by {
                assert(self.indices()[fi.len() + i] == si[i]);
            }
        }
        let y = match self.first.forward(graph, params, x) {
            Ok(y) => y,
            Err(e) => {
                return Err(e);
            },
        };
        let ghost mid = graph@;
        let r = self.second.forward(graph, params, y);
        proof {
            assert(graph@.subrange(0, old(graph)@.len() as int) =~= mid.subrange(
                0,
                old(graph)@.len() as int,
            ));
        }
        r
    }
}

} // verus!
