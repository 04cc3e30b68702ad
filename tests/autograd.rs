use autograph::autograd::{Graph, Parameter};
use autograph::error::Error;
use autograph::optimizer::Sgd;
use autograph::tensor::Tensor;

fn tensor(shape: Vec<usize>, data: Vec<i64>) -> Tensor {
    Tensor::from_vec(shape, data).unwrap()
}

#[test]
fn dense_gradient_is_outer_product() {
    let mut params = vec![Parameter::new(Tensor::from_elem(vec![3, 2], 1).unwrap())];
    let mut graph = Graph::new();
    let x = graph.input(tensor(vec![1, 3], vec![1, 2, 3]), true);
    let w = graph.parameter(&params, 0);
    let y = graph.dot(x, w).unwrap();
    assert_eq!(graph.value(y).shape(), &[1, 2]);
    assert_eq!(graph.value(y).as_slice(), &[6, 6]);
    let loss = graph.sum(y);
    assert_eq!(graph.value(loss).as_slice(), &[12]);
    let grads = graph.backward(loss, &mut params).unwrap();
    assert_eq!(params[0].grad().unwrap(), vec![1, 1, 2, 2, 3, 3]);
    assert_eq!(grads.get(x).unwrap(), vec![2, 2, 2]);
    assert_eq!(grads.get(w).unwrap(), vec![1, 1, 2, 2, 3, 3]);
}

#[test]
fn two_consumers_sum_their_gradients() {
    let mut params: Vec<Parameter> = Vec::new();
    let mut graph = Graph::new();
    let x = graph.input(tensor(vec![1, 2], vec![5, 7]), true);
    let w1 = graph.input(tensor(vec![2, 1], vec![2, 3]), false);
    let w2 = graph.input(tensor(vec![2, 1], vec![10, -4]), false);
    let f = graph.dot(x, w1).unwrap();
    let g = graph.dot(x, w2).unwrap();
    let l = graph.add(f, g).unwrap();
    let both = graph.backward(l, &mut params).unwrap();
    let via_f = graph.backward(f, &mut params).unwrap();
    let via_g = graph.backward(g, &mut params).unwrap();
    assert_eq!(via_f.get(x).unwrap(), vec![2, 3]);
    assert_eq!(via_g.get(x).unwrap(), vec![10, -4]);
    assert_eq!(both.get(x).unwrap(), vec![12, -1]);
    assert_eq!(both.get(w1), None);
}

#[test]
fn shared_input_in_one_operation_counts_twice() {
    let mut params: Vec<Parameter> = Vec::new();
    let mut graph = Graph::new();
    let x = graph.input(tensor(vec![3], vec![1, 2, 3]), true);
    let y = graph.add(x, x).unwrap();
    let l = graph.sum(y);
    let grads = graph.backward(l, &mut params).unwrap();
    assert_eq!(grads.get(x).unwrap(), vec![2, 2, 2]);
    assert_eq!(grads.get(l).unwrap(), vec![1]);
}

#[test]
fn backward_on_leaf_fails() {
    let mut params = vec![Parameter::new(tensor(vec![1], vec![4]))];
    let mut graph = Graph::new();
    let x = graph.input(tensor(vec![1], vec![3]), false);
    let w = graph.parameter(&params, 0);
    let _ = graph.add(x, w).unwrap();
    assert_eq!(graph.backward(x, &mut params).err(), Some(Error::InvalidBackwardTarget));
    assert_eq!(params[0].grad(), None);
}

#[test]
fn backward_on_non_scalar_fails() {
    let mut params = vec![Parameter::new(tensor(vec![2], vec![4, 5]))];
    let mut graph = Graph::new();
    let w = graph.parameter(&params, 0);
    let x = graph.input(tensor(vec![2], vec![1, 1]), false);
    let y = graph.add(w, x).unwrap();
    assert!(graph.requires_grad(y));
    assert_eq!(graph.backward(y, &mut params).err(), Some(Error::InvalidBackwardTarget));
    assert_eq!(params[0].grad(), None);
}

#[test]
fn unused_parameter_keeps_no_gradient_and_is_skipped() {
    let mut params = vec![
        Parameter::new(tensor(vec![2], vec![1, 2])),
        Parameter::new(tensor(vec![2], vec![7, 8])),
    ];
    for p in params.iter_mut() {
        p.init_grad();
    }
    let mut graph = Graph::new();
    let a = graph.parameter(&params, 0);
    let l = graph.sum(a);
    graph.backward(l, &mut params).unwrap();
    assert_eq!(params[0].grad(), Some(vec![1, 1]));
    assert_eq!(params[1].grad(), None);
    let sgd = Sgd::new();
    assert!(sgd.update(3, &mut params[0]));
    assert_eq!(params[0].value().as_slice(), &[-2, -1]);
    assert!(!sgd.update(3, &mut params[1]));
    assert_eq!(params[1].value().as_slice(), &[7, 8]);
}

#[test]
fn gradients_accumulate_across_passes_until_reset() {
    let mut params = vec![Parameter::new(tensor(vec![2], vec![1, 2]))];
    let mut graph = Graph::new();
    let a = graph.parameter(&params, 0);
    let l = graph.sum(a);
    graph.backward(l, &mut params).unwrap();
    graph.backward(l, &mut params).unwrap();
    assert_eq!(params[0].grad(), Some(vec![2, 2]));
    params[0].init_grad();
    assert_eq!(params[0].grad(), None);
}

#[test]
fn momentum_keeps_a_velocity() {
    let mut params = vec![Parameter::new(tensor(vec![2], vec![10, 10]))];
    let mut graph = Graph::new();
    let a = graph.parameter(&params, 0);
    let l = graph.sum(a);
    graph.backward(l, &mut params).unwrap();
    let sgd = Sgd::with_momentum(2);
    assert!(sgd.update(1, &mut params[0]));
    assert_eq!(params[0].velocity(), Some(vec![1, 1]));
    assert_eq!(params[0].value().as_slice(), &[9, 9]);
    assert!(sgd.update(1, &mut params[0]));
    assert_eq!(params[0].velocity(), Some(vec![3, 3]));
    assert_eq!(params[0].value().as_slice(), &[6, 6]);
}

#[test]
fn shape_errors_record_nothing() {
    let mut graph = Graph::new();
    let a = graph.input(tensor(vec![2], vec![1, 2]), true);
    let b = graph.input(tensor(vec![3], vec![1, 2, 3]), true);
    assert_eq!(graph.add(a, b).err(), Some(Error::Shape));
    assert_eq!(graph.dot(a, b).err(), Some(Error::Shape));
    assert_eq!(graph.len(), 2);
}

#[test]
fn dot_of_matrices() {
    let mut graph = Graph::new();
    let a = graph.input(tensor(vec![2, 2], vec![1, 2, 3, 4]), false);
    let b = graph.input(tensor(vec![2, 3], vec![1, 0, 1, 0, 1, 1]), false);
    let c = graph.dot(a, b).unwrap();
    assert_eq!(graph.value(c).shape(), &[2, 3]);
    assert_eq!(graph.value(c).as_slice(), &[1, 2, 3, 3, 4, 7]);
    assert!(!graph.requires_grad(c));
}

#[test]
fn arithmetic_wraps() {
    let mut graph = Graph::new();
    let a = graph.input(tensor(vec![1], vec![i64::MAX]), false);
    let b = graph.input(tensor(vec![1], vec![1]), false);
    let c = graph.add(a, b).unwrap();
    assert_eq!(graph.value(c).as_slice(), &[i64::MIN]);
}
