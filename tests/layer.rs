use autograph::autograd::{Graph, Parameter};
use autograph::error::Error;
use autograph::layer::{init_parameter_grads, update, Chain, Dense, Forward, Layer};
use autograph::optimizer::Sgd;
use autograph::tensor::Tensor;

#[test]
fn dense_layer_trains() {
    let mut params: Vec<Parameter> = Vec::new();
    let dense = Dense::new(&mut params, 3, 2, 1).unwrap();
    assert_eq!(dense.parameter_indices(), vec![0]);
    init_parameter_grads(&dense, &mut params);
    let mut graph = Graph::new();
    let x = graph.input(Tensor::from_vec(vec![1, 3], vec![1, 2, 3]).unwrap(), true);
    let y = dense.forward(&mut graph, &params, x).unwrap();
    assert_eq!(graph.value(y).as_slice(), &[6, 6]);
    let loss = graph.sum(y);
    graph.backward(loss, &mut params).unwrap();
    assert_eq!(params[0].grad().unwrap(), vec![1, 1, 2, 2, 3, 3]);
    assert_eq!(update(&dense, &mut params, 1, &Sgd::new()), 1);
    assert_eq!(params[0].value().as_slice(), &[0, 0, -1, -1, -2, -2]);
}

#[test]
fn chained_layers_compose() {
    let mut params: Vec<Parameter> = Vec::new();
    let first = Dense::new(&mut params, 2, 3, 1).unwrap();
    let second = Dense::new(&mut params, 3, 1, 2).unwrap();
    let model = Chain { first, second };
    assert_eq!(model.parameter_indices(), vec![0, 1]);
    let mut graph = Graph::new();
    let x = graph.input(Tensor::from_vec(vec![1, 2], vec![1, 1]).unwrap(), false);
    let y = model.forward(&mut graph, &params, x).unwrap();
    assert_eq!(graph.value(y).shape(), &[1, 1]);
    assert_eq!(graph.value(y).as_slice(), &[12]);
    graph.backward(y, &mut params).unwrap();
    assert_eq!(params[1].grad().unwrap(), vec![2, 2, 2]);
    assert_eq!(params[0].grad().unwrap(), vec![2, 2, 2, 2, 2, 2]);
    init_parameter_grads(&model, &mut params);
    assert_eq!(params[0].grad(), None);
    assert_eq!(params[1].grad(), None);
    assert_eq!(update(&model, &mut params, 1, &Sgd::new()), 0);
}

#[test]
fn dense_rejects_wrong_input_width() {
    let mut params: Vec<Parameter> = Vec::new();
    let dense = Dense::new(&mut params, 3, 2, 1).unwrap();
    let mut graph = Graph::new();
    let x = graph.input(Tensor::from_vec(vec![1, 2], vec![1, 2]).unwrap(), true);
    assert_eq!(dense.forward(&mut graph, &params, x).err(), Some(Error::Shape));
}

#[test]
fn dense_apply_records_weight_then_product() {
    let mut params: Vec<Parameter> = Vec::new();
    let dense = Dense::new(&mut params, 2, 2, 3).unwrap();
    let mut graph = Graph::new();
    let x = graph.input(Tensor::from_vec(vec![1, 2], vec![1, -1]).unwrap(), false);
    let y = dense.apply(&mut graph, &params, x).unwrap();
    assert_eq!(graph.len(), 3);
    assert_eq!(y.id(), 2);
    assert_eq!(graph.value(y).as_slice(), &[0, 0]);
}

#[test]
fn chain_returns_first_error() {
    let mut params: Vec<Parameter> = Vec::new();
    let first = Dense::new(&mut params, 3, 2, 1).unwrap();
    let second = Dense::new(&mut params, 2, 1, 1).unwrap();
    let model = Chain { first, second };
    let mut graph = Graph::new();
    let x = graph.input(Tensor::from_vec(vec![1, 2], vec![1, 2]).unwrap(), false);
    assert_eq!(model.forward(&mut graph, &params, x).err(), Some(Error::Shape));
    assert_eq!(graph.len(), 2);
}

#[test]
fn dense_new_fills_weight() {
    let mut params: Vec<Parameter> = Vec::new();
    Dense::new(&mut params, 2, 3, 7).unwrap();
    assert_eq!(params[0].value().shape(), &[2, 3]);
    assert_eq!(params[0].value().as_slice(), &[7, 7, 7, 7, 7, 7]);
    assert_eq!(params[0].grad(), None);
    let r = Dense::new(&mut params, usize::MAX, 2, 0);
    assert_eq!(r.err(), Some(Error::Device(autograph::error::DeviceError::AllocationTooLarge)));
    assert_eq!(params.len(), 1);
}
