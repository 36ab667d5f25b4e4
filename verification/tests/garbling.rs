use swanky::garbling::{GarblerOutput, VecWrapper};

#[test]
fn vec_wrapper_walks_and_rewinds() {
    let mut w = VecWrapper::new(vec![10u32, 20, 30]);
    assert_eq!(w.len(), 3);
    assert_eq!(w.next(), 10);
    assert_eq!(w.next(), 20);
    w.reset();
    assert_eq!(w.next(), 10);
    w.set_index(2);
    assert_eq!(w.next(), 30);
    let _ = GarblerOutput::new();
}
