use sapphire::gc::GcHeap;
use sapphire::native_float::{float_infinite, float_nan};
use sapphire::vm::VmValue;

fn b(v: VmValue) -> bool {
    match v {
        VmValue::Bool(x) => x,
        _ => panic!("expected a Bool"),
    }
}

#[test]
fn nan_and_infinity_from_bits() {
    let mut heap = GcHeap::new();
    let nan = VmValue::Float(f64::NAN.to_bits());
    let inf = VmValue::Float(f64::NEG_INFINITY.to_bits());
    let one = VmValue::Float(1.5f64.to_bits());
    assert!(b(float_nan(&mut heap, &nan, &[], 1).unwrap()));
    assert!(!b(float_nan(&mut heap, &inf, &[], 1).unwrap()));
    assert!(b(float_infinite(&mut heap, &inf, &[], 1).unwrap()));
    assert!(!b(float_infinite(&mut heap, &one, &[], 1).unwrap()));
    assert!(!b(float_nan(&mut heap, &one, &[], 1).unwrap()));
}
