use wasm_cel::dict::ValueMap;
use wasm_cel::model::Value;

#[test]
fn sizeof_primitive() {
    assert_eq!(Value::Null.size(), 64);
    assert_eq!(Value::Bool(true).size(), 64);
    assert_eq!(Value::I64(42).size(), 64);
    assert_eq!(Value::F64(2.78f64.to_bits()).size(), 64);
}

#[test]
fn sizeof_string() {
    let v = Value::String("asdf".to_owned());
    assert_eq!(v.size(), 64 + 4);
}

#[test]
fn sizeof_bytes() {
    let v = Value::Bytes("asdf".as_bytes().to_owned());
    assert_eq!(v.size(), 64 + 4);
}

#[test]
fn sizeof_list() {
    let v = Value::List(vec![
        Value::String("asdf".to_owned()),
        Value::Null,
        Value::List(vec![]),
    ]);
    assert_eq!(v.size(), 4 * 64 + 4);
}

#[test]
fn sizeof_map() {
    let mut m = ValueMap::new();
    m.insert("a".to_owned(), Value::Null);
    let v = Value::Dict(m);
    assert_eq!(v.size(), 2 * 64 + 1);
}
