use evm_types::{Bytes, CallInput, CallInputError, InputField};

fn b(v: &[u8]) -> Bytes {
    Bytes(v.to_vec())
}

#[test]
fn equal_input_and_data_agree() {
    let call = CallInput { input: Some(b(&[1, 2])), data: Some(b(&[1, 2])) };
    assert_eq!(call.unique_input(), Ok(Some(&b(&[1, 2]))));
    assert_eq!(call.try_into_unique_input(), Ok(Some(b(&[1, 2]))));
}

#[test]
fn different_input_and_data_are_refused() {
    let call = CallInput { input: Some(b(&[1, 2])), data: Some(b(&[1, 3])) };
    assert_eq!(call.unique_input(), Err(CallInputError::default()));
    assert_eq!(call.try_into_unique_input(), Err(CallInputError::default()));
    let longer = CallInput { input: Some(b(&[1])), data: Some(b(&[1, 0])) };
    assert_eq!(longer.try_into_unique_input(), Err(CallInputError::default()));
}

#[test]
fn one_side_set() {
    let input_only = CallInput { input: Some(b(&[9])), data: None };
    assert_eq!(input_only.unique_input(), Ok(Some(&b(&[9]))));
    assert_eq!(input_only.try_into_unique_input(), Ok(Some(b(&[9]))));
    let data_only = CallInput { input: None, data: Some(b(&[8])) };
    assert_eq!(data_only.unique_input(), Ok(Some(&b(&[8]))));
    assert_eq!(data_only.try_into_unique_input(), Ok(Some(b(&[8]))));
}

#[test]
fn nothing_set() {
    let call = CallInput::default();
    assert_eq!(call.unique_input(), Ok(None));
    assert_eq!(call.try_into_unique_input(), Ok(None));
}

#[test]
fn conversions_fill_input() {
    let call = CallInput::from(b(&[4, 5]));
    assert_eq!(call.input, Some(b(&[4, 5])));
    assert_eq!(call.data, None);
    let none = CallInput::from(None::<Bytes>);
    assert_eq!(none.input, None);
    assert_eq!(Bytes::from(vec![1u8]), b(&[1]));
}

#[test]
fn error_message() {
    assert_eq!(
        CallInputError::default().message(),
        "both \"data\" and \"input\" are set and not equal. Please use \"input\" to pass transaction call data"
    );
}

#[test]
fn equality_by_contents() {
    let a = CallInput { input: Some(b(&[1, 2])), data: None };
    let c = CallInput { input: Some(b(&[1, 2])), data: None };
    let d = CallInput { input: None, data: Some(b(&[1, 2])) };
    assert!(a == c);
    assert!(a != d);
}

#[test]
fn field_that_the_data_comes_from() {
    let both = CallInput { input: Some(b(&[1])), data: Some(b(&[1])) };
    assert_eq!(both.unique_input_field(), Ok(Some(InputField::Input)));
    let data_only = CallInput { input: None, data: Some(b(&[2])) };
    assert_eq!(data_only.unique_input_field(), Ok(Some(InputField::Data)));
    let differ = CallInput { input: Some(b(&[1])), data: Some(b(&[2])) };
    assert_eq!(differ.unique_input_field(), Err(CallInputError::default()));
    assert_eq!(CallInput::default().unique_input_field(), Ok(None));
}
