use jobqueue::response::ApiSuccess;

#[test]
fn success_with_data() {
    let r = ApiSuccess::new("User registered successfully".to_string(), 7u32);
    assert!(r.success);
    assert_eq!(r.message, "User registered successfully");
    assert_eq!(r.data, Some(7));
}

#[test]
fn success_without_data() {
    let r = ApiSuccess::<()>::new_without_data("User deleted successfully".to_string());
    assert!(r.success);
    assert_eq!(r.message, "User deleted successfully");
    assert_eq!(r.data, None);
}

#[test]
fn success_from_data_uses_stock_message() {
    let r = ApiSuccess::from_data(vec![1u8, 2, 3]);
    assert!(r.success);
    assert_eq!(r.message, "Success");
    assert_eq!(r.data, Some(vec![1u8, 2, 3]));
}
