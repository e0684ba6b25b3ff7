use l2_login::config::validate_allowed_gs_keys;

#[test]
fn hex_keys_are_validated() {
    let good = vec!["DEAD".to_string(), "-beef".to_string(), "+1_0".to_string()];
    assert_eq!(validate_allowed_gs_keys(&good), Ok(()));
    let bad = vec!["abc".to_string(), "xyz".to_string()];
    assert_eq!(validate_allowed_gs_keys(&bad), Err(1));
    assert_eq!(validate_allowed_gs_keys(&vec!["".to_string()]), Err(0));
    assert_eq!(validate_allowed_gs_keys(&vec!["_1".to_string()]), Err(0));
    assert_eq!(validate_allowed_gs_keys(&vec!["-+1".to_string()]), Err(0));
}
