use voting_program::utils::check_bytes_param;

#[test]
fn test_max_len() {
    let f1: Vec<u8> = String::from("aaaa").into_bytes();

    let mut val_error = false;
    if !check_bytes_param(&f1, 1, 3) {
        val_error = true;
    }

    assert_eq!(val_error, true);
}

#[test]
fn test_min_len() {
    let f1: Vec<u8> = String::from("a").into_bytes();

    let mut val_error = false;
    if !check_bytes_param(&f1, 2, 3) {
        val_error = true;
    }

    assert_eq!(val_error, true);
}

#[test]
fn test_min_non_empty_len() {
    let f1: Vec<u8> = String::from("    ").into_bytes();

    let mut val_error = false;
    if !check_bytes_param(&f1, 2, 3) {
        val_error = true;
    }

    assert_eq!(val_error, true);
}

#[test]
fn test_trimmed_len_both_ends() {
    assert_eq!(voting_program::utils::trimmed_len(&b"  a b\t".to_vec()), 3);
    assert_eq!(voting_program::utils::trimmed_len(&b"".to_vec()), 0);
    assert_eq!(voting_program::utils::trimmed_len(&b"\t\r\n ".to_vec()), 0);
    assert_eq!(voting_program::utils::trimmed_len(&b"abc".to_vec()), 3);
}

#[test]
fn test_check_bytes_param_accepts_fitting_value() {
    assert!(check_bytes_param(&b"ab".to_vec(), 1, 3));
    assert!(check_bytes_param(&b"abc".to_vec(), 1, 3));
    assert!(!check_bytes_param(&b"    ".to_vec(), 1, 10));
}
