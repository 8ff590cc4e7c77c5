//! Tests for the permission codec.

use ls_willette::permissions::get_rwx_from_st_mode;

#[test]
fn main_test_get_rwx_from_st_mode() {
    let result = get_rwx_from_st_mode(16877);
    assert_eq!("rwxr-xr-x", result);
    let result = get_rwx_from_st_mode(33188);
    assert_eq!("rw-r--r--", result);
}

#[test]
fn test_test_get_rwx_from_st_mode() {
    let result = get_rwx_from_st_mode(16877);
    assert_eq!("rwxr-xr-x", result);
    let result = get_rwx_from_st_mode(33188);
    assert_eq!("rw-r--r--", result);
}

#[test]
fn decode_covers_every_digit_value() {
    assert_eq!("rwxr-xr-x", get_rwx_from_st_mode(0o755));
    assert_eq!("rw-r--r--", get_rwx_from_st_mode(0o644));
    assert_eq!("-w-------", get_rwx_from_st_mode(0o200));
    assert_eq!("-wx-w--w-", get_rwx_from_st_mode(0o322));
    assert_eq!("---------", get_rwx_from_st_mode(0o0));
    assert_eq!("rwxrwxrwx", get_rwx_from_st_mode(0o777));
}

#[test]
fn decode_shape_over_all_modes() {
    for m in 0u32..0o1000 {
        let s = get_rwx_from_st_mode(m);
        assert_eq!(s.chars().count(), 9);
        for c in s.chars() {
            assert!(c == 'r' || c == 'w' || c == 'x' || c == '-');
        }
    }
}

#[test]
fn decode_ignores_high_bits() {
    assert_eq!(get_rwx_from_st_mode(0o755), get_rwx_from_st_mode(0o40755));
    assert_eq!(get_rwx_from_st_mode(0o644), get_rwx_from_st_mode(0o100644));
}
