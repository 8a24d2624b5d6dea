use hexaurl::utils::len;

#[test]
fn test_len_all_nonzero() {
    let arr = [1u8; 100];
    assert_eq!(len(&arr), 100);
}

#[test]
fn test_len_with_zero() {
    let mut arr = [1u8; 100];
    arr[50] = 0;
    assert_eq!(len(&arr), 50);
}

#[test]
fn test_len_zero_at_start() {
    let arr = [0u8; 100];
    assert_eq!(len(&arr), 0);
}

#[test]
fn test_len_zero_at_end() {
    let mut arr = [1u8; 100];
    arr[99] = 0;
    assert_eq!(len(&arr), 99);
}

#[test]
fn len_on_short_arrays() {
    assert_eq!(len(&[0u8; 0]), 0);
    assert_eq!(len(&[7u8]), 1);
    assert_eq!(len(&[0u8]), 0);
    assert_eq!(len(&[1u8, 2, 3, 0, 0, 0, 0, 0]), 3);
    for k in 0..=40 {
        let mut arr = [0u8; 40];
        for b in arr.iter_mut().take(k) {
            *b = 9;
        }
        assert_eq!(len(&arr), k);
    }
}
