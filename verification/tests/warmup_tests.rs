use deet::warmup::{add_n, add_n_inplace, dedup};

#[test]
fn test_add_n() {
    assert_eq!(add_n(vec![1, 100, 5], 2), vec![3, 102, 7]);
}

#[test]
fn test_add_n_inplace() {
    let mut v = vec![1, 100, 5];
    add_n_inplace(&mut v, 2);
    assert_eq!(v, vec![3, 102, 7]);
}

#[test]
fn test_dedup() {
    let mut v = vec![3, 1, 0, 1, 4, 4];
    dedup(&mut v);
    assert_eq!(v, vec![3, 1, 0, 4]);
}

#[test]
fn test_dedup_empty() {
    let mut v: Vec<i32> = vec![];
    dedup(&mut v);
    assert_eq!(v, Vec::<i32>::new());
}

#[test]
fn test_dedup_all_equal() {
    let mut v = vec![7, 7, 7, 7];
    dedup(&mut v);
    assert_eq!(v, vec![7]);
}

#[test]
fn test_add_n_negative() {
    assert_eq!(add_n(vec![0, -5, 10], -3), vec![-3, -8, 7]);
}
