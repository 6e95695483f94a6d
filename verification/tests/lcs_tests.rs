use deet::diff::{diff_ops, DiffOp};
use deet::grid::Grid;
use deet::lcs::lcs;

#[test]
fn test_lcs() {
    let mut expected = Grid::new(5, 4);
    expected.set(1, 1, 1).unwrap();
    expected.set(1, 2, 1).unwrap();
    expected.set(1, 3, 1).unwrap();
    expected.set(2, 1, 1).unwrap();
    expected.set(2, 2, 1).unwrap();
    expected.set(2, 3, 2).unwrap();
    expected.set(3, 1, 1).unwrap();
    expected.set(3, 2, 1).unwrap();
    expected.set(3, 3, 2).unwrap();
    expected.set(4, 1, 1).unwrap();
    expected.set(4, 2, 2).unwrap();
    expected.set(4, 3, 2).unwrap();

    println!("Expected:");
    let result = lcs(
        &"abcd".chars().map(|c| c.to_string()).collect(),
        &"adb".chars().map(|c| c.to_string()).collect(),
    );
    println!("Got:");
    assert_eq!(result.size(), expected.size());
    for row in 0..expected.size().0 {
        for col in 0..expected.size().1 {
            assert_eq!(result.get(row, col), expected.get(row, col));
        }
    }
}

#[test]
fn test_lcs_empty() {
    let a: Vec<String> = vec![];
    let b: Vec<String> = vec!["x".to_string()];
    let g = lcs(&a, &b);
    assert_eq!(g.size(), (1, 2));
    assert_eq!(g.get(0, 0), Some(0));
    assert_eq!(g.get(0, 1), Some(0));
}

#[test]
fn test_grid_bounds() {
    let mut g = Grid::new(2, 3);
    assert_eq!(g.get(2, 0), None);
    assert_eq!(g.get(0, 3), None);
    assert!(g.set(2, 0, 1).is_err());
    assert!(g.set(0, 2, 9).is_ok());
    assert_eq!(g.get(0, 2), Some(9));
    assert_eq!(g.get(1, 2), Some(0));
}

#[test]
fn test_diff_ops() {
    let a: Vec<String> = "abcd".chars().map(|c| c.to_string()).collect();
    let b: Vec<String> = "adb".chars().map(|c| c.to_string()).collect();
    let table = lcs(&a, &b);
    let ops = diff_ops(&table, &a, &b);
    let forward: Vec<DiffOp> = ops.iter().rev().cloned().collect();
    assert_eq!(
        forward,
        vec![
            DiffOp::Keep(0, 0),
            DiffOp::Add(1),
            DiffOp::Keep(1, 2),
            DiffOp::Remove(2),
            DiffOp::Remove(3),
        ]
    );
}

#[test]
fn test_diff_ops_identical() {
    let a: Vec<String> = vec!["x".to_string(), "y".to_string()];
    let table = lcs(&a, &a);
    let ops = diff_ops(&table, &a, &a);
    assert_eq!(ops.len(), 2);
    assert!(ops.iter().all(|op| matches!(op, DiffOp::Keep(_, _))));
}
