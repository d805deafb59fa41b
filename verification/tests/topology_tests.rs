use termdaw::topology::schedule;

#[test]
fn a_schedule_runs_inputs_first_and_everything_once() {
    // 0 takes 1 and 2; 1 takes 3; 2 takes 3 and 4; 5 stands alone.
    let edges = vec![vec![1, 2], vec![3], vec![3, 4], vec![], vec![], vec![]];
    let (ran, order) = schedule(&edges, 0);
    assert_eq!(order, vec![3, 1, 4, 2, 0]);
    assert_eq!(ran, vec![true, true, true, true, true, false]);
    for (k, v) in order.iter().enumerate() {
        for u in &edges[*v] {
            assert!(order[..k].contains(u));
        }
    }
}

#[test]
fn a_schedule_starts_anywhere() {
    let edges = vec![vec![1, 2], vec![3], vec![3, 4], vec![], vec![], vec![]];
    let (ran, order) = schedule(&edges, 2);
    assert_eq!(order, vec![3, 4, 2]);
    assert_eq!(ran, vec![false, false, true, true, true, false]);
    let (ran, order) = schedule(&edges, 5);
    assert_eq!(order, vec![5]);
    assert_eq!(ran, vec![false, false, false, false, false, true]);
}

#[test]
fn an_input_connected_twice_runs_once() {
    let edges = vec![vec![1, 1, 2, 1], vec![2], vec![]];
    let (ran, order) = schedule(&edges, 0);
    assert_eq!(order, vec![2, 1, 0]);
    assert_eq!(ran, vec![true, true, true]);
}
