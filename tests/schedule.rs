use point_cloud::schedule::{gather, partition};

#[test]
fn partition_balances() {
    assert_eq!(partition(10, 3), vec![(0, 4), (4, 7), (7, 10)]);
    assert_eq!(partition(2, 4), vec![(0, 1), (1, 2), (2, 2), (2, 2)]);
    assert_eq!(partition(0, 1), vec![(0, 0)]);
    assert_eq!(partition(1000, 1), vec![(0, 1000)]);
}

#[test]
fn gather_concatenates() {
    let chunks: Vec<Vec<u32>> = vec![vec![1, 2], vec![], vec![3]];
    assert_eq!(gather(&chunks), vec![1, 2, 3]);
    let none: Vec<Vec<u32>> = Vec::new();
    assert!(gather(&none).is_empty());
}

#[test]
fn split_then_gather_restores_order() {
    let items: Vec<usize> = (0..27).map(|k| k * 3).collect();
    for parts in 1..9usize {
        let chunks: Vec<Vec<usize>> =
            partition(items.len(), parts).iter().map(|&(s, e)| items[s..e].to_vec()).collect();
        assert_eq!(chunks.len(), parts);
        assert_eq!(gather(&chunks), items);
    }
}
