use toolbox::sweep::{delete_batches, BATCH_LIMIT};

fn keys(n: usize) -> Vec<String> {
    (0..n).map(|i| format!("key-{i}")).collect()
}

#[test]
fn no_keys_make_no_batch() {
    assert!(delete_batches(&vec![]).is_empty());
}

#[test]
fn batch_sizes() {
    let sizes = |n: usize| -> Vec<usize> {
        delete_batches(&keys(n)).iter().map(|b| b.len()).collect()
    };
    assert_eq!(BATCH_LIMIT, 1000);
    assert_eq!(sizes(1), vec![1]);
    assert_eq!(sizes(999), vec![999]);
    assert_eq!(sizes(1000), vec![1000]);
    assert_eq!(sizes(1001), vec![1000, 1]);
    assert_eq!(sizes(2000), vec![1000, 1000]);
    assert_eq!(sizes(2500), vec![1000, 1000, 500]);
}

#[test]
fn batches_keep_every_key_in_order() {
    for n in [0usize, 1, 7, 1000, 1001, 3210] {
        let all = keys(n);
        let flat: Vec<String> = delete_batches(&all).into_iter().flatten().collect();
        assert_eq!(flat, all);
    }
}
