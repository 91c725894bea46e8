use filetype::engine::FileType;
use filetype::report::{classify_by_size, require_inputs, ResultTable, UsageError};

#[test]
fn no_inputs_is_a_usage_error() {
    assert_eq!(require_inputs(0), Err(UsageError::NoInputs));
    assert_eq!(require_inputs(1), Ok(()));
    assert_eq!(require_inputs(7), Ok(()));
}

#[test]
fn zero_size_is_empty_without_reading() {
    assert_eq!(classify_by_size(0), Some(FileType::Empty));
    assert_eq!(classify_by_size(1), None);
    assert_eq!(classify_by_size(u64::MAX), None);
}

fn key(s: &str) -> Vec<u8> {
    s.as_bytes().to_vec()
}

#[test]
fn one_entry_per_path() {
    let outcomes: Vec<(Vec<u8>, Result<FileType, String>)> = vec![
        (key("c.txt"), Ok(FileType::Utf8)),
        (key("a.txt"), Ok(FileType::Ascii)),
        (key("missing"), Err("No such file or directory".to_string())),
        (key("b.bin"), Ok(FileType::Data)),
        (key("e"), Ok(FileType::Empty)),
    ];
    let entries = ResultTable::collect(outcomes).into_entries();
    assert_eq!(entries.len(), 5);
    assert_eq!(entries[0], (key("c.txt"), Ok(FileType::Utf8)));
    assert_eq!(entries[2], (key("missing"), Err("No such file or directory".to_string())));
    assert_eq!(entries[4], (key("e"), Ok(FileType::Empty)));
}

#[test]
fn same_for_every_arrival_order() {
    let paths = ["p0", "p1", "p2", "p3", "p4", "p5"];
    let mut seed: u32 = 12345;
    for _ in 0..50 {
        let mut order: Vec<usize> = (0..paths.len()).collect();
        for i in (1..order.len()).rev() {
            seed = seed.wrapping_mul(1103515245).wrapping_add(12345);
            let j = (seed as usize >> 8) % (i + 1);
            order.swap(i, j);
        }
        let pairs: Vec<(Vec<u8>, usize)> = order.iter().map(|&i| (key(paths[i]), i)).collect();
        let mut entries = ResultTable::collect(pairs).into_entries();
        entries.sort();
        let expected: Vec<(Vec<u8>, usize)> =
            paths.iter().enumerate().map(|(i, p)| (key(p), i)).collect();
        assert_eq!(entries, expected);
    }
}

#[test]
fn repeated_path_keeps_last_outcome() {
    let mut t = ResultTable::new();
    t.insert(key("x"), 1u8);
    t.insert(key("y"), 2u8);
    t.insert(key("x"), 3u8);
    let entries = t.into_entries();
    assert_eq!(entries, vec![(key("x"), 3u8), (key("y"), 2u8)]);
}
