use gitcvs::chunker::{arg_ceiling, chunk_paths, ArgChunker};

fn strings(xs: &[&str]) -> Vec<String> {
    xs.iter().map(|s| s.to_string()).collect()
}

#[test]
fn ceiling_subtracts_margin() {
    assert_eq!(arg_ceiling(100), 88);
    assert_eq!(arg_ceiling(12), 0);
}

#[test]
fn chunk_coverage_in_order() {
    let paths = strings(&["aa", "bb", "cc", "dd"]);
    let batches = chunk_paths(&paths, 4);
    let flat: Vec<String> = batches.iter().flatten().cloned().collect();
    assert_eq!(flat, paths);
    assert_eq!(batches, vec![strings(&["aa", "bb"]), strings(&["cc", "dd"])]);
}

#[test]
fn chunk_respects_ceiling() {
    let paths = strings(&["one", "two", "three", "x"]);
    let batches = chunk_paths(&paths, 7);
    for b in &batches {
        let total: usize = b.iter().map(|s| s.len()).sum();
        assert!(total <= 7);
    }
    let flat: Vec<String> = batches.iter().flatten().cloned().collect();
    assert_eq!(flat, paths);
}

#[test]
fn chunk_empty_input_yields_no_batches() {
    let batches = chunk_paths(&Vec::new(), 10);
    assert!(batches.is_empty());
}

#[test]
fn chunker_flush_boundaries() {
    let mut c = ArgChunker::new(3);
    assert!(c.push("ab".to_string()).is_none());
    let flushed = c.push("cd".to_string());
    assert_eq!(flushed.unwrap(), strings(&["ab"]));
    let rest = c.finish().unwrap();
    assert_eq!(rest, strings(&["cd"]));
}

#[test]
fn chunker_empty_finish_flushes_nothing() {
    let c = ArgChunker::new(3);
    assert!(c.finish().is_none());
}

#[test]
fn oversized_argument_still_covered() {
    let paths = strings(&["aaaa"]);
    let batches = chunk_paths(&paths, 2);
    let flat: Vec<String> = batches.iter().flatten().cloned().collect();
    assert_eq!(flat, paths);
    assert_eq!(batches, vec![strings(&[]), strings(&["aaaa"])]);
}
