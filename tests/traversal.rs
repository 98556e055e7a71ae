use baby_names::cursor::{CursorError, NameCursor};
use baby_names::order::{is_strictly_ascending, name_less};
use baby_names::pipeline::{process_batch, run_pipeline};
use baby_names::progress::SimilarityStatistics;
use baby_names::similarity::Similarity;
use baby_names::store::SimilarityStore;

fn names(list: &[&str]) -> Vec<String> {
    list.iter().map(|s| s.to_string()).collect()
}

fn drain(cursor: &mut NameCursor) -> (Vec<(String, String)>, Vec<usize>) {
    let mut all = Vec::new();
    let mut sizes = Vec::new();
    while !cursor.is_finished() {
        let batch = cursor.fetch_next_batch();
        sizes.push(batch.len());
        all.extend(batch);
    }
    (all, sizes)
}

#[test]
fn name_order_is_byte_order() {
    assert!(name_less(&"Ann".to_string(), &"Anna".to_string()));
    assert!(name_less(&"Anna".to_string(), &"Bob".to_string()));
    assert!(name_less(&"Bob".to_string(), &"ann".to_string()));
    assert!(!name_less(&"Bob".to_string(), &"Bob".to_string()));
    assert!(name_less(&"".to_string(), &"A".to_string()));
    assert!(is_strictly_ascending(&names(&["Ann", "Anna", "Bob"])));
    assert!(!is_strictly_ascending(&names(&["Ann", "Ann"])));
    assert!(!is_strictly_ascending(&names(&["Bob", "Ann"])));
}

#[test]
fn unordered_names_are_refused() {
    assert!(matches!(NameCursor::new(names(&["Bob", "Ann"])), Err(CursorError::NamesOutOfOrder)));
    assert!(matches!(NameCursor::new(names(&["Ann", "Ann"])), Err(CursorError::NamesOutOfOrder)));
}

#[test]
fn cursor_yields_every_pair_once_in_order() {
    let list = names(&["Ann", "Anna", "Bob"]);
    let mut cursor = NameCursor::with_batch_size(list.clone(), 2).unwrap();
    let (all, sizes) = drain(&mut cursor);
    assert_eq!(sizes, vec![2, 2, 2, 2, 1]);
    assert_eq!(all.len(), 9);
    for w in all.windows(2) {
        assert!(w[0] < w[1]);
    }
    for a in &list {
        for b in &list {
            assert_eq!(all.iter().filter(|p| &p.0 == a && &p.1 == b).count(), 1);
        }
    }
    assert!(cursor.fetch_next_batch().is_empty());
}

#[test]
fn cursor_ends_on_an_empty_batch_after_full_ones() {
    let mut cursor = NameCursor::with_batch_size(names(&["Ann", "Bob"]), 2).unwrap();
    let (all, sizes) = drain(&mut cursor);
    assert_eq!(sizes, vec![2, 2, 0]);
    assert_eq!(all.len(), 4);
}

#[test]
fn cursor_over_no_names_yields_nothing() {
    let mut cursor = NameCursor::new(Vec::new()).unwrap();
    let (all, sizes) = drain(&mut cursor);
    assert!(all.is_empty());
    assert_eq!(sizes, vec![0]);
}

#[test]
fn cursor_default_batch_is_a_thousand() {
    let list: Vec<String> = (0..40).map(|i| format!("N{i:03}")).collect();
    let mut cursor = NameCursor::new(list).unwrap();
    let (all, sizes) = drain(&mut cursor);
    assert_eq!(sizes, vec![1000, 600]);
    assert_eq!(all.len(), 1600);
}

#[test]
fn scenario_three_names() {
    let mut store = SimilarityStore::new();
    let report = run_pipeline(names(&["Ann", "Anna", "Bob"]), &mut store).unwrap_or_else(|_| panic!());
    let ann_anna = store.get(&"Ann".to_string(), &"Anna".to_string()).unwrap();
    assert_eq!(ann_anna.levenshtein, 1);
    assert_eq!(ann_anna.longest_common_substring, 3);
    assert_eq!((ann_anna.similarity_numerator, ann_anna.similarity_denominator), (6, 7));
    assert!(store.get(&"Ann".to_string(), &"Bob".to_string()).is_none());
    assert!(store.get(&"Bob".to_string(), &"Bob".to_string()).is_some());
    assert_eq!(report.statistics.total_pair_count(), 9);
    assert_eq!(report.statistics.stored_count() as usize, store.len());
}

#[test]
fn scenario_three_status_lines() {
    let mut store = SimilarityStore::new();
    let report = run_pipeline(names(&["Ann", "Anna", "Bob"]), &mut store).unwrap_or_else(|_| panic!());
    assert_eq!(report.status_lines.len(), 3);
    let firsts: Vec<&str> = report.status_lines.iter().map(|l| l.name.as_str()).collect();
    assert_eq!(firsts, vec!["Ann", "Anna", "Bob"]);
    assert_eq!(report.status_lines[0].total_pair_count, 1);
    assert_eq!(report.status_lines[1].total_pair_count, 4);
    assert_eq!(report.status_lines[2].total_pair_count, 7);
    assert_eq!(report.statistics.name_count(), 3);
}

#[test]
fn scenario_empty_name_set() {
    let mut store = SimilarityStore::new();
    let report = run_pipeline(Vec::new(), &mut store).unwrap_or_else(|_| panic!());
    assert_eq!(store.len(), 0);
    assert!(report.status_lines.is_empty());
    assert_eq!(report.statistics.total_pair_count(), 0);
}

#[test]
fn running_twice_leaves_the_same_edges() {
    let list = names(&["Ann", "Anna", "Bob", "Hannah", "Johanna", "Maximilian"]);
    let mut store = SimilarityStore::new();
    assert!(run_pipeline(list.clone(), &mut store).is_ok());
    let first_len = store.len();
    let mut snapshot = Vec::new();
    for a in &list {
        for b in &list {
            snapshot.push(store.get(a, b).map(|e| {
                (e.levenshtein, e.longest_common_substring, e.similarity_numerator, e.similarity_denominator)
            }));
        }
    }
    assert!(run_pipeline(list.clone(), &mut store).is_ok());
    assert_eq!(store.len(), first_len);
    let mut i = 0;
    for a in &list {
        for b in &list {
            let now = store.get(a, b).map(|e| {
                (e.levenshtein, e.longest_common_substring, e.similarity_numerator, e.similarity_denominator)
            });
            assert_eq!(now, snapshot[i]);
            i += 1;
        }
    }
}

#[test]
fn unordered_names_leave_the_store_alone() {
    let mut store = SimilarityStore::new();
    assert!(run_pipeline(names(&["Ann"]), &mut store).is_ok());
    let before = store.len();
    assert!(matches!(run_pipeline(names(&["Bob", "Ann"]), &mut store), Err(CursorError::NamesOutOfOrder)));
    assert_eq!(store.len(), before);
}

#[test]
fn process_batch_keeps_and_reports() {
    let mut stats = SimilarityStatistics::new();
    let batch = vec![
        ("Ann".to_string(), "Anna".to_string()),
        ("Ann".to_string(), "Bob".to_string()),
        ("Bob".to_string(), "Bob".to_string()),
    ];
    let out = process_batch(batch, &mut stats);
    assert_eq!(out.kept.len(), 2);
    assert_eq!(out.kept[0].b, "Anna");
    assert_eq!(out.kept[1].a, "Bob");
    assert_eq!(out.status_lines.len(), 2);
    assert_eq!(stats.total_pair_count(), 3);
    assert_eq!(stats.stored_count(), 2);
    assert_eq!(stats.name_count(), 2);
}

#[test]
fn store_upsert_overwrites() {
    let mut store = SimilarityStore::new();
    store.upsert_edge(Similarity::calculate("Ann".to_string(), "Anna".to_string()));
    let mut changed = Similarity::calculate("Ann".to_string(), "Anna".to_string());
    changed.levenshtein = 9;
    store.upsert_edge(changed);
    assert_eq!(store.len(), 1);
    assert_eq!(store.get(&"Ann".to_string(), &"Anna".to_string()).unwrap().levenshtein, 9);
    store.upsert_edge(Similarity::calculate("Anna".to_string(), "Ann".to_string()));
    assert_eq!(store.len(), 2);
}
