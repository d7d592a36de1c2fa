use deadpool_postgres::cache::StatementCache;

#[test]
fn insert_then_size_counts_first_insertion_only() {
    let mut c: StatementCache<u64> = StatementCache::new();
    assert_eq!(c.size(), 0);
    c.insert("SELECT 1", &[], 10);
    assert_eq!(c.size(), 1);
    // Re-inserting the same key overwrites but does not grow the count.
    c.insert("SELECT 1", &[], 11);
    assert_eq!(c.size(), 1);
    assert_eq!(c.get("SELECT 1", &[]), Some(&11));
    // A different key is a true insertion.
    c.insert("SELECT 2", &[], 12);
    assert_eq!(c.size(), 2);
}

#[test]
fn remove_absent_reports_not_found_and_keeps_size() {
    let mut c: StatementCache<u64> = StatementCache::new();
    c.insert("SELECT 1", &[23], 1);
    assert_eq!(c.remove("SELECT 1", &[25]), None);
    assert_eq!(c.remove("SELECT 2", &[23]), None);
    assert_eq!(c.size(), 1);
}

#[test]
fn remove_present_returns_handle_and_decrements_size() {
    let mut c: StatementCache<u64> = StatementCache::new();
    c.insert("SELECT 1", &[23], 1);
    c.insert("SELECT 2", &[23], 2);
    assert_eq!(c.remove("SELECT 1", &[23]), Some(1));
    assert_eq!(c.size(), 1);
    assert_eq!(c.get("SELECT 1", &[23]), None);
    assert_eq!(c.get("SELECT 2", &[23]), Some(&2));
}

#[test]
fn keys_are_structural_over_query_and_types() {
    let mut c: StatementCache<u64> = StatementCache::new();
    c.insert("SELECT $1", &[23], 1);
    c.insert("SELECT $1", &[25], 2);
    c.insert("SELECT $1", &[23, 25], 3);
    c.insert("SELECT $1 + $2", &[23, 25], 4);
    assert_eq!(c.size(), 4);
    assert_eq!(c.get("SELECT $1", &[23]), Some(&1));
    assert_eq!(c.get("SELECT $1", &[25]), Some(&2));
    assert_eq!(c.get("SELECT $1", &[23, 25]), Some(&3));
    assert_eq!(c.get("SELECT $1 + $2", &[23, 25]), Some(&4));
    assert_eq!(c.get("SELECT $1", &[]), None);
    assert_eq!(c.get("SELECT $1", &[25, 23]), None);
}

#[test]
fn non_ascii_query_text_is_compared_by_characters() {
    let mut c: StatementCache<u64> = StatementCache::new();
    c.insert("SELECT 'héllo'", &[], 1);
    assert_eq!(c.get("SELECT 'héllo'", &[]), Some(&1));
    assert_eq!(c.get("SELECT 'hello'", &[]), None);
    assert_eq!(c.size(), 1);
}

#[test]
fn clear_empties_the_cache() {
    let mut c: StatementCache<u64> = StatementCache::new();
    c.insert("SELECT 1", &[], 1);
    c.insert("SELECT 2", &[23], 2);
    assert_eq!(c.size(), 2);
    c.clear();
    assert_eq!(c.size(), 0);
    assert_eq!(c.get("SELECT 1", &[]), None);
    assert_eq!(c.get("SELECT 2", &[23]), None);
}
