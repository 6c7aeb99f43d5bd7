use rust_openai::account::OpenAIAccount;
use rust_openai::bill::Bill;
use rust_openai::cache::QueryCache;
use rust_openai::graveyard::GraveyardEntry;
use rust_openai::hash::hash_string;
use rust_openai::models::GptModel;
use rust_openai::models::Query;
use rust_openai::models::QueryType;
use rust_openai::models::Usage;
use rust_openai::store::StoreTable;
use rust_openai::store::record_for_entry;

fn query(prompt: &str, response: &str, qt: QueryType) -> Query {
    Query {
        prompt: prompt.to_string(),
        cost: 250,
        response: response.to_string(),
        usage: Usage { prompt_tokens: 8, completion_tokens: 4, total_tokens: 12 },
        process_time: 7,
        model: GptModel::Gpt4,
        query_type: qt,
        temperature: 20,
        from_cache: false,
    }
}

fn fresh_account() -> OpenAIAccount {
    OpenAIAccount::new(GptModel::Gpt4, 20, Bill::new(), QueryCache::new())
}

#[test]
fn push_all_replaces_colliding_row_and_inserts_fresh_one() {
    let mut account = fresh_account();
    let ts = "01/01/2024 12:00:00".to_string();

    // the remote store already holds a row for the first key
    let stale = query("old prompt", "stale response", QueryType::PromptCompletion);
    let mut store = StoreTable::new();
    let old_row = record_for_entry(&"first key".to_string(), &stale, &"old ts".to_string());
    store.insert(old_row.clone());
    let stored_old = store
        .find_by_hash(&hash_string(&"first key".to_string()))
        .expect("seeded row present")
        .clone();

    account.cache_query(
        &"first key".to_string(),
        &query("p1", "fresh one", QueryType::DocumentCompletion),
    );
    account.cache_query(
        &"second key".to_string(),
        &query("p2", "fresh two", QueryType::DocumentCompletion),
    );

    account.db_insert_cache(&mut store, &ts);

    // the colliding row was deleted, graveyarded, and replaced
    assert_eq!(store.len(), 2);
    assert_eq!(account.graveyard.len(), 1);
    assert_eq!(account.graveyard[0], GraveyardEntry::Record(stored_old));
    let replaced = store
        .find_by_hash(&hash_string(&"first key".to_string()))
        .expect("first key still present");
    assert_eq!(replaced.response, "fresh one");
    assert_eq!(replaced.timestamp, ts);
    // the other entry was freshly inserted
    let inserted = store
        .find_by_hash(&hash_string(&"second key".to_string()))
        .expect("second key present");
    assert_eq!(inserted.response, "fresh two");
    assert_eq!(inserted.query_key, "second key");
}

#[test]
fn push_all_again_is_idempotent_in_row_count() {
    let mut account = fresh_account();
    let ts = "ts".to_string();
    let mut store = StoreTable::new();
    account.cache_query(&"k1".to_string(), &query("p1", "r1", QueryType::DocumentCompletion));
    account.cache_query(&"k2".to_string(), &query("p2", "r2", QueryType::DocumentCompletion));
    account.db_insert_cache(&mut store, &ts);
    assert_eq!(store.len(), 2);
    account.db_insert_cache(&mut store, &ts);
    assert_eq!(store.len(), 2);
    // both pushes of both keys displaced nothing the first time, and both
    // rows the second time
    assert_eq!(account.graveyard.len(), 2);
}

#[test]
fn insert_query_assigns_row_identifier() {
    let mut account = fresh_account();
    let mut store = StoreTable::new();
    account.cache_query(&"k1".to_string(), &query("p1", "r1", QueryType::DocumentCompletion));
    let rid = account.db_insert_query(&mut store, "k1".to_string(), &"ts".to_string());
    assert_eq!(rid, Some(1));
    let missing = account.db_insert_query(&mut store, "absent".to_string(), &"ts".to_string());
    assert_eq!(missing, None);
    let row = store.find_by_key(&"k1".to_string()).expect("row stored");
    assert_eq!(row.rid, 1);
    assert_eq!(row.prompt, "p1");
}

#[test]
fn stored_rows_reconstruct_their_category() {
    let mut account = fresh_account();
    let mut store = StoreTable::new();
    let ts = "ts".to_string();
    account.cache_query(
        &"what is rust".to_string(),
        &query("what is rust", "a language", QueryType::PromptCompletion),
    );
    account.cache_query(
        &"Paper - Meta-Battery Run".to_string(),
        &query("Meta-Battery Run", "overview", QueryType::AggregationCompletion),
    );
    account.cache_query(
        &"Paper - Summary".to_string(),
        &query("Summary", "details", QueryType::DocumentCompletion),
    );
    account.db_insert_cache(&mut store, &ts);

    let rows = store.all_records();
    for row in &rows {
        let q = row.to_query();
        assert!(q.from_cache);
        match row.query_key.as_str() {
            "what is rust" => assert_eq!(q.query_type, QueryType::PromptCompletion),
            "Paper - Meta-Battery Run" => {
                assert_eq!(q.query_type, QueryType::AggregationCompletion)
            }
            "Paper - Summary" => assert_eq!(q.query_type, QueryType::DocumentCompletion),
            other => panic!("unexpected key {other}"),
        }
    }
}

#[test]
fn pull_respects_overwrite_flag() {
    let mut account = fresh_account();
    let mut store = StoreTable::new();
    let ts = "ts".to_string();
    account.cache_query(&"k".to_string(), &query("p", "local", QueryType::DocumentCompletion));
    // remote holds a different value under the same key
    let remote_value = query("p", "remote", QueryType::DocumentCompletion);
    let row = record_for_entry(&"k".to_string(), &remote_value, &ts);
    store.insert(row);
    let rows = store.all_records();

    let previous = account.db_read_to_cache(&rows, false);
    assert_eq!(previous.get(&"k".to_string()).unwrap().response, "local");
    assert_eq!(
        account.check_cache(&"k".to_string(), QueryType::DocumentCompletion).unwrap().response,
        "local"
    );

    account.db_read_to_cache(&rows, true);
    assert_eq!(
        account.check_cache(&"k".to_string(), QueryType::DocumentCompletion).unwrap().response,
        "remote"
    );
    // the overwrite routed the displaced local value to the graveyard
    assert!(account
        .graveyard
        .iter()
        .any(|e| matches!(e, GraveyardEntry::Query(q) if q.response == "local")));
}

#[test]
fn read_all_maps_rows_by_literal_key() {
    let account = fresh_account();
    let mut store = StoreTable::new();
    let ts = "ts".to_string();
    store.insert(record_for_entry(
        &"K One".to_string(),
        &query("p1", "r1", QueryType::DocumentCompletion),
        &ts,
    ));
    store.insert(record_for_entry(
        &"K Two".to_string(),
        &query("p2", "r2", QueryType::DocumentCompletion),
        &ts,
    ));
    let rows = store.all_records();
    let map = account.db_read_all(&rows);
    assert_eq!(map.len(), 2);
    assert_eq!(map.get(&"K One".to_string()).unwrap().response, "r1");
    assert_eq!(map.get(&"K Two".to_string()).unwrap().response, "r2");
}

#[test]
fn delete_by_rid_and_delete_all_empty_the_table() {
    let mut store = StoreTable::new();
    let ts = "ts".to_string();
    let rid = store.insert(record_for_entry(
        &"k".to_string(),
        &query("p", "r", QueryType::DocumentCompletion),
        &ts,
    ));
    assert!(store.delete_by_rid(rid).is_some());
    assert!(store.delete_by_rid(rid).is_none());
    store.insert(record_for_entry(
        &"k".to_string(),
        &query("p", "r", QueryType::DocumentCompletion),
        &ts,
    ));
    store.delete_all();
    assert_eq!(store.len(), 0);
}

#[test]
fn from_rows_rejects_duplicate_hashes_and_keeps_order() {
    let ts = "ts".to_string();
    let mut store = StoreTable::new();
    store.insert(record_for_entry(
        &"k1".to_string(),
        &query("p1", "r1", QueryType::DocumentCompletion),
        &ts,
    ));
    store.insert(record_for_entry(
        &"k2".to_string(),
        &query("p2", "r2", QueryType::DocumentCompletion),
        &ts,
    ));
    let rows = store.all_records();
    let rebuilt = StoreTable::from_rows(rows.clone()).expect("distinct rows rebuild");
    assert_eq!(rebuilt.len(), 2);
    assert_eq!(rebuilt.next_rid(), 3);

    let mut duplicated = rows.clone();
    duplicated.push(rows[0].clone());
    assert!(StoreTable::from_rows(duplicated).is_none());
}

#[test]
fn hash_is_deterministic_and_decimal() {
    let a = hash_string(&"some cache key".to_string());
    let b = hash_string(&"some cache key".to_string());
    let c = hash_string(&"another key".to_string());
    assert_eq!(a, b);
    assert_ne!(a, c);
    assert!(a.chars().all(|ch| ch.is_ascii_digit()));
}
