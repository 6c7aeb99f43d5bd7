use rust_openai::account::OpenAIAccount;
use rust_openai::bill::Bill;
use rust_openai::cache::QueryCache;
use rust_openai::graveyard::GraveyardEntry;
use rust_openai::models::GptModel;
use rust_openai::models::Query;
use rust_openai::models::QueryType;
use rust_openai::models::Usage;
use rust_openai::normalize::normalize;
use rust_openai::normalize::document_key;
use rust_openai::normalize::question_key;
use rust_openai::normalize::pdf_path;
use rust_openai::text::u64_to_string;

fn usage(p: u64, c: u64, t: u64) -> Usage {
    Usage { prompt_tokens: p, completion_tokens: c, total_tokens: t }
}

fn query(prompt: &str, response: &str, qt: QueryType) -> Query {
    Query {
        prompt: prompt.to_string(),
        cost: 500,
        response: response.to_string(),
        usage: usage(3, 2, 5),
        process_time: 42,
        model: GptModel::Gpt35Turbo16k,
        query_type: qt,
        temperature: 0,
        from_cache: false,
    }
}

fn fresh_account() -> OpenAIAccount {
    OpenAIAccount::new(GptModel::Gpt35Turbo16k, 0, Bill::new(), QueryCache::new())
}

#[test]
fn normalize_lowercases_and_collapses_newlines() {
    let raw = "Hello\nWorld".to_string();
    let key = normalize(QueryType::PromptCompletion, &raw);
    assert_eq!(key, "hello world");
}

#[test]
fn normalize_case_and_newline_variants_collide() {
    let a = normalize(QueryType::PromptCompletion, &"Hello\nWorld".to_string());
    let b = normalize(QueryType::PromptCompletion, &"HELLO\nWORLD".to_string());
    let c = normalize(QueryType::PromptCompletion, &"hello world".to_string());
    assert_eq!(a, b);
    assert_eq!(b, c);
}

#[test]
fn normalize_folds_non_ascii_case() {
    let a = normalize(QueryType::PromptCompletion, &"Éclair\nRecipe".to_string());
    let b = normalize(QueryType::PromptCompletion, &"éclair recipe".to_string());
    assert_eq!(a, b);
    assert_eq!(a, "éclair recipe");
}

#[test]
fn normalize_leaves_document_keys_verbatim() {
    let raw = "My Title - Summary\nBattery".to_string();
    let key = normalize(QueryType::DocumentCompletion, &raw);
    assert_eq!(key, raw);
    let key = normalize(QueryType::AggregationCompletion, &raw);
    assert_eq!(key, raw);
}

#[test]
fn put_then_get_returns_value() {
    let mut cache = QueryCache::new();
    let v = query("what is rust", "a language", QueryType::PromptCompletion);
    let displaced = cache.put("what is rust".to_string(), v.clone());
    assert!(displaced.is_none());
    let got = cache.get(&"what is rust".to_string());
    assert_eq!(got, Some(&v));
}

#[test]
fn overwrite_returns_displaced_and_keeps_new() {
    let mut cache = QueryCache::new();
    let v1 = query("k", "first", QueryType::PromptCompletion);
    let v2 = query("k", "second", QueryType::PromptCompletion);
    assert!(cache.put("k".to_string(), v1.clone()).is_none());
    let displaced = cache.put("k".to_string(), v2.clone());
    assert_eq!(displaced, Some(v1));
    assert_eq!(cache.get(&"k".to_string()), Some(&v2));
    assert_eq!(cache.len(), 1);
}

#[test]
fn overwrite_routes_displaced_value_to_graveyard() {
    let mut account = fresh_account();
    let v1 = query("k", "first", QueryType::DocumentCompletion);
    let v2 = query("k", "second", QueryType::DocumentCompletion);
    account.cache_query(&"key one".to_string(), &v1);
    assert!(account.graveyard.is_empty());
    account.cache_query(&"key one".to_string(), &v2);
    assert_eq!(account.graveyard.len(), 1);
    assert_eq!(account.graveyard[0], GraveyardEntry::Query(v1));
    let got = account.check_cache(&"key one".to_string(), QueryType::DocumentCompletion);
    assert_eq!(got, Some(&v2));
}

#[test]
fn record_miss_totals_are_additive_and_order_independent() {
    let mut a = Bill::new();
    a.record_miss(usage(10, 5, 15), 100);
    a.record_hit();
    a.record_miss(usage(20, 10, 30), 250);

    let mut b = Bill::new();
    b.record_miss(usage(20, 10, 30), 250);
    b.record_miss(usage(10, 5, 15), 100);
    b.record_hit();

    for bill in [&a, &b] {
        assert_eq!(bill.prompt_tokens, 30);
        assert_eq!(bill.completion_tokens, 15);
        assert_eq!(bill.total_tokens, 45);
        assert_eq!(bill.query_count, 2);
        assert_eq!(bill.cost, 350);
        assert_eq!(bill.cache_retrievals, 1);
    }
}

#[test]
fn reset_zeroes_spend_but_keeps_cache_retrievals() {
    let mut bill = Bill::new();
    for _ in 0..5 {
        bill.record_miss(usage(1, 1, 2), 10);
    }
    for _ in 0..3 {
        bill.record_hit();
    }
    assert_eq!(bill.query_count, 5);
    assert_eq!(bill.cache_retrievals, 3);
    bill.reset();
    assert_eq!(bill.query_count, 0);
    assert_eq!(bill.prompt_tokens, 0);
    assert_eq!(bill.completion_tokens, 0);
    assert_eq!(bill.total_tokens, 0);
    assert_eq!(bill.cost, 0);
    assert_eq!(bill.cache_retrievals, 3);
}

#[test]
fn snapshot_entry_list_round_trips() {
    let mut cache = QueryCache::new();
    cache.put("a".to_string(), query("a", "one", QueryType::PromptCompletion));
    cache.put("b".to_string(), query("b", "two", QueryType::DocumentCompletion));
    cache.put("c".to_string(), query("c", "three", QueryType::AggregationCompletion));
    let written = cache.to_entries();
    let reloaded = QueryCache::from_entries(&written);
    assert_eq!(reloaded.len(), 3);
    for key in ["a", "b", "c"] {
        assert_eq!(reloaded.get(&key.to_string()), cache.get(&key.to_string()));
    }
}

#[test]
fn from_entries_lets_later_duplicates_win() {
    let list = vec![
        ("k".to_string(), query("k", "early", QueryType::PromptCompletion)),
        ("k".to_string(), query("k", "late", QueryType::PromptCompletion)),
    ];
    let cache = QueryCache::from_entries(&list);
    assert_eq!(cache.len(), 1);
    assert_eq!(cache.get(&"k".to_string()).unwrap().response, "late");
}

#[test]
fn miss_then_completion_updates_cache_and_bill() {
    let mut account = fresh_account();
    let raw = "Hello\nWorld".to_string();
    assert!(account.take_cached(&raw, QueryType::PromptCompletion).is_none());
    let q = account.record_completion(
        &raw,
        raw.clone(),
        QueryType::PromptCompletion,
        "a greeting".to_string(),
        usage(3, 2, 5),
        1000,
        17,
        GptModel::Gpt35Turbo16k,
    );
    assert!(!q.from_cache);
    let bill = account.get_bill();
    assert_eq!(bill.query_count, 1);
    assert_eq!(bill.total_tokens, 5);
    assert_eq!(bill.cost, 1000);
    assert_eq!(bill.cache_retrievals, 0);
    let held = account.check_cache(&"hello world".to_string(), QueryType::DocumentCompletion);
    assert!(held.is_some());
}

#[test]
fn hit_is_billed_as_retrieval_only() {
    let mut account = fresh_account();
    let raw = "Hello\nWorld".to_string();
    account.record_completion(
        &raw,
        raw.clone(),
        QueryType::PromptCompletion,
        "a greeting".to_string(),
        usage(3, 2, 5),
        1000,
        17,
        GptModel::Gpt35Turbo16k,
    );
    let again = "HELLO\nWORLD".to_string();
    let hit = account.take_cached(&again, QueryType::PromptCompletion);
    let q = hit.expect("variant prompt must hit the same key");
    assert!(q.from_cache);
    assert_eq!(q.response, "a greeting");
    let bill = account.get_bill();
    assert_eq!(bill.query_count, 1);
    assert_eq!(bill.cache_retrievals, 1);
}

#[test]
fn meta_input_enumerates_document_responses_in_order() {
    let mut account = fresh_account();
    account.cache_query(
        &"T1 - Bat".to_string(),
        &query("Bat", "essay one", QueryType::DocumentCompletion),
    );
    account.cache_query(
        &"some prompt".to_string(),
        &query("some prompt", "chat answer", QueryType::PromptCompletion),
    );
    account.cache_query(
        &"T2 - Bat".to_string(),
        &query("Bat", "essay two", QueryType::DocumentCompletion),
    );
    let input = account.build_meta_input();
    assert_eq!(input, "\n\n1)\nessay one\n\n2)\nessay two");
}

#[test]
fn model_strings_round_trip() {
    let models = [
        GptModel::Gpt35Turbo,
        GptModel::Gpt35Turbo16k,
        GptModel::Gpt35Turbo0613,
        GptModel::Gpt4,
        GptModel::Gpt40314,
        GptModel::Gpt432k,
        GptModel::Gpt432k0314,
        GptModel::Gpt40613,
    ];
    for m in models {
        let s = m.to_model_string();
        assert!(GptModel::is_known_model_string(&s));
        assert_eq!(GptModel::from_string(&s), m);
    }
    assert_eq!(GptModel::Gpt4.to_model_string(), "gpt-4");
    assert!(!GptModel::is_known_model_string(&"gpt-5".to_string()));
}

#[test]
fn decimal_rendering_is_exact() {
    assert_eq!(u64_to_string(0), "0");
    assert_eq!(u64_to_string(7), "7");
    assert_eq!(u64_to_string(12345), "12345");
    assert_eq!(u64_to_string(u64::MAX), "18446744073709551615");
}

#[test]
fn key_builders_compose_verbatim() {
    let k = document_key(&"My Paper".to_string(), &"Summary Battery".to_string());
    assert_eq!(k, "My Paper - Summary Battery");
    let k = question_key(&"My Paper".to_string(), &"what is it about".to_string());
    assert_eq!(k, "My Paper: what is it about");
}

#[test]
fn pdf_path_respects_separator_style() {
    let title = "My Paper".to_string();
    assert_eq!(pdf_path(&"./pdfs/".to_string(), &title), "./pdfs/My Paper.pdf");
    assert_eq!(pdf_path(&"./pdfs".to_string(), &title), "./pdfs/My Paper.pdf");
    assert_eq!(pdf_path(&"C:\\docs".to_string(), &title), "C:\\docs\\My Paper.pdf");
}

#[test]
fn remove_and_clear_behave_like_map_operations() {
    let mut account = fresh_account();
    let v = query("p", "r", QueryType::DocumentCompletion);
    account.cache_query(&"k1".to_string(), &v);
    account.cache_query(&"k2".to_string(), &v);
    let removed = account.remove_from_cache("k1".to_string());
    let (rk, rv) = removed.expect("k1 was present");
    assert_eq!(rk, "k1");
    assert_eq!(rv, v);
    assert!(account.remove_from_cache("k1".to_string()).is_none());
    account.clear_cache();
    assert!(account.check_cache(&"k2".to_string(), QueryType::DocumentCompletion).is_none());
}

#[test]
fn default_account_is_blank() {
    let account = OpenAIAccount::default();
    assert_eq!(account.model, GptModel::Gpt35Turbo16k);
    assert_eq!(account.temperature, 0);
    assert_eq!(account.get_bill(), Bill::new());
    assert!(account.graveyard.is_empty());
}

#[test]
fn set_temperature_only_moves_temperature() {
    let mut account = fresh_account();
    account.set_temperature(50);
    assert_eq!(account.temperature, 50);
    assert_eq!(account.get_bill(), Bill::new());
}
