use course_log::gateway::TranslationCache;
use course_log::gateway::build_translation_prompt;
use course_log::gateway::extract_translations;
use course_log::gateway::lookup_cached_translations;
use course_log::gateway::translate_batch;
use course_log::gateway::translation_misses;

fn strings(items: &[&str]) -> Vec<String> {
    items.iter().map(|s| s.to_string()).collect()
}

#[test]
fn lookup_preserves_length_and_order() {
    let mut cache = TranslationCache::new();
    cache.insert("你好".to_string(), "hello".to_string());
    let texts = strings(&["再见", "你好", "你好"]);
    let found = lookup_cached_translations(&cache, &texts);
    assert_eq!(
        found,
        vec![None, Some("hello".to_string()), Some("hello".to_string())]
    );
}

#[test]
fn batch_hits_and_one_covered_miss() {
    let mut cache = TranslationCache::new();
    cache.insert("a".to_string(), "A".to_string());
    let texts = strings(&["a", "a", "b"]);
    // the one remote call covers exactly the distinct uncached text
    let misses = translation_misses(&cache, &texts);
    assert_eq!(misses, strings(&["b"]));
    let out = translate_batch(&mut cache, &texts, Some(strings(&["B"])));
    assert_eq!(out, strings(&["A", "A", "B"]));
    assert_eq!(cache.lookup("b"), Some("B".to_string()));
}

#[test]
fn batch_degrades_to_identity_on_failure() {
    let mut cache = TranslationCache::new();
    let texts = strings(&["x"]);
    assert_eq!(translation_misses(&cache, &texts), strings(&["x"]));
    let out = translate_batch(&mut cache, &texts, None);
    assert_eq!(out, strings(&["x"]));
    // a failed call writes nothing to the cache
    assert!(!cache.contains("x"));
}

#[test]
fn batch_degrades_to_identity_on_count_mismatch() {
    let mut cache = TranslationCache::new();
    cache.insert("a".to_string(), "A".to_string());
    let texts = strings(&["a", "x", "y"]);
    let out = translate_batch(&mut cache, &texts, Some(strings(&["X"])));
    assert_eq!(out, strings(&["A", "x", "y"]));
    assert!(!cache.contains("x"));
    assert!(!cache.contains("y"));
}

#[test]
fn batch_keeps_empty_texts_empty() {
    let mut cache = TranslationCache::new();
    let texts = strings(&["", "a", ""]);
    assert_eq!(translation_misses(&cache, &texts), strings(&["a"]));
    let out = translate_batch(&mut cache, &texts, Some(strings(&["A"])));
    assert_eq!(out, strings(&["", "A", ""]));
}

#[test]
fn batch_never_returns_empty_for_nonempty_input() {
    // an empty remote translation falls back to the source text and is
    // not written to the cache
    let mut cache = TranslationCache::new();
    let texts = strings(&["x"]);
    let out = translate_batch(&mut cache, &texts, Some(strings(&[""])));
    assert_eq!(out, strings(&["x"]));
    assert!(!cache.contains("x"));
    // an empty cached translation falls back to the source text too
    let mut cache2 = TranslationCache::new();
    cache2.insert("y".to_string(), "".to_string());
    let texts2 = strings(&["y"]);
    assert!(translation_misses(&cache2, &texts2).is_empty());
    let out2 = translate_batch(&mut cache2, &texts2, Some(Vec::new()));
    assert_eq!(out2, strings(&["y"]));
}

#[test]
fn cache_insert_is_an_upsert() {
    let mut cache = TranslationCache::new();
    cache.insert("词".to_string(), "word".to_string());
    cache.insert("词".to_string(), "term".to_string());
    assert_eq!(cache.lookup("词"), Some("term".to_string()));
}

#[test]
fn extract_plain_json_array() {
    let out = extract_translations("[\"Graphs\", \"Trees\"]");
    assert_eq!(out, Some(strings(&["Graphs", "Trees"])));
}

#[test]
fn extract_strips_code_fences() {
    let out = extract_translations("  ```json\n[\"One\"]\n```  ");
    assert_eq!(out, Some(strings(&["One"])));
    let out2 = extract_translations("```\n[\"Two\", \"Three\"]\n```");
    assert_eq!(out2, Some(strings(&["Two", "Three"])));
}

#[test]
fn extract_rejects_other_shapes() {
    assert_eq!(extract_translations("not json at all"), None);
    assert_eq!(extract_translations("{\"a\": 1}"), None);
    assert_eq!(extract_translations("[1, 2, 3]"), None);
}

#[test]
fn prompt_has_exact_shape() {
    let texts = strings(&["你好", "世界"]);
    let prompt = build_translation_prompt(&texts, "CS 101");
    assert_eq!(
        prompt,
        "Translate these Chinese items to English for a university course (CS 101). \
         These are topic descriptions and category names. Return ONLY a JSON array \
         of strings, with exactly 2 elements, in the same order:\n1. 你好\n2. 世界"
    );
}
