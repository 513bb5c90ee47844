use susshi::search::{add_token, best_score, fuzzy_score, matches_search_query, parse_search_tokens};

#[test]
fn test_parse_tokens_text_only() {
    let (text, tags) = parse_search_tokens("web DB");
    assert_eq!(text, vec!["web", "db"]);
    assert!(tags.is_empty());
}

#[test]
fn test_parse_tokens_tags_only() {
    let (text, tags) = parse_search_tokens("#prod #eu");
    assert!(text.is_empty());
    assert_eq!(tags, vec!["prod", "eu"]);
}

#[test]
fn test_parse_tokens_mixed() {
    let (text, tags) = parse_search_tokens("web #prod DB");
    assert_eq!(text, vec!["web", "db"]);
    assert_eq!(tags, vec!["prod"]);
}

#[test]
fn test_parse_tokens_empty_hash() {
    let (text, tags) = parse_search_tokens("# word");
    assert_eq!(text, vec!["word"]);
    assert!(tags.is_empty());
}

#[test]
fn parse_tokens_text_only() {
    let (text, tags) = parse_search_tokens("web DB");
    assert_eq!(text, vec!["web", "db"]);
    assert!(tags.is_empty());
}

#[test]
fn parse_tokens_tags_only() {
    let (text, tags) = parse_search_tokens("#prod #eu");
    assert!(text.is_empty());
    assert_eq!(tags, vec!["prod", "eu"]);
}

#[test]
fn parse_tokens_mixed() {
    let (text, tags) = parse_search_tokens("web #prod DB");
    assert_eq!(text, vec!["web", "db"]);
    assert_eq!(tags, vec!["prod"]);
}

#[test]
fn parse_tokens_empty_hash() {
    let (text, tags) = parse_search_tokens("# word");
    assert_eq!(text, vec!["word"]);
    assert!(tags.is_empty());
}

#[test]
fn parse_tokens_tag_is_lowercased_and_whitespace_collapsed() {
    let (text, tags) = parse_search_tokens("  #PROD\t\tApi  ");
    assert_eq!(text, vec!["api"]);
    assert_eq!(tags, vec!["prod"]);
}

#[test]
fn matches_query_with_tag_and_text() {
    let tags = vec!["prod".to_string(), "web".to_string()];
    assert!(matches_search_query("#prod web", "prod-web-01", "198.51.100.10", &tags));
    assert!(!matches_search_query("#staging web", "prod-web-01", "198.51.100.10", &tags));
}

#[test]
fn matches_query_tag_ignores_case() {
    let tags = vec!["Prod".to_string()];
    assert!(matches_search_query("#PROD", "x", "y", &tags));
}

#[test]
fn matches_query_empty_matches_everything() {
    assert!(matches_search_query("", "anything", "1.2.3.4", &vec![]));
}

#[test]
fn fuzzy_matches_abbreviated_name() {
    assert!(matches_search_query("appm", "app-mysql", "10.0.0.1", &vec![]));
}

#[test]
fn fuzzy_matches_abbreviated_multi_token() {
    assert!(matches_search_query("appm db", "app-mysql-db", "10.0.0.1", &vec![]));
}

#[test]
fn fuzzy_no_match_unrelated() {
    assert!(!matches_search_query("xyz", "app-mysql", "10.0.0.1", &vec![]));
}

#[test]
fn fuzzy_score_returns_some_on_match() {
    assert!(fuzzy_score("appm", "app-mysql", "10.0.0.1").is_some());
}

#[test]
fn fuzzy_score_returns_none_on_miss() {
    assert!(fuzzy_score("xyz", "app-mysql", "10.0.0.1").is_none());
}

#[test]
fn fuzzy_score_both_match() {
    assert!(fuzzy_score("app", "app-mysql", "10.0.0.1").is_some());
    assert!(fuzzy_score("appm", "app-mysql", "10.0.0.1").is_some());
}

#[test]
fn fuzzy_score_without_text_tokens_is_zero() {
    assert_eq!(fuzzy_score("#prod", "app-mysql", "10.0.0.1"), Some(0));
}

#[test]
fn fuzzy_score_is_positive_on_match() {
    assert!(fuzzy_score("mysql", "app-mysql", "10.0.0.1").unwrap() > 0);
}

#[test]
fn exact_substring_still_matches() {
    assert!(matches_search_query("mysql", "app-mysql", "10.0.0.1", &vec![]));
}

#[test]
fn matches_query_on_host() {
    assert!(matches_search_query("198.51", "web", "198.51.100.10", &vec![]));
}

#[test]
fn extra_tag_or_word_narrows_the_match() {
    let tags = vec!["prod".to_string(), "web".to_string()];
    assert!(matches_search_query("web", "web-01", "10.0.0.1", &tags));
    assert!(matches_search_query("web #PROD", "web-01", "10.0.0.1", &tags));
    assert!(!matches_search_query("web #staging", "web-01", "10.0.0.1", &tags));
    assert!(matches_search_query("web 10.0", "web-01", "10.0.0.1", &tags));
    assert!(!matches_search_query("web zzzz", "web-01", "10.0.0.1", &tags));
}

#[test]
fn token_scores_combine() {
    assert_eq!(best_score(Some(12), Some(30)), 30);
    assert_eq!(best_score(Some(12), None), 12);
    assert_eq!(best_score(None, Some(-4)), 0);
    assert_eq!(add_token(10, 5), Some(15));
    assert_eq!(add_token(10, 0), None);
    assert_eq!(add_token(i64::MAX, 2), Some(i64::MIN + 1));
}
