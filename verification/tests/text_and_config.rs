use rag::config::{parse_unsigned, EnvSnapshot, NumberError, RuntimeConfig};
use rag::domain::{CoreError, SourceType};
use rag::text::{
    before_char, collapse_whitespace, decimal_string, join_with_spaces, is_blank, same_chars, starts_with,
    trim, trim_end_char, trim_start_char,
};

fn env(pairs: &[(&str, &str)]) -> EnvSnapshot {
    EnvSnapshot { vars: pairs.iter().map(|(k, v)| (k.to_string(), v.to_string())).collect() }
}

fn validation(r: Result<RuntimeConfig, CoreError>) -> String {
    match r {
        Err(CoreError::Validation(m)) => m,
        other => panic!("expected a validation error, got {:?}", other),
    }
}

#[test]
fn whitespace_helpers() {
    assert!(is_blank(""));
    assert!(is_blank(" \t\n\u{3000}"));
    assert!(!is_blank(" x "));
    assert_eq!(trim("  a b \n"), "a b");
    assert_eq!(trim("\u{a0}x\u{2003}"), "x");
    assert_eq!(collapse_whitespace("  Hello \n\n  World\t!  "), "Hello World !");
    assert_eq!(collapse_whitespace(" \n "), "");
    for s in ["a  b", " x\ty\nz ", "", "one"] {
        assert_eq!(collapse_whitespace(s), s.split_whitespace().collect::<Vec<_>>().join(" "));
        assert_eq!(trim(s), s.trim());
        assert_eq!(is_blank(s), s.trim().is_empty());
    }
}

#[test]
fn texts_join_with_single_spaces() {
    for parts in [vec![], vec!["one"], vec!["a", "b c", ""], vec![" x", "y "]] {
        let owned: Vec<String> = parts.iter().map(|p| p.to_string()).collect();
        assert_eq!(join_with_spaces(&owned), parts.join(" "));
    }
}

#[test]
fn string_helpers() {
    assert_eq!(rag::text::concat("ab", "cd"), "abcd");
    assert_eq!(decimal_string(0), "0");
    assert_eq!(decimal_string(1536), "1536");
    assert_eq!(decimal_string(u64::MAX), u64::MAX.to_string());
    assert!(same_chars("ide_buffer", "ide_buffer"));
    assert!(!same_chars("ide_buffer", "ide-buffer"));
    assert!(starts_with("https://x", "https://"));
    assert!(!starts_with("http", "https://"));
    assert_eq!(trim_start_char("///a/b", '/'), "a/b");
    assert_eq!(trim_end_char("/host//", '/'), "/host");
    assert_eq!(before_char("text/html; charset=utf-8", ';'), "text/html");
    assert_eq!(before_char("text/plain", ';'), "text/plain");
}

#[test]
fn source_type_wire_names_round_trip() {
    let all = [
        SourceType::Upload,
        SourceType::LocalFile,
        SourceType::Website,
        SourceType::Pdf,
        SourceType::Image,
        SourceType::Code,
        SourceType::Text,
        SourceType::IdeBuffer,
    ];
    for t in all {
        assert_eq!(SourceType::parse(t.as_str()), Some(t));
    }
    assert_eq!(SourceType::Upload.as_str(), "upload");
    assert_eq!(SourceType::IdeBuffer.as_str(), "ide_buffer");
    assert_eq!(SourceType::parse("Text"), None);
    assert_eq!(SourceType::parse(""), None);
}

#[test]
fn error_messages_name_the_kind() {
    assert_eq!(CoreError::Validation("bad k".to_string()).message(), "validation error: bad k");
    assert_eq!(CoreError::Unauthorized.message(), "unauthorized");
    assert_eq!(CoreError::Forbidden.message(), "forbidden");
    assert_eq!(CoreError::NotFound.message(), "not found");
    assert_eq!(CoreError::Provider("p".to_string()).message(), "provider error: p");
    assert_eq!(CoreError::Storage("s".to_string()).message(), "storage error: s");
    assert_eq!(CoreError::Lock("l".to_string()).message(), "lock error: l");
    assert_eq!(CoreError::NotImplemented("n".to_string()).message(), "not implemented: n");
}

#[test]
fn unsigned_numbers_read_as_the_standard_library_reads_them() {
    assert_eq!(parse_unsigned("42", 100), Ok(42));
    assert_eq!(parse_unsigned("+7", 100), Ok(7));
    assert_eq!(parse_unsigned("007", 100), Ok(7));
    assert_eq!(parse_unsigned("", 100), Err(NumberError::Empty));
    assert_eq!(parse_unsigned("+", 100), Err(NumberError::InvalidDigit));
    assert_eq!(parse_unsigned("-1", 100), Err(NumberError::InvalidDigit));
    assert_eq!(parse_unsigned("1 ", 100), Err(NumberError::InvalidDigit));
    assert_eq!(parse_unsigned("101", 100), Err(NumberError::TooLarge));
    for s in ["0", "255", "256", "+255", "-0", "", "+", "-", "12a", "99999999999", " 1"] {
        let ours = parse_unsigned(s, u8::MAX as u64);
        match s.parse::<u8>() {
            Ok(v) => assert_eq!(ours, Ok(v as u64), "{s}"),
            Err(_) => assert!(ours.is_err(), "{s}"),
        }
    }
    assert_eq!(parse_unsigned("18446744073709551615", u64::MAX), Ok(u64::MAX));
    assert_eq!(parse_unsigned("18446744073709551616", u64::MAX), Err(NumberError::TooLarge));
}

#[test]
fn empty_environment_gives_the_defaults() {
    let c = RuntimeConfig::from_env_values(&env(&[])).unwrap();
    assert_eq!(c.qdrant.url, "http://localhost:6334");
    assert_eq!(c.qdrant.api_key, None);
    assert_eq!(c.qdrant.collection_name, "chunks_te3_small");
    assert_eq!(c.qdrant.vector_size, 1536);
    assert_eq!(c.openai.base_url, "https://api.openai.com");
    assert_eq!(c.openai.api_key, None);
    assert_eq!(c.openai.timeout_ms, 30_000);
    assert_eq!(c.openai.max_retries, 2);
    assert_eq!(c.embedding_model, "text-embedding-3-small");
    assert_eq!(c.query_top_k_default, 4);
    assert_eq!(c.query_top_k_max, 20);
    assert_eq!(c.embed_concurrency, 4);
    assert_eq!(c.embed_batch_size, 50);
    assert_eq!(c.upsert_concurrency, 4);
    assert_eq!(c.upsert_batch_size, 100);
}

#[test]
fn set_values_replace_the_defaults() {
    let c = RuntimeConfig::from_env_values(&env(&[
        ("QDRANT_URL", "http://qdrant:6334"),
        ("QDRANT_API_KEY", "k1"),
        ("QDRANT_COLLECTION", "docs"),
        ("QDRANT_VECTOR_SIZE", "768"),
        ("OPENAI_BASE_URL", "http://ollama:11434"),
        ("OPENAI_API_KEY", "k2"),
        ("OPENAI_TIMEOUT_MS", "5000"),
        ("OPENAI_MAX_RETRIES", "0"),
        ("OPENAI_EMBED_MODEL", "nomic-embed-text"),
        ("QUERY_TOP_K_DEFAULT", "8"),
        ("QUERY_TOP_K_MAX", "8"),
        ("INGEST_EMBED_CONCURRENCY", "2"),
        ("INGEST_EMBED_BATCH_SIZE", "16"),
        ("INGEST_UPSERT_CONCURRENCY", "1"),
        ("INGEST_UPSERT_BATCH_SIZE", "64"),
    ]))
    .unwrap();
    assert_eq!(c.qdrant.url, "http://qdrant:6334");
    assert_eq!(c.qdrant.api_key.as_deref(), Some("k1"));
    assert_eq!(c.qdrant.collection_name, "docs");
    assert_eq!(c.qdrant.vector_size, 768);
    assert_eq!(c.openai.base_url, "http://ollama:11434");
    assert_eq!(c.openai.api_key.as_deref(), Some("k2"));
    assert_eq!(c.openai.timeout_ms, 5000);
    assert_eq!(c.openai.max_retries, 0);
    assert_eq!(c.embedding_model, "nomic-embed-text");
    assert_eq!((c.query_top_k_default, c.query_top_k_max), (8, 8));
    assert_eq!((c.embed_concurrency, c.embed_batch_size), (2, 16));
    assert_eq!((c.upsert_concurrency, c.upsert_batch_size), (1, 64));
}

#[test]
fn the_first_entry_of_a_name_wins() {
    let e = env(&[("QDRANT_COLLECTION", "first"), ("QDRANT_COLLECTION", "second")]);
    assert_eq!(e.lookup("QDRANT_COLLECTION").as_deref(), Some("first"));
    assert_eq!(e.lookup("MISSING"), None);
}

#[test]
fn bad_settings_are_refused() {
    assert_eq!(
        validation(RuntimeConfig::from_env_values(&env(&[("QDRANT_VECTOR_SIZE", "0")]))),
        "QDRANT_VECTOR_SIZE must be greater than 0"
    );
    assert_eq!(
        validation(RuntimeConfig::from_env_values(&env(&[("QDRANT_VECTOR_SIZE", "big")]))),
        format!("QDRANT_VECTOR_SIZE must be a valid u64: {}", "big".parse::<u64>().unwrap_err())
    );
    assert_eq!(
        validation(RuntimeConfig::from_env_values(&env(&[("QUERY_TOP_K_DEFAULT", "")]))),
        format!("QUERY_TOP_K_DEFAULT must be a valid usize: {}", "".parse::<usize>().unwrap_err())
    );
    assert_eq!(
        validation(RuntimeConfig::from_env_values(&env(&[("QUERY_TOP_K_DEFAULT", "21")]))),
        "QUERY_TOP_K_DEFAULT must be between 1 and QUERY_TOP_K_MAX"
    );
    assert_eq!(
        validation(RuntimeConfig::from_env_values(&env(&[("QUERY_TOP_K_DEFAULT", "0")]))),
        "QUERY_TOP_K_DEFAULT must be between 1 and QUERY_TOP_K_MAX"
    );
    assert_eq!(
        validation(RuntimeConfig::from_env_values(&env(&[("OPENAI_TIMEOUT_MS", "0")]))),
        "OPENAI_TIMEOUT_MS must be greater than 0"
    );
    assert_eq!(
        validation(RuntimeConfig::from_env_values(&env(&[("INGEST_EMBED_CONCURRENCY", "0")]))),
        "INGEST_EMBED_CONCURRENCY must be greater than 0"
    );
    assert_eq!(
        validation(RuntimeConfig::from_env_values(&env(&[("INGEST_EMBED_BATCH_SIZE", "0")]))),
        "INGEST_EMBED_BATCH_SIZE must be greater than 0"
    );
    assert_eq!(
        validation(RuntimeConfig::from_env_values(&env(&[("INGEST_UPSERT_CONCURRENCY", "0")]))),
        "INGEST_UPSERT_CONCURRENCY must be greater than 0"
    );
    assert_eq!(
        validation(RuntimeConfig::from_env_values(&env(&[("INGEST_UPSERT_BATCH_SIZE", "0")]))),
        "INGEST_UPSERT_BATCH_SIZE must be greater than 0"
    );
    assert_eq!(
        validation(RuntimeConfig::from_env_values(&env(&[("OPENAI_MAX_RETRIES", "4294967296")]))),
        format!("OPENAI_MAX_RETRIES must be a valid u32: {}", "4294967296".parse::<u32>().unwrap_err())
    );
    // All numeric settings are read before any of the ingest values is checked.
    assert_eq!(
        validation(RuntimeConfig::from_env_values(&env(&[
            ("INGEST_EMBED_CONCURRENCY", "0"),
            ("INGEST_UPSERT_BATCH_SIZE", "x"),
        ]))),
        format!("INGEST_UPSERT_BATCH_SIZE must be a valid usize: {}", "x".parse::<usize>().unwrap_err())
    );
}
