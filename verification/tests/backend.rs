use nanorp::crypto::{generate_key, key_file_path, key_from_file, KeyFileError};
use nanorp::models::{ConnectionStatus, LlmImage, LlmMessage, MessageRole, ProviderType, StreamEvent};
use nanorp::schema::{latest_version, pending_migrations};
use nanorp::settings::{
    apply_row, default_settings, load_settings, settings_rows, RowEffect, StoredSettings, DEFAULT_SYSTEM_PROMPT,
};
use nanorp::tracker::{stream_error_message, GenerationTracker};
use nanorp::wire::{
    backend_probe_status, models_failure, ollama_chat_failure, ollama_json_reply, to_ollama_message,
    ollama_trailing_events, openai_chat_failure, openai_line, to_openai_message, transport_error_event,
    unreachable_message, BackendProbe, OpenAiContent, OpenAiPart, SseLine,
};

const MIGRATION_COUNT: usize = 2;

#[test]
fn fresh_database_migrates_to_latest_version() {
    assert_eq!(pending_migrations(0, MIGRATION_COUNT), vec![1, 2]);
    assert_eq!(latest_version(MIGRATION_COUNT), 2);
}

#[test]
fn migrations_are_idempotent() {
    let first = pending_migrations(0, MIGRATION_COUNT);
    let after = *first.last().unwrap();
    assert!(pending_migrations(after, MIGRATION_COUNT).is_empty());
    assert_eq!(pending_migrations(1, MIGRATION_COUNT), vec![2]);
    assert!(pending_migrations(7, MIGRATION_COUNT).is_empty());
}

fn row(k: &str, v: &str) -> (String, String) {
    (k.to_string(), v.to_string())
}

#[test]
fn settings_load_over_defaults() {
    let d = default_settings();
    assert_eq!(d.default_system_prompt, DEFAULT_SYSTEM_PROMPT);
    assert_eq!(d.user_name, "User");
    assert_eq!(d.theme, "system");
    assert!(d.render_thinking);
    assert_eq!(d.max_tokens, None);

    let rows = vec![
        row("user_name", "\"Sam\""),
        row("theme", "42"),
        row("temperature", "0.5"),
        row("default_model", "\"llama3\""),
        row("render_thinking", "false"),
        row("max_tokens", "512"),
        row("default_provider_id", "\"a1a2a3a4-b1b2-c1c2-d1d2-d3d4d5d6d7d8\""),
        row("future_key", "\"x\""),
        row("top_p", "0.9"),
    ];
    let (s, sampling) = load_settings(&rows);
    assert_eq!(s.user_name, "Sam");
    assert_eq!(s.theme, "system");
    assert_eq!(s.default_model.as_deref(), Some("llama3"));
    assert!(!s.render_thinking);
    assert_eq!(s.max_tokens, Some(512));
    assert_eq!(s.default_provider_id, Some(0xa1a2a3a4b1b2c1c2d1d2d3d4d5d6d7d8));
    assert_eq!(sampling, vec![2, 8]);
}

#[test]
fn saved_settings_load_back_in_any_order() {
    let saved = StoredSettings {
        default_system_prompt: "Say \"hi\" to {{user}}\\n\nnew line, caf\u{e9}".to_string(),
        user_name: "Zo\u{eb}".to_string(),
        default_provider_id: Some(0x0123456789abcdef0011223344556677),
        default_model: Some("qwen3:8b".to_string()),
        theme: "dark".to_string(),
        render_thinking: false,
        max_tokens: Some(4096),
    };
    let rows = settings_rows(&saved).unwrap();
    assert_eq!(rows.len(), 7);
    assert_eq!(rows[0], row("default_system_prompt", "\"Say \\\"hi\\\" to {{user}}\\\\n\\nnew line, caf\u{e9}\""));
    assert_eq!(rows[4], row("theme", "\"dark\""));
    assert_eq!(rows[1], row("user_name", "\"Zo\u{eb}\""));
    assert_eq!(rows[2], row("default_provider_id", "\"01234567-89ab-cdef-0011-223344556677\""));
    assert_eq!(rows[5], row("render_thinking", "false"));
    assert_eq!(rows[6], row("max_tokens", "4096"));

    let mut stored = rows.clone();
    stored.reverse();
    stored.insert(3, row("temperature", "0.7"));
    stored.push(row("some_future_key", "[1, 2]"));
    let (s, sampling) = load_settings(&stored);
    assert_eq!(s.default_system_prompt, saved.default_system_prompt);
    assert_eq!(s.user_name, saved.user_name);
    assert_eq!(s.default_provider_id, saved.default_provider_id);
    assert_eq!(s.default_model, saved.default_model);
    assert_eq!(s.theme, saved.theme);
    assert_eq!(s.render_thinking, saved.render_thinking);
    assert_eq!(s.max_tokens, saved.max_tokens);
    assert_eq!(sampling, vec![3]);

    let none = StoredSettings { default_provider_id: None, default_model: None, max_tokens: None, ..saved };
    let rows = settings_rows(&none).unwrap();
    assert_eq!(rows[2].1, "null");
    assert_eq!(rows[3].1, "null");
    assert_eq!(rows[6].1, "null");
    let (s, _) = load_settings(&rows);
    assert_eq!(s.default_model, None);
    assert_eq!(s.max_tokens, None);
}

#[test]
fn settings_rows_report_their_effect() {
    let mut s = default_settings();
    assert_eq!(apply_row(&mut s, "default_model", "null"), RowEffect::Applied);
    assert_eq!(s.default_model, None);
    assert_eq!(apply_row(&mut s, "user_name", "not json"), RowEffect::Skipped);
    assert_eq!(apply_row(&mut s, "nope", "1"), RowEffect::Skipped);
    assert_eq!(apply_row(&mut s, "top_p", "1"), RowEffect::Sampling);
    assert_eq!(apply_row(&mut s, "default_system_prompt", "\"Hi {{user}}\""), RowEffect::Applied);
    assert_eq!(s.default_system_prompt, "Hi {{user}}");
    assert_eq!(apply_row(&mut s, "render_thinking", " false\r\n"), RowEffect::Applied);
    assert!(!s.render_thinking);
    assert_eq!(apply_row(&mut s, "render_thinking", "False"), RowEffect::Skipped);
    assert_eq!(apply_row(&mut s, "max_tokens", "null"), RowEffect::Applied);
    assert_eq!(s.max_tokens, None);
}

#[test]
fn tracker_follows_replies_across_pages() {
    let mut t = GenerationTracker::new();
    t.start(1);
    t.append(1, "Hel");
    t.append(1, "lo");
    t.append(2, "ignored");
    assert_eq!(t.content(1).map(|s| s.as_str()), Some("Hello"));
    assert!(t.content(2).is_none());
    assert_eq!(t.finish(1, false), "Reply finished");
    assert!(t.content(1).is_none());
    t.start(3);
    assert_eq!(t.finish(3, true), "Reply stopped");
    t.start(4);
    assert_eq!(t.fail(4, "offline"), "Generation failed: offline");
    assert!(t.content(4).is_none());
    assert_eq!(stream_error_message("eof"), "Stream error: eof");
}

fn message(images: usize) -> LlmMessage {
    LlmMessage {
        role: MessageRole::User,
        content: "look".to_string(),
        images: (0..images)
            .map(|i| LlmImage { base64_data: format!("D{i}"), content_type: "image/png".to_string() })
            .collect(),
    }
}

#[test]
fn request_messages_carry_images() {
    let plain = to_openai_message(&message(0));
    assert_eq!(plain.role, "user");
    assert!(matches!(plain.content, OpenAiContent::Text(ref t) if t == "look"));
    let with = to_openai_message(&message(2));
    match with.content {
        OpenAiContent::Parts(parts) => {
            assert_eq!(parts.len(), 3);
            assert!(matches!(&parts[0], OpenAiPart::Text(t) if t == "look"));
            assert!(matches!(&parts[2], OpenAiPart::ImageUrl { url, detail }
                if url == "data:image/png;base64,D1" && detail.as_deref() == Some("auto")));
        }
        OpenAiContent::Text(_) => panic!("expected parts"),
    }
    let o = to_ollama_message(&message(2));
    assert_eq!(o.images, Some(vec!["D0".to_string(), "D1".to_string()]));
    assert_eq!(to_ollama_message(&message(0)).images, None);
}

#[test]
fn stream_lines_and_failures() {
    assert_eq!(openai_line(": ping"), SseLine::Skip);
    assert_eq!(openai_line("data: [DONE]"), SseLine::Done);
    assert_eq!(openai_line("data: {\"x\":1}"), SseLine::Chunk("{\"x\":1}".to_string()));
    assert!(matches!(ollama_trailing_events(Some("tail".to_string())).as_slice(), [StreamEvent::Delta(d)] if d == "tail"));
    assert!(ollama_trailing_events(Some(String::new())).is_empty());
    assert!(matches!(transport_error_event("reset"), StreamEvent::Error(m) if m == "stream error: reset"));
    assert_eq!(openai_chat_failure(401, "401 Unauthorized", "x"), "Chat request failed (Invalid API key)");
    assert_eq!(openai_chat_failure(429, "429 Too Many Requests", "x"), "Chat request failed (Rate limited by provider)");
    assert_eq!(openai_chat_failure(500, "500 Internal Server Error", "oops"), "Chat request failed (500 Internal Server Error: oops)");
    assert_eq!(ollama_chat_failure("404 Not Found", "no model"), "Ollama chat failed (404 Not Found): no model");
    assert_eq!(models_failure(ProviderType::Ollama, "500"), "Ollama returned 500 for /api/tags");
    assert_eq!(models_failure(ProviderType::OpenAiCompatible, "500"), "Provider returned 500 for /v1/models");
    assert_eq!(unreachable_message(ProviderType::Ollama, "http://h"), "Cannot connect to Ollama at http://h");
}

#[test]
fn backend_probes_and_json_replies() {
    let status = |p, probe| match backend_probe_status(p, "http://h", probe) {
        ConnectionStatus::Connected => "connected".to_string(),
        ConnectionStatus::Failed(m) => m,
        ConnectionStatus::Testing => "testing".to_string(),
    };
    assert_eq!(status(ProviderType::Ollama, BackendProbe::Answered { code: 200, status: "200 OK".into() }), "connected");
    assert_eq!(status(ProviderType::OpenAiCompatible, BackendProbe::Answered { code: 401, status: "401 Unauthorized".into() }), "Invalid API key");
    assert_eq!(status(ProviderType::Ollama, BackendProbe::Answered { code: 401, status: "401 Unauthorized".into() }), "Server returned 401 Unauthorized");
    assert_eq!(status(ProviderType::OpenAiCompatible, BackendProbe::Unreachable), "Cannot connect to http://h");
    assert_eq!(status(ProviderType::Ollama, BackendProbe::Failed("tls".into())), "Request failed: tls");
    assert_eq!(ollama_json_reply(Some("bad".to_string()), None), Err("Ollama error: bad".to_string()));
    assert_eq!(ollama_json_reply(None, Some("```json\n{}\n```".to_string())), Ok("{}".to_string()));
    assert_eq!(ollama_json_reply(None, None), Ok(String::new()));
}

#[test]
fn openai_models_sort_by_name_ignoring_case() {
    let ids: Vec<String> = ["mistral-7b", "Qwen", "alpha", "ALPHA", "beta"].iter().map(|s| s.to_string()).collect();
    let models = nanorp::model_list::openai_models(&ids);
    let names: Vec<&str> = models.iter().map(|m| m.name.as_str()).collect();
    assert_eq!(names, vec!["alpha", "ALPHA", "beta", "mistral-7b", "Qwen"]);
    assert!(models.iter().all(|m| m.size.is_none() && m.id == m.name));
    assert!(nanorp::model_list::openai_models(&Vec::new()).is_empty());
}

#[test]
fn ollama_models_keep_their_order_and_sizes() {
    let models = nanorp::model_list::ollama_models(vec![("llama3:8b".to_string(), Some(42)), ("a".to_string(), None)]);
    assert_eq!(models.len(), 2);
    assert_eq!(models[0].id, "llama3:8b");
    assert_eq!(models[0].size, Some(42));
    assert_eq!(models[1].name, "a");
}

#[test]
fn key_files_must_hold_a_whole_key() {
    assert_eq!(key_from_file(&[5u8; 32]), Ok([5u8; 32]));
    assert_eq!(key_from_file(&[5u8; 31]), Err(KeyFileError::WrongLength(31)));
    assert_eq!(
        KeyFileError::WrongLength(31).describe("/k"),
        "key file /k is corrupt (expected 32 bytes, found 31)"
    );
    assert_ne!(generate_key(), generate_key());
    assert_eq!(key_file_path("/cfg/nanorp"), "/cfg/nanorp/secret.key");
}
