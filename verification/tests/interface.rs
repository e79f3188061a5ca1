use nanorp::avatar::{gradient, initial};
use nanorp::models::{MessageRole, ProviderType, StreamEvent};
use nanorp::provider::{
    connection_test_url, image_data_url, nonempty_key, normalize_url, strip_code_fence,
    trim_trailing_slashes, OllamaProvider, OpenAiProvider,
};
use nanorp::stream::{is_done_marker, ollama_chunk, openai_chunk, sse_data, LineBuffer, ReplyAccumulator};
use nanorp::toast::{ToastContext, ToastVariant, DEFAULT_DURATION_MS};
use nanorp::ui::{
    focus_target, format_relative_time, merge_page, pick_default_model, tab_trap, ActiveFocus,
    DropdownAlign, ItemFocus, SelectOption, SheetSide, TabTrap,
};
use nanorp::update::{parse_version, update_info, version_is_newer};

#[test]
fn initials_and_gradients() {
    assert_eq!(initial("  luna"), "L");
    assert_eq!(initial("   "), "?");
    assert_eq!(initial("ß"), "SS");
    assert_eq!(initial("9lives"), "9");
    // "ab" sums to 195, which is 3 modulo 8.
    assert_eq!(gradient("ab"), "from-violet-500 to-fuchsia-500");
    assert_eq!(gradient(""), "from-rose-500 to-orange-500");
}

#[test]
fn roles_and_provider_kinds_round_trip() {
    for role in [MessageRole::System, MessageRole::User, MessageRole::Assistant] {
        assert_eq!(MessageRole::parse(role.as_str()), Some(role));
    }
    assert_eq!(MessageRole::parse("robot"), None);
    assert_eq!(ProviderType::Ollama.label(), "Ollama");
    assert_eq!(ProviderType::OpenAiCompatible.label(), "OpenAI Compatible");
    assert_eq!(nanorp::models::parse_provider_type(nanorp::models::provider_type_str(&ProviderType::OpenAiCompatible)), Some(ProviderType::OpenAiCompatible));
    assert_eq!(nanorp::models::provider_type_str(&ProviderType::Ollama), "ollama");
}

#[test]
fn provider_urls_and_keys() {
    assert_eq!(normalize_url("  https://api.example.com/ "), "https://api.example.com");
    assert_eq!(normalize_url("http://h//"), "http://h/");
    assert_eq!(normalize_url("http://h"), "http://h");
    assert_eq!(trim_trailing_slashes("http://x/"), "http://x");
    assert_eq!(nonempty_key(Some(String::new())), None);
    assert_eq!(nonempty_key(Some("k".to_string())).as_deref(), Some("k"));
    assert_eq!(OllamaProvider::new("http://localhost:11434/".to_string()).base_url, "http://localhost:11434");
    let p = OpenAiProvider::new("https://api.openai.com/v1/".to_string(), Some(String::new()));
    assert_eq!(p.api_key, None);
    assert_eq!(p.api_url("/v1/chat/completions"), "https://api.openai.com/v1/chat/completions");
    let q = OpenAiProvider::new("http://localhost:1234".to_string(), Some("k".to_string()));
    assert_eq!(q.api_url("/v1/models"), "http://localhost:1234/v1/models");
    assert_eq!(connection_test_url(ProviderType::Ollama, "http://h"), "http://h/api/tags");
    assert_eq!(connection_test_url(ProviderType::OpenAiCompatible, "http://h"), "http://h/v1/models");
    assert_eq!(image_data_url("image/png", "aGk="), "data:image/png;base64,aGk=");
}

#[test]
fn code_fences_are_stripped() {
    assert_eq!(strip_code_fence("```json\n{\"a\":1}\n```"), "{\"a\":1}");
    assert_eq!(strip_code_fence("```\nplain\n```"), "plain");
    assert_eq!(strip_code_fence("  {\"a\":1} "), "{\"a\":1}");
}

#[test]
fn versions_are_compared_numerically() {
    assert_eq!(parse_version("1.10.2"), vec![1, 10, 2]);
    assert_eq!(parse_version("v1.x"), vec![0, 0]);
    assert!(version_is_newer("0.10.0", "0.9.9"));
    assert!(!version_is_newer("0.2.0", "0.2.0"));
    assert!(version_is_newer("1.0.0.1", "1.0.0"));
    let info = update_info(Some("v0.3.0"), None, "0.2.5").unwrap();
    assert_eq!(info.latest_tag, "v0.3.0");
    assert!(info.update_available);
    assert_eq!(info.release_url, "https://github.com/coder3101/nanorp/releases");
    assert!(update_info(None, None, "0.1.0").is_none());
    assert!(update_info(Some("v"), None, "0.1.0").is_none());
    let same = update_info(Some("0.2.5"), Some("https://example.com/r"), "0.2.5").unwrap();
    assert!(!same.update_available);
    assert_eq!(same.release_url, "https://example.com/r");
}

#[test]
fn stream_lines_and_chunks() {
    let mut buf = LineBuffer::new();
    assert!(buf.push("data: {\"a\"").is_empty());
    assert_eq!(buf.push(":1}\n\ndata: [DONE]\n"), vec!["data: {\"a\":1}", "data: [DONE]"]);
    assert_eq!(buf.push("tail"), Vec::<String>::new());
    assert_eq!(buf.rest(), "tail");
    assert_eq!(sse_data("data:  [DONE] ").as_deref(), Some("[DONE]"));
    assert_eq!(sse_data(": keep-alive"), None);
    assert!(is_done_marker("[DONE]"));

    let (events, done) = openai_chunk(Some("hmm".to_string()), Some("".to_string()), Some("stop".to_string()));
    assert!(done);
    assert!(matches!(events.as_slice(), [StreamEvent::Reasoning(r), StreamEvent::Done] if r == "hmm"));
    let (events, done) = ollama_chunk(Some("boom".to_string()), None, false);
    assert!(done);
    assert!(matches!(events.as_slice(), [StreamEvent::Error(e), StreamEvent::Done] if e == "boom"));
    let (events, done) = ollama_chunk(None, Some(("hi".to_string(), None)), false);
    assert!(!done);
    assert!(matches!(events.as_slice(), [StreamEvent::Delta(d)] if d == "hi"));
}

#[test]
fn replies_frame_reasoning_and_keep_errors_out() {
    let mut acc = ReplyAccumulator::new();
    assert_eq!(acc.on_event(StreamEvent::Reasoning("a".to_string())), (vec!["<think>".to_string(), "a".to_string()], false));
    assert_eq!(acc.on_event(StreamEvent::Reasoning("b".to_string())), (vec!["b".to_string()], false));
    assert_eq!(acc.on_event(StreamEvent::Delta("c".to_string())), (vec!["</think>".to_string(), "c".to_string()], false));
    assert_eq!(acc.on_event(StreamEvent::Error("x".to_string())), (vec!["\n\n[error: x]".to_string()], true));
    assert_eq!(acc.accumulated(), "<think>ab</think>c");
    assert!(acc.finish().is_empty());
    assert_eq!(acc.reply_to_save().as_deref(), Some("<think>ab</think>c"));
    let saved = nanorp::thinking::parse_thinking(acc.accumulated());
    assert_eq!(saved.reasoning.as_deref(), Some("ab"));
    assert!(!saved.reasoning_open);
    assert_eq!(saved.answer, "c");

    let mut open = ReplyAccumulator::new();
    open.on_event(StreamEvent::Reasoning("r".to_string()));
    assert_eq!(open.finish(), vec!["</think>".to_string()]);
    assert_eq!(ReplyAccumulator::new().reply_to_save(), None);
    assert_eq!(ReplyAccumulator::new().on_event(StreamEvent::Done), (Vec::new(), true));
}

#[test]
fn toasts_get_fresh_ids_and_can_be_dismissed() {
    let mut ctx = ToastContext::new();
    let a = ctx.add("Saved".to_string(), None, ToastVariant::Success, DEFAULT_DURATION_MS);
    let b = ctx.add("Oops".to_string(), Some("details".to_string()), ToastVariant::Error, 100);
    assert_eq!((a, b), (0, 1));
    ctx.show("Hi".to_string(), ToastVariant::Default);
    assert_eq!(ctx.toasts().len(), 3);
    ctx.dismiss(a);
    let ids: Vec<u64> = ctx.toasts().iter().map(|t| t.id).collect();
    assert_eq!(ids, vec![1, 2]);
    assert_eq!(ctx.toasts()[0].clone_toast().description.as_deref(), Some("details"));
    assert!(ToastVariant::Warning.classes().contains("yellow"));
}

#[test]
fn menus_dialogs_and_selects() {
    assert_eq!(focus_target(ItemFocus::Next, Some(2), 3), 0);
    assert_eq!(focus_target(ItemFocus::Prev, Some(0), 3), 2);
    assert_eq!(focus_target(ItemFocus::Prev, None, 3), 2);
    assert_eq!(focus_target(ItemFocus::Next, None, 3), 0);
    assert_eq!(tab_trap(0, false, ActiveFocus::Nothing), TabTrap::Prevent);
    assert_eq!(tab_trap(3, true, ActiveFocus::At(0)), TabTrap::FocusLast);
    assert_eq!(tab_trap(3, false, ActiveFocus::At(2)), TabTrap::FocusFirst);
    assert_eq!(tab_trap(3, false, ActiveFocus::At(1)), TabTrap::Allow);
    assert_eq!(tab_trap(3, false, ActiveFocus::Elsewhere), TabTrap::Allow);
    assert_eq!(DropdownAlign::Start.classes(), "left-0");
    assert!(SheetSide::Left.enter_animation().contains("left"));
    assert_eq!(SheetSide::Top.fixed_classes(), "fixed inset-x-0 top-0 z-50 w-full");
    assert!(SheetSide::Right.fixed_classes().contains("right-0"));
    let o = SelectOption::new("v".to_string(), "Label".to_string()).disabled(true);
    assert!(o.disabled);
    assert_eq!(o.value, "v");
}

#[test]
fn default_model_selection() {
    let models = vec![vec!["a".to_string()], vec!["x".to_string(), "y".to_string()]];
    assert_eq!(pick_default_model(&vec![false, true], &models, Some("y")), Some((1, "y".to_string())));
    assert_eq!(pick_default_model(&vec![false, true], &models, Some("z")), Some((1, "x".to_string())));
    assert_eq!(pick_default_model(&vec![false, false], &models, None), Some((0, "a".to_string())));
    assert_eq!(pick_default_model(&vec![], &vec![], None), None);
}

#[test]
fn pages_merge_without_repeats() {
    let mut held = vec![1u128, 2, 3];
    merge_page(&mut held, &vec![3, 4, 4, 5]);
    assert_eq!(held, vec![1, 2, 3, 4, 5]);
}

#[test]
fn relative_times() {
    assert_eq!(format_relative_time(-5), "now");
    assert_eq!(format_relative_time(59), "now");
    assert_eq!(format_relative_time(300), "5m");
    assert_eq!(format_relative_time(7200), "2h");
    assert_eq!(format_relative_time(172800), "2d");
    assert_eq!(format_relative_time(604800), "1w");
    assert_eq!(format_relative_time(2419200), "0mo");
    assert_eq!(format_relative_time(5184000), "2mo");
}

#[test]
fn lines_do_not_depend_on_chunking() {
    let body = "{\"a\":1}\n  \n{\"b\":2}\r\n{\"c\"";
    let mut whole = LineBuffer::new();
    let all_at_once = whole.push(body);
    for cut in 0..body.len() {
        let mut buf = LineBuffer::new();
        let mut lines = buf.push(&body[..cut]);
        lines.extend(buf.push(&body[cut..]));
        assert_eq!(lines, all_at_once);
        assert_eq!(buf.rest(), whole.rest());
    }
    assert_eq!(all_at_once, vec!["{\"a\":1}".to_string(), "{\"b\":2}".to_string()]);
    assert_eq!(whole.rest(), "{\"c\"");
}
