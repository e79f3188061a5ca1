use nanorp::bubble::{
    assistant_avatar_url, assistant_name, check_edit_image, copy_text, edit_accepts_image,
    edit_is_dirty, image_alt, image_class, image_grid_class, stream_indicator, thinking_heading,
    StreamIndicator,
};
use nanorp::character_list::{
    avatar_url, card_personality, check_avatar_file, check_import, data_url_payload,
    dialog_avatar_url, duplicate_of, editor_heading, export_file_name, form_for, form_is_dirty,
    form_name_error, form_to_new, form_to_update, visible_characters, AvatarFileError,
    CharacterForm, ImportError,
};
use nanorp::chat_view::{
    attach_image, can_send, classify_file, input_placeholder, needs_heif_conversion,
    pending_uploads, remove_image, send_target, sends_on_key, FileDecision, LiveReply,
    PendingImage, SendError,
};
use nanorp::models::{ConnectionStatus, NewCharacter, ProviderType};
use nanorp::screen::{
    empty_chat_hint, message_row_key, model_label, near_bottom, on_chat_page, saves_default_model,
    top_bar_display,
};
use nanorp::session_list::{
    empty_list_text, row_class, row_href, row_title, shows_search, SessionList, PAGE_SIZE,
};
use nanorp::settings_form::{
    check_provider_form, connection_toast, form_provider_type, mask_key, nav_item_class,
    nav_item_current, parse_max_tokens, provider_form_dirty, provider_form_for,
    provider_form_to_new, provider_form_to_update, provider_saved_notice, status_dot,
    tab_switch_needs_confirm, theme_option_class,
};
use nanorp::toast::ToastVariant;

fn character(name: &str, role: Option<&str>, personality: Option<&str>) -> NewCharacter {
    NewCharacter {
        name: name.to_string(),
        role: role.map(str::to_string),
        personality: personality.map(str::to_string),
        system_prompt: None,
        greeting: None,
    }
}

fn form(name: &str, role: &str) -> CharacterForm {
    CharacterForm {
        name: name.to_string(),
        role: role.to_string(),
        personality: String::new(),
        system_prompt: String::new(),
        greeting: String::new(),
    }
}

#[test]
fn character_search_matches_name_role_and_personality() {
    let list = vec![
        character("Luna", Some("Wise Wizard"), None),
        character("Borgnine", None, Some("Grumpy")),
        character("Rex", None, None),
    ];
    assert_eq!(visible_characters("  ", &list), vec![0, 1, 2]);
    assert_eq!(visible_characters(" WIZ ", &list), vec![0]);
    assert_eq!(visible_characters("grump", &list), vec![1]);
    assert_eq!(visible_characters("r", &list), vec![0, 1, 2]);
    assert!(visible_characters("zzz", &list).is_empty());
}

#[test]
fn editor_tracks_unsaved_changes_and_payloads() {
    let opened = form("Luna", "wizard");
    assert!(!form_is_dirty(&opened.clone(), &opened, false, false));
    assert!(form_is_dirty(&form("Luna", "witch"), &opened, false, false));
    assert!(form_is_dirty(&opened.clone(), &opened, true, false));
    assert!(form_is_dirty(&opened.clone(), &opened, false, true));

    let loaded = form_for(&character("Luna", None, Some("calm")));
    assert_eq!(loaded.role, "");
    assert_eq!(loaded.personality, "calm");

    let new = form_to_new(&form("Luna", ""));
    assert_eq!(new.role, None);
    assert_eq!(new.name, "Luna");
    let upd = form_to_update(7, &form("Luna", ""));
    assert_eq!(upd.id, 7);
    assert_eq!(upd.role.as_deref(), Some(""));
    assert_eq!(form_name_error(" "), Some("Name is required"));
    assert_eq!(form_name_error("Rex"), None);
    assert_eq!(editor_heading(true).0, "Edit Character");
    assert_eq!(editor_heading(false).1, "Give your character a name, personality, and voice.");
}

#[test]
fn copies_exports_and_avatars() {
    let c = character("Luna", Some("wizard"), None);
    let d = duplicate_of(&c);
    assert_eq!(d.name, "Luna (copy)");
    assert_eq!(d.role.as_deref(), Some("wizard"));
    assert_eq!(export_file_name("  AC/DC fan "), "AC-DC fan.json");
    assert_eq!(avatar_url(Some("avatars/x.png")).as_deref(), Some("/avatars/x.png"));
    assert_eq!(avatar_url(None), None);
    assert_eq!(dialog_avatar_url(Some("data:image/png;base64,AA"), true, Some("a.png")).as_deref(), Some("data:image/png;base64,AA"));
    assert_eq!(dialog_avatar_url(None, true, Some("a.png")), None);
    assert_eq!(dialog_avatar_url(None, false, Some("a.png")).as_deref(), Some("/a.png"));
    assert_eq!(card_personality(None), "No personality description yet.");
    assert_eq!(card_personality(Some("calm")), "calm");
}

#[test]
fn avatar_files_and_imports_are_checked() {
    assert_eq!(check_avatar_file("text/plain", 10), Err(AvatarFileError::NotAnImage));
    assert_eq!(check_avatar_file("image/png", 5 * 1024 * 1024 + 1), Err(AvatarFileError::TooLarge));
    assert_eq!(check_avatar_file("image/png", 5 * 1024 * 1024), Ok(()));
    assert_eq!(AvatarFileError::NotAnImage.describe(), "Only image files can be used as an avatar");
    assert_eq!(AvatarFileError::TooLarge.describe(), "Avatar image is too large (max 5 MB)");
    assert_eq!(data_url_payload("data:image/png;base64,aGk="), "aGk=");
    assert_eq!(data_url_payload("no comma"), "");
    assert_eq!(data_url_payload("a,b,c"), "b");
    assert_eq!(check_import(&character(" ", None, None)), Err(ImportError::NoName));
    assert_eq!(check_import(&character("Rex", None, None)), Ok(()));
    assert_eq!(ImportError::Invalid.describe(), "Import failed: not a valid character file");
    assert_eq!(ImportError::NoName.describe(), "Import failed: the character has no name");
}

#[test]
fn provider_form_is_checked_and_sent() {
    let e = check_provider_form(" ", "");
    assert_eq!((e.name, e.url), (Some("Name is required"), Some("API URL is required")));
    let e = check_provider_form("Local", " ftp://x ");
    assert_eq!((e.name, e.url), (None, Some("URL must start with http:// or https://")));
    let e = check_provider_form("Local", " https://x ");
    assert_eq!((e.name, e.url), (None, None));
    assert_eq!(form_provider_type("ollama"), ProviderType::Ollama);
    assert_eq!(form_provider_type("openai_compatible"), ProviderType::OpenAiCompatible);

    let opened = provider_form_for("Local", ProviderType::Ollama, "http://h", None, true);
    assert_eq!(opened.kind, "ollama");
    assert_eq!(opened.key, "");
    assert!(!provider_form_dirty(&opened.clone(), &opened));
    let mut changed = opened.clone();
    changed.is_default = false;
    assert!(provider_form_dirty(&changed, &opened));

    let new = provider_form_to_new(&opened);
    assert_eq!(new.api_key, None);
    assert_eq!(new.provider_type, ProviderType::Ollama);
    let mut keyed = opened.clone();
    keyed.key = "sk".to_string();
    let upd = provider_form_to_update(3, &keyed);
    assert_eq!(upd.api_key, Some(Some("sk".to_string())));
    assert_eq!(provider_form_to_update(3, &opened).api_key, Some(None));
    assert_eq!(provider_saved_notice(true), "Provider updated");
    assert_eq!(provider_saved_notice(false), "Provider added");
}

#[test]
fn settings_page_details() {
    assert!(tab_switch_needs_confirm("general", true));
    assert!(tab_switch_needs_confirm("chat", true));
    assert!(!tab_switch_needs_confirm("providers", true));
    assert!(!tab_switch_needs_confirm("general", false));

    let ok = connection_toast(&ConnectionStatus::Connected).unwrap();
    assert_eq!((ok.variant, ok.title, ok.duration_ms), (ToastVariant::Success, "Connected", 5000));
    let bad = connection_toast(&ConnectionStatus::Failed("boom".to_string())).unwrap();
    assert_eq!((bad.variant, bad.title), (ToastVariant::Error, "Connection failed"));
    assert_eq!(bad.description.as_deref(), Some("boom"));
    assert!(connection_toast(&ConnectionStatus::Testing).is_none());
    assert_eq!(status_dot(None), "bg-muted-foreground/40");
    assert_eq!(status_dot(Some(&ConnectionStatus::Testing)), "bg-yellow-500");

    assert_eq!(mask_key("short"), "••••");
    assert_eq!(mask_key("sk-1234567890"), "sk-1••••");
    assert_eq!(parse_max_tokens(" 512 "), Some(512));
    assert_eq!(parse_max_tokens("0"), None);
    assert_eq!(parse_max_tokens("+7"), Some(7));
    assert_eq!(parse_max_tokens("4294967296"), None);
    assert_eq!(parse_max_tokens("-1"), None);
    assert_eq!(parse_max_tokens(""), None);
    assert!(nav_item_class(true).ends_with("bg-accent text-accent-foreground"));
    assert_eq!(nav_item_current(true), "page");
    assert!(theme_option_class(false).contains("border-border"));
}

fn pending(id: u128) -> PendingImage {
    PendingImage { id, data: "aGk=".to_string(), content_type: "image/png".to_string(), original_name: None, file_size: 2 }
}

#[test]
fn composer_decisions() {
    assert!(can_send(false, false, "hi", 0));
    assert!(can_send(false, false, " ", 1));
    assert!(!can_send(false, false, " ", 0));
    assert!(!can_send(true, false, "hi", 0));
    assert!(!can_send(false, true, "hi", 0));
    assert!(sends_on_key("Enter", false, false));
    assert!(!sends_on_key("Enter", true, false));
    assert!(!sends_on_key("a", false, false));
    assert_eq!(input_placeholder(true), "Select a model to start chatting...");
    assert!(needs_heif_conversion("image/heic-sequence"));

    assert_eq!(classify_file("a.png", "image/png", 10, 0), FileDecision::Read);
    assert_eq!(classify_file("IMG.HEIC", "", 10, 0), FileDecision::Convert);
    assert_eq!(classify_file("x.heif", "image/heif", 10, 4), FileDecision::Convert);
    assert_eq!(
        classify_file("doc.pdf", "application/pdf", 10, 0),
        FileDecision::Refuse("\"doc.pdf\" isn't an image — only images can be attached".to_string())
    );
    assert_eq!(
        classify_file("big.png", "image/png", 10 * 1024 * 1024 + 1, 0),
        FileDecision::Refuse("\"big.png\" is too large (max 10 MB)".to_string())
    );
    assert_eq!(
        classify_file("a.png", "image/png", 1, 5),
        FileDecision::Refuse("You can attach up to 5 images per message".to_string())
    );

    let mut list = Vec::new();
    for id in 0..6 {
        let added = attach_image(&mut list, pending(id));
        assert_eq!(added, id < 5);
    }
    assert_eq!(list.len(), 5);
    let rest = remove_image(&list, 2);
    assert_eq!(rest.iter().map(|p| p.id).collect::<Vec<_>>(), vec![0, 1, 3, 4]);
    let uploads = pending_uploads(&rest);
    assert_eq!(uploads.len(), 4);
    assert_eq!(uploads[0].data, "aGk=");

    assert_eq!(send_target(Some(1), Some("m".to_string())), Ok((1, "m".to_string())));
    assert_eq!(send_target(None, Some("m".to_string())), Err(SendError::NoModel));
    assert_eq!(SendError::NoModel.describe(), "Select a model first");
}

#[test]
fn live_reply_streams_and_clears() {
    let mut live = LiveReply::new();
    assert!(!live.is_streaming());
    live.start(9);
    live.receive("Hel");
    live.receive("lo");
    assert_eq!(live.content(), "Hello");
    assert_eq!(live.placeholder(), Some(9));
    live.stop_answered(true);
    assert!(live.is_streaming());
    live.stop_answered(false);
    assert!(!live.is_streaming());
    assert_eq!(live.content(), "");
    live.start(10);
    live.end();
    assert_eq!(live.placeholder(), None);
}

#[test]
fn bubble_decisions() {
    assert_eq!(check_edit_image("a.txt", "text/plain", 1, 0, 0).as_deref(), Some("\"a.txt\" isn't an image — only images can be attached"));
    assert_eq!(check_edit_image("a.png", "image/png", 1, 3, 2).as_deref(), Some("You can attach up to 5 images per message"));
    assert_eq!(check_edit_image("a.png", "image/png", 1, 3, 1), None);
    assert!(edit_accepts_image(2, 2));
    assert!(!edit_accepts_image(3, 2));
    assert!(!edit_is_dirty("a", "a", &vec![1, 2], &vec![1, 2], 0));
    assert!(edit_is_dirty("a", "a", &vec![1], &vec![1, 2], 0));
    assert!(edit_is_dirty("b", "a", &vec![1, 2], &vec![1, 2], 0));
    assert!(edit_is_dirty("a", "a", &vec![], &vec![], 1));
    assert_eq!(assistant_name(None), "Assistant");
    assert_eq!(assistant_avatar_url(Some("")), None);
    assert_eq!(assistant_avatar_url(Some("avatars/a.png")).as_deref(), Some("/avatars/a.png"));
    assert_eq!(stream_indicator(true, ""), StreamIndicator::Dots);
    assert_eq!(stream_indicator(true, "x"), StreamIndicator::Cursor);
    assert_eq!(stream_indicator(false, ""), StreamIndicator::Nothing);
    assert_eq!(copy_text("<think>hmm</think>Answer"), "Answer");
    assert_eq!(thinking_heading(true), "Thinking...");
    assert_eq!(image_grid_class(1), "mb-2");
    assert_eq!(image_grid_class(5), "grid grid-cols-3 gap-1.5 mb-2");
    assert_eq!(image_class(2, true), "rounded-lg w-full h-32 object-cover border border-primary-foreground/20");
    assert_eq!(image_alt(None), "attached image");
}

#[test]
fn session_list_pages_without_repeating_rows() {
    let mut list = SessionList::new();
    let first = list.begin_request();
    list.on_page(first, vec![5, 4], 2, true);
    assert_eq!(list.rows(), &vec![5, 4]);
    assert_eq!(list.load_more_offset(), Some(2));
    let more = list.begin_request();
    list.on_page(more, vec![4, 3], 2, false);
    assert_eq!(list.rows(), &vec![5, 4, 3]);
    assert_eq!(list.load_more_offset(), Some(4));
    let last = list.begin_request();
    list.on_page(last, vec![2], 2, false);
    assert_eq!(list.load_more_offset(), None);
    assert_eq!(list.reload_limit(), PAGE_SIZE);
}

#[test]
fn stale_answers_do_not_land_on_newer_searches() {
    let mut list = SessionList::new();
    let old = list.begin_request();
    let newer = list.begin_request();
    list.on_page(newer, vec![1], 30, true);
    list.on_page(old, vec![7, 8, 9], 30, true);
    assert_eq!(list.rows(), &vec![1]);
    list.on_error(old, "late failure".to_string());
    assert!(list.error().is_none());
    let again = list.begin_request();
    assert!(list.is_loading());
    list.on_error(again, "offline".to_string());
    assert_eq!(list.error().map(|s| s.as_str()), Some("offline"));
    assert!(!list.is_loading());
}

#[test]
fn sidebar_rows() {
    assert!(shows_search(0, " x "));
    assert!(!shows_search(0, "  "));
    assert!(shows_search(3, ""));
    assert_eq!(empty_list_text(true, "x"), "Loading conversations…");
    assert_eq!(empty_list_text(false, " "), "No conversations yet. Select a character to start chatting.");
    assert_eq!(empty_list_text(false, "q"), "No conversations match your search.");
    assert_eq!(row_title(Some("  ".to_string()), "Luna"), "Luna");
    assert_eq!(row_title(Some("Dragons".to_string()), "Luna"), "Dragons");
    assert_eq!(row_title(None, "Luna"), "Luna");
    assert_eq!(row_href(0xa1a2a3a4b1b2c1c2d1d2d3d4d5d6d7d8), "/chat/a1a2a3a4-b1b2-c1c2-d1d2-d3d4d5d6d7d8");
    assert!(row_class(true).ends_with(" bg-accent"));
}

#[test]
fn screen_frame_details() {
    assert_eq!(model_label(None), "Select model");
    assert_eq!(model_label(Some("llama3".to_string())), "llama3");
    assert!(saves_default_model(None, "m"));
    assert!(!saves_default_model(Some("m"), "m"));
    assert!(saves_default_model(Some("n"), "m"));
    assert!(near_bottom(1000, 850, 100));
    assert!(!near_bottom(1000, 800, 100));
    assert_eq!(empty_chat_hint(Some("Luna")), "Say hello to Luna to begin.");
    assert_eq!(empty_chat_hint(Some("")), "Send a message to begin chatting.");
    assert_eq!(
        message_row_key(1, "héllo", &vec![2, 3]),
        "00000000-0000-0000-0000-000000000001:6:00000000-0000-0000-0000-000000000002,00000000-0000-0000-0000-000000000003"
    );
    assert_eq!(message_row_key(1, "", &vec![]), "00000000-0000-0000-0000-000000000001:0:");
    assert!(on_chat_page("/chat/abc"));
    assert_eq!(top_bar_display("/settings"), "flex");
    assert_eq!(top_bar_display("/chat/x"), "hidden");
}
