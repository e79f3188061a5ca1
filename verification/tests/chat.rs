use base64::Engine;
use nanorp::chat::{
    auto_title, build_system_prompt, check_attachment_count, check_image_upload, greeting_message,
    like_pattern, mime_to_extension, resolve_placeholders, search_pattern, session_preview,
    titles_session, updates_preview, UploadError,
};
use nanorp::messages::{
    attachments_to_remove, build_prompt, check_edit, encode_image, group_attachments, messages_after, plan_new_message,
    session_start,
    prepare_uploads, trailing_replies, EditError, HistoryEntry,
};
use nanorp::models::{ImageUpload, LlmImage, MessageRole};

fn user_entry(content: &str) -> HistoryEntry {
    HistoryEntry { role: MessageRole::User, content: content.to_string(), images: Vec::new() }
}

fn upload(data: &str, content_type: &str, name: Option<&str>) -> ImageUpload {
    ImageUpload {
        data: data.to_string(),
        content_type: content_type.to_string(),
        original_name: name.map(str::to_string),
    }
}

#[test]
fn resolve_placeholders_handles_all_variants() {
    let out = resolve_placeholders("{{char}} <BOT> <bot> / {{user}} <USER> <user>", "C", "U");
    assert_eq!(out, "C C C / U U U");
}

#[test]
fn system_prompt_falls_back_to_default() {
    let composed = build_system_prompt("Rex", None, None, None, "Sam", "Be helpful, {{user}}.");
    assert!(composed.starts_with("Be helpful, Sam."));
    assert!(composed.contains("Name: Rex"));
}

#[test]
fn unsupported_mime_types_are_rejected() {
    assert_eq!(mime_to_extension("image/png"), Some("png"));
    assert_eq!(mime_to_extension("image/jpeg"), Some("jpg"));
    assert_eq!(mime_to_extension("application/pdf"), None);
    assert_eq!(mime_to_extension("text/html"), None);

    let img = upload("", "application/x-msdownload", Some("evil.exe"));
    let err = check_image_upload(&img).unwrap_err();
    assert!(err.describe().contains("unsupported attachment type"));
}

#[test]
fn build_prompt_resolves_placeholders_and_skips_system_messages() {
    let history = vec![user_entry("Hi {{char}}, I'm {{user}}.")];
    let prompt = build_prompt(
        "Luna",
        Some("A wise old wizard"),
        Some("Patient and curious"),
        Some("You are {{char}}, talking to {{user}}."),
        "Sam",
        "Default prompt.",
        history,
    );

    assert_eq!(prompt.len(), 2);
    assert_eq!(prompt[0].role, MessageRole::System);
    assert!(prompt[0].content.contains("You are Luna, talking to Sam."));
    assert!(prompt[0].content.contains("Name: Luna"));
    assert!(prompt[0].content.contains("Personality:\nPatient and curious"));
    assert_eq!(prompt[1].content, "Hi Luna, I'm Sam.");
}

#[test]
fn create_session_inserts_greeting_as_first_message() {
    let greeting = greeting_message(Some("Hello, traveler!".to_string()));
    assert_eq!(greeting.as_deref(), Some("Hello, traveler!"));
}

#[test]
fn create_session_skips_blank_greeting() {
    assert!(greeting_message(Some("   ".to_string())).is_none());
    assert!(greeting_message(None).is_none());
}

#[test]
fn first_user_message_auto_titles_session() {
    let content = "Tell me a story about dragons";
    assert!(titles_session(MessageRole::User));
    assert!(updates_preview(MessageRole::User, content));
    assert_eq!(auto_title(content), "Tell me a story about dragons");
    assert_eq!(session_preview(content), "Tell me a story about dragons");
}

#[test]
fn list_sessions_search_treats_wildcards_literally() {
    assert_eq!(search_pattern(Some("%")).as_deref(), Some("%\\%%"));
    assert_eq!(search_pattern(Some("   ")), None);
    assert_eq!(search_pattern(None), None);
}

#[test]
fn system_prompt_composes_all_fields() {
    let composed = build_system_prompt(
        "Luna",
        Some("  A wise old wizard "),
        Some("Patient"),
        Some("  You are {{char}}; hi <user>.  "),
        "Sam",
        "unused",
    );
    assert_eq!(composed, "You are Luna; hi Sam.\n\nName: Luna\nRole: A wise old wizard\n\nPersonality:\nPatient");
}

#[test]
fn blank_character_prompt_uses_default_and_blank_fields_are_left_out() {
    let composed = build_system_prompt("Rex", Some("   "), Some(""), Some("  "), "Sam", "Default for <BOT>.");
    assert_eq!(composed, "Default for Rex.\n\nName: Rex");
}

#[test]
fn like_pattern_escapes_every_wildcard() {
    assert_eq!(like_pattern("a_b%c\\d"), "%a\\_b\\%c\\\\d%");
    assert_eq!(like_pattern(""), "%%");
    assert_eq!(search_pattern(Some("  dragon ")).as_deref(), Some("%dragon%"));
}

#[test]
fn previews_and_titles_are_cut_by_characters() {
    let long: String = "é".repeat(130);
    assert_eq!(session_preview(&long).chars().count(), 120);
    assert_eq!(auto_title(&long).chars().count(), 50);
    assert!(!updates_preview(MessageRole::System, "hello"));
    assert!(!updates_preview(MessageRole::Assistant, "  \n "));
    assert!(updates_preview(MessageRole::Assistant, "hi"));
    assert!(!titles_session(MessageRole::Assistant));
}

#[test]
fn every_upload_refusal_has_its_message() {
    assert_eq!(check_attachment_count(5), Ok(()));
    assert_eq!(check_attachment_count(6), Err(UploadError::TooManyAttachments(6)));
    assert_eq!(UploadError::TooManyAttachments(6).describe(), "too many attachments: 6 (max 5)");
    assert_eq!(
        UploadError::UnsupportedType("text/html".to_string()).describe(),
        "unsupported attachment type: text/html"
    );
    assert_eq!(UploadError::InvalidData.describe(), "decode attachment base64");
    assert_eq!(
        UploadError::TooLarge(10485761).describe(),
        "image too large: 10485761 bytes (max 10485760 bytes)"
    );
}

#[test]
fn image_uploads_are_decoded_and_size_checked() {
    let ok = check_image_upload(&upload("aGk=", "image/jpg", None)).unwrap();
    assert_eq!(ok.0, "jpg");
    assert_eq!(ok.1, b"hi".to_vec());
    assert_eq!(check_image_upload(&upload("not base64!", "image/png", None)), Err(UploadError::InvalidData));

    let big = base64::engine::general_purpose::STANDARD.encode(vec![0u8; 10485761]);
    assert_eq!(check_image_upload(&upload(&big, "image/gif", None)), Err(UploadError::TooLarge(10485761)));
    let max = base64::engine::general_purpose::STANDARD.encode(vec![0u8; 10485760]);
    assert!(check_image_upload(&upload(&max, "image/webp", None)).is_ok());
}

#[test]
fn prepared_uploads_are_named_after_fresh_ids() {
    let images = vec![upload("aGk=", "image/png", Some("a.png")), upload("aGk=", "image/jpeg", None)];
    let stored = prepare_uploads(&images).unwrap();
    assert_eq!(stored.len(), 2);
    assert_ne!(stored[0].id, stored[1].id);
    for (s, ext) in stored.iter().zip(["png", "jpg"]) {
        // A version-4 UUID has 4 as its 13th hex digit.
        assert_eq!((s.id >> 76) & 0xf, 4);
        let text = uuid::Uuid::from_u128(s.id).to_string();
        assert_eq!(s.file_name, format!("{text}.{ext}"));
        assert_eq!(s.rel_path, format!("attachments/{text}.{ext}"));
        assert_eq!(s.bytes, b"hi".to_vec());
    }
    assert_eq!(stored[0].original_name.as_deref(), Some("a.png"));
    assert_eq!(stored[1].content_type, "image/jpeg");
}

#[test]
fn prepared_uploads_report_the_first_refusal() {
    let six: Vec<ImageUpload> = (0..6).map(|_| upload("aGk=", "image/png", None)).collect();
    assert_eq!(prepare_uploads(&six).unwrap_err(), UploadError::TooManyAttachments(6));
    let mixed = vec![
        upload("aGk=", "image/png", None),
        upload("%%%", "image/png", None),
        upload("aGk=", "text/plain", None),
    ];
    assert_eq!(prepare_uploads(&mixed).unwrap_err(), UploadError::InvalidData);
    assert_eq!(prepare_uploads(&Vec::new()).unwrap().len(), 0);
}

#[test]
fn prompt_keeps_images_and_drops_system_messages() {
    let image = encode_image(b"hi", "image/png".to_string());
    assert_eq!(image.base64_data, "aGk=");
    let history = vec![
        HistoryEntry { role: MessageRole::System, content: "old system".to_string(), images: Vec::new() },
        HistoryEntry {
            role: MessageRole::User,
            content: "look <BOT>".to_string(),
            images: vec![LlmImage { base64_data: "aGk=".to_string(), content_type: "image/png".to_string() }],
        },
        HistoryEntry { role: MessageRole::Assistant, content: "I see, {{user}}.".to_string(), images: Vec::new() },
    ];
    let prompt = build_prompt("Luna", None, None, None, "Sam", "Be {{char}}.", history);
    assert_eq!(prompt.len(), 3);
    assert_eq!(prompt[0].content, "Be Luna.\n\nName: Luna");
    assert!(prompt[0].images.is_empty());
    assert_eq!(prompt[1].role, MessageRole::User);
    assert_eq!(prompt[1].content, "look Luna");
    assert_eq!(prompt[1].images.len(), 1);
    assert_eq!(prompt[2].role, MessageRole::Assistant);
    assert_eq!(prompt[2].content, "I see, Sam.");
}

#[test]
fn regenerate_discards_only_trailing_replies() {
    let (s, u, a) = (MessageRole::System, MessageRole::User, MessageRole::Assistant);
    assert_eq!(trailing_replies(&vec![u, a, a]), 2);
    assert_eq!(trailing_replies(&vec![a, u]), 0);
    assert_eq!(trailing_replies(&vec![a, a]), 2);
    assert_eq!(trailing_replies(&vec![]), 0);
    assert_eq!(trailing_replies(&vec![u, a, s, a]), 1);
}

#[test]
fn edits_need_text_or_an_image() {
    assert_eq!(check_edit("  ", 0, 0), Err(EditError::Empty));
    assert_eq!(EditError::Empty.describe(), "Message cannot be empty");
    assert_eq!(check_edit("  ", 1, 0), Ok(()));
    assert_eq!(check_edit("", 0, 2), Ok(()));
    assert_eq!(check_edit("fixed", 0, 0), Ok(()));
}

#[test]
fn edits_remove_unkept_attachments_within_the_cap() {
    let current = vec![10u128, 20, 30, 40];
    assert_eq!(attachments_to_remove(&current, &vec![20, 40, 99], 3), Ok(vec![0, 2]));
    assert_eq!(
        attachments_to_remove(&current, &vec![10, 20, 30], 3),
        Err(UploadError::TooManyAttachments(6))
    );
    assert_eq!(attachments_to_remove(&current, &vec![], 5), Ok(vec![0, 1, 2, 3]));
}

#[test]
fn attachments_are_grouped_under_their_messages() {
    let ids = vec![1u128, 2, 3];
    let owners = vec![2u128, 1, 2, 9, 3];
    let groups = group_attachments(&ids, &owners);
    assert_eq!(groups, vec![vec![1], vec![0, 2], vec![4]]);
    assert_eq!(group_attachments(&vec![], &owners), Vec::<Vec<usize>>::new());
}

#[test]
fn new_messages_plan_preview_title_and_uploads() {
    let plan = plan_new_message(MessageRole::User, "Tell me a story about dragons", &vec![upload("aGk=", "image/png", None)]).unwrap();
    assert_eq!(plan.preview.as_deref(), Some("Tell me a story about dragons"));
    assert_eq!(plan.title.as_deref(), Some("Tell me a story about dragons"));
    assert_eq!(plan.uploads.len(), 1);
    let reply = plan_new_message(MessageRole::Assistant, "Once upon a time", &vec![]).unwrap();
    assert_eq!(reply.preview.as_deref(), Some("Once upon a time"));
    assert!(reply.title.is_none());
    let system = plan_new_message(MessageRole::System, "rules", &vec![]).unwrap();
    assert!(system.preview.is_none() && system.title.is_none());
    assert_eq!(
        plan_new_message(MessageRole::User, "x", &vec![upload("aGk=", "text/plain", None)]).unwrap_err(),
        UploadError::UnsupportedType("text/plain".to_string())
    );
}

#[test]
fn sessions_start_with_their_greeting() {
    assert_eq!(session_start(Some("Hello, traveler!".to_string())), (Some("Hello, traveler!".to_string()), Some("Hello, traveler!".to_string())));
    assert_eq!(session_start(Some("   ".to_string())), (Some("   ".to_string()), None));
    assert_eq!(session_start(None), (None, None));
}

#[test]
fn edits_remove_the_messages_after_the_anchor() {
    let t1 = "2024-05-01T10:00:00.000000001+00:00".to_string();
    let t2 = "2024-05-01T10:00:00.000000002+00:00".to_string();
    let t3 = "2024-05-01T10:00:01+00:00".to_string();
    let msgs = vec![(t2.clone(), 7), (t1.clone(), 5), (t2.clone(), 3), (t3.clone(), 1), (t2.clone(), 9)];
    // Anchor (t2, 7): later timestamps go, and at t2 the greater id goes.
    assert_eq!(messages_after(&msgs, &t2, 7), vec![3, 4]);
    assert_eq!(messages_after(&msgs, &t1, 5), vec![0, 2, 3, 4]);
    assert!(messages_after(&msgs, &t3, 1).is_empty());
}
