use base64::Engine;
use nanorp::character::{
    check_new_name, check_update_name, clean, design_request, generated_into_new,
    merge_update, new_character_fields, opt_clean, prepare_avatar, replaced_avatar,
    stale_avatar_files, AvatarError, CharacterError, GenerateError, GeneratedCharacter,
    UpdateCharacter, DESIGN_REQUEST_INTRO,
};
use nanorp::config::{
    app_dir_under, attachment_file_name, attachment_path, attachment_rel_path, attachments_dir,
    avatar_path, avatar_path_ext, avatar_rel_path, avatars_dir, config_dir, db_path, resolve_rel,
    ConfigError,
};
use nanorp::models::{ConnectionStatus, NewCharacter, NewProvider, ProviderType};
use nanorp::provider_store::{check_new_provider, connection_status, ProbeOutcome, ProviderError};
use nanorp::theme::{apply, get_theme, set_theme, theme_init_script, DEFAULT_THEME, STORAGE_KEY};

const ID: u128 = 0xa1a2a3a4b1b2c1c2d1d2d3d4d5d6d7d8;
const ID_TEXT: &str = "a1a2a3a4-b1b2-c1c2-d1d2-d3d4d5d6d7d8";

#[test]
fn data_paths_sit_under_the_app_directory() {
    let dir = app_dir_under("/home/alice/.config");
    assert_eq!(dir, "/home/alice/.config/nanorp");
    assert_eq!(db_path(&dir), "/home/alice/.config/nanorp/nanorp.db");
    assert_eq!(avatars_dir(&dir), "/home/alice/.config/nanorp/avatars");
    assert_eq!(attachments_dir(&dir), "/home/alice/.config/nanorp/attachments");
    assert_eq!(avatar_path(&dir, "abc"), "/home/alice/.config/nanorp/avatars/abc.webp");
    assert_eq!(avatar_path_ext(&dir, "abc", "png"), "/home/alice/.config/nanorp/avatars/abc.png");
    assert_eq!(attachment_path(&dir, "x.gif"), "/home/alice/.config/nanorp/attachments/x.gif");
}

#[test]
fn platform_directory_is_located_or_reported_missing() {
    match config_dir() {
        Ok(dir) => assert!(dir.ends_with("/nanorp")),
        Err(e) => {
            assert_eq!(e, ConfigError::NoConfigDir);
            assert_eq!(e.describe(), "Could not determine config directory");
        }
    }
}

#[test]
fn recorded_paths_name_the_written_files() {
    assert_eq!(avatar_rel_path(ID, "png"), format!("avatars/{ID_TEXT}.png"));
    let name = attachment_file_name(ID, "jpg");
    assert_eq!(name, format!("{ID_TEXT}.jpg"));
    assert_eq!(attachment_rel_path(&name), format!("attachments/{ID_TEXT}.jpg"));
    let dir = "/data/nanorp";
    assert_eq!(resolve_rel(dir, &avatar_rel_path(ID, "png")), avatar_path_ext(dir, ID_TEXT, "png"));
    assert_eq!(resolve_rel(dir, &attachment_rel_path(&name)), attachment_path(dir, &name));
}

#[test]
fn theme_choice_is_read_back_and_drawn() {
    assert_eq!(STORAGE_KEY, "nanorp-theme");
    assert_eq!(get_theme(None), DEFAULT_THEME);
    assert_eq!(get_theme(Some("dark".to_string())), "dark");
    assert!(apply("dark", false));
    assert!(!apply("light", true));
    assert!(apply("system", true));
    assert!(!apply("system", false));
    let (stored, dark) = set_theme("light", true);
    assert_eq!(get_theme(Some(stored)), "light");
    assert!(!dark);
    assert!(theme_init_script().contains("localStorage.getItem('nanorp-theme')"));
}

fn some(s: &str) -> Option<String> {
    Some(s.to_string())
}

#[test]
fn character_fields_are_cleaned() {
    assert_eq!(clean(some("  wise  ")), some("wise"));
    assert_eq!(clean(some("   ")), None);
    assert_eq!(clean(None), None);
    assert_eq!(opt_clean("\tx\n".to_string()), some("x"));
    let new = NewCharacter {
        name: " Luna ".to_string(),
        role: some(" wizard "),
        personality: some(""),
        system_prompt: None,
        greeting: some("Hi!"),
    };
    let f = new_character_fields(&new);
    assert_eq!(f.name, " Luna ");
    assert_eq!(f.role, some("wizard"));
    assert_eq!(f.personality, None);
    assert_eq!(f.system_prompt, None);
    assert_eq!(f.greeting, some("Hi!"));
}

#[test]
fn updates_change_only_the_fields_they_set() {
    let existing = NewCharacter {
        name: "Luna".to_string(),
        role: some("wizard"),
        personality: some("calm"),
        system_prompt: some("Be {{char}}"),
        greeting: None,
    };
    let update = UpdateCharacter {
        id: ID,
        name: None,
        role: some("  "),
        personality: some(" curious "),
        system_prompt: None,
        greeting: some("Hello"),
    };
    let merged = merge_update(existing.clone(), &update);
    assert_eq!(merged.name, "Luna");
    assert_eq!(merged.role, None);
    assert_eq!(merged.personality, some("curious"));
    assert_eq!(merged.system_prompt, some("Be {{char}}"));
    assert_eq!(merged.greeting, some("Hello"));

    let nothing = UpdateCharacter { id: ID, name: None, role: None, personality: None, system_prompt: None, greeting: None };
    let same = merge_update(existing.clone(), &nothing);
    assert_eq!(same.role, existing.role);
    assert_eq!(same.greeting, existing.greeting);
}

#[test]
fn character_names_are_checked() {
    assert_eq!(check_new_name("  "), Err(CharacterError::NameRequired));
    assert_eq!(check_new_name(&"a".repeat(101)), Err(CharacterError::NameTooLong));
    assert_eq!(check_new_name(&format!("  {}  ", "é".repeat(100))), Ok(()));
    assert_eq!(check_update_name(Some(" ")), Err(CharacterError::NameEmpty));
    assert_eq!(check_update_name(Some("Rex")), Ok(()));
    assert_eq!(check_update_name(None), Ok(()));
    assert_eq!(CharacterError::NameRequired.describe(), "Character name is required");
    assert_eq!(CharacterError::NameTooLong.describe(), "Character name is too long (max 100)");
    assert_eq!(CharacterError::NameEmpty.describe(), "Character name cannot be empty");
}

#[test]
fn avatar_uploads_are_checked_and_recorded() {
    let ok = prepare_avatar(ID, "aGk=", "image/webp").unwrap();
    assert_eq!(ok.ext, "webp");
    assert_eq!(ok.bytes, b"hi".to_vec());
    assert_eq!(ok.rel_path, format!("avatars/{ID_TEXT}.webp"));

    let err = prepare_avatar(ID, "aGk=", "image/bmp").unwrap_err();
    assert_eq!(err, AvatarError::UnsupportedType("image/bmp".to_string()));
    assert_eq!(err.describe(), "Unsupported image type: image/bmp");
    assert_eq!(prepare_avatar(ID, "???", "image/png").unwrap_err(), AvatarError::InvalidData);
    assert_eq!(AvatarError::InvalidData.describe(), "Invalid image data");

    let big = base64::engine::general_purpose::STANDARD.encode(vec![1u8; 5 * 1024 * 1024 + 1]);
    assert_eq!(prepare_avatar(ID, &big, "image/png").unwrap_err(), AvatarError::TooLarge);
    assert_eq!(AvatarError::TooLarge.describe(), "Image is too large (max 5 MB)");
}

#[test]
fn old_avatar_files_are_cleaned_up() {
    let files = stale_avatar_files("/d", "x");
    assert_eq!(files, vec!["/d/avatars/x.png", "/d/avatars/x.jpg", "/d/avatars/x.webp", "/d/avatars/x.gif"]);
    assert_eq!(replaced_avatar(some("avatars/a.png"), Some("avatars/a.jpg")), some("avatars/a.png"));
    assert_eq!(replaced_avatar(some("avatars/a.png"), Some("avatars/a.png")), None);
    assert_eq!(replaced_avatar(some("avatars/a.png"), None), some("avatars/a.png"));
    assert_eq!(replaced_avatar(None, Some("avatars/a.png")), None);
}

#[test]
fn design_requests_and_drafts() {
    assert_eq!(design_request("  ", "llama3"), Err(GenerateError::NoDescription));
    assert_eq!(design_request("a bard", " "), Err(GenerateError::NoModel));
    assert_eq!(
        design_request("  a cheerful bard ", "llama3").unwrap(),
        format!("{DESIGN_REQUEST_INTRO}a cheerful bard")
    );
    assert!(DESIGN_REQUEST_INTRO.ends_with("incorporate it):\n\n"));

    let draft = GeneratedCharacter {
        name: "  Bard ".to_string(),
        role: some(" singer "),
        personality: some(" "),
        system_prompt: None,
        greeting: some("Hail!"),
    };
    let c = generated_into_new(draft).unwrap();
    assert_eq!(c.name, "Bard");
    assert_eq!(c.role, some("singer"));
    assert_eq!(c.personality, None);
    assert_eq!(c.greeting, some("Hail!"));

    let nameless = GeneratedCharacter { name: " ".to_string(), role: None, personality: None, system_prompt: None, greeting: None };
    assert_eq!(generated_into_new(nameless).unwrap_err(), GenerateError::NoName);
    assert_eq!(GenerateError::NoName.describe(), "The model didn't provide a character name");
    assert_eq!(GenerateError::NoDescription.describe(), "Describe the character first");
    assert_eq!(GenerateError::NoModel.describe(), "Choose a model first");
}

#[test]
fn new_providers_need_a_name_and_url() {
    let mut p = NewProvider {
        name: " ".to_string(),
        provider_type: ProviderType::Ollama,
        api_url: "http://localhost:11434".to_string(),
        api_key: None,
        is_default: true,
    };
    assert_eq!(check_new_provider(&p), Err(ProviderError::NameRequired));
    p.name = "Local".to_string();
    assert_eq!(check_new_provider(&p), Ok(()));
    p.api_url = "  ".to_string();
    assert_eq!(check_new_provider(&p), Err(ProviderError::UrlRequired));
    assert_eq!(ProviderError::NameRequired.describe(), "Provider name is required");
    assert_eq!(ProviderError::UrlRequired.describe(), "API URL is required");
}

#[test]
fn connection_probes_are_reported() {
    let failed = |s: ConnectionStatus| match s {
        ConnectionStatus::Failed(m) => m,
        other => panic!("expected a failure, got {other:?}"),
    };
    assert!(matches!(
        connection_status(ProbeOutcome::Answered { success: true, status: "200 OK".to_string() }),
        ConnectionStatus::Connected
    ));
    assert_eq!(
        failed(connection_status(ProbeOutcome::Answered { success: false, status: "401 Unauthorized".to_string() })),
        "Server returned 401 Unauthorized"
    );
    assert_eq!(failed(connection_status(ProbeOutcome::NotFound)), "Provider not found");
    assert_eq!(failed(connection_status(ProbeOutcome::TimedOut)), "Connection timed out");
    assert_eq!(failed(connection_status(ProbeOutcome::Unreachable)), "Could not connect to endpoint");
    assert_eq!(failed(connection_status(ProbeOutcome::Failed("dns".to_string()))), "Request failed: dns");
}
