//! NanoRP core: the verified logic of a self-hosted AI roleplay chat app.

pub mod text;
pub mod codec;
pub mod crypto;
pub mod models;
pub mod chat;
pub mod thinking;
pub mod provider;
pub mod update;
pub mod stream;
pub mod generation;
pub mod toast;
pub mod ui;
pub mod avatar;
pub mod ids;
pub mod config;
pub mod theme;
pub mod character;
pub mod provider_store;
pub mod messages;
pub mod character_list;
pub mod settings_form;
pub mod chat_view;
pub mod bubble;
pub mod session_list;
pub mod screen;
pub mod tracker;
pub mod schema;
pub mod settings;
pub mod wire;
pub mod model_list;
pub mod markdown;
