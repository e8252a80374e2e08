//! Verified core of the Nanofile server's service layer.
pub mod text;
pub mod clock;
pub mod crypto;
pub mod split;
pub mod order;
pub mod error;
pub mod csrf;
pub mod password;
pub mod credential;
pub mod mail;
pub mod api_key;
pub mod repo;
pub mod repo_view;
pub mod metadata;
pub mod webdav_key;
pub mod thumbnail;
pub mod index;
pub mod token;
pub mod totp;
pub mod dirent;
pub mod fileops;
pub mod file;
pub mod search;
pub mod starred;
pub mod sharing;
pub mod quota;
pub mod sso;
pub mod activity;
pub mod admin;
pub mod wiki;
pub mod wiki_nav;
pub mod history;
pub mod account;
pub mod sdoc;
pub mod password_reset;
pub mod registration;
pub mod invitation;
pub mod rate_limit;
pub mod group;
pub mod sync;
pub mod sync_token;
