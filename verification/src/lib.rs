use vstd::prelude::*;

pub mod admin;
pub mod auth;
pub mod config;
pub mod converter;
pub mod error;
pub mod events;
pub mod health;
pub mod history;
pub mod import;
pub mod models;
pub mod normal_form;
pub mod number;
pub mod ordered_sets;
pub mod pages;
pub mod paths;
pub mod pdf;
pub mod print;
pub mod printer;
pub mod queue;
pub mod queue_manager;
pub mod quota;
pub mod settings;
pub mod text;
pub mod user;

verus! {
}
