//! The rules of a local-first chat companion: what it stores, what it
//! remembers, what it sends to a model and how it reads the reply.
pub mod api;
pub mod backup;
pub mod budget;
pub mod chat;
pub mod choice_laws;
pub mod commands;
pub mod context;
pub mod context_laws;
pub mod db;
pub mod files;
pub mod import_laws;
pub mod importer;
pub mod json;
pub mod learning;
pub mod learning_laws;
pub mod lines;
pub mod memory;
pub mod memory_laws;
pub mod models;
pub mod numbers;
pub mod pattern;
pub mod profile;
pub mod settings;
pub mod settings_file;
pub mod settings_laws;
pub mod sorting;
pub mod stamps;
pub mod state;
pub mod state_laws;
pub mod summary;
pub mod table;
pub mod text;
pub mod text_laws;
pub mod uploads;
pub mod word_laws;
pub mod words;
