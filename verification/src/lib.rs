//! The decisions behind the windows of a book studio: what the AI sidebar, the
//! background-job window and the settings window show, accept and refuse.

pub mod block_detail;
pub mod block_inspector;
pub mod block_laws;
pub mod block_pages;
pub mod calendar;
pub mod citation_laws;
pub mod citation_script;
pub mod citations;
pub mod connection_laws;
pub mod controller;
pub mod controller_laws;
pub mod conversation;
pub mod conversation_laws;
pub mod data_dir_setup;
pub mod data_directory;
pub mod display_laws;
pub mod display_markdown;
pub mod document;
pub mod endpoint;
pub mod endpoint_laws;
pub mod form_laws;
pub mod job_order;
pub mod jobs;
pub mod jobs_display;
pub mod jobs_laws;
pub mod jobs_window;
pub mod json;
pub mod markdown_laws;
pub mod message_html;
pub mod question_laws;
pub mod reference_freeze;
pub mod reference_laws;
pub mod references;
pub mod scope;
pub mod scope_laws;
pub mod seqs;
pub mod sessions;
pub mod settings;
pub mod settings_display;
pub mod settings_fields;
pub mod settings_form;
pub mod settings_laws;
pub mod settings_operations;
pub mod settings_window;
pub mod sidebar;
pub mod sidebar_display;
pub mod sidebar_laws;
pub mod source_laws;
pub mod sources;
pub mod submission;
pub mod text;
pub mod window_tracker;
