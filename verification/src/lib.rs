//! Interaction state, text layout and log handling behind the Procora terminal interface.

pub mod text;
pub mod text_view;
pub mod protocol;
pub mod task_map;
pub mod number;
pub mod log_view;
pub mod input;
pub mod help;
pub mod app;
pub mod app_horizontal;
pub mod overview_collection;
pub mod overview_app;
pub mod package_model;
pub mod package_workspace;
pub mod log_source;
pub mod key_hints;
pub mod selection;
pub mod live;
pub mod transition;
pub mod form_field;
pub mod map_editor;
pub mod form_value;
pub mod json;
pub mod yaml_text;
pub mod form_dependency;
pub mod form_dialog;
pub mod config_editor;
pub mod directory_picker;
pub mod config_yaml;
pub mod form_task;
pub mod form_health;
pub mod form_profile;
pub mod terminal;
pub mod form_config;
pub mod task_defaults;
