//! A small tool that keeps a catalogue of license templates and renders the
//! chosen one, with the user's variables and the date, into a `LICENSE`
//! file.
pub mod cli;
pub mod configuration;
pub mod order;
pub mod paths;
pub mod render;
pub mod template;
pub mod variable;
pub mod yaml;

pub use cli::{Cli, Commands};
pub use configuration::{
    get_default_templates, get_default_url, get_default_variables, ConfigError, Configuration,
};
pub use paths::sanitize_file_path;
pub use render::{reder_template, render_with_date, RenderError};
pub use template::Template;
pub use variable::Variable;
