use vstd::prelude::*;
use vstd::string::*;
use crate::paths::{join_path, join_spec};

verus! {

/// File name of the settings document inside the application directory.
pub const APP_CONFIG_FILENAME: &'static str = "app_config.json";

/// Directory name of the application under the platform's config directory.
pub const APP_NAME: &'static str = "singbox-gui";

/// Where configuration files live, and how to run the worker binary.
#[derive(Debug, Clone)]
pub struct Config {
    pub config_dir: String,
    pub singbox_path: String,
}

/// The application directory under a platform config directory, or under the
/// working directory when the platform names none.
pub open spec fn app_dir_spec(platform_dir: Option<Seq<char>>) -> Seq<char> {
    let base = match platform_dir {
        Some(d) => d,
        None => seq!['.'],
    };
    join_spec(base, APP_NAME@)
}

/// The application directory that settings and the catalog use.
pub fn get_default_config_dir(platform_dir: Option<&str>) -> (r: String)
    ensures
        r@ == app_dir_spec(
            match platform_dir {
                Some(d) => Some(d@),
                None => None,
            },
        ),
{
    proof {
        reveal_strlit(".");
        reveal_strlit("singbox-gui");
    }
    match platform_dir {
        Some(d) => join_path(d, APP_NAME),
        None => join_path(".", APP_NAME),
    }
}

/// Path of the settings document in the application directory `app_dir`.
pub fn get_app_config_path(app_dir: &str) -> (r: String)
    ensures
        r@ == join_spec(app_dir@, APP_CONFIG_FILENAME@),
{
    join_path(app_dir, APP_CONFIG_FILENAME)
}

impl Config {
    /// The built-in settings: configs under `<app_dir>/configs`, and the
    /// worker found by its bare command name.
    pub fn default_in(app_dir: &str) -> (r: Config)
        ensures
            r.config_dir@ == join_spec(app_dir@, seq!['c', 'o', 'n', 'f', 'i', 'g', 's']),
            r.singbox_path@ == seq!['s', 'i', 'n', 'g', '-', 'b', 'o', 'x'],
    {
        proof {
            reveal_strlit("configs");
            reveal_strlit("sing-box");
        }
        Config { config_dir: join_path(app_dir, "configs"), singbox_path: String::from_str("sing-box") }
    }

    /// The settings in effect: those read and parsed from the settings
    /// document, else the built-in ones for `app_dir`.
    pub fn parsed_or_default(parsed: Option<Config>, app_dir: &str) -> (r: Config)
        ensures
            parsed matches Some(p) ==> r == p,
            parsed is None ==> r.config_dir@ == join_spec(
                app_dir@,
                seq!['c', 'o', 'n', 'f', 'i', 'g', 's'],
            ) && r.singbox_path@ == seq!['s', 'i', 'n', 'g', '-', 'b', 'o', 'x'],
    {
        match parsed {
            Some(p) => p,
            None => Config::default_in(app_dir),
        }
    }
}

} // verus!
