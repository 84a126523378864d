//! Configuration as plain values: the file's shape, the candidate
//! locations of the configuration file, and how the effective settings
//! are merged from the file, the environment and the defaults.
//!
//! Reading environment variables and the file itself is the caller's
//! I/O; this module only decides.

use vstd::prelude::*;

use crate::paths::expanded_path;
use crate::paths::join_path;
use crate::paths::joined;
use crate::paths::opt_str_view;
use crate::paths::path_exists;
use crate::paths::expand_path;

verus! {

/// Per-element colors of a custom theme, as the configuration file
/// spells them.
pub struct ThemeConfig {
    pub background: Option<String>,
    pub title_try: Option<String>,
    pub title_rs: Option<String>,
    pub search_title: Option<String>,
    pub search_border: Option<String>,
    pub folder_title: Option<String>,
    pub folder_border: Option<String>,
    pub disk_title: Option<String>,
    pub disk_border: Option<String>,
    pub preview_title: Option<String>,
    pub preview_border: Option<String>,
    pub legends_title: Option<String>,
    pub legends_border: Option<String>,
    pub list_date: Option<String>,
    pub list_highlight_bg: Option<String>,
    pub list_highlight_fg: Option<String>,
    pub helpers_colors: Option<String>,
    pub status_message: Option<String>,
    pub popup_bg: Option<String>,
    pub popup_text: Option<String>,
    pub icon_rust: Option<String>,
    pub icon_maven: Option<String>,
    pub icon_flutter: Option<String>,
    pub icon_go: Option<String>,
    pub icon_python: Option<String>,
    pub icon_mise: Option<String>,
    pub icon_worktree: Option<String>,
    pub icon_worktree_lock: Option<String>,
    pub icon_gitmodules: Option<String>,
    pub icon_git: Option<String>,
    pub icon_folder: Option<String>,
    pub icon_file: Option<String>,
}

/// The configuration file's contents; every field is optional.
pub struct Config {
    pub tries_path: Option<String>,
    pub theme: Option<String>,
    pub colors: Option<ThemeConfig>,
    pub editor: Option<String>,
    pub apply_date_prefix: Option<bool>,
    pub transparent_background: Option<bool>,
}

/// The effective settings of one session, merged from the configuration
/// file, the environment and the defaults. `theme` holds the requested
/// theme name ("Custom" when per-element colors are given); resolving it
/// against the theme table is the renderer's business.
pub struct AppConfig {
    pub tries_dir: String,
    pub theme: String,
    pub colors: Option<ThemeConfig>,
    pub editor_cmd: Option<String>,
    pub is_first_run: bool,
    pub config_path: Option<String>,
    pub apply_date_prefix: Option<bool>,
    pub transparent_background: Option<bool>,
}

/// The candidate configuration file paths, in priority order: the
/// explicit directory override, the system configuration directory, and
/// the home fallback.
pub open spec fn candidates_model(
    env_dir: Option<Seq<char>>,
    sys_dir: Option<Seq<char>>,
    home: Option<Seq<char>>,
    name: Seq<char>,
) -> Seq<Seq<char>> {
    let a: Seq<Seq<char>> = if env_dir is Some {
        seq![joined(env_dir->0, name)]
    } else {
        Seq::empty()
    };
    let b: Seq<Seq<char>> = if sys_dir is Some {
        seq![joined(joined(sys_dir->0, "try-rs"@), name)]
    } else {
        Seq::empty()
    };
    let c: Seq<Seq<char>> = if home is Some {
        seq![joined(joined(joined(home->0, ".config"@), "try-rs"@), name)]
    } else {
        Seq::empty()
    };
    a + b + c
}

/// Candidate configuration file paths in priority order, built from the
/// directory override, the system configuration directory and the home
/// directory, whichever are known.
pub fn config_candidates(
    env_dir: &Option<String>,
    sys_config_dir: &Option<String>,
    home: &Option<String>,
    config_name: &str,
) -> (r: Vec<String>)
    ensures
        r@.map_values(|x: String| x@) == candidates_model(
            opt_str_view(*env_dir),
            opt_str_view(*sys_config_dir),
            opt_str_view(*home),
            config_name@,
        ),
{
    let mut r: Vec<String> = Vec::new();
    match env_dir {
        Some(dir) => {
            r.push(join_path(dir.as_str(), config_name));
        },
        None => {},
    }
    match sys_config_dir {
        Some(dir) => {
            let sub = join_path(dir.as_str(), "try-rs");
            r.push(join_path(sub.as_str(), config_name));
        },
        None => {},
    }
    match home {
        Some(h) => {
            let dot = join_path(h.as_str(), ".config");
            let sub = join_path(dot.as_str(), "try-rs");
            r.push(join_path(sub.as_str(), config_name));
        },
        None => {},
    }
    proof {
        assert(r@.map_values(|x: String| x@) =~= candidates_model(
            opt_str_view(*env_dir),
            opt_str_view(*sys_config_dir),
            opt_str_view(*home),
            config_name@,
        ));
    }
    r
}

/// The first candidate path that exists on disk. Which one that is
/// depends on the disk; what is promised is that the answer is one of
/// the candidates.
pub fn find_config_path(candidates: &Vec<String>) -> (r: Option<String>)
    ensures
        r is Some ==> exists|i: int|
            0 <= i < candidates@.len() && candidates@[i]@ == r->0@,
{
    let mut i: usize = 0;
    while i < candidates.len()
        decreases candidates@.len() - i,
    {
        if path_exists(candidates[i].as_str()) {
            let found = candidates[i].clone();
            assert(candidates@[i as int]@ == found@);
            return Some(found);
        }
        i += 1;
    }
    None
}

/// Where the try folders live, by precedence: the environment override
/// verbatim, else the configured path with `~/` expanded, else
/// `<home>/work/tries`.
pub open spec fn tries_dir_model(
    file_tries: Option<Seq<char>>,
    env_try: Option<Seq<char>>,
    home: Seq<char>,
) -> Seq<char> {
    if env_try is Some {
        env_try->0
    } else if file_tries is Some {
        expanded_path(file_tries->0, Some(home))
    } else {
        joined(joined(home, "work"@), "tries"@)
    }
}

/// Merge the effective settings from the parsed configuration file (if
/// one was found), the relevant environment values, and the home
/// directory. Performs no I/O.
pub fn load_app_config(
    file: Option<Config>,
    env_try_path: Option<String>,
    env_visual: Option<String>,
    env_editor: Option<String>,
    home: &String,
    found_config_path: Option<String>,
) -> (r: AppConfig)
    ensures
        r.is_first_run == (file is None),
        r.config_path == found_config_path,
        r.tries_dir@ == tries_dir_model(
            match file {
                Some(cfg) => opt_str_view(cfg.tries_path),
                None => None,
            },
            opt_str_view(env_try_path),
            home@,
        ),
        r.editor_cmd == (match file {
            Some(cfg) => if cfg.editor is Some {
                cfg.editor
            } else if env_visual is Some {
                env_visual
            } else {
                env_editor
            },
            None => if env_visual is Some {
                env_visual
            } else {
                env_editor
            },
        }),
        match file {
            Some(cfg) => {
                &&& r.apply_date_prefix == cfg.apply_date_prefix
                &&& r.transparent_background == cfg.transparent_background
                &&& match cfg.theme {
                    Some(name) => r.theme@ == name@ && r.colors is None,
                    None => match cfg.colors {
                        Some(colors) => r.theme@ == "Custom"@ && r.colors == Some(colors),
                        None => r.theme@ == "Default"@ && r.colors is None,
                    },
                }
            },
            None => {
                &&& r.apply_date_prefix is None
                &&& r.transparent_background is None
                &&& r.theme@ == "Default"@
                &&& r.colors is None
            },
        },
{
    let editor_fallback = if env_visual.is_some() {
        env_visual
    } else {
        env_editor
    };
    match file {
        Some(cfg) => {
            let tries_dir = match env_try_path {
                Some(p) => p,
                None => match cfg.tries_path {
                    Some(path_str) => {
                        let home_opt = Some(home.clone());
                        expand_path(path_str.as_str(), &home_opt)
                    },
                    None => {
                        let work = join_path(home.as_str(), "work");
                        join_path(work.as_str(), "tries")
                    },
                },
            };
            let editor_cmd = if cfg.editor.is_some() {
                cfg.editor
            } else {
                editor_fallback
            };
            let (theme, colors) = match cfg.theme {
                Some(name) => (name, None),
                None => match cfg.colors {
                    Some(colors) => (String::from_str("Custom"), Some(colors)),
                    None => (String::from_str("Default"), None),
                },
            };
            AppConfig {
                tries_dir,
                theme,
                colors,
                editor_cmd,
                is_first_run: false,
                config_path: found_config_path,
                apply_date_prefix: cfg.apply_date_prefix,
                transparent_background: cfg.transparent_background,
            }
        },
        None => {
            let tries_dir = match env_try_path {
                Some(p) => p,
                None => {
                    let work = join_path(home.as_str(), "work");
                    join_path(work.as_str(), "tries")
                },
            };
            AppConfig {
                tries_dir,
                theme: String::from_str("Default"),
                colors: None,
                editor_cmd: editor_fallback,
                is_first_run: true,
                config_path: found_config_path,
                apply_date_prefix: None,
                transparent_background: None,
            }
        },
    }
}

} // verus!
