//! The user's settings and where they are kept.

use vstd::prelude::*;

verus! {

/// The user's settings.
#[derive(Debug)]
pub struct Config {
    /// The key combination that starts a selection.
    pub hotkey: String,
    /// The tag of the language to recognise; empty for the system's languages.
    pub ocr_language: String,
}

/// What became of reading the settings file.
#[derive(Debug)]
pub enum Stored {
    /// The system has no directory for settings.
    NoPath,
    /// The file could not be read.
    Unreadable,
    /// The file does not hold settings.
    Malformed,
    /// The file holds these settings.
    Read(Config),
}

/// How to save settings below the directory `base`: create `directory` below it, then
/// write `contents` to `file` below it.
#[derive(Debug)]
pub struct SavePlan<D> {
    pub base: D,
    pub directory: Vec<String>,
    pub file: Vec<String>,
    pub contents: Config,
}

/// The directory of the settings file, below the system's directory for settings.
pub open spec fn settings_directory() -> Seq<Seq<char>> {
    seq!["snip2text"@]
}

/// The settings file, below the system's directory for settings.
pub open spec fn settings_file() -> Seq<Seq<char>> {
    seq!["snip2text"@, "config.json"@]
}

/// The names of the components of a path.
pub open spec fn names(components: Seq<String>) -> Seq<Seq<char>> {
    components.map_values(|s: String| s@)
}

impl Clone for Config {
    fn clone(&self) -> (copy: Config)
        ensures
            copy == *self,
    {
        Config { hotkey: self.hotkey.clone(), ocr_language: self.ocr_language.clone() }
    }
}

impl Default for Config {
    fn default() -> (config: Config)
        ensures
            config.is_default(),
    {
        Config { hotkey: "CTRL+ALT+KeyS".to_string(), ocr_language: String::new() }
    }
}

impl Config {
    /// The settings of a user who has set nothing.
    pub open spec fn is_default(self) -> bool {
        &&& self.hotkey@ == "CTRL+ALT+KeyS"@
        &&& self.ocr_language@ == Seq::<char>::empty()
    }

    /// Where the settings are kept: the system's directory for settings, if there is one,
    /// and the components of the path below it.
    pub fn path<D>(config_dir: Option<D>) -> (path: Option<(D, Vec<String>)>)
        ensures
            is_path(config_dir, path),
    {
        match config_dir {
            None => None,
            Some(dir) => {
                let file = vec!["snip2text".to_string(), "config.json".to_string()];
                assert(names(file@) =~= settings_file());
                Some((dir, file))
            },
        }
    }

    /// The settings to start with: the stored ones where they could be read, else the
    /// default ones.
    pub fn load(stored: Stored) -> (config: Config)
        ensures
            is_loaded(stored, config),
    {
        match stored {
            Stored::Read(found) => found,
            Stored::NoPath | Stored::Unreadable | Stored::Malformed => Config::default(),
        }
    }

    /// How to save these settings; nothing where the system has no directory for settings.
    pub fn save<D>(&self, config_dir: Option<D>) -> (plan: Option<SavePlan<D>>)
        ensures
            is_save_plan(*self, config_dir, plan),
    {
        match Self::path(config_dir) {
            None => None,
            Some((base, file)) => {
                let directory = vec!["snip2text".to_string()];
                assert(names(directory@) =~= settings_directory());
                Some(SavePlan { base, directory, file, contents: self.clone() })
            },
        }
    }
}

/// `path` is the settings file below `config_dir`, or nothing where there is no such
/// directory.
pub open spec fn is_path<D>(config_dir: Option<D>, path: Option<(D, Vec<String>)>) -> bool {
    match config_dir {
        None => path is None,
        Some(dir) => path matches Some((base, file)) && base == dir && names(file@)
            == settings_file(),
    }
}

/// `config` is what was stored, or the default settings where nothing could be read.
pub open spec fn is_loaded(stored: Stored, config: Config) -> bool {
    match stored {
        Stored::Read(found) => config == found,
        _ => config.is_default(),
    }
}

/// `plan` saves `config` to the settings file below `config_dir`, and is nothing where
/// there is no such directory.
pub open spec fn is_save_plan<D>(
    config: Config,
    config_dir: Option<D>,
    plan: Option<SavePlan<D>>,
) -> bool {
    match config_dir {
        None => plan is None,
        Some(dir) => plan matches Some(p) && p.base == dir && names(p.directory@)
            == settings_directory() && names(p.file@) == settings_file() && p.contents == config,
    }
}

/// Settings are saved to the very file that they are read from, in a directory that saving
/// creates, and reading back what was saved gives the same settings.
pub proof fn law_load_after_save<D>(
    config: Config,
    dir: D,
    plan: SavePlan<D>,
    path: (D, Vec<String>),
    loaded: Config,
)
    requires
        is_save_plan(config, Some(dir), Some(plan)),
        is_path(Some(dir), Some(path)),
        is_loaded(Stored::Read(plan.contents), loaded),
    ensures
        path.0 == plan.base,
        names(path.1@) == names(plan.file@),
        names(plan.directory@) == names(plan.file@).drop_last(),
        loaded == config,
{
    assert(settings_directory() =~= settings_file().drop_last());
}

} // verus!
