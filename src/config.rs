use vstd::prelude::*;

verus! {

/// The string that a TOML document stores under a top-level key: `None`
/// when the text is no TOML document, or holds no string under that key.
pub uninterp spec fn toml_string_entry(text: Seq<char>, key: Seq<char>) -> Option<Seq<char>>;

/// Relies on toml's `FromStr for toml::Value`, which parses `text` as a
/// whole document, and on `toml::Value::get`, which looks `key` up in the
/// document's top-level table. Only a value of the string variant is taken.
#[verifier::external_body]
fn toml_string_at(text: &str, key: &str) -> (r: Option<String>)
    ensures
        r matches Some(s) ==> toml_string_entry(text@, key@) == Some(s@),
        r is None ==> toml_string_entry(text@, key@) is None,
{
    match text.parse::<toml::Value>() {
        Ok(doc) => match doc.get(key) {
            Some(toml::Value::String(s)) => Some(s.clone()),
            _ => None,
        },
        Err(_) => None,
    }
}

/// How a backup is made.
#[derive(Clone, Copy, Debug, PartialEq, Eq, Structural)]
pub enum Mode {
    /// One gzip-compressed tar archive of the tree.
    TarGz,
    /// One zip archive of the tree.
    Zip,
    /// A mirror of the tree, copying only what is missing or stale.
    Incremental,
}

/// What a run was asked to do.
#[derive(Clone, Debug)]
pub struct Settings {
    pub source: String,
    pub backup: String,
    pub mode: Mode,
}

/// Neither the arguments nor the configuration name both folders.
#[derive(Clone, Copy, Debug, PartialEq, Eq, Structural)]
pub enum ConfigError {
    Usage,
}

/// The format names `tar.gz` and `zip` select an archive; any other word
/// selects the incremental copy.
pub open spec fn spec_mode(format: Seq<char>) -> Mode {
    if format == "tar.gz"@ {
        Mode::TarGz
    } else if format == "zip"@ {
        Mode::Zip
    } else {
        Mode::Incremental
    }
}

/// Maps a format name to the backup mode.
pub fn mode_of_format(format: &String) -> (m: Mode)
    ensures
        m == spec_mode(format@),
{
    let tar_gz = String::from_str("tar.gz");
    let zip = String::from_str("zip");
    if *format == tar_gz {
        Mode::TarGz
    } else if *format == zip {
        Mode::Zip
    } else {
        Mode::Incremental
    }
}

/// The three configuration entries, once each is a string.
pub open spec fn spec_entries(
    source: Option<Seq<char>>,
    backup: Option<Seq<char>>,
    format: Option<Seq<char>>,
) -> Option<(Seq<char>, Seq<char>, Seq<char>)> {
    match (source, backup, format) {
        (Some(s), Some(b), Some(f)) => Some((s, b, f)),
        _ => None,
    }
}

pub open spec fn view_entries(r: Option<(String, String, String)>) -> Option<
    (Seq<char>, Seq<char>, Seq<char>),
> {
    match r {
        Some((s, b, f)) => Some((s@, b@, f@)),
        None => None,
    }
}

pub open spec fn view_entry(r: Option<String>) -> Option<Seq<char>> {
    match r {
        Some(s) => Some(s@),
        None => None,
    }
}

/// Assembles source, backup and format from the entries read from a
/// configuration: all three must be present.
pub fn config_from_entries(
    source: Option<String>,
    backup: Option<String>,
    format: Option<String>,
) -> (r: Option<(String, String, String)>)
    ensures
        view_entries(r) == spec_entries(view_entry(source), view_entry(backup), view_entry(format)),
{
    match (source, backup, format) {
        (Some(s), Some(b), Some(f)) => Some((s, b, f)),
        _ => None,
    }
}

/// Reads source, backup and format from a TOML configuration text: the
/// string entries `source`, `backup` and `format` of its top-level table.
pub fn get_paths_from_config(text: &str) -> (r: Option<(String, String, String)>)
    ensures
        view_entries(r) == spec_entries(
            toml_string_entry(text@, "source"@),
            toml_string_entry(text@, "backup"@),
            toml_string_entry(text@, "format"@),
        ),
{
    let source = toml_string_at(text, "source");
    let backup = toml_string_at(text, "backup");
    let format = toml_string_at(text, "format");
    config_from_entries(source, backup, format)
}

/// What `resolve_settings` decides, over views: the command line wins when
/// it names both folders, and its format word is optional; otherwise the
/// configuration, when there is one.
pub open spec fn spec_resolve(
    args: Seq<Seq<char>>,
    config: Option<(Seq<char>, Seq<char>, Seq<char>)>,
) -> Result<(Seq<char>, Seq<char>, Mode), ConfigError> {
    if args.len() >= 3 {
        Ok(
            (
                args[1],
                args[2],
                if args.len() > 3 {
                    spec_mode(args[3])
                } else {
                    Mode::Incremental
                },
            ),
        )
    } else {
        match config {
            Some((s, b, f)) => Ok((s, b, spec_mode(f))),
            None => Err(ConfigError::Usage),
        }
    }
}

pub open spec fn view_settings(r: Result<Settings, ConfigError>) -> Result<
    (Seq<char>, Seq<char>, Mode),
    ConfigError,
> {
    match r {
        Ok(s) => Ok((s.source@, s.backup@, s.mode)),
        Err(e) => Err(e),
    }
}

/// Picks the folders and the mode from the command line (`args[0]` is the
/// program, then source, backup and an optional format word), falling back
/// on the configuration entries when fewer than two folders are given.
pub fn resolve_settings(args: &Vec<String>, config: Option<(String, String, String)>) -> (r:
    Result<Settings, ConfigError>)
    ensures
        view_settings(r) == spec_resolve(args@.map_values(|a: String| a@), view_entries(config)),
{
    let ghost views = args@.map_values(|a: String| a@);
    if args.len() >= 3 {
        let mode = if args.len() > 3 {
            mode_of_format(&args[3])
        } else {
            Mode::Incremental
        };
        let r = Settings { source: args[1].clone(), backup: args[2].clone(), mode };
        assert(views[1] == args@[1]@ && views[2] == args@[2]@);
        assert(args.len() > 3 ==> views[3] == args@[3]@);
        Ok(r)
    } else {
        match config {
            Some((s, b, f)) => {
                let mode = mode_of_format(&f);
                Ok(Settings { source: s, backup: b, mode })
            },
            None => Err(ConfigError::Usage),
        }
    }
}

} // verus!
