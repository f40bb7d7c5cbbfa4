//! The launcher's configuration: its defaults, where the file lives, and how
//! the settings read from the file override the defaults.

use vstd::prelude::*;

use crate::error::QuicktermError;
use crate::expand::{expand_result_matches, expand_string};
use crate::strmap::StringMap;
use crate::text::{concat3, copy_str};

verus! {

/// Where the drop-down terminal appears on the workspace.
#[derive(PartialEq, Eq, Structural, Clone, Copy, Debug)]
pub enum Position {
    Top,
    Bottom,
    Center,
}

/// The settings of the launcher.
///
/// `ratio` is the fraction of the workspace the terminal takes; it is a
/// floating point number, carried here as its IEEE 754 bit pattern
/// (`f64::to_bits`) since the computations on it happen outside the library.
#[derive(Debug)]
pub struct Config {
    /// The menu command template used to pick a shell.
    pub menu: String,
    /// The terminal: `foot`, `alacritty`, or a command template.
    pub term: String,
    /// The history file template, if the order of choices is kept.
    pub history: Option<String>,
    /// The bits of the `f64` size ratio.
    pub ratio_bits: u64,
    /// Where the terminal appears.
    pub pos: Position,
    /// The shells by name, each with its command template.
    pub shells: StringMap,
}

/// The settings a configuration file gives; an absent one keeps the default.
/// `history: Some(None)` switches the history off.
#[derive(Debug)]
pub struct PartialConfig {
    pub menu: Option<String>,
    pub term: Option<String>,
    pub history: Option<Option<String>>,
    pub ratio_bits: Option<u64>,
    pub pos: Option<Position>,
    pub shells: Option<StringMap>,
}

/// The character sequence of an optional string.
pub open spec fn opt_view(o: Option<String>) -> Option<Seq<char>> {
    match o {
        Some(s) => Some(s@),
        None => None,
    }
}

/// The bits of the `f64` value 0.25.
pub const DEFAULT_RATIO_BITS: u64 = 0x3FD0_0000_0000_0000u64;

/// The default shells.
pub open spec fn default_shells() -> Map<Seq<char>, Seq<char>> {
    map![
        "haskell"@ => "ghci"@,
        "js"@ => "node"@,
        "python"@ => "ipython3 --no-banner"@,
        "shell"@ => "{$SHELL}"@,
    ]
}

/// Whether `c` is the default configuration.
pub open spec fn is_default_config(c: Config) -> bool {
    &&& c.menu@ == "rofi -dmenu -p 'quickterm: ' -no-custom -auto-select"@
    &&& c.term@ == "urxvt"@
    &&& opt_view(c.history) == Some("{$HOME}/.cache/quickterm.order"@)
    &&& c.ratio_bits == DEFAULT_RATIO_BITS
    &&& c.pos == Position::Top
    &&& c.shells@ == default_shells()
}

/// The configuration used where no file is present.
pub fn default_config() -> (c: Config)
    ensures
        is_default_config(c),
{
    let mut shells = StringMap::new();
    shells.insert(copy_str("haskell"), copy_str("ghci"));
    shells.insert(copy_str("js"), copy_str("node"));
    shells.insert(copy_str("python"), copy_str("ipython3 --no-banner"));
    shells.insert(copy_str("shell"), copy_str("{$SHELL}"));
    let c = Config {
        menu: copy_str("rofi -dmenu -p 'quickterm: ' -no-custom -auto-select"),
        term: copy_str("urxvt"),
        history: Some(copy_str("{$HOME}/.cache/quickterm.order")),
        ratio_bits: DEFAULT_RATIO_BITS,
        pos: Position::Top,
        shells,
    };
    assert(c.shells@ =~= default_shells());
    c
}

/// The configuration file's path: in `$XDG_CONFIG_DIR` when that is set,
/// else in `~/.config`.
pub open spec fn config_path_spec(home: Seq<char>, xdg_config_dir: Option<Seq<char>>) -> Seq<
    char,
> {
    match xdg_config_dir {
        Some(dir) => dir + "/quickterm.json"@,
        None => home + "/.config/quickterm.json"@,
    }
}

/// The configuration file's path for the home directory `home` and the
/// value of `XDG_CONFIG_DIR`, if set.
pub fn config_path_for(home: &str, xdg_config_dir: Option<&str>) -> (p: String)
    ensures
        p@ == config_path_spec(
            home@,
            match xdg_config_dir {
                Some(d) => Some(d@),
                None => None,
            },
        ),
{
    proof {
        reveal_strlit("");
    }
    match xdg_config_dir {
        Some(dir) => concat3(dir, "/quickterm.json", ""),
        None => concat3(home, "/.config/quickterm.json", ""),
    }
}

/// The path the file had under its former name, `i3-quickterm.json`.
pub open spec fn legacy_config_path_spec(home: Seq<char>, xdg_config_dir: Option<Seq<char>>) -> Seq<
    char,
> {
    match xdg_config_dir {
        Some(dir) => dir + "/i3-quickterm.json"@,
        None => home + "/.config/i3-quickterm.json"@,
    }
}

/// The configuration file's former path, named `i3-quickterm.json`.
pub fn legacy_config_path_for(home: &str, xdg_config_dir: Option<&str>) -> (p: String)
    ensures
        p@ == legacy_config_path_spec(
            home@,
            match xdg_config_dir {
                Some(d) => Some(d@),
                None => None,
            },
        ),
{
    proof {
        reveal_strlit("");
    }
    match xdg_config_dir {
        Some(dir) => concat3(dir, "/i3-quickterm.json", ""),
        None => concat3(home, "/.config/i3-quickterm.json", ""),
    }
}

/// The configuration path from the environment's `HOME` and
/// `XDG_CONFIG_DIR`; `HOME` must be set.
pub fn config_path_from_env(home: Option<&str>, xdg_config_dir: Option<&str>) -> (r: Result<
    String,
    QuicktermError,
>)
    ensures
        match home {
            Some(h) => r matches Ok(p) && p@ == config_path_spec(
                h@,
                match xdg_config_dir {
                    Some(d) => Some(d@),
                    None => None,
                },
            ),
            None => r matches Err(QuicktermError::InvalidConfig(m)) && m@ == "HOME is not set"@,
        },
{
    match home {
        Some(h) => Ok(config_path_for(h, xdg_config_dir)),
        None => Err(QuicktermError::InvalidConfig(copy_str("HOME is not set"))),
    }
}

/// Whether `r` holds the settings that `partial` gives, and the given base
/// values for the others.
pub open spec fn overrides_fields(
    menu: Seq<char>,
    term: Seq<char>,
    history: Option<Seq<char>>,
    ratio_bits: u64,
    pos: Position,
    shells: Map<Seq<char>, Seq<char>>,
    partial: PartialConfig,
    r: Config,
) -> bool {
    &&& r.menu@ == (match partial.menu {
        Some(m) => m@,
        None => menu,
    })
    &&& r.term@ == (match partial.term {
        Some(t) => t@,
        None => term,
    })
    &&& opt_view(r.history) == (match partial.history {
        Some(h) => opt_view(h),
        None => history,
    })
    &&& r.ratio_bits == (match partial.ratio_bits {
        Some(b) => b,
        None => ratio_bits,
    })
    &&& r.pos == (match partial.pos {
        Some(p) => p,
        None => pos,
    })
    &&& r.shells@ == (match partial.shells {
        Some(s) => s@,
        None => shells,
    })
}

/// Whether `r` is `base` with each setting that `partial` gives replaced.
pub open spec fn overrides(base: Config, partial: PartialConfig, r: Config) -> bool {
    overrides_fields(
        base.menu@,
        base.term@,
        opt_view(base.history),
        base.ratio_bits,
        base.pos,
        base.shells@,
        partial,
        r,
    )
}

/// Whether `r` is the default configuration with each setting that
/// `partial` gives replaced.
pub open spec fn overrides_default(partial: PartialConfig, r: Config) -> bool {
    overrides_fields(
        "rofi -dmenu -p 'quickterm: ' -no-custom -auto-select"@,
        "urxvt"@,
        Some("{$HOME}/.cache/quickterm.order"@),
        DEFAULT_RATIO_BITS,
        Position::Top,
        default_shells(),
        partial,
        r,
    )
}

/// `base` with the settings that `partial` gives replaced.
pub fn apply_partial(base: Config, partial: PartialConfig) -> (r: Config)
    ensures
        overrides(base, partial, r),
{
    let mut config = base;
    if let Some(value) = partial.menu {
        config.menu = value;
    }
    if let Some(value) = partial.term {
        config.term = value;
    }
    if let Some(value) = partial.history {
        config.history = value;
    }
    if let Some(value) = partial.ratio_bits {
        config.ratio_bits = value;
    }
    if let Some(value) = partial.pos {
        config.pos = value;
    }
    if let Some(value) = partial.shells {
        config.shells = value;
    }
    config
}

/// The configuration in effect given what reading the file gave: `None`
/// where there is no file, the parse error's text where the file is not a
/// valid configuration, or the settings it holds.
pub fn load_config(file: Option<Result<PartialConfig, String>>) -> (r: Result<
    Config,
    QuicktermError,
>)
    ensures
        match file {
            None => r matches Ok(c) && is_default_config(c),
            Some(Err(msg)) => r matches Err(QuicktermError::InvalidConfig(m)) && m@ == msg@,
            Some(Ok(p)) => r matches Ok(c) && overrides_default(p, c),
        },
{
    match file {
        None => Ok(default_config()),
        Some(Err(msg)) => Err(QuicktermError::InvalidConfig(msg)),
        Some(Ok(partial)) => {
            let d = default_config();
            let ghost dg = d;
            let c = apply_partial(d, partial);
            assert(overrides(dg, partial, c));
            Ok(c)
        },
    }
}

/// Where the history is kept: the history template expanded with the
/// environment placeholders, or nothing where the history is off.
pub fn history_path(history: &Option<String>, env: &StringMap) -> (r: Result<
    Option<String>,
    QuicktermError,
>)
    ensures
        match history {
            None => r matches Ok(None),
            Some(t) => match r {
                Ok(Some(p)) => expand_result_matches(t@, env@, Ok(p)),
                Ok(None) => false,
                Err(e) => expand_result_matches(t@, env@, Err(e)),
            },
        },
{
    match history {
        Some(path) => match expand_string(path.as_str(), env) {
            Ok(expanded) => Ok(Some(expanded)),
            Err(e) => Err(e),
        },
        None => Ok(None),
    }
}

/// Each setting that the file gives replaces the one it is applied to, and
/// each setting it leaves out keeps it.
pub proof fn law_settings_replace(base: Config, partial: PartialConfig, r: Config)
    requires
        overrides(base, partial, r),
    ensures
        partial.menu matches Some(m) ==> r.menu@ == m@,
        partial.menu is None ==> r.menu@ == base.menu@,
        partial.term matches Some(t) ==> r.term@ == t@,
        partial.term is None ==> r.term@ == base.term@,
        partial.history matches Some(h) ==> opt_view(r.history) == opt_view(h),
        partial.history is None ==> opt_view(r.history) == opt_view(base.history),
        partial.ratio_bits matches Some(b) ==> r.ratio_bits == b,
        partial.ratio_bits is None ==> r.ratio_bits == base.ratio_bits,
        partial.pos matches Some(p) ==> r.pos == p,
        partial.pos is None ==> r.pos == base.pos,
        partial.shells matches Some(s) ==> r.shells@ == s@,
        partial.shells is None ==> r.shells@ == base.shells@,
{
}

/// Each setting that the file gives replaces the default, and each setting
/// it leaves out keeps the default.
pub proof fn law_file_settings_replace_defaults(partial: PartialConfig, r: Config)
    requires
        overrides_default(partial, r),
    ensures
        partial.menu matches Some(m) ==> r.menu@ == m@,
        partial.menu is None ==> r.menu@ == "rofi -dmenu -p 'quickterm: ' -no-custom -auto-select"@,
        partial.term matches Some(t) ==> r.term@ == t@,
        partial.term is None ==> r.term@ == "urxvt"@,
        partial.history matches Some(h) ==> opt_view(r.history) == opt_view(h),
        partial.history is None ==> opt_view(r.history) == Some("{$HOME}/.cache/quickterm.order"@),
        partial.ratio_bits matches Some(b) ==> r.ratio_bits == b,
        partial.ratio_bits is None ==> r.ratio_bits == DEFAULT_RATIO_BITS,
        partial.pos matches Some(p) ==> r.pos == p,
        partial.pos is None ==> r.pos == Position::Top,
        partial.shells matches Some(s) ==> r.shells@ == s@,
        partial.shells is None ==> r.shells@ == default_shells(),
{
}

} // verus!
