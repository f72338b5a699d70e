//! The decisions of the `n9` command line: what `run` makes of a path, what
//! kind of project `new` creates, and how `info` marks a feature.
use vstd::prelude::*;

use crate::sys::is_word;

verus! {

/// What `n9 run` loads, by the path's extension.
#[derive(Debug, Clone, Copy, PartialEq, Eq, Structural)]
pub enum RunSource {
    /// A `Nano9.toml` config.
    Config,
    /// A Pico-8 cart (`.p8` or `.p8.png`).
    Cart,
    /// A Lua script.
    Lua,
    /// A script in Pico-8's Lua dialect.
    Pico8Lua,
}

/// Why `n9 run` refuses a path.
#[derive(Debug, Clone, Copy, PartialEq, Eq, Structural)]
pub enum RunRefusal {
    /// Only `.p8`, `.png`, `.lua`, `.p8lua` and `.toml` are accepted.
    UnknownExtension,
    /// A `.p8lua` script needs the Pico-8 dialect conversion built in.
    NoPico8Dialect,
    /// A `.toml` config names a template that is not built in.
    InvalidTemplate,
}

/// What `n9 run` loads for a path with this extension (empty when there is
/// none); `pico8_to_lua` says whether the dialect conversion is built in.
pub fn run_source(extension: &str, pico8_to_lua: bool) -> (r: Result<RunSource, RunRefusal>)
    ensures
        extension@ == "toml"@ ==> r == Ok::<RunSource, RunRefusal>(RunSource::Config),
        extension@ == "p8"@ || extension@ == "png"@ ==> r == Ok::<RunSource, RunRefusal>(RunSource::Cart),
        extension@ == "lua"@ ==> r == Ok::<RunSource, RunRefusal>(RunSource::Lua),
        extension@ == "p8lua"@ ==> r == if pico8_to_lua {
            Ok::<RunSource, RunRefusal>(RunSource::Pico8Lua)
        } else {
            Err::<RunSource, RunRefusal>(RunRefusal::NoPico8Dialect)
        },
        extension@ != "toml"@ && extension@ != "p8"@ && extension@ != "png"@ && extension@ != "lua"@
            && extension@ != "p8lua"@ ==> r == Err::<RunSource, RunRefusal>(RunRefusal::UnknownExtension),
{
    proof {
        reveal_strlit("toml");
        reveal_strlit("p8");
        reveal_strlit("png");
        reveal_strlit("lua");
        reveal_strlit("p8lua");
        assert("toml"@.len() == 4);
        assert("p8"@.len() == 2);
        assert("png"@.len() == 3);
        assert("lua"@.len() == 3);
        assert("p8lua"@.len() == 5);
        assert("png"@[0] != "lua"@[0]);
    }
    if is_word(extension, "toml") {
        Ok(RunSource::Config)
    } else if is_word(extension, "p8") || is_word(extension, "png") {
        Ok(RunSource::Cart)
    } else if is_word(extension, "lua") {
        Ok(RunSource::Lua)
    } else if is_word(extension, "p8lua") {
        if pico8_to_lua {
            Ok(RunSource::Pico8Lua)
        } else {
            Err(RunRefusal::NoPico8Dialect)
        }
    } else {
        Err(RunRefusal::UnknownExtension)
    }
}

/// The exit code of `n9 run` for a refusal.
pub fn run_exit_code(refusal: RunRefusal) -> (r: u8)
    ensures
        r == match refusal {
            RunRefusal::UnknownExtension => 1u8,
            RunRefusal::InvalidTemplate => 2u8,
            RunRefusal::NoPico8Dialect => 3u8,
        },
{
    match refusal {
        RunRefusal::UnknownExtension => 1,
        RunRefusal::InvalidTemplate => 2,
        RunRefusal::NoPico8Dialect => 3,
    }
}

/// The built-in config templates.
#[derive(Debug, Clone, Copy, PartialEq, Eq, Structural)]
pub enum Template {
    Pico8,
    Gameboy,
}

/// The template a config is merged with: the requested name, else the name
/// the config gives; none without a name. `pico8` is always built in,
/// `gameboy` when `gameboy` says so; another name is refused with that name.
pub open spec fn spec_choose_template(
    requested: Option<Seq<char>>,
    configured: Option<Seq<char>>,
    gameboy: bool,
) -> Result<Option<Template>, Seq<char>> {
    let name = match requested {
        Some(n) => Some(n),
        None => configured,
    };
    match name {
        None => Ok(None),
        Some(n) => if n == "gameboy"@ && gameboy {
            Ok(Some(Template::Gameboy))
        } else if n == "pico8"@ {
            Ok(Some(Template::Pico8))
        } else {
            Err(n)
        },
    }
}

/// The view of an optional string.
pub open spec fn opt_view(s: Option<&str>) -> Option<Seq<char>> {
    match s {
        Some(t) => Some(t@),
        None => None,
    }
}

/// Picks the template a config is merged with (see `spec_choose_template`);
/// the error holds the refused name.
pub fn choose_template(requested: Option<&str>, configured: Option<&str>, gameboy: bool) -> (r: Result<
    Option<Template>,
    String,
>)
    ensures
        match (r, spec_choose_template(opt_view(requested), opt_view(configured), gameboy)) {
            (Ok(t), Ok(u)) => t == u,
            (Err(e), Err(n)) => e@ == n,
            _ => false,
        },
{
    let name = match requested {
        Some(n) => Some(n),
        None => configured,
    };
    match name {
        None => Ok(None),
        Some(n) => if gameboy && is_word(n, "gameboy") {
            Ok(Some(Template::Gameboy))
        } else if is_word(n, "pico8") {
            Ok(Some(Template::Pico8))
        } else {
            Err(n.to_owned())
        },
    }
}

/// What `n9 run` read of a config: none (a cart, or a Lua script without
/// front matter, runs with the Pico-8 preset), text that does not parse as a
/// config, or a config and the template it names.
#[derive(Debug, Clone, PartialEq, Eq)]
pub enum ConfigRead {
    Absent,
    Unparsable,
    Parsed { template: Option<String> },
}

/// Why `n9 run` stops before the console starts, past the extension check.
#[derive(Debug, Clone, PartialEq, Eq)]
pub enum RunStop {
    /// Exit with the code of the refusal.
    Refused(RunRefusal),
    /// The config text does not parse: an error.
    Unparsable,
    /// A script's front matter names a template that is not built in: an
    /// error naming it.
    TemplateError(String),
}

/// `n9 run`'s decision on the config it read for `source`: the template to
/// merge in, or why it stops. A `.toml` config with a template that is not
/// built in exits with a refusal (code 2); the same in a script's front
/// matter is an error; text that does not parse is an error either way.
pub fn run_config(source: RunSource, read: &ConfigRead, gameboy: bool) -> (r: Result<Option<Template>, RunStop>)
    ensures
        match *read {
            ConfigRead::Absent => r == Ok::<Option<Template>, RunStop>(None),
            ConfigRead::Unparsable => r == Err::<Option<Template>, RunStop>(RunStop::Unparsable),
            ConfigRead::Parsed { template } => {
                let chosen = spec_choose_template(
                    None,
                    match template {
                        Some(t) => Some(t@),
                        None => None,
                    },
                    gameboy,
                );
                match chosen {
                    Ok(t) => r == Ok::<Option<Template>, RunStop>(t),
                    Err(n) => if source == RunSource::Config {
                        r == Err::<Option<Template>, RunStop>(RunStop::Refused(RunRefusal::InvalidTemplate))
                    } else {
                        r matches Err(RunStop::TemplateError(e)) && e@ == n
                    },
                }
            },
        },
{
    match read {
        ConfigRead::Absent => Ok(None),
        ConfigRead::Unparsable => Err(RunStop::Unparsable),
        ConfigRead::Parsed { template } => {
            let configured: Option<&str> = match template {
                Some(t) => Some(t.as_str()),
                None => None,
            };
            match choose_template(None, configured, gameboy) {
                Ok(t) => Ok(t),
                Err(name) => match source {
                    RunSource::Config => Err(RunStop::Refused(RunRefusal::InvalidTemplate)),
                    _ => Err(RunStop::TemplateError(name)),
                },
            }
        },
    }
}

/// The language of a new project directory.
#[derive(Debug, Clone, Copy, PartialEq, Eq, Structural)]
pub enum Language {
    Rust,
    Lua,
    LuaRust,
}

/// What is at a project's path before `n9 new` runs.
#[derive(Debug, Clone, Copy, PartialEq, Eq, Structural)]
pub enum PathKind {
    Missing,
    File,
    Dir,
    /// Something that is neither a file nor a directory.
    Other,
}

/// The project that `n9 new` creates.
#[derive(Debug, Clone, Copy, PartialEq, Eq, Structural)]
pub enum NewProject {
    /// One `.lua` file with embedded config.
    LuaFile,
    /// One `.p8lua` file in Pico-8's dialect with embedded config.
    P8LuaFile,
    /// A cargo crate with the config in `assets/`, and Lua code there too
    /// when `with_lua`.
    Crate { with_lua: bool },
    /// A directory with a config and Lua code, made first when `create`.
    LuaDir { create: bool },
}

/// What `n9 new` creates at a path: a one-file project by the path's
/// extension (`None` for a directory path), else a directory project by the
/// language. Refusals are exit codes: no template for the extension (5), a
/// file where a directory is expected (6), an existing directory without
/// `force` (7).
pub fn new_project(extension: Option<&str>, language: Option<Language>, path: PathKind, force: bool) -> (r: Result<
    NewProject,
    u8,
>)
    ensures
        match extension {
            Some(ext) => if ext@ == "lua"@ {
                r == Ok::<NewProject, u8>(NewProject::LuaFile)
            } else if ext@ == "p8lua"@ {
                r == Ok::<NewProject, u8>(NewProject::P8LuaFile)
            } else {
                r == Err::<NewProject, u8>(5u8)
            },
            None => match language {
                Some(Language::Rust) => r == Ok::<NewProject, u8>(NewProject::Crate { with_lua: false }),
                Some(Language::LuaRust) => r == Ok::<NewProject, u8>(NewProject::Crate { with_lua: true }),
                _ => match path {
                    PathKind::File => r == Err::<NewProject, u8>(6u8),
                    PathKind::Dir => if force {
                        r == Ok::<NewProject, u8>(NewProject::LuaDir { create: false })
                    } else {
                        r == Err::<NewProject, u8>(7u8)
                    },
                    PathKind::Missing => r == Ok::<NewProject, u8>(NewProject::LuaDir { create: true }),
                    PathKind::Other => r == Ok::<NewProject, u8>(NewProject::LuaDir { create: false }),
                },
            },
        },
{
    match extension {
        Some(ext) => {
            if is_word(ext, "lua") {
                Ok(NewProject::LuaFile)
            } else if is_word(ext, "p8lua") {
                Ok(NewProject::P8LuaFile)
            } else {
                Err(5)
            }
        },
        None => match language {
            Some(Language::Rust) => Ok(NewProject::Crate { with_lua: false }),
            Some(Language::LuaRust) => Ok(NewProject::Crate { with_lua: true }),
            _ => match path {
                PathKind::File => Err(6),
                PathKind::Dir => if force {
                    Ok(NewProject::LuaDir { create: false })
                } else {
                    Err(7)
                },
                PathKind::Missing => Ok(NewProject::LuaDir { create: true }),
                PathKind::Other => Ok(NewProject::LuaDir { create: false }),
            },
        },
    }
}

/// The cargo feature of `nano9` that a new crate depends on.
pub fn crate_feature(with_lua: bool) -> (r: &'static str)
    ensures
        r@ == if with_lua {
            "lua-lib"@
        } else {
            "rust-lib"@
        },
{
    if with_lua {
        "lua-lib"
    } else {
        "rust-lib"
    }
}

/// The exit code of `n9 new` when cargo could not make the crate.
pub fn cargo_failed_exit_code() -> (r: u8)
    ensures
        r == 8,
{
    8
}

/// The starter templates of `n9 new --starter`.
#[derive(Debug, Clone, Copy, PartialEq, Eq, Structural)]
pub enum StarterKit {
    Platformer,
    TopDown,
}

/// The files a starter kit puts in the project's assets, in the order they
/// are written. Only the platformer kit has templates.
pub fn starter_files(kit: StarterKit) -> (r: Vec<&'static str>)
    requires
        kit is Platformer,
    ensures
        r@.map_values(|f: &'static str| f@) == seq![
            "Nano9.toml"@,
            "actor.p8"@,
            "dolly.p8"@,
            "main.lua"@,
            "micro-platformer.p8"@,
            "platformer.p8"@,
            "vector.p8"@,
        ],
{
    let files = vec![
        "Nano9.toml",
        "actor.p8",
        "dolly.p8",
        "main.lua",
        "micro-platformer.p8",
        "platformer.p8",
        "vector.p8",
    ];
    assert(files@.map_values(|f: &'static str| f@) =~= seq![
        "Nano9.toml"@,
        "actor.p8"@,
        "dolly.p8"@,
        "main.lua"@,
        "micro-platformer.p8"@,
        "platformer.p8"@,
        "vector.p8"@,
    ]);
    files
}

/// How `n9 info` marks a feature: `x` on and on by default, `X` on though off
/// by default, `_` off though on by default, a space off and off by default.
pub fn feature_mark(enabled: bool, enabled_by_default: bool) -> (r: char)
    ensures
        r == if enabled {
            if enabled_by_default {
                'x'
            } else {
                'X'
            }
        } else if enabled_by_default {
            '_'
        } else {
            ' '
        },
{
    match (enabled, enabled_by_default) {
        (true, true) => 'x',
        (false, true) => '_',
        (true, false) => 'X',
        (false, false) => ' ',
    }
}

} // verus!
