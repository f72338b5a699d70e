use nano9::cli::{
    cargo_failed_exit_code, choose_template, crate_feature, feature_mark, new_project, run_config, run_exit_code,
    run_source, starter_files, ConfigRead, Language, NewProject, PathKind, RunRefusal, RunSource, RunStop,
    StarterKit, Template,
};
use nano9::config::{map_source, sheet_source, MapSource, SheetSource};

#[test]
fn run_dispatches_on_the_extension() {
    assert_eq!(run_source("toml", true), Ok(RunSource::Config));
    assert_eq!(run_source("p8", false), Ok(RunSource::Cart));
    assert_eq!(run_source("png", false), Ok(RunSource::Cart));
    assert_eq!(run_source("lua", false), Ok(RunSource::Lua));
    assert_eq!(run_source("p8lua", true), Ok(RunSource::Pico8Lua));
    assert_eq!(run_source("p8lua", false), Err(RunRefusal::NoPico8Dialect));
    assert_eq!(run_source("txt", true), Err(RunRefusal::UnknownExtension));
    assert_eq!(run_source("", true), Err(RunRefusal::UnknownExtension));
    assert_eq!(run_exit_code(RunRefusal::UnknownExtension), 1);
    assert_eq!(run_exit_code(RunRefusal::NoPico8Dialect), 3);
    assert_eq!(run_exit_code(RunRefusal::InvalidTemplate), 2);
}

#[test]
fn new_picks_the_project_kind() {
    assert_eq!(new_project(Some("lua"), None, PathKind::Missing, false), Ok(NewProject::LuaFile));
    assert_eq!(new_project(Some("p8lua"), Some(Language::Rust), PathKind::Missing, false), Ok(NewProject::P8LuaFile));
    assert_eq!(new_project(Some("txt"), None, PathKind::Missing, false), Err(5));
    assert_eq!(
        new_project(None, Some(Language::Rust), PathKind::Dir, false),
        Ok(NewProject::Crate { with_lua: false })
    );
    assert_eq!(
        new_project(None, Some(Language::LuaRust), PathKind::Missing, false),
        Ok(NewProject::Crate { with_lua: true })
    );
    assert_eq!(new_project(None, None, PathKind::File, true), Err(6));
    assert_eq!(new_project(None, Some(Language::Lua), PathKind::Dir, false), Err(7));
    assert_eq!(new_project(None, Some(Language::Lua), PathKind::Dir, true), Ok(NewProject::LuaDir { create: false }));
    assert_eq!(new_project(None, None, PathKind::Missing, false), Ok(NewProject::LuaDir { create: true }));
    assert_eq!(crate_feature(true), "lua-lib");
    assert_eq!(crate_feature(false), "rust-lib");
    assert_eq!(cargo_failed_exit_code(), 8);
    assert_eq!(starter_files(StarterKit::Platformer).len(), 7);
    assert_eq!(starter_files(StarterKit::Platformer)[4], "micro-platformer.p8");
}

#[test]
fn info_marks_features() {
    assert_eq!(feature_mark(true, true), 'x');
    assert_eq!(feature_mark(true, false), 'X');
    assert_eq!(feature_mark(false, true), '_');
    assert_eq!(feature_mark(false, false), ' ');
}

#[test]
fn templates_by_name() {
    assert_eq!(choose_template(None, None, true), Ok(None));
    assert_eq!(choose_template(None, Some("pico8"), false), Ok(Some(Template::Pico8)));
    assert_eq!(choose_template(Some("gameboy"), Some("pico8"), true), Ok(Some(Template::Gameboy)));
    assert_eq!(choose_template(Some("gameboy"), None, false), Err("gameboy".to_string()));
    assert_eq!(choose_template(None, Some("nes"), true), Err("nes".to_string()));
}

#[test]
fn run_stops_on_a_bad_config() {
    let bad = ConfigRead::Parsed { template: Some("nes".to_string()) };
    assert_eq!(run_config(RunSource::Config, &bad, true), Err(RunStop::Refused(RunRefusal::InvalidTemplate)));
    assert_eq!(run_config(RunSource::Lua, &bad, true), Err(RunStop::TemplateError("nes".to_string())));
    assert_eq!(run_config(RunSource::Config, &ConfigRead::Unparsable, true), Err(RunStop::Unparsable));
    assert_eq!(run_config(RunSource::Cart, &ConfigRead::Absent, true), Ok(None));
    let good = ConfigRead::Parsed { template: Some("pico8".to_string()) };
    assert_eq!(run_config(RunSource::Config, &good, false), Ok(Some(Template::Pico8)));
    let plain = ConfigRead::Parsed { template: None };
    assert_eq!(run_config(RunSource::Config, &plain, false), Ok(None));
}

#[test]
fn config_entries_load_by_extension() {
    assert_eq!(map_source("p8", false), MapSource::P8);
    assert_eq!(map_source("tmx", true), MapSource::TiledMap);
    assert_eq!(map_source("world", true), MapSource::TiledWorld);
    assert_eq!(sheet_source(Some("p8")), SheetSource::Cart);
    assert_eq!(sheet_source(Some("png")), SheetSource::Image);
    assert_eq!(sheet_source(None), SheetSource::Image);
}
