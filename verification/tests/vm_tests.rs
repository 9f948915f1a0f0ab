use comfy_launcher::app::{App, FlashKind};
use comfy_launcher::clipboard::copy_with_flash;
use comfy_launcher::config::{Config, General, Network};
use comfy_launcher::geom::{Key, Mouse, MouseKind, Rect};
use comfy_launcher::git::{deepen_until_full, upstream_targets, Commit, DeepenStage, DeepenStep, TagCommit};
use comfy_launcher::paths::lexical_absolute;
use comfy_launcher::registry::RegistryEntry;
use comfy_launcher::schema::Schema;
use comfy_launcher::screens::version_mgmt::core_tab::{CoreFilter, CoreTab};
use comfy_launcher::screens::version_mgmt::extensions_tab::{
    checkout_reached, toggled_path, ExtFocus, ExtOutcome, Extension, ExtensionsTab,
};
use comfy_launcher::screens::version_mgmt::install_tab::{
    install_button_width, is_valid_git_url, repo_name, InstallFocus, InstallOutcome, InstallTab,
};
use comfy_launcher::screens::version_mgmt::{
    Job, LoadStep, TaskKind, TaskRequest, TaskResult, VersionMgmt, VmOutcome, LIST_MAX_NUM,
};

fn s(x: &str) -> String {
    x.to_string()
}

fn config(dir: &str, python: &str) -> Config {
    Config {
        general: General { comfyui_dir: s(dir), python: s(python), language: s("en"), mode: s("advanced") },
        network: Network {
            pypi_mirror: String::new(),
            git_mirror: String::new(),
            hf_mirror: String::new(),
            github_accel: String::new(),
            http_proxy: String::new(),
            https_proxy: String::new(),
            no_proxy: String::new(),
        },
        comfy_settings: Vec::new(),
        path: s("/tmp/cfg.toml"),
    }
}

fn entry(title: &str, url: &str) -> RegistryEntry {
    RegistryEntry { title: s(title), author: s("someone"), reference: s(url), description: s("") }
}

fn ext(name: &str, managed: bool) -> Extension {
    Extension {
        name: s(name),
        path: format!("/c/custom_nodes/{name}"),
        disabled: false,
        managed,
        remote: if managed { format!("https://github.com/u/{name}") } else { String::new() },
        branch: s("main"),
        head: s("abc1234"),
        head_date: s("2024-01-01 00:00:00"),
        behind: 0,
    }
}

fn commit(short: &str, subject: &str) -> Commit {
    Commit { short: s(short), subject: s(subject), date: s("2024-01-01 00:00:00") }
}

fn tag(name: &str, short: &str) -> TagCommit {
    TagCommit { tag: s(name), commit_short: s(short), commit_date: s("2024-01-01"), commit_subject: s("release") }
}

fn click(column: u16, row: u16) -> Mouse {
    Mouse { kind: MouseKind::LeftDown, column, row }
}

fn type_text(t: &mut InstallTab, text: &str, cfg: &Config) {
    for c in text.chars() {
        assert!(t.on_key(Key::Char(c), cfg, &Vec::new()).is_none());
    }
}

fn area() -> Rect {
    Rect { x: 0, y: 0, width: 100, height: 40 }
}

fn body() -> Rect {
    Rect { x: 0, y: 2, width: 100, height: 38 }
}

#[test]
fn git_url_recognition() {
    assert!(is_valid_git_url("https://github.com/a/b"));
    assert!(!is_valid_git_url("https://github.com/"));
    assert!(!is_valid_git_url("https://github.com/a"));
    assert!(is_valid_git_url("git@github.com:a/b"));
    assert!(is_valid_git_url("  ssh://host/repo  "));
    assert!(is_valid_git_url("anything/at/all.GIT"));
    assert!(!is_valid_git_url("https://example.com/a/b"));
    assert!(!is_valid_git_url(""));
    assert!(!is_valid_git_url("just some words"));
}

#[test]
fn repo_directory_names() {
    assert_eq!(repo_name("https://github.com/a/ComfyUI-Foo.git"), "ComfyUI-Foo");
    assert_eq!(repo_name("x/y.git.git"), "y");
    assert_eq!(repo_name("plain"), "plain");
}

#[test]
fn install_button_width_has_a_floor() {
    assert_eq!(install_button_width("Go"), 12);
    assert_eq!(install_button_width("Install it now"), 20);
}

#[test]
fn install_url_typed_and_installed() {
    let cfg = config("/c", "/p");
    let mut t = InstallTab::new(None);
    assert_eq!(t.focus, InstallFocus::Catalog);
    assert!(t.on_key(Key::Tab, &cfg, &Vec::new()).is_none());
    assert_eq!(t.focus, InstallFocus::Url);
    type_text(&mut t, "https://github.com/a/b", &cfg);
    match t.on_key(Key::Enter, &cfg, &Vec::new()) {
        Some(InstallOutcome::Task(TaskRequest { job: Job::Install { url, dest, python, .. }, follow_up, is_refresh })) => {
            assert_eq!(url, "https://github.com/a/b");
            assert_eq!(dest, "/c/custom_nodes/b");
            assert_eq!(python, "/p");
            assert_eq!(follow_up, TaskKind::Nothing);
            assert!(!is_refresh);
        }
        _ => panic!("expected an install task"),
    }
    assert_eq!(t.url.value, "");
    type_text(&mut t, "nope", &cfg);
    assert!(matches!(t.on_key(Key::Enter, &cfg, &Vec::new()), Some(InstallOutcome::InvalidUrl)));
    assert_eq!(t.url.value, "nope");
}

#[test]
fn install_button_click_fires_two_ticks_later() {
    let cfg = config("/c", "/p");
    let mut t = InstallTab::new(None);
    // The Install button sits at the right end of the URL row.
    assert!(t.on_mouse(click(95, 3), body(), &cfg, 12, &Vec::new()).is_none());
    assert_eq!(t.focus, InstallFocus::InstallBtn);
    assert_eq!(t.last_row0_col, InstallFocus::InstallBtn);
    assert!(t.poll_button_action(&cfg).is_none());
    // The URL box is empty, so the fired button reports an invalid URL.
    assert!(matches!(t.poll_button_action(&cfg), Some(InstallOutcome::InvalidUrl)));
    assert!(t.poll_button_action(&cfg).is_none());
    assert!(t.on_mouse(click(10, 3), body(), &cfg, 12, &Vec::new()).is_none());
    assert_eq!(t.focus, InstallFocus::Url);
    assert!(t.on_mouse(click(10, 6), body(), &cfg, 12, &Vec::new()).is_none());
    assert_eq!(t.focus, InstallFocus::Search);
}

#[test]
fn install_catalog_clicks_select_then_open() {
    let cfg = config("/c", "/p");
    let cat = vec![entry("Alpha", "https://github.com/u/alpha"), entry("Beta", "https://github.com/u/beta")];
    let mut t = InstallTab::new(Some(cat));
    t.catalog_visible_rows = 10;
    // Catalog rows start below the table border and header, at row 10.
    assert!(t.on_mouse(click(5, 11), body(), &cfg, 12, &Vec::new()).is_none());
    assert_eq!(t.catalog_selected, 1);
    assert!(t.actions_menu.is_none());
    assert!(t.on_mouse(click(5, 11), body(), &cfg, 12, &Vec::new()).is_none());
    let am = t.actions_menu.as_ref().expect("actions menu");
    assert_eq!(am.entry.title, "Beta");
    assert!(!am.installed);
    // Two rows (Install, Open URL) in a box 50 x 4 centered in the body.
    match t.on_mouse(click(30, 20), body(), &cfg, 12, &Vec::new()) {
        Some(InstallOutcome::Task(TaskRequest { job: Job::Install { url, dest, .. }, .. })) => {
            assert_eq!(url, "https://github.com/u/beta");
            assert_eq!(dest, "/c/custom_nodes/beta");
        }
        _ => panic!("expected an install task"),
    }
    assert!(t.actions_menu.is_none());
    // A click below the list does nothing.
    assert!(t.on_mouse(click(5, 30), body(), &cfg, 12, &Vec::new()).is_none());
    assert_eq!(t.catalog_selected, 1);
}

#[test]
fn install_actions_click_outside_closes() {
    let cfg = config("/c", "/p");
    let mut t = InstallTab::new(Some(vec![entry("Alpha", "https://github.com/u/alpha")]));
    assert!(t.on_key(Key::Enter, &cfg, &Vec::new()).is_none());
    assert!(t.actions_menu.is_some());
    assert!(t.on_mouse(click(1, 3), body(), &cfg, 12, &Vec::new()).is_none());
    assert!(t.actions_menu.is_none());
}

#[test]
fn install_notice_copy_asks_for_clipboard() {
    let cfg = config("/c", "/p");
    let mut t = InstallTab::new(None);
    t.show_url_notice(s("Could not open"), s("body"), s("https://x/y"));
    assert!(t.on_key(Key::Tab, &cfg, &Vec::new()).is_none());
    assert!(t.on_key(Key::Enter, &cfg, &Vec::new()).is_none());
    assert!(t.poll_button_action(&cfg).is_none());
    match t.poll_button_action(&cfg) {
        Some(InstallOutcome::Copy(text)) => assert_eq!(text, "https://x/y"),
        _ => panic!("expected a copy request"),
    }
    assert!(t.notice.is_none());
}

#[test]
fn ext_uninstall_needs_confirmation() {
    let cfg = config("/c", "/p");
    let mut e = ExtensionsTab::new();
    e.items = vec![ext("alpha", true), ext("beta", false)];
    e.visible_rows = 10;
    assert_eq!(e.focus, ExtFocus::Table);
    assert!(e.on_key(Key::Down, &cfg).is_none());
    assert_eq!(e.selected, 1);
    match e.on_key(Key::Char('d'), &cfg) {
        Some(ExtOutcome::AskUninstall { path, name }) => {
            assert_eq!(path, "/c/custom_nodes/beta");
            assert_eq!(name, "beta");
            e.ask_uninstall(path, s("Uninstall?"), s("really"));
        }
        _ => panic!("expected a confirmation request"),
    }
    // Cancel holds focus; Tab moves it to OK, Enter arms it.
    assert!(e.on_key(Key::Tab, &cfg).is_none());
    assert!(e.on_key(Key::Enter, &cfg).is_none());
    assert!(e.poll_button_action(&cfg).is_none());
    match e.poll_button_action(&cfg) {
        Some(ExtOutcome::Task(TaskRequest { job: Job::ExtUninstall { path, name }, is_refresh, .. })) => {
            assert_eq!(path, "/c/custom_nodes/beta");
            assert_eq!(name, "beta");
            assert!(!is_refresh);
        }
        _ => panic!("expected the uninstall job"),
    }
    assert!(e.confirm.is_none());
    assert!(e.pending_delete.is_none());
}

#[test]
fn ext_actions_menu_update() {
    let cfg = config("/c", "/p");
    let mut e = ExtensionsTab::new();
    e.items = vec![ext("alpha", true)];
    assert!(e.on_key(Key::Enter, &cfg).is_none());
    assert!(e.actions_menu.is_some());
    match e.on_key(Key::Enter, &cfg) {
        Some(ExtOutcome::Task(TaskRequest { job: Job::ExtUpdateOne { path, name, python, .. }, .. })) => {
            assert_eq!(path, "/c/custom_nodes/alpha");
            assert_eq!(name, "alpha");
            assert_eq!(python, "/p");
        }
        _ => panic!("expected the update job"),
    }
    assert!(e.actions_menu.is_none());
}

#[test]
fn ext_row_click_selects_then_opens() {
    let cfg = config("/c", "/p");
    let mut e = ExtensionsTab::new();
    e.items = vec![ext("alpha", true), ext("beta", true)];
    e.visible_rows = 10;
    // Table rows start at row 7 (top row 2..5, table border and header).
    assert!(e.on_mouse(click(5, 8), body(), &cfg, 14, 16).is_none());
    assert_eq!(e.selected, 1);
    assert!(e.actions_menu.is_none());
    assert!(e.on_mouse(click(5, 8), body(), &cfg, 14, 16).is_none());
    assert_eq!(e.actions_menu.as_ref().map(|a| a.ext_name.clone()), Some(s("beta")));
}

fn core_with_data() -> CoreTab {
    let mut c = CoreTab::new();
    c.commits = vec![commit("aaa1111", "first"), commit("bbb2222", "second")];
    c.tags = vec![tag("v1.1.0", "bbb2222"), tag("v1.0.0", "aaa1111")];
    c.visible_rows = 10;
    c
}

#[test]
fn core_click_selects_then_checks_out() {
    let cfg = config("/c", "/p");
    let mut c = core_with_data();
    assert_eq!(c.filter, CoreFilter::Stable);
    // Search box at rows 6..9 of the body; list rows from row 11.
    assert!(c.on_mouse(click(3, 7), body(), &cfg).is_none());
    assert!(c.search_focused());
    assert!(c.on_mouse(click(3, 12), body(), &cfg).is_none());
    assert!(!c.search_focused());
    assert_eq!(c.grid.list_selected(), 1);
    match c.on_mouse(click(3, 12), body(), &cfg) {
        Some(TaskRequest { job: Job::CoreCheckout { root, rev, python, .. }, is_refresh, .. }) => {
            assert_eq!(root, "/c");
            assert_eq!(rev, "v1.0.0");
            assert_eq!(python, "/p");
            assert!(!is_refresh);
        }
        _ => panic!("expected a checkout"),
    }
    assert!(c.on_mouse(click(3, 20), body(), &cfg).is_none());
    assert_eq!(c.grid.list_selected(), 1);
}

#[test]
fn core_keys_reload_and_checkout() {
    let cfg = config("/c", "/p");
    let mut c = core_with_data();
    c.filter = CoreFilter::All;
    match c.on_key(Key::Char('r'), &cfg) {
        Some(TaskRequest { job: Job::CoreLoad { root, limit, .. }, is_refresh, .. }) => {
            assert_eq!(root, "/c");
            assert_eq!(limit, LIST_MAX_NUM);
            assert!(is_refresh);
        }
        _ => panic!("expected a reload"),
    }
    match c.on_key(Key::Enter, &cfg) {
        Some(TaskRequest { job: Job::CoreCheckout { rev, .. }, .. }) => assert_eq!(rev, "aaa1111"),
        _ => panic!("expected a checkout"),
    }
    match c.on_key(Key::Char('u'), &cfg) {
        Some(TaskRequest { job: Job::CorePull { root, .. }, follow_up, .. }) => {
            assert_eq!(root, "/c");
            assert_eq!(follow_up, TaskKind::CoreLoad(s("/c")));
        }
        _ => panic!("expected a pull"),
    }
}

#[test]
fn vm_tab_strip_and_keys() {
    let cfg = config("/c", "/p");
    let names = vec![s("Stable"), s("All"), s("Extensions"), s("Install")];
    let mut v = VersionMgmt::new(None);
    assert_eq!(v.tab, 0);
    // Labels are drawn two cells wider than their text, two cells apart:
    // Stable 0..8, All 10..15, Extensions 17..29, Install 31..40.
    assert!(v.on_mouse(click(20, 0), area(), &cfg, &names, 14, 16, 12).is_none());
    assert_eq!(v.tab, 2);
    assert!(v.on_mouse(click(11, 1), area(), &cfg, &names, 14, 16, 12).is_none());
    assert_eq!(v.tab, 1);
    assert_eq!(v.core.filter, CoreFilter::All);
    assert!(v.on_mouse(click(90, 0), area(), &cfg, &names, 14, 16, 12).is_none());
    assert_eq!(v.tab, 1);
    assert!(v.on_key(Key::Right, &cfg).is_none());
    assert_eq!(v.tab, 2);
    assert!(v.on_key(Key::Left, &cfg).is_none());
    assert!(v.on_key(Key::Left, &cfg).is_none());
    assert_eq!(v.tab, 0);
    assert_eq!(v.core.filter, CoreFilter::Stable);
    assert!(v.on_key(Key::Left, &cfg).is_none());
    assert_eq!(v.tab, 3);
}

#[test]
fn vm_body_click_reaches_the_core_tab() {
    let cfg = config("/c", "/p");
    let names = vec![s("Stable"), s("All"), s("Extensions"), s("Install")];
    let mut v = VersionMgmt::new(None);
    v.core = core_with_data();
    assert!(v.on_mouse(click(3, 12), area(), &cfg, &names, 14, 16, 12).is_none());
    assert_eq!(v.core.grid.list_selected(), 1);
    assert!(v.on_mouse(click(3, 11), area(), &cfg, &names, 14, 16, 12).is_none());
    assert_eq!(v.core.grid.list_selected(), 0);
    match v.on_mouse(click(3, 11), area(), &cfg, &names, 14, 16, 12) {
        Some(VmOutcome::Core(TaskRequest { job: Job::CoreCheckout { rev, .. }, .. })) => assert_eq!(rev, "v1.1.0"),
        _ => panic!("expected a checkout"),
    }
}

#[test]
fn vm_busy_ignores_input() {
    let cfg = config("/c", "/p");
    let names = vec![s("Stable"), s("All"), s("Extensions"), s("Install")];
    let mut v = VersionMgmt::new(None);
    let req = TaskRequest { job: Job::CorePull { root: s("/c"), env: Vec::new(), python: s("/p") }, follow_up: TaskKind::Nothing, is_refresh: false };
    assert!(v.spawn(req, s("Pulling")).is_some());
    assert!(v.is_busy());
    assert!(v.on_mouse(click(20, 0), area(), &cfg, &names, 14, 16, 12).is_none());
    assert_eq!(v.tab, 0);
    assert!(v.on_key(Key::Right, &cfg).is_none());
    assert_eq!(v.tab, 0);
    assert_eq!(v.finish(false), TaskKind::Nothing);
    assert!(!v.is_busy());
}

#[test]
fn vm_lazy_loads_follow_the_tab() {
    let cfg = config("/c", "/p");
    let mut v = VersionMgmt::new(None);
    match v.lazy_load(&cfg) {
        Some(LoadStep::Start(TaskRequest { job: Job::CoreLoad { root, limit, .. }, is_refresh, .. })) => {
            assert_eq!(root, "/c");
            assert_eq!(limit, LIST_MAX_NUM);
            assert!(is_refresh);
        }
        _ => panic!("expected the core load"),
    }
    v.apply_result(TaskResult::CoreData {
        commits: vec![commit("aaa1111", "first")],
        tags: Vec::new(),
        current: Some(s("aaa1111")),
        current_tag: None,
        branch: Some(s("master")),
        remote: None,
        root: s("/c"),
        requested_limit: LIST_MAX_NUM,
    });
    assert!(v.lazy_load(&cfg).is_none());
    v.tab = 3;
    match v.lazy_load(&cfg) {
        Some(LoadStep::Ext { root, limit, req }) => {
            assert_eq!(root, "/c");
            assert_eq!(limit, LIST_MAX_NUM);
            assert!(matches!(req.job, Job::ExtLoad { .. }));
        }
        _ => panic!("expected the extension load"),
    }
    v.apply_result(TaskResult::ExtData { items: vec![ext("alpha", true)], root: s("/c"), requested_limit: LIST_MAX_NUM });
    assert!(matches!(v.lazy_load(&cfg), Some(LoadStep::Start(TaskRequest { job: Job::FetchRegistry { .. }, .. }))));
    v.apply_result(TaskResult::RegistryData { entries: vec![entry("A", "https://github.com/u/a")] });
    assert!(v.lazy_load(&cfg).is_none());
    assert!(config("", "/p").general.comfyui_dir.is_empty());
    let mut w = VersionMgmt::new(None);
    assert!(w.lazy_load(&config("", "/p")).is_none());
    w.tab = 2;
    assert!(w.lazy_load(&config("", "/p")).is_none());
}

#[test]
fn vm_refresh_queue_and_follow_ups() {
    let mut v = VersionMgmt::new(None);
    let load = |root: &str| TaskRequest { job: Job::CoreLoad { root: s(root), env: Vec::new(), limit: 5 }, follow_up: TaskKind::Nothing, is_refresh: true };
    assert!(v.spawn_auto(load("/a"), s("one")).is_some());
    assert!(v.spawn_auto(load("/b"), s("two")).is_none());
    assert!(v.spawn(load("/c"), s("three")).is_none());
    assert!(v.promote_queued().is_none());
    assert_eq!(v.finish(true), TaskKind::Nothing);
    match v.promote_queued() {
        Some((TaskRequest { job: Job::CoreLoad { root, .. }, .. }, title)) => {
            assert_eq!(root, "/b");
            assert_eq!(title, "two");
        }
        _ => panic!("expected the queued load"),
    }
    assert!(v.follow_up_load(TaskKind::Nothing).is_none());
    match v.follow_up_load(TaskKind::ExtLoad(s("/r"))) {
        Some(LoadStep::Ext { root, limit, req }) => {
            assert_eq!(root, "/r");
            assert_eq!(limit, LIST_MAX_NUM);
            assert!(matches!(req.job, Job::ExtLoad { ref env, .. } if env.is_empty()));
        }
        _ => panic!("expected an extension reload"),
    }
    assert!(matches!(v.follow_up_load(TaskKind::CoreLoad(s("/r"))), Some(LoadStep::Core { .. })));
}

#[test]
fn deepen_steps_end_after_two_fetches() {
    let env: Vec<(String, String)> = Vec::new();
    assert!(matches!(deepen_until_full("/r", env.clone(), DeepenStage::Start, false), DeepenStep::Done(true)));
    match deepen_until_full("/r", env.clone(), DeepenStage::Start, true) {
        DeepenStep::Run(c, next) => {
            assert_eq!(c.args, vec![s("-C"), s("/r"), s("fetch"), s("--unshallow"), s("--tags")]);
            assert!(c.env.iter().any(|(k, v)| k == "GIT_TERMINAL_PROMPT" && v == "0"));
            assert_eq!(next, DeepenStage::Unshallowed);
        }
        _ => panic!("expected the unshallow fetch"),
    }
    match deepen_until_full("/r", env.clone(), DeepenStage::Unshallowed, true) {
        DeepenStep::Run(c, next) => {
            assert_eq!(c.args[3], "--depth=2147483647");
            assert_eq!(next, DeepenStage::Deepened);
        }
        _ => panic!("expected the deep fetch"),
    }
    assert!(matches!(deepen_until_full("/r", env.clone(), DeepenStage::Deepened, true), DeepenStep::Done(false)));
    assert!(matches!(deepen_until_full("/r", env, DeepenStage::Deepened, false), DeepenStep::Done(true)));
}

#[test]
fn lexical_paths() {
    assert_eq!(lexical_absolute("/a/./b/../c", "/w"), "/a/c");
    assert_eq!(lexical_absolute("x/../../y", "/w/v"), "/w/y");
    assert_eq!(lexical_absolute("../../..", "/w"), "/");
    assert_eq!(lexical_absolute("//a//b/", "/w"), "/a/b");
    assert_eq!(lexical_absolute("", "/w/v"), "/w/v");
    assert_eq!(lexical_absolute("a/b", "rel"), "rel/a/b");
}

#[test]
fn clipboard_banners() {
    assert_eq!(copy_with_flash(Ok(()), s("Copied"), "Copy failed:"), (FlashKind::Info, s("Copied")));
    assert_eq!(
        copy_with_flash(Err(s("no display")), s("Copied"), "Copy failed:"),
        (FlashKind::Error, s("Copy failed: no display"))
    );
}

#[test]
fn app_tick_moves_flashes_into_banners() {
    let mut a = App::new(config("/c", "/p"), Schema { tabs: Vec::new() }, Schema { tabs: Vec::new() }, None, true, true, true);
    a.version.install.pending_flash = Some((FlashKind::Error, s("boom")));
    a.tick(1000);
    assert_eq!(a.flash_temp, Some((s("boom"), FlashKind::Error, 4000)));
    assert!(a.version.install.pending_flash.is_none());
    assert!(a.flash_permanent.is_none());
    let req = TaskRequest { job: Job::FetchRegistry { env: Vec::new() }, follow_up: TaskKind::Nothing, is_refresh: true };
    assert!(a.version.spawn(req, s("Loading catalog")).is_some());
    a.version.progress(true, 2, 5);
    a.tick(4001);
    assert!(a.flash_temp.is_none());
    assert_eq!(a.flash_permanent, Some((s("Loading catalog (2/5)"), FlashKind::Info)));
    a.version.finish(true);
    a.tick(4002);
    assert!(a.flash_permanent.is_none());
}

#[test]
fn toggling_renames_the_directory() {
    assert_eq!(toggled_path("/c/custom_nodes/foo", false), "/c/custom_nodes/foo.disabled");
    assert_eq!(toggled_path("/c/custom_nodes/foo.disabled", true), "/c/custom_nodes/foo");
    assert_eq!(toggled_path("foo.disabled", true), "foo");
    assert_eq!(toggled_path("/x/foo", true), "/x/foo");
}

#[test]
fn checkout_hash_prefixes() {
    assert!(checkout_reached("abc1234", "abc1234def"));
    assert!(checkout_reached("abc1234def", "abc1234"));
    assert!(!checkout_reached("abc1234", "v1.0.0"));
}

#[test]
fn upstream_reset_targets() {
    assert_eq!(upstream_targets(true), vec![s("@{u}")]);
    assert_eq!(upstream_targets(false), vec![s("origin/HEAD"), s("FETCH_HEAD")]);
}
