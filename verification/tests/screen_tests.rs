use comfy_launcher::app::{hint_rows, App, FlashKind, KeyRoute, MouseRoute, Screen};
use comfy_launcher::config::{Config, General, Network};
use comfy_launcher::geom::{Key, Mouse, MouseKind, Rect};
use comfy_launcher::schema::{Choice, ConfigValue, Field, FieldType, Schema, Tab};
use comfy_launcher::screens::comfy_settings::{comfy_get, ComfySettings, ScreenStep};
use comfy_launcher::screens::launcher_logs::{LauncherLogs, LogsTick};
use comfy_launcher::screens::launcher_settings::{launcher_get, store, store_check, StoreCheck};
use comfy_launcher::screens::main_launcher::{build_rows, venv_step, InfoTexts, Row, VenvStep};
use comfy_launcher::screens::settings_view::{
    field_height, section_headers, wrap_desc, Popup, SettingsKey, SettingsView,
};
use comfy_launcher::screens::tutorial::{footer_button_rect, Tutorial, TutorialAction, DONE};
use comfy_launcher::widgets::button::{Button, ButtonKind};
use comfy_launcher::widgets::input::Input;
use comfy_launcher::widgets::tabs::{layout, HitResult, Tabs};

fn s(x: &str) -> String {
    x.to_string()
}

fn config(dir: &str, python: &str) -> Config {
    Config {
        general: General { comfyui_dir: s(dir), python: s(python), language: s("en"), mode: s("advanced") },
        network: Network {
            pypi_mirror: String::new(),
            git_mirror: String::new(),
            hf_mirror: String::new(),
            github_accel: String::new(),
            http_proxy: String::new(),
            https_proxy: String::new(),
            no_proxy: String::new(),
        },
        comfy_settings: Vec::new(),
        path: s("/tmp/cfg.toml"),
    }
}

fn field(key: &str, ty: FieldType, default: ConfigValue) -> Field {
    Field { key: s(key), name: s(key), desc: s(""), ty, cli: s(""), default }
}

fn two_tab_schema() -> Schema {
    Schema {
        tabs: vec![
            Tab {
                name: s("General"),
                fields: vec![
                    field("lowvram", FieldType::Toggle, ConfigValue::Bool(false)),
                    field("port", FieldType::Custom, ConfigValue::Str(s("8188"))),
                ],
            },
            Tab {
                name: s("Preview"),
                fields: vec![field(
                    "preview",
                    FieldType::Choice {
                        options: vec![
                            Choice { value: s("none"), label: s("None") },
                            Choice { value: s("auto"), label: s("Auto") },
                        ],
                    },
                    ConfigValue::Str(s("none")),
                )],
            },
        ],
    }
}

fn texts() -> Vec<Vec<(String, String)>> {
    vec![
        vec![(s("Low VRAM"), s("Use less GPU memory")), (s("Port"), s("Listen port"))],
        vec![(s("Preview method"), s("How previews render"))],
    ]
}

#[test]
fn tabs_layout_scrolls_to_selected() {
    assert_eq!(layout(&vec![5, 5, 5], 0, 30), (0, false, false));
    assert_eq!(layout(&vec![5, 5, 5], 2, 10), (2, true, false));
    assert_eq!(layout(&vec![5, 5, 5], 0, 10), (0, false, true));
    assert_eq!(layout(&Vec::new(), 0, 10), (0, false, false));
}

#[test]
fn tabs_hit_chevrons_and_tabs() {
    let items = vec![s("abc"), s("abc"), s("abc")];
    let t = Tabs { items: &items, selected: 2, highlighted: None };
    let area = Rect { x: 0, y: 0, width: 10, height: 2 };
    assert_eq!(t.hit(area, 0), Some(HitResult::PrevChevron));
    assert_eq!(t.hit(area, 1), Some(HitResult::Tab(2)));
    assert_eq!(t.hit(area, 8), None);
    let t0 = Tabs { items: &items, selected: 0, highlighted: None };
    assert_eq!(t0.hit(area, 2), Some(HitResult::Tab(0)));
    assert_eq!(t0.hit(area, 9), Some(HitResult::NextChevron));
}

#[test]
fn button_fires_once() {
    let mut b = Button::new(ButtonKind::Primary);
    assert!(!b.poll_fire());
    b.click();
    assert!(!b.poll_fire());
    assert!(b.poll_fire());
    assert!(!b.poll_fire());
}

#[test]
fn input_edits() {
    let mut i = Input::default();
    i.on_key(Key::Char('a'));
    i.on_key(Key::Char('c'));
    i.on_key(Key::Left);
    i.on_key(Key::Char('b'));
    assert_eq!(i.value, "abc");
    assert_eq!(i.cursor, 2);
    i.on_key(Key::Backspace);
    assert_eq!(i.value, "ac");
    i.on_key(Key::Home);
    i.on_key(Key::Delete);
    assert_eq!(i.value, "c");
}

#[test]
fn settings_filter_by_tab_and_search() {
    let schema = two_tab_schema();
    let t = texts();
    let mut v = SettingsView::new();
    assert_eq!(v.filtered_fields(&schema, &t), vec![(0, 0), (0, 1)]);
    v.tab = 1;
    assert_eq!(v.filtered_fields(&schema, &t), vec![(1, 0)]);
    v.filter.value = s("PREVIEW");
    assert_eq!(v.filtered_fields(&schema, &t), vec![(1, 0)]);
    v.filter.value = s("port");
    assert_eq!(v.filtered_fields(&schema, &t), vec![(0, 1)]);
    v.filter.value = s("e");
    assert_eq!(v.filtered_fields(&schema, &t), vec![(0, 0), (0, 1), (1, 0)]);
}

#[test]
fn search_restores_tab_law() {
    let schema = two_tab_schema();
    let t = texts();
    let mut v = SettingsView::new();
    v.tab = 1;
    v.grid.set_focus(0, 0);
    assert!(matches!(v.on_key(Key::Char('p'), &schema, &t), SettingsKey::Used));
    assert_eq!(v.saved_tab, Some(1));
    v.tab = 0;
    assert!(matches!(v.on_key(Key::Backspace, &schema, &t), SettingsKey::Used));
    assert_eq!(v.tab, 1);
    assert_eq!(v.saved_tab, None);
    assert_eq!(v.filter.value, "");
}

#[test]
fn esc_restores_tab_law() {
    let schema = two_tab_schema();
    let t = texts();
    let mut v = SettingsView::new();
    v.tab = 1;
    v.grid.set_focus(0, 0);
    v.on_key(Key::Char('x'), &schema, &t);
    v.on_key(Key::Tab, &schema, &t);
    assert_eq!(v.grid.row(), 1);
    v.tab = 0;
    assert!(v.eat_esc());
    assert_eq!(v.tab, 1);
    assert_eq!(v.filter.value, "");
    assert!(!v.eat_esc());
}

#[test]
fn tab_right_then_left_law() {
    let schema = two_tab_schema();
    let t = texts();
    let mut v = SettingsView::new();
    v.on_key(Key::Right, &schema, &t);
    assert_eq!(v.tab, 1);
    v.on_key(Key::Right, &schema, &t);
    assert_eq!(v.tab, 0);
    v.on_key(Key::Left, &schema, &t);
    assert_eq!(v.tab, 1);
    v.on_key(Key::Right, &schema, &t);
    assert_eq!(v.tab, 0);
}

#[test]
fn settings_list_navigation_and_activate() {
    let schema = two_tab_schema();
    let t = texts();
    let mut v = SettingsView::new();
    v.on_key(Key::Down, &schema, &t);
    assert_eq!(v.grid.list_selected(), 1);
    assert!(matches!(v.on_key(Key::Enter, &schema, &t), SettingsKey::Activate { tab: 0, field: 1 }));
    v.on_key(Key::Down, &schema, &t);
    assert_eq!(v.grid.row(), 0);
    assert!(matches!(v.on_key(Key::F(2), &schema, &t), SettingsKey::Used));
}

#[test]
fn settings_choice_popup_stores_value() {
    let schema = two_tab_schema();
    let t = texts();
    let mut v = SettingsView::new();
    let fld = &schema.tabs[1].fields[0];
    let cur = ConfigValue::Str(s("auto"));
    let r = v.activate_field(fld, &cur, s("Preview"), vec![s("None"), s("Auto")], Vec::new());
    assert!(matches!(r, SettingsKey::Used));
    match &v.popup {
        Popup::Select(sel, key, values) => {
            assert_eq!(sel.selected, 1);
            assert_eq!(key, "preview");
            assert_eq!(values, &vec![s("none"), s("auto")]);
        },
        _ => panic!("no choice popup"),
    }
    v.on_key(Key::Up, &schema, &t);
    match v.on_key(Key::Enter, &schema, &t) {
        SettingsKey::Store { key, value } => {
            assert_eq!(key, "preview");
            assert_eq!(value, "none");
        },
        _ => panic!("nothing stored"),
    }
    assert!(matches!(v.popup, Popup::Closed));
}

#[test]
fn settings_text_popup_trims() {
    let schema = two_tab_schema();
    let t = texts();
    let mut v = SettingsView::new();
    let fld = &schema.tabs[0].fields[1];
    v.activate_field(fld, &ConfigValue::Str(s("8188")), s("Port"), Vec::new(), Vec::new());
    v.on_key(Key::Char(' '), &schema, &t);
    match v.on_key(Key::Enter, &schema, &t) {
        SettingsKey::Store { key, value } => {
            assert_eq!(key, "port");
            assert_eq!(value, "8188");
        },
        _ => panic!("nothing stored"),
    }
    let toggle = &schema.tabs[0].fields[0];
    assert!(matches!(
        v.activate_field(toggle, &ConfigValue::Bool(false), s("Low"), Vec::new(), Vec::new()),
        SettingsKey::StoreBool { value: true, .. }
    ));
}

#[test]
fn settings_description_wrap() {
    assert_eq!(wrap_desc("one two\nthree", 11), vec![s("one two"), s("three")]);
    assert_eq!(wrap_desc("", 20), vec![s("")]);
    assert_eq!(field_height("a\nb", 40), 3);
    assert_eq!(section_headers(&vec![(0, 0), (0, 1), (1, 0)], true), vec![true, false, true]);
    assert_eq!(section_headers(&vec![(0, 0), (0, 1)], false), vec![false, false]);
}

#[test]
fn settings_fit_list_moves_to_selection() {
    let mut v = SettingsView::new();
    v.grid.set_list_selected(3);
    let (scroll, stop) = v.fit_list(&vec![2, 2, 2, 2], &vec![false, false, false, false], 4);
    assert_eq!(scroll, 2);
    assert_eq!(stop, 4);
    assert_eq!(v.visible, 2);
}

#[test]
fn comfy_settings_store_and_reset() {
    let schema = two_tab_schema();
    let t = texts();
    let mut cfg = config("/c", "/p");
    let mut c = ComfySettings::new();
    let r = c.activate(0, 0, &schema, &mut cfg, s("Low VRAM"), Vec::new(), Vec::new());
    assert!(matches!(r, ScreenStep::Changed));
    assert!(matches!(comfy_get(&cfg, &schema, &s("lowvram")), ConfigValue::Bool(true)));
    assert!(matches!(comfy_get(&cfg, &schema, &s("port")), ConfigValue::Str(p) if p == "8188"));
    assert!(matches!(comfy_get(&cfg, &schema, &s("missing")), ConfigValue::Str(p) if p.is_empty()));
    assert!(matches!(c.on_key(Key::Char('r'), &schema, &t, &mut cfg), ScreenStep::Changed));
    assert!(cfg.comfy_settings.is_empty());
    assert!(matches!(c.on_key(Key::Char('q'), &schema, &t, &mut cfg), ScreenStep::Ignored));
    assert!(matches!(c.activate(5, 0, &schema, &mut cfg, s(""), Vec::new(), Vec::new()), ScreenStep::Nothing));
}

#[test]
fn launcher_store_validates() {
    let mut cfg = config("/old", "/py");
    assert_eq!(launcher_get(&cfg, &s("general.comfyui_dir")).to_text(), "/old");
    assert!(matches!(store_check(&s("general.comfyui_dir"), &ConfigValue::Str(s(" /new "))), StoreCheck::Dir(d) if d == "/new"));
    assert!(matches!(store_check(&s("network.hf_mirror"), &ConfigValue::Str(s("x"))), StoreCheck::Nothing));
    let dir = ConfigValue::Str(s(" /new "));
    assert_eq!(store(&mut cfg, &s("general.comfyui_dir"), &dir, false, None), Err("popup_invalid_dir"));
    assert_eq!(cfg.general.comfyui_dir, "/old");
    assert_eq!(store(&mut cfg, &s("general.comfyui_dir"), &dir, true, None), Ok(true));
    assert_eq!(cfg.general.comfyui_dir, "/new");
    assert_eq!(store(&mut cfg, &s("general.python"), &ConfigValue::Str(s("x")), false, None), Err("popup_invalid_py"));
    assert_eq!(store(&mut cfg, &s("general.python"), &ConfigValue::Str(s("venv")), false, Some(s("/venv/bin/python"))), Ok(true));
    assert_eq!(cfg.general.python, "/venv/bin/python");
    assert_eq!(store(&mut cfg, &s("network.pypi_mirror"), &ConfigValue::Str(s(" a ; b ;")), false, None), Ok(true));
    assert_eq!(cfg.network.pypi_mirror, "a;b");
    assert_eq!(store(&mut cfg, &s("general.language"), &ConfigValue::Bool(true), false, None), Ok(false));
    assert_eq!(store(&mut cfg, &s("unknown"), &ConfigValue::Str(s("x")), false, None), Ok(false));
}

#[test]
fn logs_scroll_and_tail() {
    let mut l = LauncherLogs::new();
    assert!(matches!(l.tick(30), LogsTick::Nothing));
    l.log.visible = 10;
    assert!(!l.on_key(Key::Up));
    assert!(!l.sticky_tail);
    assert_eq!(l.log.scroll, 19);
    l.on_key(Key::PageDown);
    assert_eq!(l.log.scroll, 20);
    assert!(l.sticky_tail);
    l.on_key(Key::Home);
    assert_eq!(l.log.scroll, 0);
    assert!(!l.sticky_tail);
    l.on_key(Key::End);
    assert!(l.sticky_tail);
    assert!(l.on_key(Key::Enter));
    l.on_key(Key::Tab);
    assert!(!l.export_focused);
}

#[test]
fn logs_export_button_fires_on_tick() {
    let mut l = LauncherLogs::new();
    let area = Rect { x: 0, y: 0, width: 80, height: 20 };
    l.on_mouse(Mouse { kind: MouseKind::LeftDown, column: 2, row: 18 }, area, 16);
    assert!(l.export_focused);
    assert!(matches!(l.tick(0), LogsTick::Nothing));
    assert!(matches!(l.tick(0), LogsTick::Export));
    l.on_mouse(Mouse { kind: MouseKind::LeftDown, column: 50, row: 5 }, area, 16);
    assert!(!l.export_focused);
}

#[test]
fn tutorial_walkthrough() {
    let cfg0 = config("", "");
    let mut t = Tutorial::new(&cfg0, false, false);
    assert_eq!(t.step, 1);
    assert!(!t.detecting);
    for c in " /opt/c ".chars() {
        t.on_key(Key::Char(c), &cfg0);
    }
    match t.on_key(Key::Enter, &cfg0) {
        TutorialAction::CheckDir(d) => assert_eq!(d, "/opt/c"),
        _ => panic!("no directory check"),
    }
    let mut cfg = config("", "");
    assert!(!t.dir_checked(s("/opt/c"), false, &mut cfg));
    assert_eq!(t.error, Some("tutorial_invalid_dir"));
    assert!(t.dir_checked(s("/opt/c"), true, &mut cfg));
    assert_eq!(cfg.general.comfyui_dir, "/opt/c");
    assert_eq!(t.step, 2);
    assert!(t.detecting);
    assert!(matches!(t.on_key(Key::Down, &cfg), TutorialAction::Nothing));
    t.finish_detect(Vec::new());
    t.on_key(Key::Down, &cfg);
    assert_eq!(t.py_selected, 0);
    t.on_key(Key::Enter, &cfg);
    assert!(t.py_custom.is_some());
    t.on_key(Key::Char('p'), &cfg);
    match t.on_key(Key::Enter, &cfg) {
        TutorialAction::CheckPython { path, resolve } => {
            assert_eq!(path, "p");
            assert!(resolve);
        },
        _ => panic!("no python check"),
    }
    assert!(!t.python_checked(None, &mut cfg));
    assert!(t.python_checked(Some(s("/usr/bin/python3")), &mut cfg));
    assert_eq!(t.step, DONE);
    assert!(t.is_done());
    assert_eq!(cfg.general.python, "/usr/bin/python3");
}

#[test]
fn tutorial_first_step_and_git() {
    let t1 = Tutorial::new(&config("/c", ""), true, false);
    assert_eq!(t1.step, 2);
    assert!(t1.detecting);
    let mut t0 = Tutorial::new(&config("/c", "/p"), true, true);
    assert_eq!(t0.step, 0);
    assert!(matches!(t0.on_key(Key::Enter, &config("/c", "/p")), TutorialAction::CheckGit { enter: true }));
    t0.git_checked(false, true);
    assert_eq!(t0.error, Some("tutorial_need_git"));
    t0.git_checked(true, true);
    assert_eq!(t0.step, 1);
    let r = footer_button_rect(Rect { x: 0, y: 5, width: 40, height: 3 }, "Go");
    assert_eq!(r, Rect { x: 14, y: 5, width: 12, height: 3 });
}

#[test]
fn venv_decisions() {
    assert!(matches!(venv_step("  ", None, false), VenvStep::NoPython));
    assert!(matches!(venv_step("/usr/bin/python", None, false), VenvStep::NotVenv));
    assert!(matches!(venv_step("/v/bin/python", Some(s("/v")), true), VenvStep::AlreadyActive));
    assert!(matches!(venv_step("/v/bin/python", Some(s("/v")), false), VenvStep::Activate(r) if r == "/v"));
}

#[test]
fn info_rows_assembled() {
    let t = InfoTexts {
        comfy_header: s("ComfyUI"),
        command: (s("Run"), s("python main.py")),
        version: (s("Version"), None),
        head: (s("Commit"), Some(s("abc"))),
        python: (s("Python"), s("3.11")),
        launcher: (s("Launcher"), s("1.0")),
        nodes_label: s("Nodes"),
        nodes: (3, 2),
        disabled_note: s("2 disabled"),
        dirs_header: s("Dirs"),
        dirs: vec![(s("Root"), s("/c"))],
    };
    let rows = build_rows(&t);
    assert_eq!(rows.len(), 9);
    assert!(matches!(&rows[2], Row::Item { value, .. } if value == "?"));
    assert!(matches!(&rows[3], Row::Item { value, .. } if value == "abc"));
    assert!(matches!(&rows[6], Row::Item { value, .. } if value == "3 (2 disabled)"));
    assert!(matches!(&rows[7], Row::Header(h) if h == "Dirs"));
}

fn app() -> App {
    App::new(config("/c", "/p"), two_tab_schema(), Schema { tabs: Vec::new() }, None, true, true, true)
}

#[test]
fn app_menu_and_quit() {
    let mut a = app();
    assert!(a.tutorial.is_none());
    assert!(matches!(a.on_key(Key::Down, false), KeyRoute::Nothing));
    assert_eq!(a.screen, Screen::ComfySettings);
    assert!(matches!(a.on_key(Key::Up, false), KeyRoute::Nothing));
    assert!(matches!(a.on_key(Key::Up, false), KeyRoute::Nothing));
    assert_eq!(a.screen, Screen::About);
    a.on_key(Key::Enter, false);
    assert!(!a.focus_menu);
    assert!(matches!(a.on_key(Key::Char('x'), false), KeyRoute::Body(Screen::About)));
    a.on_key(Key::Esc, false);
    assert!(a.focus_menu);
    a.on_key(Key::F(5), false);
    assert!(a.should_launch);
    a.on_key(Key::Char('c'), true);
    assert!(a.should_quit);
    let t = App::new(config("", "/p"), two_tab_schema(), Schema { tabs: Vec::new() }, None, false, false, true);
    assert!(t.tutorial.is_some());
}

#[test]
fn app_mouse_routes_and_coalesces() {
    let mut a = app();
    a.menu_rect = Rect { x: 0, y: 1, width: 28, height: 20 };
    a.body_inner = Rect { x: 29, y: 2, width: 50, height: 18 };
    let click = Mouse { kind: MouseKind::LeftDown, column: 40, row: 5 };
    assert!(matches!(a.on_mouse(click, 1000), MouseRoute::Body(Screen::Main, _)));
    assert!(!a.focus_menu);
    let wheel = Mouse { kind: MouseKind::ScrollDown, column: 40, row: 5 };
    assert!(matches!(a.on_mouse(wheel, 2000), MouseRoute::Scroll(Screen::Main, 1)));
    assert!(matches!(a.on_mouse(wheel, 2010), MouseRoute::Nothing));
    let menu_wheel = Mouse { kind: MouseKind::ScrollDown, column: 3, row: 5 };
    a.on_mouse(menu_wheel, 3000);
    assert_eq!(a.screen, Screen::ComfySettings);
    let entry = Mouse { kind: MouseKind::LeftDown, column: 3, row: 2 };
    a.on_mouse(entry, 4000);
    assert_eq!(a.screen, Screen::Main);
}

#[test]
fn app_banners() {
    let mut a = app();
    a.set_flash_permanent(s("refreshing"), FlashKind::Info);
    assert_eq!(a.banner().map(|(m, _)| m.clone()), Some(s("refreshing")));
    a.set_flash_error(s("failed"), 100);
    assert_eq!(a.banner().map(|(m, k)| (m.clone(), k)), Some((s("failed"), FlashKind::Error)));
    a.expire_flash(3100);
    assert!(a.flash_temp.is_some());
    a.expire_flash(3101);
    assert_eq!(a.banner().map(|(m, _)| m.clone()), Some(s("refreshing")));
    a.clear_flash_permanent();
    assert!(a.banner().is_none());
}

#[test]
fn app_key_hints() {
    let mut a = app();
    let h = a.key_hints();
    assert_eq!(h[0], ("↑↓", "hint_menu"));
    assert_eq!(h.len(), 4);
    a.focus_menu = false;
    a.screen = Screen::ComfySettings;
    let h2 = a.key_hints();
    assert!(h2.contains(&("R", "hint_reset")));
    assert_eq!(h2[h2.len() - 1], ("Ctrl+C", "hint_quit"));
}

#[test]
fn hint_lines_wrap_consecutively() {
    assert_eq!(hint_rows(&vec![(3, 4), (3, 4), (3, 4)], 20), vec![0, 0, 1]);
    assert_eq!(hint_rows(&vec![(30, 4), (3, 4)], 10), vec![0, 1]);
    assert_eq!(hint_rows(&Vec::new(), 10), Vec::<usize>::new());
    let lines = hint_rows(&vec![(2, 2), (2, 2), (2, 2), (2, 2)], 1);
    for w in lines.windows(2) {
        assert!(w[0] <= w[1] && w[1] <= w[0] + 1);
    }
}
