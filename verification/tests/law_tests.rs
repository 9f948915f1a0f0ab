use comfy_launcher::gpu::{config_value_to_cli_args, GpuInfo};
use comfy_launcher::screens::version_mgmt::core_tab::CoreTab;
use comfy_launcher::screens::version_mgmt::extensions_tab::{matching_rows, Extension};
use comfy_launcher::screens::version_mgmt::{TaskResult, VersionMgmt};
use comfy_launcher::widgets::focus_grid::{FocusGrid, RowKind};
use comfy_launcher::widgets::input::Input;
use comfy_launcher::geom::{Key, Mouse, MouseKind, Rect};
use comfy_launcher::config::{adopts_legacy, settle_language, Config, General, Network};
use comfy_launcher::widgets::menu::{Menu, MenuEntry};

fn s(x: &str) -> String {
    x.to_string()
}

fn ext(name: &str, dir: &str) -> Extension {
    Extension {
        name: s(name),
        path: format!("/c/custom_nodes/{dir}"),
        disabled: false,
        managed: true,
        remote: format!("https://github.com/u/{dir}"),
        branch: s("main"),
        head: s("abc1234"),
        head_date: s("2024-01-01 00:00:00"),
        behind: 0,
    }
}

#[test]
fn menu_n_downs_come_back() {
    let mut m = Menu {
        primary: vec![MenuEntry { label_key: "a" }, MenuEntry { label_key: "b" }],
        secondary: vec![MenuEntry { label_key: "c" }],
        selected: 1,
    };
    let n = m.total();
    for _ in 0..n {
        m.down();
        assert!(m.selected < n);
    }
    assert_eq!(m.selected, 1);
    m.up();
    m.down();
    assert_eq!(m.selected, 1);
}

#[test]
fn gpu_values_select_the_same_device() {
    let g = |b: &str, id: i32| GpuInfo { backend: s(b), id, name: s("X"), vram_gb: 0 };
    assert_eq!(config_value_to_cli_args(&g("cuda", 1).config_value()), vec![s("--cuda-device"), s("1")]);
    assert_eq!(config_value_to_cli_args(&g("rocm", 0).config_value()), vec![s("--cuda-device"), s("0")]);
    assert_eq!(config_value_to_cli_args(&g("dml", 12).config_value()), vec![s("--directml"), s("12")]);
    assert_eq!(config_value_to_cli_args(&g("cpu", 0).config_value()), vec![s("--cpu")]);
}

#[test]
fn row_add_keeps_names_sorted_and_paths_unique() {
    let mut v = VersionMgmt::new(None);
    v.apply_result(TaskResult::ExtRowAdd { ext: ext("zeta", "zeta") });
    v.apply_result(TaskResult::ExtRowAdd { ext: ext("alpha", "alpha") });
    v.apply_result(TaskResult::ExtRowAdd { ext: ext("mid", "mid") });
    let mut again = ext("beta", "zeta");
    again.head = s("fff0000");
    v.apply_result(TaskResult::ExtRowAdd { ext: again });
    let names: Vec<String> = v.ext.items.iter().map(|e| e.name.clone()).collect();
    assert_eq!(names, vec![s("alpha"), s("beta"), s("mid")]);
    assert_eq!(v.ext.items.iter().filter(|e| e.path.ends_with("/zeta")).count(), 1);
    assert_eq!(v.ext.items[1].head, "fff0000");
}

#[test]
fn grid_column_stays_in_its_row() {
    let mut g = FocusGrid::new(vec![RowKind::Fixed(3), RowKind::List, RowKind::Fixed(1)]);
    g.move_right();
    g.move_right();
    g.move_right();
    assert_eq!(g.col(), 2);
    g.move_down();
    assert_eq!(g.col(), 0);
    g.move_down();
    assert_eq!(g.col(), 0);
    g.page_up();
    assert!(g.col() < 3);
    g.move_left();
    g.move_left();
    g.move_left();
    assert_eq!(g.col(), 0);
}

#[test]
fn saved_list_position_comes_back() {
    let mut t = CoreTab::new();
    t.grid.set_list_len(50);
    t.grid.set_list_selected(7);
    t.grid.set_list_scroll(3);
    t.save_filter_state();
    t.grid.set_list_selected(20);
    t.grid.set_list_scroll(15);
    t.restore_filter_state();
    assert_eq!(t.grid.list_selected(), 7);
    assert_eq!(t.grid.list_scroll(), 3);
}

#[test]
fn search_over_lowered_texts() {
    let rows = vec![
        ("comfyui-manager".chars().collect::<Vec<char>>(), "https://x/manager".chars().collect::<Vec<char>>()),
        ("impact".chars().collect(), "https://x/impact".chars().collect()),
    ];
    assert_eq!(matching_rows(&rows, &"act".chars().collect()), vec![1]);
    assert_eq!(matching_rows(&rows, &"https".chars().collect()), vec![0, 1]);
    assert_eq!(matching_rows(&rows, &Vec::new()), vec![0, 1]);
}

#[test]
fn typing_then_backspace_restores_the_text() {
    let mut i = Input::with(s("añb"));
    i.cursor = 1;
    i.on_key(Key::Char('日'));
    assert_eq!(i.value, "a日ñb");
    assert_eq!(i.cursor, 2);
    i.on_key(Key::Backspace);
    assert_eq!(i.value, "añb");
    assert_eq!(i.cursor, 1);
}

#[test]
fn stored_language_settles_on_a_locale() {
    let av = vec![s("en-US"), s("zh-CN"), s("en-UK")];
    assert_eq!(settle_language("zh-CN", &av), "zh-CN");
    assert_eq!(settle_language("en_US", &av), "en-US");
    assert_eq!(settle_language("en_GB", &av), "en-UK");
    assert_eq!(settle_language("fr", &av), "en-US");
    assert_eq!(settle_language("zh", &vec![s("ja")]), "ja");
    assert_eq!(settle_language("xx", &Vec::new()), "");
    assert!(adopts_legacy(0, Some(2)));
    assert!(!adopts_legacy(1, Some(2)));
    assert!(!adopts_legacy(0, Some(0)));
    assert!(!adopts_legacy(0, None));
}

#[test]
fn extension_clicks_hit_the_button_drawn_there() {
    let mut t = comfy_launcher::screens::version_mgmt::extensions_tab::ExtensionsTab::new();
    let cfg = test_config();
    let area = Rect { x: 0, y: 0, width: 80, height: 20 };
    // Top row: search over 80 - 10 - 12 cells, then Update all (10), then Reinstall all (12).
    let click = |c: u16, r: u16| Mouse { kind: MouseKind::LeftDown, column: c, row: r };
    t.on_mouse(click(60, 1), area, &cfg, 10, 12);
    assert!(matches!(t.focus, comfy_launcher::screens::version_mgmt::extensions_tab::ExtFocus::UpdateAll));
    t.on_mouse(click(70, 1), area, &cfg, 10, 12);
    assert!(matches!(t.focus, comfy_launcher::screens::version_mgmt::extensions_tab::ExtFocus::ReinstallAll));
    t.on_mouse(click(5, 1), area, &cfg, 10, 12);
    assert!(matches!(t.focus, comfy_launcher::screens::version_mgmt::extensions_tab::ExtFocus::Search));
}

fn test_config() -> Config {
    Config {
        general: General { comfyui_dir: s("/c"), python: s("python3"), language: s("en-US"), mode: s("advanced") },
        network: Network {
            pypi_mirror: String::new(),
            git_mirror: String::new(),
            hf_mirror: String::new(),
            github_accel: String::new(),
            http_proxy: String::new(),
            https_proxy: String::new(),
            no_proxy: String::new(),
        },
        comfy_settings: Vec::new(),
        path: s("/tmp/launcher_config.toml"),
    }
}
