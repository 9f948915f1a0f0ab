use comfy_launcher::comfy_info::{comfyui_version_from, extra_model_paths_from};
use comfy_launcher::config::{Config, General, Network};
use comfy_launcher::env::{build, normalize_semicolon_list};
use comfy_launcher::git::{
    branch_from, checkout_cmd, fetch_cmd, log_cmd, parse_count, parse_log, parse_release_tag,
    parse_show, parse_tag_refs, release_tag_from,
};
use comfy_launcher::gpu::{config_value_to_cli_args, cpu_entry, default_label, parse_nvidia_line, GpuInfo};
use comfy_launcher::log_bus::{LogBus, LogLine, CAPACITY};
use comfy_launcher::paths::{file_name, join, ComfyDirs};
use comfy_launcher::pip::install_requirements_cmd;
use comfy_launcher::python::{add_candidate, candidate_label, venv_candidates, version_text, PythonCandidate};
use comfy_launcher::registry::{build_catalog, cache_path, normalize_url, status_for, InstallStatus, RegistryEntry};
use comfy_launcher::schema::{build_cli_args, Choice, ConfigValue, Field, FieldType, Schema, Tab};
use comfy_launcher::screens::version_mgmt::extensions_tab::{extension_dir_name, Extension};
use comfy_launcher::strs::{chars_of, contains_ci, split_words, trim_str};
use comfy_launcher::text::{pad_to_width, truncate_to_width, width, wrap_to_width};

fn s(x: &str) -> String {
    x.to_string()
}

fn network() -> Network {
    Network {
        pypi_mirror: String::new(),
        git_mirror: String::new(),
        hf_mirror: String::new(),
        github_accel: String::new(),
        http_proxy: String::new(),
        https_proxy: String::new(),
        no_proxy: String::new(),
    }
}

fn config() -> Config {
    Config {
        general: General {
            comfyui_dir: s("/opt/ComfyUI"),
            python: s("/usr/bin/python3"),
            language: s("en"),
            mode: s("advanced"),
        },
        network: network(),
        comfy_settings: Vec::new(),
        path: s("/tmp/launcher_config.toml"),
    }
}

fn ext(name: &str, remote: &str, disabled: bool) -> Extension {
    Extension {
        name: s(name),
        path: format!("/opt/ComfyUI/custom_nodes/{name}"),
        disabled,
        managed: true,
        remote: s(remote),
        branch: s("main"),
        head: s("abc1234"),
        head_date: s("2024-01-01"),
        behind: 0,
    }
}

#[test]
fn width_counts_cells() {
    assert_eq!(width("abc"), 3);
    assert_eq!(width(""), 0);
    assert_eq!(width("日本"), 4);
}

#[test]
fn truncate_stops_before_wide_char() {
    assert_eq!(truncate_to_width("日本語", 4), "日…");
    assert_eq!(truncate_to_width("日本語", 5), "日本…");
    assert_eq!(truncate_to_width("hello", 1), "…");
    assert_eq!(truncate_to_width("hello", 10), "hello");
    assert_eq!(truncate_to_width("hello", 0), "");
}

#[test]
fn pad_fills_to_width() {
    assert_eq!(pad_to_width("ab", 4), "ab  ");
    assert_eq!(pad_to_width("日", 3), "日 ");
    assert_eq!(pad_to_width("abcdef", 3), "ab…");
}

#[test]
fn wrap_breaks_at_spaces() {
    assert_eq!(wrap_to_width("hello world foo", 11), vec![s("hello"), s("world foo")]);
    assert_eq!(wrap_to_width("short", 10), vec![s("short")]);
    assert_eq!(wrap_to_width("", 10), vec![s("")]);
}

#[test]
fn contains_ci_ignores_case() {
    assert!(contains_ci(&s("ComfyUI-Manager"), &s("manager")));
    assert!(contains_ci(&s("abc"), &s("ABC")));
    assert!(!contains_ci(&s("abc"), &s("abd")));
}

#[test]
fn trim_and_words() {
    assert_eq!(trim_str("  a b \t"), "a b");
    assert_eq!(split_words(" --a  b\tc "), vec![s("--a"), s("b"), s("c")]);
}

#[test]
fn normalize_list_canonical_form() {
    assert_eq!(normalize_semicolon_list(" a ; ;b;c "), "a;b;c");
    assert_eq!(normalize_semicolon_list(""), "");
    let once = normalize_semicolon_list(" x ;y ; ");
    assert_eq!(normalize_semicolon_list(&once), once);
}

#[test]
fn env_build_mirrors_and_proxies() {
    let mut n = network();
    n.pypi_mirror = s("https://a/simple; https://b/simple");
    n.hf_mirror = s("https://hf.example");
    n.git_mirror = s("https://mirror.example/");
    n.http_proxy = s("http://proxy:8080");
    let e = build(&n);
    let get = |k: &str| e.iter().find(|(a, _)| a == k).map(|(_, b)| b.clone());
    assert_eq!(get("PIP_INDEX_URL"), Some(s("https://a/simple")));
    assert_eq!(get("PIP_EXTRA_INDEX_URL"), Some(s("https://b/simple")));
    assert_eq!(get("HF_ENDPOINT"), Some(s("https://hf.example")));
    assert_eq!(get("GIT_CONFIG_COUNT"), Some(s("1")));
    assert_eq!(get("GIT_CONFIG_KEY_0"), Some(s("url.https://mirror.example/.insteadOf")));
    assert_eq!(get("GIT_CONFIG_VALUE_0"), Some(s("https://github.com/")));
    assert_eq!(get("HTTP_PROXY"), Some(s("http://proxy:8080")));
    assert_eq!(get("http_proxy"), Some(s("http://proxy:8080")));
    assert_eq!(get("HTTPS_PROXY"), None);
}

#[test]
fn git_fetch_command_is_non_interactive() {
    let c = fetch_cmd("/repo", Vec::new());
    assert_eq!(c.program, "git");
    assert_eq!(c.args, vec![s("-C"), s("/repo"), s("fetch"), s("--all")]);
    assert!(c.env.iter().any(|(k, v)| k == "GIT_TERMINAL_PROMPT" && v == "0"));
}

#[test]
fn git_checkout_and_log_commands() {
    let c = checkout_cmd("/r", "abc", Vec::new());
    assert_eq!(c.args, vec![s("-C"), s("/r"), s("checkout"), s("--force"), s("abc")]);
    let l = log_cmd("/r", 5, true);
    assert_eq!(l.args[0..5].to_vec(), vec![s("-C"), s("/r"), s("log"), s("-n5"), s("--all")]);
}

#[test]
fn parse_log_newest_first() {
    let text = "a1\u{1f}first\u{1f}2024-01-01 10:00:00\nb2\u{1f}second\u{1f}2024-02-01 10:00:00\nbad line\n";
    let cs = parse_log(text);
    assert_eq!(cs.len(), 2);
    assert_eq!(cs[0].short, "b2");
    assert_eq!(cs[1].subject, "first");
}

#[test]
fn release_tags_parse_and_sort() {
    assert_eq!(parse_release_tag(&chars_of("v1.2.3")), Some((1, 2, 3)));
    assert_eq!(parse_release_tag(&chars_of("v1.2")), None);
    assert_eq!(parse_release_tag(&chars_of("1.2.3")), None);
    let refs = parse_tag_refs("aaa  v0.3.1\nbbb ccc v0.10.0\nddd  nightly\n");
    assert_eq!(refs.len(), 2);
    assert_eq!(refs[0].3, "v0.10.0");
    assert_eq!(refs[0].4, "ccc");
    assert_eq!(refs[1].3, "v0.3.1");
    assert_eq!(release_tag_from(" v2.0.1\n"), Some(s("v2.0.1")));
    assert_eq!(release_tag_from("v2.0"), None);
}

#[test]
fn git_small_outputs() {
    assert_eq!(branch_from("main\n"), Some(s("main")));
    assert_eq!(branch_from("HEAD\n"), None);
    assert_eq!(parse_count(" 12\n"), Some(12));
    assert_eq!(parse_count("x"), None);
    assert_eq!(parse_show("abc\u{1f}2024-01-02\u{1f}msg\n"), (s("abc"), s("2024-01-02"), s("msg")));
}

#[test]
fn gpu_values_and_labels() {
    let g = GpuInfo { backend: s("cuda"), id: 0, name: s("RTX"), vram_gb: 24 };
    assert_eq!(g.config_value(), "cuda:0");
    assert_eq!(g.display_label(), "CUDA GPU 0: RTX (24 GB)");
    assert_eq!(cpu_entry().config_value(), "cpu");
    assert_eq!(default_label(&vec![cpu_entry(), g], "Default"), "Default - CUDA GPU 0: RTX (24 GB)");
    assert_eq!(default_label(&vec![cpu_entry()], "Default"), "Default");
}

#[test]
fn gpu_cli_arguments() {
    assert_eq!(config_value_to_cli_args("cpu"), vec![s("--cpu")]);
    assert_eq!(config_value_to_cli_args(""), Vec::<String>::new());
    assert_eq!(config_value_to_cli_args("cuda:1"), vec![s("--cuda-device"), s("1")]);
    assert_eq!(parse_nvidia_line("0, NVIDIA A100, 40960"), Some((0, s("NVIDIA A100"), s("40960"))));
    assert_eq!(parse_nvidia_line("garbage"), None);
}

#[test]
fn registry_url_keys_and_status() {
    assert_eq!(normalize_url(" HTTPS://GitHub.com/a/b.git/ "), chars_of("github.com/a/b"));
    assert_eq!(normalize_url("https://github.com/a/b.git"), chars_of("github.com/a/b"));
    let entry = RegistryEntry {
        title: s("B"),
        author: s("a"),
        reference: s("https://github.com/a/b"),
        description: s(""),
    };
    let installed = vec![ext("b", "https://github.com/A/b.git", false)];
    assert_eq!(status_for(&entry, &installed), InstallStatus::Installed);
    let disabled = vec![ext("b", "https://github.com/a/b", true)];
    assert_eq!(status_for(&entry, &disabled), InstallStatus::Disabled);
    assert_eq!(status_for(&entry, &Vec::new()), InstallStatus::NotInstalled);
}

#[test]
fn catalog_sorted_by_title() {
    let raw = vec![
        (s("zeta"), s("x"), s("https://z"), s("")),
        (s("Alpha"), s("y"), s("https://a"), s("")),
    ];
    let c = build_catalog(&raw);
    assert_eq!(c.len(), 2);
    assert_eq!(c[0].title, "Alpha");
    assert_eq!(cache_path("/c"), "/c/extensions_cache.json");
}

#[test]
fn paths_join_and_dirs() {
    assert_eq!(join("/a", "b"), "/a/b");
    assert_eq!(join("/a/", "b"), "/a/b");
    assert_eq!(join("", "b"), "b");
    assert_eq!(file_name("/a/b/"), Some(s("b")));
    assert_eq!(file_name("/"), None);
    let d = ComfyDirs::new("/opt/ComfyUI");
    assert_eq!(d.custom_nodes(), "/opt/ComfyUI/custom_nodes");
    assert_eq!(d.main_py(), "/opt/ComfyUI/main.py");
}

#[test]
fn extension_directory_names() {
    assert_eq!(extension_dir_name("foo.disabled"), Some((s("foo"), true)));
    assert_eq!(extension_dir_name("foo"), Some((s("foo"), false)));
    assert_eq!(extension_dir_name(".git"), None);
    assert_eq!(extension_dir_name("__pycache__"), None);
    assert_eq!(extension_dir_name(".x.disabled"), None);
}

fn field(key: &str, ty: FieldType, cli: &str, default: ConfigValue) -> Field {
    Field { key: s(key), name: s(key), desc: s(""), ty, cli: s(cli), default }
}

#[test]
fn cli_args_skip_defaults() {
    let schema = Schema {
        tabs: vec![Tab {
            name: s("t"),
            fields: vec![
                field("lowvram", FieldType::Toggle, "--lowvram", ConfigValue::Bool(false)),
                field("port", FieldType::Custom, "--port {value}", ConfigValue::Str(s("8188"))),
                field(
                    "preview",
                    FieldType::Choice {
                        options: vec![Choice { value: s("auto"), label: s("Auto") }],
                    },
                    "--preview-method {value}",
                    ConfigValue::Str(s("none")),
                ),
            ],
        }],
    };
    assert_eq!(build_cli_args(&schema, &Vec::new()), Vec::<String>::new());
    let vals = vec![
        (s("lowvram"), ConfigValue::Bool(true)),
        (s("port"), ConfigValue::Str(s("9000"))),
        (s("preview"), ConfigValue::Str(s("auto"))),
    ];
    assert_eq!(
        build_cli_args(&schema, &vals),
        vec![s("--lowvram"), s("--port"), s("9000"), s("--preview-method"), s("auto")]
    );
}

#[test]
fn config_set_then_get() {
    let mut c = config();
    c.set_comfy(s("port"), ConfigValue::Str(s("9000")));
    c.set_comfy(s("lowvram"), ConfigValue::Bool(true));
    c.set_comfy(s("port"), ConfigValue::Str(s("9001")));
    assert_eq!(c.comfy_settings.len(), 2);
    assert!(matches!(c.get_comfy(&s("port")), Some(ConfigValue::Str(v)) if v == "9001"));
    assert!(matches!(c.get_comfy(&s("lowvram")), Some(ConfigValue::Bool(true))));
    assert!(c.get_comfy(&s("other")).is_none());
    c.reset_comfy_to_factory();
    assert!(c.get_comfy(&s("port")).is_none());
}

#[test]
fn log_bus_keeps_capacity() {
    let mut b = LogBus::new();
    for i in 0..(CAPACITY + 5) {
        b.push(LogLine { ts: s("00:00:00"), source: s("t"), text: format!("{i}") });
    }
    assert_eq!(b.len(), CAPACITY);
    assert_eq!(b.line(0).text, "5");
    assert_eq!(b.snapshot().len(), CAPACITY);
    let mut small = LogBus::new();
    small.push(LogLine { ts: s("12:00:00"), source: s("git"), text: s("hello") });
    assert_eq!(small.dump_text(), "12:00:00 [git] hello\n");
}

#[test]
fn comfyui_version_line() {
    assert_eq!(comfyui_version_from("# x\n__version__ = \"0.3.42\"\n"), Some(s("0.3.42")));
    assert_eq!(comfyui_version_from("__version__='1.0'"), Some(s("1.0")));
    assert_eq!(comfyui_version_from("__version__ = ''\n"), None);
    assert_eq!(comfyui_version_from("version = 1"), None);
}

#[test]
fn extra_model_paths_groups() {
    let text = "comfyui:\n  base_path: /data/comfy\n  is_default: true\n  checkpoints: models/ckpt\n  loras: |\n    models/loras\n    /abs/loras\n# comment\nother:\n  vae: vae # trailing comment\n";
    let r = extra_model_paths_from(text, "/root");
    assert_eq!(
        r,
        vec![
            (s("comfyui"), s("checkpoints"), s("/data/comfy/models/ckpt")),
            (s("comfyui"), s("loras"), s("/data/comfy/models/loras")),
            (s("comfyui"), s("loras"), s("/abs/loras")),
            (s("other"), s("vae"), s("/root/vae")),
        ]
    );
    let rel = extra_model_paths_from("g:\n  base_path: base\n  x: y\n", "/root");
    assert_eq!(rel, vec![(s("g"), s("x"), s("/root/base/y"))]);
    assert_eq!(extra_model_paths_from("", "/root"), Vec::new());
}

#[test]
fn python_candidates() {
    assert_eq!(candidate_label("/usr/bin/python3", "PATH"), "/usr/bin/python3 (PATH)");
    let mut out: Vec<PythonCandidate> = Vec::new();
    add_candidate(&mut out, s("/a/python"), "PATH");
    add_candidate(&mut out, s("/a/python"), "pyenv");
    add_candidate(&mut out, s("/b/python"), "pyenv");
    assert_eq!(out.len(), 2);
    assert_eq!(out[1].label, "/b/python (pyenv)");
    let v = venv_candidates("/env");
    assert_eq!(v[0], "/env/bin/python");
    assert_eq!(v[3], "/env/Scripts/python3.exe");
    assert_eq!(version_text("Python 3.11.4\n", ""), "Python 3.11.4");
    assert_eq!(version_text("  ", "Python 2.7\n"), "Python 2.7");
}

#[test]
fn pip_install_command() {
    let c = install_requirements_cmd("/py", "/repo", vec![(s("A"), s("1"))]);
    assert_eq!(c.program, "/py");
    assert_eq!(c.args, vec![s("-m"), s("pip"), s("install"), s("-r"), s("/repo/requirements.txt")]);
    assert_eq!(c.env, vec![(s("A"), s("1"))]);
}
