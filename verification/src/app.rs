//! Application-level state: navigation between the screens, the banners,
//! and where each input goes.
//!
//! The shell owns the terminal, the clock and the outside checks; it asks
//! `App` where a key or a click goes (`on_key`, `on_mouse`) and hands the
//! event to that screen with the texts the screen needs.

use crate::config::Config;
use crate::geom::{Key, Mouse, MouseKind, Rect};
use crate::registry::RegistryEntry;
use crate::schema::Schema;
use crate::screens::comfy_settings::ComfySettings;
use crate::screens::launcher_logs::LauncherLogs;
use crate::screens::launcher_settings::LauncherSettings;
use crate::screens::main_launcher::{MainAction, MainFocus, MainLauncher};
use crate::screens::settings_view::esc_key;
use crate::screens::tutorial::Tutorial;
use crate::screens::version_mgmt::{progress_text, vm_esc, VersionMgmt};
use crate::widgets::menu::{wrap_down, wrap_up, Menu, MenuEntry};
use vstd::prelude::*;

verus! {

/// Which screen is currently displayed in the body pane.
#[derive(Clone, Copy, Debug, PartialEq, Eq, Structural)]
pub enum Screen {
    /// Main launcher screen.
    Main,
    /// ComfyUI settings editor.
    ComfySettings,
    /// Version management.
    VersionMgmt,
    /// Launcher general preferences.
    LauncherSettings,
    /// Launcher log viewer.
    LauncherLogs,
    /// About screen.
    About,
}

/// Visual style for a flash banner.
#[derive(Clone, Copy, Debug, PartialEq, Eq, Structural)]
pub enum FlashKind {
    /// Informational banner styled with the accent colour.
    Info,
    /// Error banner styled with the danger colour.
    Error,
}

/// Width of the left menu pane in cells.
pub const MENU_W: u16 = 28;

/// How long a transient banner stays up, in milliseconds.
pub const FLASH_MS: u64 = 3000;

/// Wheel events closer together than this (milliseconds) count as one
/// notch.
pub const SCROLL_GAP_MS: u64 = 50;

/// Top-level application state.
pub struct App {
    /// Active configuration.
    pub cfg: Config,
    /// Parsed ComfyUI settings schema.
    pub schema: Schema,
    /// Left-side navigation menu.
    pub menu: Menu,
    /// Active screen displayed in the body pane.
    pub screen: Screen,
    /// State for the main launcher screen.
    pub main: MainLauncher,
    /// State for the ComfyUI settings screen.
    pub comfy: ComfySettings,
    /// State for the version management screen.
    pub version: VersionMgmt,
    /// State for the launcher settings screen.
    pub launcher: LauncherSettings,
    /// State for the launcher logs screen.
    pub logs: LauncherLogs,
    /// First-run tutorial, when active.
    pub tutorial: Option<Tutorial>,
    /// Set when the application should exit cleanly.
    pub should_quit: bool,
    /// Set when the application should launch ComfyUI after exit.
    pub should_launch: bool,
    /// Virtualenv root to activate after the run loop exits.
    pub should_activate: Option<String>,
    /// Whether keyboard navigation operates on the menu (`true`) or on the
    /// body (`false`).
    pub focus_menu: bool,
    /// Body inner rectangle of the last frame, for mouse hit-tests.
    pub body_inner: Rect,
    /// Menu rectangle of the last frame.
    pub menu_rect: Rect,
    /// Time (milliseconds) of the last wheel event acted on.
    pub last_scroll: u64,
    /// Transient banner with its expiry time (milliseconds); shown over
    /// the sticky one while alive.
    pub flash_temp: Option<(String, FlashKind, u64)>,
    /// Sticky banner shown until cleared.
    pub flash_permanent: Option<(String, FlashKind)>,
}

/// Where a key goes.
pub enum KeyRoute {
    /// Nowhere: it was handled here, or nothing takes it.
    Nothing,
    /// To the tutorial (see `Tutorial::on_key`); afterwards call
    /// `close_tutorial_if_done`.
    Tutorial,
    /// To this screen's key handler.
    Body(Screen),
}

/// Where a mouse event goes.
pub enum MouseRoute {
    /// Nowhere: it was handled here, or nothing takes it.
    Nothing,
    /// To the tutorial, drawn over this area.
    Tutorial(Rect),
    /// A wheel step (`delta` < 0 up) to this screen.
    Scroll(Screen, i32),
    /// A click to this screen, drawn over this area.
    Body(Screen, Rect),
}

/// The screen of menu entry `i`.
pub open spec fn screen_of(i: usize) -> Screen {
    if i == 0 {
        Screen::Main
    } else if i == 1 {
        Screen::ComfySettings
    } else if i == 2 {
        Screen::VersionMgmt
    } else if i == 3 {
        Screen::LauncherSettings
    } else if i == 4 {
        Screen::LauncherLogs
    } else {
        Screen::About
    }
}

/// The banner shown: the transient one while it exists, else the sticky
/// one.
pub open spec fn banner_of(a: App) -> Option<(String, FlashKind)> {
    match a.flash_temp {
        Some((m, k, _)) => Some((m, k)),
        None => a.flash_permanent,
    }
}

impl App {
    /// The application's invariant: every screen's own invariant holds and
    /// the menu holds its six entries with one selected.
    pub open spec fn wf(&self) -> bool {
        &&& self.main.wf()
        &&& self.comfy.view.wf()
        &&& self.launcher.view.wf()
        &&& self.version.wf()
        &&& self.menu.primary@.len() == 3
        &&& self.menu.secondary@.len() == 3
        &&& self.menu.selected < 6
    }

    /// Constructs the application on the main screen with the menu
    /// focused. The tutorial runs when the ComfyUI directory is unset or
    /// does not hold ComfyUI (`comfy_ok`), or no interpreter is set; it
    /// starts at the step `dir_exists` and `python_runs` call for.
    pub fn new(
        cfg: Config,
        schema: Schema,
        launcher_schema: Schema,
        cached_catalog: Option<Vec<RegistryEntry>>,
        comfy_ok: bool,
        dir_exists: bool,
        python_runs: bool,
    ) -> (a: Self)
        ensures
            a.wf(),
            a.screen == Screen::Main,
            a.menu.selected == 0,
            a.focus_menu,
            !a.should_quit && !a.should_launch && a.should_activate is None,
            a.flash_temp is None && a.flash_permanent is None,
            a.tutorial is Some == (cfg.general.comfyui_dir@.len() == 0 || !comfy_ok
                || cfg.general.python@.len() == 0),
            a.cfg == cfg,
            a.schema == schema,
            a.launcher.schema == launcher_schema,
    {
        let need = cfg.general.comfyui_dir.as_str().is_empty() || !comfy_ok
            || cfg.general.python.as_str().is_empty();
        let tutorial = if need {
            Some(Tutorial::new(&cfg, dir_exists, python_runs))
        } else {
            None
        };
        let mut primary: Vec<MenuEntry> = Vec::new();
        primary.push(MenuEntry { label_key: "menu_main" });
        primary.push(MenuEntry { label_key: "menu_settings" });
        primary.push(MenuEntry { label_key: "menu_version" });
        let mut secondary: Vec<MenuEntry> = Vec::new();
        secondary.push(MenuEntry { label_key: "menu_general" });
        secondary.push(MenuEntry { label_key: "menu_logs" });
        secondary.push(MenuEntry { label_key: "menu_about" });
        App {
            cfg,
            schema,
            menu: Menu { primary, secondary, selected: 0 },
            screen: Screen::Main,
            main: MainLauncher::new(),
            comfy: ComfySettings::new(),
            version: VersionMgmt::new(cached_catalog),
            launcher: LauncherSettings::new(launcher_schema),
            logs: LauncherLogs::new(),
            tutorial,
            should_quit: false,
            should_launch: false,
            should_activate: None,
            focus_menu: true,
            body_inner: Rect { x: 0, y: 0, width: 0, height: 0 },
            menu_rect: Rect { x: 0, y: 0, width: 0, height: 0 },
            last_scroll: 0,
            flash_temp: None,
            flash_permanent: None,
        }
    }

    /// Sets the transient informational banner at time `now`; it expires
    /// three seconds later.
    pub fn set_flash(&mut self, msg: String, now: u64)
        ensures
            *final(self) == (App {
                flash_temp: Some((msg, FlashKind::Info, now.saturating_add(FLASH_MS))),
                ..*old(self)
            }),
    {
        self.set_flash_temp(msg, FlashKind::Info, now);
    }

    /// Sets the transient error banner at time `now`.
    pub fn set_flash_error(&mut self, msg: String, now: u64)
        ensures
            *final(self) == (App {
                flash_temp: Some((msg, FlashKind::Error, now.saturating_add(FLASH_MS))),
                ..*old(self)
            }),
    {
        self.set_flash_temp(msg, FlashKind::Error, now);
    }

    fn set_flash_temp(&mut self, msg: String, kind: FlashKind, now: u64)
        ensures
            *final(self) == (App {
                flash_temp: Some((msg, kind, now.saturating_add(FLASH_MS))),
                ..*old(self)
            }),
    {
        self.flash_temp = Some((msg, kind, now.saturating_add(FLASH_MS)));
    }

    /// Sets the sticky banner.
    pub fn set_flash_permanent(&mut self, msg: String, kind: FlashKind)
        ensures
            *final(self) == (App { flash_permanent: Some((msg, kind)), ..*old(self) }),
    {
        self.flash_permanent = Some((msg, kind));
    }

    /// Clears the sticky banner.
    pub fn clear_flash_permanent(&mut self)
        ensures
            *final(self) == (App { flash_permanent: None, ..*old(self) }),
    {
        self.flash_permanent = None;
    }

    /// Drops the transient banner once its time has passed (`now` after
    /// its expiry).
    pub fn expire_flash(&mut self, now: u64)
        ensures
            *final(self) == (match old(self).flash_temp {
                Some((_, _, exp)) => if exp < now {
                    App { flash_temp: None, ..*old(self) }
                } else {
                    *old(self)
                },
                None => *old(self),
            }),
    {
        let expired = match &self.flash_temp {
            Some((_, _, exp)) => *exp < now,
            None => false,
        };
        if expired {
            self.flash_temp = None;
        }
    }

    /// The banner bookkeeping of a frame at time `now`: a flash message
    /// from the Version Management screen becomes the transient banner, the
    /// sticky banner mirrors the running refresh (its title and progress),
    /// and a transient banner whose time has passed is dropped.
    pub fn tick(&mut self, now: u64)
        requires
            old(self).wf(),
        ensures
            final(self).wf(),
            ({
                let a = *old(self);
                let b = *final(self);
                let f = if a.version.ext.pending_flash is Some {
                    a.version.ext.pending_flash
                } else {
                    a.version.install.pending_flash
                };
                let temp = match f {
                    Some((k, m)) => Some((m, k, now.saturating_add(FLASH_MS))),
                    None => a.flash_temp,
                };
                &&& b == (App {
                    version: b.version,
                    flash_temp: b.flash_temp,
                    flash_permanent: b.flash_permanent,
                    ..a
                })
                &&& b.version == (VersionMgmt { ext: b.version.ext, install: b.version.install, ..a.version })
                &&& b.version.ext == (crate::screens::version_mgmt::extensions_tab::ExtensionsTab {
                    pending_flash: None,
                    ..a.version.ext
                })
                &&& b.version.install == (crate::screens::version_mgmt::install_tab::InstallTab {
                    pending_flash: if a.version.ext.pending_flash is Some {
                        a.version.install.pending_flash
                    } else {
                        None
                    },
                    ..a.version.install
                })
                &&& b.flash_temp == match temp {
                    Some((m, k, exp)) => if exp < now {
                        None
                    } else {
                        temp
                    },
                    None => None,
                }
                &&& match a.version.refresh {
                    Some(t) => b.flash_permanent matches Some((m, k)) && m@ == progress_text(t) && k
                        == FlashKind::Info,
                    None => b.flash_permanent is None,
                }
            }),
    {
        match self.version.take_flash() {
            Some((k, m)) => {
                self.set_flash_temp(m, k, now);
            },
            None => {},
        }
        match self.version.permanent_flash() {
            Some((k, m)) => {
                self.set_flash_permanent(m, k);
            },
            None => {
                self.clear_flash_permanent();
            },
        }
        self.expire_flash(now);
    }

    /// The banner to show (see [`banner_of`]).
    pub fn banner(&self) -> (r: Option<(&String, FlashKind)>)
        ensures
            match r {
                Some((m, k)) => banner_of(*self) == Some((*m, k)),
                None => banner_of(*self) is None,
            },
    {
        match &self.flash_temp {
            Some((m, k, _)) => Some((m, *k)),
            None => match &self.flash_permanent {
                Some((m, k)) => Some((m, *k)),
                None => None,
            },
        }
    }

    /// Shows the screen of the selected menu entry.
    pub fn sync_screen(&mut self)
        ensures
            *final(self) == (App { screen: screen_of(old(self).menu.selected), ..*old(self) }),
    {
        let i = self.menu.selected;
        self.screen = if i == 0 {
            Screen::Main
        } else if i == 1 {
            Screen::ComfySettings
        } else if i == 2 {
            Screen::VersionMgmt
        } else if i == 3 {
            Screen::LauncherSettings
        } else if i == 4 {
            Screen::LauncherLogs
        } else {
            Screen::About
        };
    }

    /// Whether a text input has keyboard focus (printable keys then go to
    /// it, not to shortcuts).
    pub fn text_input_focused(&self) -> (b: bool)
        ensures
            b == (!self.focus_menu && match self.screen {
                Screen::ComfySettings => self.comfy.view.grid@.row == 0,
                Screen::LauncherSettings => self.launcher.view.grid@.row == 0,
                Screen::VersionMgmt => (if self.version.tab == 0 || self.version.tab == 1 {
                    self.version.core.grid@.row == 0
                } else if self.version.tab == 2 {
                    self.version.ext.focus
                        == crate::screens::version_mgmt::extensions_tab::ExtFocus::Search
                } else if self.version.tab == 3 {
                    self.version.install.focus
                        == crate::screens::version_mgmt::install_tab::InstallFocus::Url
                        || self.version.install.focus
                        == crate::screens::version_mgmt::install_tab::InstallFocus::Search
                } else {
                    false
                }),
                _ => false,
            }),
    {
        if self.focus_menu {
            return false;
        }
        match self.screen {
            Screen::ComfySettings => self.comfy.view.filter_focused(),
            Screen::LauncherSettings => self.launcher.view.filter_focused(),
            Screen::VersionMgmt => self.version.text_input_focused(),
            _ => false,
        }
    }

    /// Carries out what the main screen asked for at time `now`: launch,
    /// activate an environment (and quit), quit, or show a banner.
    pub fn apply_main_action(&mut self, act: MainAction, now: u64)
        ensures
            *final(self) == (match act {
                MainAction::Nothing => *old(self),
                MainAction::Launch => App { should_launch: true, ..*old(self) },
                MainAction::ActivateVenv(p) => App {
                    should_activate: Some(p),
                    should_quit: true,
                    ..*old(self)
                },
                MainAction::QuitAlreadyActivated => App { should_quit: true, ..*old(self) },
                MainAction::Flash(k, m) => App {
                    flash_temp: Some((m, k, now.saturating_add(FLASH_MS))),
                    ..*old(self)
                },
            }),
    {
        match act {
            MainAction::Nothing => {},
            MainAction::Launch => {
                self.should_launch = true;
            },
            MainAction::ActivateVenv(p) => {
                self.should_activate = Some(p);
                self.should_quit = true;
            },
            MainAction::QuitAlreadyActivated => {
                self.should_quit = true;
            },
            MainAction::Flash(k, m) => {
                self.set_flash_temp(m, k, now);
            },
        }
    }

    /// Ends the tutorial once it is done.
    pub fn close_tutorial_if_done(&mut self)
        ensures
            *final(self) == (match old(self).tutorial {
                Some(t) => if t.step == crate::screens::tutorial::DONE {
                    App { tutorial: None, ..*old(self) }
                } else {
                    *old(self)
                },
                None => *old(self),
            }),
    {
        let done = match &self.tutorial {
            Some(t) => t.is_done(),
            None => false,
        };
        if done {
            self.tutorial = None;
        }
    }

    fn eat_esc(&mut self) -> (used: bool)
        requires
            old(self).wf(),
        ensures
            final(self).wf(),
            final(self).screen == old(self).screen && final(self).focus_menu == old(self).focus_menu
                && final(self).menu == old(self).menu && final(self).tutorial == old(self).tutorial,
            match old(self).screen {
                Screen::Main | Screen::About => !used && *final(self) == *old(self),
                Screen::ComfySettings => esc_key(old(self).comfy.view, final(self).comfy.view, used)
                    && *final(self) == (App {
                    comfy: ComfySettings { view: final(self).comfy.view },
                    ..*old(self)
                }),
                Screen::LauncherSettings => esc_key(
                    old(self).launcher.view,
                    final(self).launcher.view,
                    used,
                ) && *final(self) == (App {
                    launcher: LauncherSettings { view: final(self).launcher.view, ..old(self).launcher },
                    ..*old(self)
                }),
                Screen::LauncherLogs => used == old(self).logs.message is Some && *final(self) == (App {
                    logs: LauncherLogs { message: None, ..old(self).logs },
                    ..*old(self)
                }),
                Screen::VersionMgmt => vm_esc(old(self).version, final(self).version, used)
                    && *final(self) == (App { version: final(self).version, ..*old(self) }),
            },
    {
        match self.screen {
            Screen::Main => self.main.eat_esc(),
            Screen::ComfySettings => self.comfy.eat_esc(),
            Screen::VersionMgmt => self.version.eat_esc(),
            Screen::LauncherSettings => self.launcher.eat_esc(),
            Screen::LauncherLogs => self.logs.eat_esc(),
            Screen::About => false,
        }
    }

    /// Decides where a key goes. Ctrl+C quits from anywhere. While the
    /// tutorial runs it takes every other key. F5 asks for a launch. With
    /// the menu focused, Up and Down move through the menu (showing the
    /// selected screen) and Enter and Right focus the body. In the body,
    /// Esc goes to the screen first (closing its popup or leaving its
    /// search); when the screen has no use for it, focus returns to the
    /// menu. Other keys go to the screen.
    pub fn on_key(&mut self, k: Key, ctrl: bool) -> (r: KeyRoute)
        requires
            old(self).wf(),
        ensures
            final(self).wf(),
            ctrl && (k == Key::Char('c') || k == Key::Char('C')) ==> r is Nothing && *final(self)
                == (App { should_quit: true, ..*old(self) }),
            !(ctrl && (k == Key::Char('c') || k == Key::Char('C'))) ==> if old(self).tutorial is Some {
                r is Tutorial && *final(self) == *old(self)
            } else if k == Key::F(5) {
                r is Nothing && *final(self) == (App { should_launch: true, ..*old(self) })
            } else if old(self).focus_menu {
                r is Nothing && match k {
                    Key::Up => *final(self) == (App {
                        menu: Menu {
                            selected: wrap_up(old(self).menu.selected, 6),
                            ..old(self).menu
                        },
                        screen: screen_of(wrap_up(old(self).menu.selected, 6)),
                        ..*old(self)
                    }),
                    Key::Down => *final(self) == (App {
                        menu: Menu {
                            selected: wrap_down(old(self).menu.selected, 6),
                            ..old(self).menu
                        },
                        screen: screen_of(wrap_down(old(self).menu.selected, 6)),
                        ..*old(self)
                    }),
                    Key::Enter | Key::Right => *final(self) == (App { focus_menu: false, ..*old(self) }),
                    _ => *final(self) == *old(self),
                }
            } else if k == Key::Esc {
                r is Nothing && final(self).screen == old(self).screen && final(self).menu == old(
                    self,
                ).menu && final(self).tutorial is None && (
                (old(self).screen == Screen::Main || old(self).screen == Screen::About) ==> *final(self)
                    == (App { focus_menu: true, ..*old(self) }))
            } else {
                r == KeyRoute::Body(old(self).screen) && *final(self) == *old(self)
            },
    {
        if ctrl && (k == Key::Char('c') || k == Key::Char('C')) {
            self.should_quit = true;
            return KeyRoute::Nothing;
        }
        if self.tutorial.is_some() {
            return KeyRoute::Tutorial;
        }
        if k == Key::F(5) {
            self.should_launch = true;
            return KeyRoute::Nothing;
        }
        if self.focus_menu {
            match k {
                Key::Up => {
                    self.menu.up();
                    self.sync_screen();
                },
                Key::Down => {
                    self.menu.down();
                    self.sync_screen();
                },
                Key::Enter | Key::Right => {
                    self.focus_menu = false;
                },
                _ => {},
            }
            return KeyRoute::Nothing;
        }
        if k == Key::Esc {
            if !self.eat_esc() {
                self.focus_menu = true;
            }
            return KeyRoute::Nothing;
        }
        KeyRoute::Body(self.screen)
    }

    /// Decides where a mouse event at time `now` goes. The tutorial takes
    /// every event while it runs. A wheel step is dropped when it follows
    /// the last one acted on by less than `SCROLL_GAP_MS`; over the menu it
    /// moves the menu (showing the selected screen), elsewhere it goes to
    /// the screen. A left click on a menu entry selects it and focuses the
    /// body; elsewhere on the menu it focuses the menu; inside the body it
    /// focuses the body and goes to the screen.
    pub fn on_mouse(&mut self, m: Mouse, now: u64) -> (r: MouseRoute)
        requires
            old(self).wf(),
            old(self).menu_rect.y < u16::MAX,
        ensures
            final(self).wf(),
            mouse_routed(*old(self), *final(self), m, now, r),
    {
        if self.tutorial.is_some() {
            return MouseRoute::Tutorial(self.body_inner);
        }
        if m.kind == MouseKind::ScrollUp || m.kind == MouseKind::ScrollDown {
            if now.saturating_sub(self.last_scroll) < SCROLL_GAP_MS {
                return MouseRoute::Nothing;
            }
            self.last_scroll = now;
            let delta: i32 = if m.kind == MouseKind::ScrollUp {
                -1
            } else {
                1
            };
            let menu = self.menu_rect;
            if m.column >= menu.x && m.column - menu.x < menu.width {
                if delta < 0 {
                    self.menu.up();
                } else {
                    self.menu.down();
                }
                self.sync_screen();
                return MouseRoute::Nothing;
            }
            return MouseRoute::Scroll(self.screen, delta);
        }
        if m.kind != MouseKind::LeftDown {
            return MouseRoute::Nothing;
        }
        let menu = self.menu_rect;
        if menu.contains(m.column, m.row) {
            match self.menu.hit(menu, m.row) {
                Some(idx) => {
                    self.menu.selected = idx;
                    self.sync_screen();
                    self.focus_menu = false;
                },
                None => {
                    self.focus_menu = true;
                },
            }
            return MouseRoute::Nothing;
        }
        let inner = self.body_inner;
        if inner.width == 0 || inner.height == 0 || !inner.contains(m.column, m.row) {
            return MouseRoute::Nothing;
        }
        self.focus_menu = false;
        MouseRoute::Body(self.screen, inner)
    }
}

/// The effect of a mouse event at time `now` (see `App::on_mouse`).
pub open spec fn mouse_routed(a: App, b: App, m: Mouse, now: u64, r: MouseRoute) -> bool {
    let menu = a.menu_rect;
    let wheel = m.kind == MouseKind::ScrollUp || m.kind == MouseKind::ScrollDown;
    if a.tutorial is Some {
        r == MouseRoute::Tutorial(a.body_inner) && b == a
    } else if wheel {
        if (if now >= a.last_scroll {
            now - a.last_scroll
        } else {
            0
        }) < SCROLL_GAP_MS {
            r is Nothing && b == a
        } else {
            let up = m.kind == MouseKind::ScrollUp;
            let a1 = App { last_scroll: now, ..a };
            if menu.x <= m.column < menu.x + menu.width {
                let sel = if up {
                    wrap_up(a.menu.selected, 6)
                } else {
                    wrap_down(a.menu.selected, 6)
                };
                r is Nothing && b == (App {
                    menu: Menu { selected: sel, ..a.menu },
                    screen: screen_of(sel),
                    ..a1
                })
            } else {
                r == MouseRoute::Scroll(a.screen, if up {
                    -1i32
                } else {
                    1i32
                }) && b == a1
            }
        }
    } else if m.kind != MouseKind::LeftDown {
        r is Nothing && b == a
    } else if menu.holds(m.column as int, m.row as int) {
        let visible: int = if menu.height >= 2 {
            menu.height - 2
        } else {
            0
        };
        let hit = if m.row < menu.y + 1 || m.row - (menu.y + 1) >= visible {
            None
        } else {
            a.menu.entry_at_row(((m.row - (menu.y + 1)) + a.menu.scroll_for(visible as nat)) as nat)
        };
        r is Nothing && match hit {
            Some(idx) => b == (App {
                menu: Menu { selected: idx, ..a.menu },
                screen: screen_of(idx),
                focus_menu: false,
                ..a
            }),
            None => b == (App { focus_menu: true, ..a }),
        }
    } else if a.body_inner.width == 0 || a.body_inner.height == 0 || !a.body_inner.holds(
        m.column as int,
        m.row as int,
    ) {
        r is Nothing && b == a
    } else {
        r == MouseRoute::Body(a.screen, a.body_inner) && b == (App { focus_menu: false, ..a })
    }
}

/// The key hints for the state `a`, as `(key, message key)` pairs: the
/// tutorial's own; the menu's; or the screen's navigation and actions (the
/// letter shortcuts only while no text input has focus), followed by Esc,
/// F5 and Ctrl+C.
pub open spec fn hints_of(a: App, text_focused: bool) -> Seq<(&'static str, &'static str)> {
    if a.tutorial is Some {
        seq![
            ("↑↓", "hint_pick"),
            ("Enter", "hint_next"),
            ("Esc", "hint_back"),
            ("F5", "hint_launch"),
            ("Ctrl+C", "hint_quit"),
        ]
    } else if a.focus_menu {
        seq![
            ("↑↓", "hint_menu"),
            ("Enter", "hint_open"),
            ("F5", "hint_launch"),
            ("Ctrl+C", "hint_quit"),
        ]
    } else {
        let nav = seq![("↑↓←→", "hint_move"), ("PgUp/PgDn", "hint_top_bottom")];
        let body: Seq<(&'static str, &'static str)> = match a.screen {
            Screen::Main => nav.push(
                ("Enter", if a.main.focus_of() == MainFocus::List {
                    "hint_copy_info"
                } else {
                    "hint_apply"
                }),
            ),
            Screen::ComfySettings => {
                let h = nav.push(("Enter", "hint_edit"));
                if text_focused {
                    h
                } else {
                    h.push(("R", "hint_reset"))
                }
            },
            Screen::VersionMgmt => {
                let t = a.version.tab;
                if t == 0 || t == 1 {
                    let h = nav.push(("Enter", "hint_pick_version"));
                    if text_focused {
                        h
                    } else {
                        h.push(("R", "hint_refresh"))
                    }
                } else if t == 2 {
                    let h = nav.push(("Enter", "hint_pick_version"));
                    if text_focused {
                        h
                    } else {
                        h + seq![("R", "hint_refresh"), ("U", "hint_update"), ("D", "hint_delete")]
                    }
                } else if t == 3 {
                    let h = nav.push(("Enter", "hint_apply"));
                    if text_focused {
                        h
                    } else {
                        h.push(("R", "hint_refresh"))
                    }
                } else {
                    nav
                }
            },
            Screen::LauncherSettings => nav.push(("Enter", "hint_edit")),
            Screen::LauncherLogs => seq![
                ("↑↓", "hint_scroll_logs"),
                ("PgUp/PgDn", "hint_page"),
                ("Enter", "hint_apply"),
            ],
            Screen::About => Seq::empty(),
        };
        body + seq![("Esc", "hint_back"), ("F5", "hint_launch"), ("Ctrl+C", "hint_quit")]
    }
}

/// After the hints of widths `ws` (key chip, description), the number of
/// lines closed, the width of the open line, and whether it holds a hint.
/// A hint takes its chip, a space and its description, plus a separating
/// space after another hint; it starts a new line when it would make a
/// non-empty line wider than `max_w`.
pub open spec fn hint_fill(ws: Seq<(usize, usize)>, max_w: int) -> (nat, int, bool)
    decreases ws.len(),
{
    if ws.len() == 0 {
        (0, 0, false)
    } else {
        let (l, w, open) = hint_fill(ws.drop_last(), max_w);
        let it = ws.last();
        let own = it.0 + 1 + it.1;
        let need = (if open {
            1int
        } else {
            0
        }) + own;
        if open && w + need > max_w {
            (l + 1, own, true)
        } else {
            (l, w + need, true)
        }
    }
}

/// The line each hint of widths `ws` lands on, in a strip `max_w` cells
/// wide (at least one).
pub open spec fn hint_lines_of(ws: Seq<(usize, usize)>, max_w: u16) -> Seq<usize> {
    let m: int = if max_w >= 1 {
        max_w as int
    } else {
        1
    };
    Seq::new(ws.len(), |i: int| hint_fill(ws.take(i + 1), m).0 as usize)
}

impl App {
    /// The key hints for the current state (see [`hints_of`]).
    pub fn key_hints(&self) -> (r: Vec<(&'static str, &'static str)>)
        ensures
            r@ == hints_of(*self, self.text_input_focused_of()),
    {
        let mut h: Vec<(&'static str, &'static str)> = Vec::new();
        if self.tutorial.is_some() {
            h.push(("↑↓", "hint_pick"));
            h.push(("Enter", "hint_next"));
            h.push(("Esc", "hint_back"));
            h.push(("F5", "hint_launch"));
            h.push(("Ctrl+C", "hint_quit"));
            assert(h@ =~= hints_of(*self, self.text_input_focused_of()));
            return h;
        }
        if self.focus_menu {
            h.push(("↑↓", "hint_menu"));
            h.push(("Enter", "hint_open"));
            h.push(("F5", "hint_launch"));
            h.push(("Ctrl+C", "hint_quit"));
            assert(h@ =~= hints_of(*self, self.text_input_focused_of()));
            return h;
        }
        let tf = self.text_input_focused();
        match self.screen {
            Screen::Main => {
                h.push(("↑↓←→", "hint_move"));
                h.push(("PgUp/PgDn", "hint_top_bottom"));
                let label = if self.main.focus() == MainFocus::List {
                    "hint_copy_info"
                } else {
                    "hint_apply"
                };
                h.push(("Enter", label));
            },
            Screen::ComfySettings => {
                h.push(("↑↓←→", "hint_move"));
                h.push(("PgUp/PgDn", "hint_top_bottom"));
                h.push(("Enter", "hint_edit"));
                if !tf {
                    h.push(("R", "hint_reset"));
                }
            },
            Screen::VersionMgmt => {
                h.push(("↑↓←→", "hint_move"));
                h.push(("PgUp/PgDn", "hint_top_bottom"));
                let t = self.version.tab;
                if t == 0 || t == 1 {
                    h.push(("Enter", "hint_pick_version"));
                    if !tf {
                        h.push(("R", "hint_refresh"));
                    }
                } else if t == 2 {
                    h.push(("Enter", "hint_pick_version"));
                    if !tf {
                        h.push(("R", "hint_refresh"));
                        h.push(("U", "hint_update"));
                        h.push(("D", "hint_delete"));
                    }
                } else if t == 3 {
                    h.push(("Enter", "hint_apply"));
                    if !tf {
                        h.push(("R", "hint_refresh"));
                    }
                }
            },
            Screen::LauncherSettings => {
                h.push(("↑↓←→", "hint_move"));
                h.push(("PgUp/PgDn", "hint_top_bottom"));
                h.push(("Enter", "hint_edit"));
            },
            Screen::LauncherLogs => {
                h.push(("↑↓", "hint_scroll_logs"));
                h.push(("PgUp/PgDn", "hint_page"));
                h.push(("Enter", "hint_apply"));
            },
            Screen::About => {},
        }
        h.push(("Esc", "hint_back"));
        h.push(("F5", "hint_launch"));
        h.push(("Ctrl+C", "hint_quit"));
        assert(h@ =~= hints_of(*self, self.text_input_focused_of()));
        h
    }

    /// Whether a text input has keyboard focus (see
    /// [`App::text_input_focused`]).
    pub open spec fn text_input_focused_of(&self) -> bool {
        !self.focus_menu && match self.screen {
            Screen::ComfySettings => self.comfy.view.grid@.row == 0,
            Screen::LauncherSettings => self.launcher.view.grid@.row == 0,
            Screen::VersionMgmt => (if self.version.tab == 0 || self.version.tab == 1 {
                self.version.core.grid@.row == 0
            } else if self.version.tab == 2 {
                self.version.ext.focus
                    == crate::screens::version_mgmt::extensions_tab::ExtFocus::Search
            } else if self.version.tab == 3 {
                self.version.install.focus
                    == crate::screens::version_mgmt::install_tab::InstallFocus::Url
                    || self.version.install.focus
                    == crate::screens::version_mgmt::install_tab::InstallFocus::Search
            } else {
                false
            }),
            _ => false,
        }
    }
}

/// The line each key hint lands on in a strip `max_w` cells wide, for
/// hints whose key chips and descriptions are `ws` cells wide (see
/// [`hint_fill`]); the strip has `1 + ` the last line index rows (one when
/// there are no hints).
pub fn hint_rows(ws: &Vec<(usize, usize)>, max_w: u16) -> (r: Vec<usize>)
    ensures
        r@ == hint_lines_of(ws@, max_w),
{
    let m: u128 = if max_w >= 1 {
        max_w as u128
    } else {
        1
    };
    let ghost mi = m as int;
    let mut out: Vec<usize> = Vec::new();
    let mut line: usize = 0;
    let mut w: u128 = 0;
    let mut open = false;
    let mut i: usize = 0;
    assert(ws@.take(0) =~= Seq::<(usize, usize)>::empty());
    while i < ws.len()
        invariant
            i <= ws@.len(),
            mi == m as int,
            mi == (if max_w >= 1 {
                max_w as int
            } else {
                1
            }),
            1 <= m <= 65535,
            (line as nat, w as int, open) == hint_fill(ws@.take(i as int), mi),
            line <= i,
            w <= m + 3 * (usize::MAX as int),
            out@ == hint_lines_of(ws@, max_w).take(i as int),
        decreases ws@.len() - i,
    {
        assert(ws@.take(i + 1).drop_last() =~= ws@.take(i as int));
        let (cw, dw) = ws[i];
        let own: u128 = (cw as u128) + 1 + (dw as u128);
        let need: u128 = (if open {
            1u128
        } else {
            0
        }) + own;
        if open && w + need > m {
            line = line + 1;
            w = own;
        } else {
            w = w + need;
        }
        open = true;
        assert((line as nat, w as int, open) == hint_fill(ws@.take(i + 1), mi));
        let ghost before = out@;
        out.push(line);
        assert(mi == (if max_w >= 1 {
            max_w as int
        } else {
            1
        }));
        assert(hint_lines_of(ws@, max_w)[i as int] == hint_fill(ws@.take(i + 1), mi).0 as usize);
        assert(hint_lines_of(ws@, max_w)[i as int] == line);
        assert(hint_lines_of(ws@, max_w).take(i + 1) =~= hint_lines_of(ws@, max_w).take(
            i as int,
        ).push(line));
        i = i + 1;
    }
    out
}

/// The key hints fill the strip line by line: the first hint is on the
/// first line, and each next hint stays on the line of the one before it
/// or starts the next line.
pub proof fn law_hint_lines_consecutive(ws: Seq<(usize, usize)>, max_w: u16)
    requires
        ws.len() <= usize::MAX,
    ensures
        ws.len() > 0 ==> hint_lines_of(ws, max_w)[0] == 0,
        forall|i: int|
            0 <= i < ws.len() - 1 ==> hint_lines_of(ws, max_w)[i] <= #[trigger] hint_lines_of(
                ws,
                max_w,
            )[i + 1] <= hint_lines_of(ws, max_w)[i] + 1,
{
    let m: int = if max_w >= 1 {
        max_w as int
    } else {
        1
    };
    if ws.len() > 0 {
        assert(ws.take(1).drop_last() =~= Seq::<(usize, usize)>::empty());
        assert(hint_fill(ws.take(1).drop_last(), m) == (0nat, 0int, false));
        assert(hint_fill(ws.take(1), m).0 == 0);
        assert(hint_lines_of(ws, max_w)[0] == hint_fill(ws.take(1), m).0 as usize);
    }
    assert forall|i: int| 0 <= i < ws.len() - 1 implies hint_lines_of(ws, max_w)[i]
        <= #[trigger] hint_lines_of(ws, max_w)[i + 1] <= hint_lines_of(ws, max_w)[i] + 1 by {
        assert(ws.take(i + 2).drop_last() =~= ws.take(i + 1));
        lemma_fill_lines_bound(ws.take(i + 1), m);
        lemma_fill_lines_bound(ws.take(i + 2), m);
        assert(hint_lines_of(ws, max_w)[i] == hint_fill(ws.take(i + 1), m).0 as usize);
        assert(hint_lines_of(ws, max_w)[i + 1] == hint_fill(ws.take(i + 2), m).0 as usize);
    }
}

proof fn lemma_fill_lines_bound(ws: Seq<(usize, usize)>, m: int)
    ensures
        hint_fill(ws, m).0 <= ws.len(),
    decreases ws.len(),
{
    if ws.len() > 0 {
        lemma_fill_lines_bound(ws.drop_last(), m);
    }
}

} // verus!
