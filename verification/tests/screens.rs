use bulletty::dirs::Directories;
use bulletty::helpdialog::{HelpDialog, HelpLine};
use bulletty::theme::Theme;
use bulletty::input::{DialogEvent, Event, KeyCode, KeyEvent, KeyEventKind, CONTROL};
use bulletty::instructions::{InstructionCategory, InstructionDetail, ScreenInstructions};
use bulletty::mouse::MouseEvent;
use bulletty::text::decimal_text;
use bulletty::welcomedialog::WelcomeDialog;
use std::path::PathBuf;

fn press(code: KeyCode) -> KeyEvent {
    KeyEvent { code, modifiers: 0, kind: KeyEventKind::Press }
}

fn instructions() -> ScreenInstructions {
    let detail = |k: &str, d: &str| InstructionDetail { keys: k.to_string(), description: d.to_string() };
    ScreenInstructions {
        categories: vec![
            InstructionCategory { name: "Navigation".to_string(), details: vec![detail("j/k", "move"), detail("g/G", "ends")] },
            InstructionCategory { name: "Entries".to_string(), details: vec![detail("o", "open")] },
        ],
    }
}

fn is_close(e: DialogEvent) -> bool {
    matches!(e, DialogEvent::CloseDialog)
}

#[test]
fn help_closes_on_esc_q_and_ctrl_c() {
    let mut d = HelpDialog::new(instructions());
    assert!(is_close(d.handle_keypress(press(KeyCode::Esc))));
    assert!(is_close(d.handle_keypress(press(KeyCode::Char('q')))));
    let ctrl = |c| KeyEvent { code: KeyCode::Char(c), modifiers: CONTROL, kind: KeyEventKind::Press };
    assert!(is_close(d.handle_keypress(ctrl('c'))));
    assert!(is_close(d.handle_keypress(ctrl('C'))));
    // with another modifier as well it is no Ctrl+C
    let shifted = KeyEvent { code: KeyCode::Char('c'), modifiers: CONTROL | 1, kind: KeyEventKind::Press };
    assert!(!is_close(d.handle_keypress(shifted)));
    assert!(!is_close(d.handle_keypress(press(KeyCode::Enter))));
}

#[test]
fn help_tabs_toggle_and_reset_scroll() {
    let mut d = HelpDialog::new(instructions());
    d.update_scroll_max(2);
    d.handle_keypress(press(KeyCode::Down));
    assert_eq!(d.scroll(), 1);
    d.handle_keypress(press(KeyCode::Tab));
    assert_eq!(d.active_tab(), 1);
    assert_eq!(d.scroll(), 0);
    d.handle_keypress(press(KeyCode::Down));
    assert_eq!(d.scroll(), 0);
    d.handle_keypress(press(KeyCode::BackTab));
    assert_eq!(d.active_tab(), 0);
    // Shift+Tab on the first tab wraps round to About
    d.handle_keypress(press(KeyCode::BackTab));
    assert_eq!(d.active_tab(), 1);
    d.handle_keypress(press(KeyCode::BackTab));
    assert_eq!(d.active_tab(), 0);
    d.handle_keypress(press(KeyCode::Tab));
    d.handle_keypress(press(KeyCode::Tab));
    assert_eq!(d.active_tab(), 0);
}

#[test]
fn help_scroll_is_bounded() {
    let mut d = HelpDialog::new(instructions());
    // 2 + 2 + 1 lines of bindings, 3 per category: 9 lines; a view of 6 leaves 3
    d.update_scroll_max(6);
    assert_eq!(d.scrollmax(), 3);
    for _ in 0..10 {
        d.handle_keypress(press(KeyCode::Char('j')));
    }
    assert_eq!(d.scroll(), 3);
    d.handle_keypress(press(KeyCode::Up));
    assert_eq!(d.scroll(), 2);
    for _ in 0..10 {
        d.handle_keypress(press(KeyCode::Char('k')));
    }
    assert_eq!(d.scroll(), 0);
    d.update_scroll_max(50);
    assert_eq!(d.scrollmax(), 0);
}

#[test]
fn help_ignores_releases_and_mouse() {
    let mut d = HelpDialog::new(instructions());
    let release = KeyEvent { code: KeyCode::Esc, modifiers: 0, kind: KeyEventKind::Release };
    assert!(!is_close(d.handle_event(Event::Key(release))));
    assert!(!is_close(d.handle_event(Event::Mouse(MouseEvent { column: 1, row: 1 }))));
    assert!(!is_close(d.handle_event(Event::Resize(10, 10))));
    assert!(is_close(d.handle_event(Event::Key(press(KeyCode::Esc)))));
    assert_eq!(d.get_title(), "Help");
    assert_eq!(d.get_instructions(), "Tab: switch tabs | j/k \u{2191}\u{2193}: scroll | Esc/q: close");
    assert_eq!(d.get_size().x, 70);
    assert_eq!(d.get_size().y, 28);
}

#[test]
fn welcome_dismisses_on_enter_too() {
    let d = WelcomeDialog::new();
    assert!(is_close(d.handle_keypress(press(KeyCode::Enter))));
    assert!(is_close(d.handle_keypress(press(KeyCode::Esc))));
    assert!(is_close(d.handle_keypress(press(KeyCode::Char('q')))));
    assert!(!is_close(d.handle_keypress(press(KeyCode::Char('x')))));
    assert!(!is_close(d.handle_keypress(press(KeyCode::Tab))));
    let repeat = KeyEvent { code: KeyCode::Enter, modifiers: 0, kind: KeyEventKind::Repeat };
    assert!(!is_close(d.handle_event(Event::Key(repeat))));
    assert!(is_close(d.handle_event(Event::Key(press(KeyCode::Enter)))));
    assert_eq!(d.get_title(), "Welcome");
    assert_eq!(d.get_instructions(), "Esc/q/Enter: dismiss");
    assert_eq!(d.get_size().y, 18);
}

#[test]
fn directories_keep_their_paths() {
    let d = Directories::from_paths(
        PathBuf::from("/state/bulletty/logs"),
        PathBuf::from("/data/bulletty"),
        PathBuf::from("/config/bulletty/config.toml"),
        PathBuf::from("/data/bulletty/themes"),
    );
    assert_eq!(d.log(), &PathBuf::from("/state/bulletty/logs"));
    assert_eq!(d.default_data(), &PathBuf::from("/data/bulletty"));
    assert_eq!(d.config(), &PathBuf::from("/config/bulletty/config.toml"));
    assert_eq!(d.themes(), &PathBuf::from("/data/bulletty/themes"));
}

#[test]
fn decimal_text_writes_digits() {
    assert_eq!(decimal_text(0), "0");
    assert_eq!(decimal_text(7), "7");
    assert_eq!(decimal_text(1040), "1040");
    assert_eq!(decimal_text(usize::MAX), usize::MAX.to_string());
}

#[test]
fn help_lines_follow_the_instructions() {
    let mut theme = Theme::default();
    for i in 0..16 {
        theme.base[i] = 100 + i as u32;
    }
    let d = HelpDialog::new(instructions());
    let lines = d.content_lines(&theme);
    assert_eq!(lines.len(), 9);
    assert!(matches!(&lines[0], HelpLine::Heading(t, 108) if t == "Navigation"));
    assert!(matches!(lines[1], HelpLine::Blank));
    assert!(matches!(&lines[2], HelpLine::Binding(k, 106, desc, 104) if k == &format!("  {:19}", "j/k") && desc == "move"));
    assert!(matches!(lines[4], HelpLine::Blank));
    assert!(matches!(&lines[5], HelpLine::Heading(t, _) if t == "Entries"));
    assert!(matches!(&lines[7], HelpLine::Binding(k, _, _, _) if k == &format!("  {:19}", "o")));
    let long = ScreenInstructions {
        categories: vec![InstructionCategory {
            name: "N".to_string(),
            details: vec![InstructionDetail { keys: "ä-very-long-key-binding-text".to_string(), description: "d".to_string() }],
        }],
    };
    let lines = HelpDialog::new(long).content_lines(&theme);
    assert!(matches!(&lines[2], HelpLine::Binding(k, _, _, _) if k == &format!("  {:19}", "ä-very-long-key-binding-text")));
    let wide = ScreenInstructions {
        categories: vec![InstructionCategory {
            name: "N".to_string(),
            details: vec![InstructionDetail { keys: "äöü".to_string(), description: "d".to_string() }],
        }],
    };
    let lines = HelpDialog::new(wide).content_lines(&theme);
    assert!(matches!(&lines[2], HelpLine::Binding(k, _, _, _) if k == &format!("  {:19}", "äöü")));
}

#[test]
fn help_tab_colors_mark_the_active_tab() {
    let mut theme = Theme::default();
    for i in 0..16 {
        theme.base[i] = 100 + i as u32;
    }
    let mut d = HelpDialog::new(instructions());
    assert_eq!(d.tab_colors(&theme, 0), (100, 108));
    assert_eq!(d.tab_colors(&theme, 1), (106, 102));
    d.handle_keypress(press(KeyCode::Tab));
    assert_eq!(d.tab_colors(&theme, 0), (106, 102));
    assert_eq!(d.tab_colors(&theme, 1), (100, 108));
}
