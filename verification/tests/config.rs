use nterm::config::{Config, KeyBindings};
use nterm::palette::ColorPalette;

#[test]
fn defaults() {
    let c = Config::default();
    assert_eq!(c.shell, None);
    assert_eq!(c.scrollback_lines, Some(10000));
    assert_eq!(c.cursor_blink, Some(true));
    assert!(c.color_profile.is_none());
    assert!(c.colors.is_none());
    let b = c.bindings.unwrap();
    assert_eq!(b.new_tab.as_deref(), Some("<Ctrl><Shift>T"));
    assert_eq!(b.prev_tab.as_deref(), Some("<Ctrl>Left"));
    assert_eq!(b.next_tab.as_deref(), Some("<Ctrl>Right"));
    assert_eq!(b.search.as_deref(), Some("<Ctrl><Shift>F"));
}

#[test]
fn bindings_from_config_or_default() {
    let mut c = Config::default();
    c.bindings = Some(KeyBindings { new_tab: None, prev_tab: Some("<Alt>Left".to_string()), next_tab: None, search: None });
    let b = c.get_bindings();
    assert_eq!(b.new_tab, None);
    assert_eq!(b.prev_tab.as_deref(), Some("<Alt>Left"));
    c.bindings = None;
    assert_eq!(c.get_bindings().search.as_deref(), Some("<Ctrl><Shift>F"));
}

#[test]
fn shell_choice() {
    let mut c = Config::default();
    assert_eq!(c.get_shell(Some("/bin/zsh".to_string())), "/bin/zsh");
    assert_eq!(c.get_shell(None), "/bin/bash");
    c.shell = Some("/usr/bin/fish".to_string());
    assert_eq!(c.get_shell(Some("/bin/zsh".to_string())), "/usr/bin/fish");
}

#[test]
fn color_palette_choice() {
    let mut c = Config::default();
    assert_eq!(c.get_color_palette().background, "#002b36");
    c.color_profile = Some("dracula".to_string());
    assert_eq!(c.get_color_palette().background, "#282a36");
    c.color_profile = Some("gruvbox".to_string());
    assert_eq!(c.get_color_palette().background, "#282828");
    c.color_profile = Some("unknown".to_string());
    assert_eq!(c.get_color_palette().background, "#002b36");
    let mut custom = ColorPalette::nord();
    custom.background = "#123456".to_string();
    c.colors = Some(custom);
    assert_eq!(c.get_color_palette().background, "#123456");
}
