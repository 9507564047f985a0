//! User configuration: the values read from the configuration file, their
//! defaults, and what the rest of the program takes from them.
use vstd::prelude::*;
use vstd::string::*;

pub use crate::palette::ColorPalette;
use crate::palette::{solarized_dark_colors, theme_named};

verus! {

/// Keyboard shortcuts, each an accelerator string such as `<Ctrl>Left`.
#[derive(Debug)]
pub struct KeyBindings {
    /// Keyboard shortcut to create a new tab
    pub new_tab: Option<String>,
    /// Keyboard shortcut to switch to previous tab
    pub prev_tab: Option<String>,
    /// Keyboard shortcut to switch to next tab
    pub next_tab: Option<String>,
    /// Keyboard shortcut to toggle search in current terminal
    pub search: Option<String>,
}

fn clone_text(o: &Option<String>) -> (r: Option<String>)
    ensures
        r == *o,
{
    match o {
        Some(s) => Some(s.clone()),
        None => None,
    }
}

fn some_text(s: &str) -> (r: Option<String>)
    ensures
        r matches Some(t) && t@ == s@,
{
    Some(String::from_str(s))
}

/// `o` holds exactly the text `s`.
pub open spec fn is_text(o: Option<String>, s: Seq<char>) -> bool {
    o matches Some(t) && t@ == s
}

impl KeyBindings {
    /// The documented default shortcuts.
    pub open spec fn is_default(self) -> bool {
        &&& is_text(self.new_tab, "<Ctrl><Shift>T"@)
        &&& is_text(self.prev_tab, "<Ctrl>Left"@)
        &&& is_text(self.next_tab, "<Ctrl>Right"@)
        &&& is_text(self.search, "<Ctrl><Shift>F"@)
    }
}

impl Clone for KeyBindings {
    fn clone(&self) -> (r: Self)
        ensures
            r == *self,
    {
        KeyBindings {
            new_tab: clone_text(&self.new_tab),
            prev_tab: clone_text(&self.prev_tab),
            next_tab: clone_text(&self.next_tab),
            search: clone_text(&self.search),
        }
    }
}

impl Default for KeyBindings {
    fn default() -> (r: Self)
        ensures
            r.is_default(),
    {
        KeyBindings {
            new_tab: some_text("<Ctrl><Shift>T"),
            prev_tab: some_text("<Ctrl>Left"),
            next_tab: some_text("<Ctrl>Right"),
            search: some_text("<Ctrl><Shift>F"),
        }
    }
}

/// The configuration file's contents; every setting is optional.
#[derive(Debug)]
pub struct Config {
    /// The shell command to execute (e.g., "/bin/bash", "/usr/bin/zsh")
    pub shell: Option<String>,
    /// Number of scrollback lines to keep in history
    pub scrollback_lines: Option<i64>,
    /// Enable cursor blinking
    pub cursor_blink: Option<bool>,
    /// Keyboard shortcuts configuration
    pub bindings: Option<KeyBindings>,
    /// Color profile name (e.g., "solarized-dark", "dracula", "monokai")
    pub color_profile: Option<String>,
    /// Custom color palette (overrides color_profile if both are set)
    pub colors: Option<ColorPalette>,
}

impl Config {
    /// The configuration written on first run.
    pub open spec fn is_default(self) -> bool {
        &&& self.shell is None
        &&& self.scrollback_lines == Some(10000i64)
        &&& self.cursor_blink == Some(true)
        &&& self.bindings matches Some(b) && b.is_default()
        &&& self.color_profile is None
        &&& self.colors is None
    }

    /// The colours that a profile name selects: the named theme, or
    /// Solarized Dark where the name is missing or unknown.
    pub open spec fn profile_colors(profile: Option<String>) -> Seq<Seq<char>> {
        match profile {
            Some(name) => match theme_named(name@) {
                Some(colors) => colors,
                None => solarized_dark_colors(),
            },
            None => solarized_dark_colors(),
        }
    }
}

impl Default for Config {
    fn default() -> (r: Self)
        ensures
            r.is_default(),
    {
        Config {
            shell: None,
            scrollback_lines: Some(10000),
            cursor_blink: Some(true),
            bindings: Some(KeyBindings::default()),
            color_profile: None,
            colors: None,
        }
    }
}

impl Config {
    /// Get the shell to use: the configured one, else `env_shell` (the
    /// `SHELL` environment variable as read by the caller), else
    /// `/bin/bash`.
    pub fn get_shell(&self, env_shell: Option<String>) -> (r: String)
        ensures
            r@ == match self.shell {
                Some(s) => s@,
                None => match env_shell {
                    Some(e) => e@,
                    None => "/bin/bash"@,
                },
            },
    {
        match &self.shell {
            Some(s) => s.clone(),
            None => match env_shell {
                Some(e) => e,
                None => String::from_str("/bin/bash"),
            },
        }
    }

    /// Get keyboard bindings (from config or defaults).
    pub fn get_bindings(&self) -> (r: KeyBindings)
        ensures
            match self.bindings {
                Some(b) => r == b,
                None => r.is_default(),
            },
    {
        match &self.bindings {
            Some(b) => b.clone(),
            None => KeyBindings::default(),
        }
    }

    /// Get color palette: the custom colours if set, else the colour
    /// profile, else Solarized Dark.
    pub fn get_color_palette(&self) -> (r: ColorPalette)
        ensures
            match self.colors {
                Some(c) => r == c,
                None => r@ == Config::profile_colors(self.color_profile),
            },
    {
        if let Some(colors) = &self.colors {
            return colors.clone();
        }
        match &self.color_profile {
            Some(name) => match ColorPalette::by_name(name.as_str()) {
                Some(p) => p,
                None => ColorPalette::solarized_dark(),
            },
            None => ColorPalette::solarized_dark(),
        }
    }
}

} // verus!
