use vstd::prelude::*;

verus! {

/// Messages understood by the window-title widget.
#[derive(Debug, Clone, Copy, PartialEq, Eq, Structural)]
pub enum Message {
    TitleChanged,
}

/// Which text of the focused window the widget shows.
#[derive(Debug, Clone, Copy, PartialEq, Eq, Structural)]
pub enum WindowTitleMode {
    Title,
    Class,
}

/// The settings of the window-title widget.
#[derive(Debug, Clone, Copy)]
pub struct WindowTitleConfig {
    pub mode: WindowTitleMode,
    pub truncate_title_after_length: u32,
}

/// What the window manager reports of the focused window.
#[derive(Debug, Clone)]
pub struct ActiveWindow {
    pub title: String,
    pub class: String,
}

/// The text of `window` that `mode` selects.
pub open spec fn selected_text(window: ActiveWindow, mode: WindowTitleMode) -> Seq<char> {
    match mode {
        WindowTitleMode::Title => window.title@,
        WindowTitleMode::Class => window.class@,
    }
}

/// The full-featured backend.
pub struct HyprlandWindowManager;

impl HyprlandWindowManager {
    /// The text to show for the focused window `window`, if there is one.
    pub fn get_window(config: &WindowTitleConfig, window: Option<ActiveWindow>) -> (r: Option<String>)
        ensures
            window is None <==> r is None,
            window matches Some(w) ==> r matches Some(t) && t@ == selected_text(w, config.mode),
    {
        match window {
            Some(w) => match config.mode {
                WindowTitleMode::Title => Some(w.title),
                WindowTitleMode::Class => Some(w.class),
            },
            None => None,
        }
    }
}

/// The degraded backend, which reports no window.
pub struct NiriWindowManager;

impl NiriWindowManager {
    /// Always `None`.
    pub fn get_window(config: &WindowTitleConfig) -> (r: Option<String>)
        ensures
            r is None,
    {
        None
    }
}

/// The window-title widget's state: its settings and the current text.
pub struct WindowTitle {
    config: WindowTitleConfig,
    value: Option<String>,
}

impl WindowTitle {
    /// The widget with settings `config` showing `value` first.
    pub fn new(config: WindowTitleConfig, value: Option<String>) -> (r: Self)
        ensures
            r.config() == config,
            r.value() == value,
    {
        WindowTitle { config, value }
    }

    /// The settings.
    pub closed spec fn config(&self) -> WindowTitleConfig {
        self.config
    }

    /// The text shown.
    pub closed spec fn value(&self) -> Option<String> {
        self.value
    }

    /// The settings.
    pub fn get_config(&self) -> (r: WindowTitleConfig)
        ensures
            r == self.config(),
    {
        self.config
    }

    /// Handles `message` with the text `value` that the backend now reports.
    pub fn update(&mut self, message: Message, value: Option<String>)
        ensures
            final(self).value() == value,
            final(self).config() == old(self).config(),
    {
        match message {
            Message::TitleChanged => {
                self.value = value;
            },
        }
    }

    /// A copy of the text shown.
    pub fn get_value(&self) -> (r: Option<String>)
        ensures
            r == self.value(),
    {
        match &self.value {
            Some(s) => Some(s.clone()),
            None => None,
        }
    }
}

} // verus!
