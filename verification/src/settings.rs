use vstd::prelude::*;

use crate::text::{chars_of, owned, str_equal, trim, trim_chars};
use crate::update::AppError;

verus! {

/// The settings of the application.
pub struct AppSettings {
    pub debug_enabled: bool,
    pub launch_on_startup: bool,
    pub sound_enabled: bool,
    pub polling_interval_ms: u64,
    pub max_history_items: usize,
    pub max_image_bytes: usize,
    pub global_shortcut: String,
    pub ignored_apps: Vec<String>,
    pub locale: String,
    pub density: String,
    pub theme_mode: String,
    pub accent_color: String,
    pub lan_transfer_download_dir: Option<String>,
    pub window_x: Option<i32>,
    pub window_y: Option<i32>,
    pub window_width: Option<u32>,
    pub window_height: Option<u32>,
}

impl Default for AppSettings {
    /// The settings of a new installation: 200 entries, images up to 6 MB, polling every
    /// 500 ms, `Ctrl+Shift+V`, password managers ignored, Chinese, compact, system theme,
    /// amber accent.
    fn default() -> (r: AppSettings)
        ensures
            !r.debug_enabled && !r.launch_on_startup,
            r.sound_enabled,
            r.polling_interval_ms == 500,
            r.max_history_items == 200,
            r.max_image_bytes == 6_000_000,
            r.global_shortcut@ == "Ctrl+Shift+V"@,
            r.ignored_apps@.len() == 3,
            r.ignored_apps@[0]@ == "1Password"@,
            r.ignored_apps@[1]@ == "Bitwarden"@,
            r.ignored_apps@[2]@ == "KeePassXC"@,
            r.locale@ == "zh-CN"@,
            r.density@ == "compact"@,
            r.theme_mode@ == "system"@,
            r.accent_color@ == "amber"@,
            r.lan_transfer_download_dir is None,
            r.window_x is None && r.window_y is None,
            r.window_width is None && r.window_height is None,
    {
        let mut ignored: Vec<String> = Vec::new();
        ignored.push(owned("1Password"));
        ignored.push(owned("Bitwarden"));
        ignored.push(owned("KeePassXC"));
        AppSettings {
            debug_enabled: false,
            launch_on_startup: false,
            sound_enabled: true,
            polling_interval_ms: 500,
            max_history_items: 200,
            max_image_bytes: 6_000_000,
            global_shortcut: owned("Ctrl+Shift+V"),
            ignored_apps: ignored,
            locale: owned("zh-CN"),
            density: owned("compact"),
            theme_mode: owned("system"),
            accent_color: owned("amber"),
            lan_transfer_download_dir: None,
            window_x: None,
            window_y: None,
            window_width: None,
            window_height: None,
        }
    }
}

impl AppSettings {
    /// Records where the window was moved.
    pub fn record_window_position(&mut self, x: i32, y: i32)
        ensures
            *final(self) == (AppSettings { window_x: Some(x), window_y: Some(y), ..*old(self) }),
    {
        self.window_x = Some(x);
        self.window_y = Some(y);
    }

    /// Records the size the window was given.
    pub fn record_window_size(&mut self, width: u32, height: u32)
        ensures
            *final(self) == (AppSettings { window_width: Some(width), window_height: Some(height), ..*old(self) }),
    {
        self.window_width = Some(width);
        self.window_height = Some(height);
    }
}

/// Debug mode is what turns on the context menu and the developer tools.
pub fn should_enable_devtools(debug_enabled: bool) -> (r: bool)
    ensures
        r == debug_enabled,
{
    debug_enabled
}

/// The label of a tray menu entry in the language of the locale; empty for an unknown key.
pub open spec fn spec_tray_label(locale: Seq<char>, key: Seq<char>) -> Seq<char> {
    if locale == "zh-CN"@ {
        if key == "show"@ {
            "主面板"@
        } else if key == "check_updates"@ {
            "检查更新"@
        } else if key == "quit"@ {
            "退出"@
        } else {
            ""@
        }
    } else {
        if key == "show"@ {
            "Main Panel"@
        } else if key == "check_updates"@ {
            "Check for Updates"@
        } else if key == "quit"@ {
            "Quit"@
        } else {
            ""@
        }
    }
}

/// The label of a tray menu entry.
pub fn tray_label(locale: &str, key: &str) -> (r: &'static str)
    ensures
        r@ == spec_tray_label(locale@, key@),
{
    if str_equal(locale, "zh-CN") {
        if str_equal(key, "show") {
            "主面板"
        } else if str_equal(key, "check_updates") {
            "检查更新"
        } else if str_equal(key, "quit") {
            "退出"
        } else {
            ""
        }
    } else {
        if str_equal(key, "show") {
            "Main Panel"
        } else if str_equal(key, "check_updates") {
            "Check for Updates"
        } else if str_equal(key, "quit") {
            "Quit"
        } else {
            ""
        }
    }
}


/// A global shortcut is registered only when it is not blank.
pub fn should_register_shortcut(shortcut: &str) -> (r: bool)
    ensures
        r == (trim(shortcut@).len() > 0),
{
    let v = chars_of(shortcut);
    trim_chars(&v).len() > 0
}

/// Launching at login can only be switched on where the platform supports it.
pub fn check_launch_on_startup(launch_on_startup: bool, supported: bool) -> (r: Result<(), AppError>)
    ensures
        r is Err <==> (launch_on_startup && !supported),
        r matches Err(e) ==> e.spec_message() == "unsupported_launch_on_startup"@,
{
    if launch_on_startup && !supported {
        Err(AppError::Message(owned("unsupported_launch_on_startup")))
    } else {
        Ok(())
    }
}

/// Copying an entry back needs the platform to write text, markup or images.
pub fn check_clipboard_write(supports_text: bool, supports_html: bool, supports_image: bool) -> (r: Result<(), AppError>)
    ensures
        r is Err <==> !(supports_text || supports_html || supports_image),
        r matches Err(e) ==> e.spec_message() == "unsupported_clipboard_write"@,
{
    if !(supports_text || supports_html || supports_image) {
        Err(AppError::Message(owned("unsupported_clipboard_write")))
    } else {
        Ok(())
    }
}

} // verus!
