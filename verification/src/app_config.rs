//! The overlay's saved settings: their defaults, how a patch from the
//! settings panel changes them, and which window positions and sizes are
//! worth remembering.

use vstd::prelude::*;
use crate::text::starts_with;

verus! {

pub const MIN_WINDOW_WIDTH: u32 = 420;
pub const MAIN_DEFAULT_WIDTH: u32 = 420;
pub const PERSON_PANEL_WIDTH: u32 = 180;
pub const DEFAULT_WINDOW_WIDTH: u32 = MAIN_DEFAULT_WIDTH + PERSON_PANEL_WIDTH;
pub const MIN_WINDOW_HEIGHT: u32 = 520;
/// Where Windows parks a minimized window.
pub const WINDOWS_HIDDEN_WINDOW_POSITION: i32 = -30000;

/// The overlay's settings other than its opacity, which is a floating-point
/// value that the application keeps beside them.
#[derive(Clone, Debug)]
pub struct AppConfig {
    pub connect_api_url: String,
    pub font_size: u8,
    pub panel_collapsed: bool,
    pub person_history_count: u8,
    pub window_x: Option<i32>,
    pub window_y: Option<i32>,
    pub window_width: Option<u32>,
    pub window_height: Option<u32>,
    pub main_capacity: usize,
    pub per_user_capacity: usize,
}

/// A change asked for from the settings panel; a field left `None` is kept.
#[derive(Clone, Debug)]
pub struct ConfigPatch {
    pub connect_api_url: Option<String>,
    pub font_size: Option<u8>,
    pub panel_collapsed: Option<bool>,
    pub person_history_count: Option<u8>,
}

pub open spec fn spec_default_connect_api_url() -> Seq<char> {
    "http://127.0.0.1:2333/api/v1/external/danmu-reader/connect"@
}

/// The connect API of the local danmaku-reader service.
pub fn default_connect_api_url() -> (r: String)
    ensures
        r@ == spec_default_connect_api_url(),
{
    String::from_str("http://127.0.0.1:2333/api/v1/external/danmu-reader/connect")
}

/// The address starts with `http://` or `https://`.
pub open spec fn has_http_prefix(value: Seq<char>) -> bool {
    "http://"@.is_prefix_of(value) || "https://"@.is_prefix_of(value)
}

/// Whether a connect API address in the settings starts with `http://` or
/// `https://`.
pub fn is_http_connect_api_url(value: &str) -> (r: bool)
    ensures
        r == has_http_prefix(value@),
{
    starts_with(value, "http://") || starts_with(value, "https://")
}

/// A window position is worth remembering unless Windows parked the window
/// off screen.
pub open spec fn position_worth_keeping(x: i32, y: i32) -> bool {
    x > WINDOWS_HIDDEN_WINDOW_POSITION && y > WINDOWS_HIDDEN_WINDOW_POSITION
}

/// A window size is worth remembering when it is at least the minimum.
pub open spec fn size_worth_keeping(width: u32, height: u32) -> bool {
    width >= MIN_WINDOW_WIDTH && height >= MIN_WINDOW_HEIGHT
}

/// With the person panel shown, the window must also be wide enough for it.
pub open spec fn size_worth_keeping_for_panel(width: u32, height: u32, panel_collapsed: bool) -> bool {
    if panel_collapsed {
        size_worth_keeping(width, height)
    } else {
        width >= DEFAULT_WINDOW_WIDTH && height >= MIN_WINDOW_HEIGHT
    }
}

pub fn should_persist_window_position(x: i32, y: i32) -> (r: bool)
    ensures
        r == position_worth_keeping(x, y),
{
    x > WINDOWS_HIDDEN_WINDOW_POSITION && y > WINDOWS_HIDDEN_WINDOW_POSITION
}

pub fn should_persist_window_size(width: u32, height: u32) -> (r: bool)
    ensures
        r == size_worth_keeping(width, height),
{
    width >= MIN_WINDOW_WIDTH && height >= MIN_WINDOW_HEIGHT
}

pub fn should_persist_window_size_for_panel(width: u32, height: u32, panel_collapsed: bool) -> (r: bool)
    ensures
        r == size_worth_keeping_for_panel(width, height, panel_collapsed),
{
    if panel_collapsed {
        return should_persist_window_size(width, height);
    }
    width >= DEFAULT_WINDOW_WIDTH && height >= MIN_WINDOW_HEIGHT
}

impl Default for AppConfig {
    fn default() -> (r: Self)
        ensures
            r.connect_api_url@ == spec_default_connect_api_url(),
            r.font_size == 14,
            !r.panel_collapsed,
            r.person_history_count == 1,
            r.window_x is None,
            r.window_y is None,
            r.window_width is None,
            r.window_height is None,
            r.main_capacity == 1000,
            r.per_user_capacity == 50,
    {
        AppConfig {
            connect_api_url: default_connect_api_url(),
            font_size: 14,
            panel_collapsed: false,
            person_history_count: 1,
            window_x: None,
            window_y: None,
            window_width: None,
            window_height: None,
            main_capacity: 1000,
            per_user_capacity: 50,
        }
    }
}

/// `value` clamped into `[lo, hi]`.
pub open spec fn clamp_u8(value: u8, lo: u8, hi: u8) -> u8 {
    if value < lo {
        lo
    } else if value > hi {
        hi
    } else {
        value
    }
}

/// `c` with `patch` applied: an address that does not start with `http://`
/// or `https://` is ignored, the font size is clamped into 12..=18 and the
/// person history count capped at 3; window geometry and capacities are kept.
pub open spec fn patched(c: AppConfig, patch: ConfigPatch) -> AppConfig {
    AppConfig {
        connect_api_url: match patch.connect_api_url {
            Some(v) => if has_http_prefix(v@) {
                v
            } else {
                c.connect_api_url
            },
            None => c.connect_api_url,
        },
        font_size: match patch.font_size {
            Some(v) => clamp_u8(v, 12, 18),
            None => c.font_size,
        },
        panel_collapsed: match patch.panel_collapsed {
            Some(v) => v,
            None => c.panel_collapsed,
        },
        person_history_count: match patch.person_history_count {
            Some(v) => if v < 3 {
                v
            } else {
                3
            },
            None => c.person_history_count,
        },
        ..c
    }
}

/// `c` with its saved geometry checked: a connect API address that does not
/// start with `http://` or `https://` becomes the default one, a parked
/// window position is forgotten, and so is a window size too small for the
/// panel layout.
pub open spec fn sanitized(c: AppConfig) -> (Seq<char>, Option<i32>, Option<i32>, Option<u32>, Option<u32>) {
    let url = if has_http_prefix(c.connect_api_url@) {
        c.connect_api_url@
    } else {
        spec_default_connect_api_url()
    };
    let keep_position = match (c.window_x, c.window_y) {
        (Some(x), Some(y)) => position_worth_keeping(x, y),
        _ => true,
    };
    let keep_size = match (c.window_width, c.window_height) {
        (Some(w), Some(h)) => size_worth_keeping_for_panel(w, h, c.panel_collapsed),
        _ => true,
    };
    (
        url,
        if keep_position {
            c.window_x
        } else {
            None
        },
        if keep_position {
            c.window_y
        } else {
            None
        },
        if keep_size {
            c.window_width
        } else {
            None
        },
        if keep_size {
            c.window_height
        } else {
            None
        },
    )
}

/// The address and the saved window geometry.
pub open spec fn geometry_of(c: AppConfig) -> (Seq<char>, Option<i32>, Option<i32>, Option<u32>, Option<u32>) {
    (c.connect_api_url@, c.window_x, c.window_y, c.window_width, c.window_height)
}

/// Everything but the address and the window geometry.
pub open spec fn same_settings(a: AppConfig, b: AppConfig) -> bool {
    &&& a.font_size == b.font_size
    &&& a.panel_collapsed == b.panel_collapsed
    &&& a.person_history_count == b.person_history_count
    &&& a.main_capacity == b.main_capacity
    &&& a.per_user_capacity == b.per_user_capacity
}

impl AppConfig {
    pub fn apply_patch(&mut self, patch: ConfigPatch)
        ensures
            *final(self) == patched(*old(self), patch),
    {
        let ghost p = patch;
        let ConfigPatch { connect_api_url, font_size, panel_collapsed, person_history_count } =
            patch;
        match connect_api_url {
            Some(value) => {
                if is_http_connect_api_url(value.as_str()) {
                    self.connect_api_url = value;
                }
            },
            None => {},
        }
        match font_size {
            Some(value) => {
                self.font_size = if value < 12 {
                    12
                } else if value > 18 {
                    18
                } else {
                    value
                };
            },
            None => {},
        }
        match panel_collapsed {
            Some(value) => {
                self.panel_collapsed = value;
            },
            None => {},
        }
        match person_history_count {
            Some(value) => {
                self.person_history_count = if value < 3 {
                    value
                } else {
                    3
                };
            },
            None => {},
        }
    }

    pub fn sanitize_window_geometry(&mut self)
        ensures
            geometry_of(*final(self)) == sanitized(*old(self)),
            same_settings(*final(self), *old(self)),
    {
        if !is_http_connect_api_url(self.connect_api_url.as_str()) {
            self.connect_api_url = default_connect_api_url();
        }
        match (self.window_x, self.window_y) {
            (Some(x), Some(y)) => {
                if !should_persist_window_position(x, y) {
                    self.window_x = None;
                    self.window_y = None;
                }
            },
            _ => {},
        }
        match (self.window_width, self.window_height) {
            (Some(width), Some(height)) => {
                if !should_persist_window_size_for_panel(width, height, self.panel_collapsed) {
                    self.window_width = None;
                    self.window_height = None;
                }
            },
            _ => {},
        }
    }

    /// The saved window size, when both its width and height are saved.
    pub fn saved_window_size(&self) -> (r: Option<(u32, u32)>)
        ensures
            r == (match (self.window_width, self.window_height) {
                (Some(w), Some(h)) => Some((w, h)),
                _ => None,
            }),
    {
        match (self.window_width, self.window_height) {
            (Some(w), Some(h)) => Some((w, h)),
            _ => None,
        }
    }

    /// The saved window position, when both its coordinates are saved.
    pub fn saved_window_position(&self) -> (r: Option<(i32, i32)>)
        ensures
            r == (match (self.window_x, self.window_y) {
                (Some(x), Some(y)) => Some((x, y)),
                _ => None,
            }),
    {
        match (self.window_x, self.window_y) {
            (Some(x), Some(y)) => Some((x, y)),
            _ => None,
        }
    }

    /// Takes a new window position into the settings when it is worth
    /// remembering; the result says whether the settings changed and should
    /// be saved.
    pub fn remember_window_position(&mut self, x: i32, y: i32) -> (save: bool)
        ensures
            save == position_worth_keeping(x, y),
            save ==> *final(self) == (AppConfig { window_x: Some(x), window_y: Some(y), ..*old(self) }),
            !save ==> *final(self) == *old(self),
    {
        if !should_persist_window_position(x, y) {
            return false;
        }
        self.window_x = Some(x);
        self.window_y = Some(y);
        true
    }

    /// Takes a new window size into the settings when it is worth
    /// remembering for the current panel layout; the result says whether the
    /// settings changed and should be saved.
    pub fn remember_window_size(&mut self, width: u32, height: u32) -> (save: bool)
        ensures
            save == size_worth_keeping_for_panel(width, height, old(self).panel_collapsed),
            save ==> *final(self) == (AppConfig {
                window_width: Some(width),
                window_height: Some(height),
                ..*old(self)
            }),
            !save ==> *final(self) == *old(self),
    {
        if !should_persist_window_size_for_panel(width, height, self.panel_collapsed) {
            return false;
        }
        self.window_width = Some(width);
        self.window_height = Some(height);
        true
    }
}

/// Checking saved geometry a second time changes nothing.
pub proof fn law_sanitize_is_idempotent(c: AppConfig, once: AppConfig)
    requires
        geometry_of(once) == sanitized(c),
        same_settings(once, c),
    ensures
        sanitized(once) == geometry_of(once),
{
    reveal_strlit("http://");
    reveal_strlit("http://127.0.0.1:2333/api/v1/external/danmu-reader/connect");
    assert(has_http_prefix(spec_default_connect_api_url())) by {
        assert(spec_default_connect_api_url().subrange(0, 7) =~= "http://"@);
    }
}

/// After a check of the saved geometry, the connect API address starts with
/// `http://` or `https://`, and no patch from the settings panel changes
/// that.
pub proof fn law_connect_api_url_stays_http(c: AppConfig, once: AppConfig, patch: ConfigPatch)
    requires
        geometry_of(once) == sanitized(c),
    ensures
        has_http_prefix(once.connect_api_url@),
        has_http_prefix(patched(once, patch).connect_api_url@),
{
    reveal_strlit("http://");
    reveal_strlit("http://127.0.0.1:2333/api/v1/external/danmu-reader/connect");
    assert(has_http_prefix(spec_default_connect_api_url())) by {
        assert(spec_default_connect_api_url().subrange(0, 7) =~= "http://"@);
    }
}

/// A patch never moves or resizes the window, and leaves the font size in
/// 12..=18 and the person history count at most 3 when it sets them.
pub proof fn law_patch_keeps_geometry_and_bounds(c: AppConfig, patch: ConfigPatch)
    ensures
        patched(c, patch).window_x == c.window_x,
        patched(c, patch).window_y == c.window_y,
        patched(c, patch).window_width == c.window_width,
        patched(c, patch).window_height == c.window_height,
        patched(c, patch).main_capacity == c.main_capacity,
        patched(c, patch).per_user_capacity == c.per_user_capacity,
        patch.font_size is Some ==> 12 <= patched(c, patch).font_size <= 18,
        patch.person_history_count is Some ==> patched(c, patch).person_history_count <= 3,
{
}

} // verus!
