//! User-local settings: the clipboard section of the JSON config, the
//! defaults of the other sections, and where the files live.
use vstd::prelude::*;

use crate::text::push_char;

verus! {

/// The translation endpoint used when none is configured.
pub const DEFAULT_API_URL: &'static str = "https://deepl.zu1k.com/translate";

/// The theme used when none is configured.
pub const DEFAULT_THEME: &'static str = "dark";

/// Clipboard history settings.
#[derive(Debug, Clone, Copy, PartialEq, Eq, Structural)]
pub struct ClipboardConfig {
    pub capacity: usize,
    pub panel_page_size: usize,
}

/// `x` clamped into `[lo, hi]`, as `Ord::clamp` does it.
pub open spec fn clamp(x: int, lo: int, hi: int) -> int {
    if x < lo {
        lo
    } else if x > hi {
        hi
    } else {
        x
    }
}

pub open spec fn CLIPBOARD_MIN_CAPACITY() -> usize {
    1
}

pub open spec fn CLIPBOARD_MAX_CAPACITY() -> usize {
    10_000
}

pub open spec fn CLIPBOARD_MIN_PAGE_SIZE() -> usize {
    1
}

pub open spec fn CLIPBOARD_MAX_PAGE_SIZE() -> usize {
    100
}

impl ClipboardConfig {
    pub const DEFAULT_CAPACITY: usize = 100;

    pub const DEFAULT_PANEL_PAGE_SIZE: usize = 10;

    pub const MIN_CAPACITY: usize = 1;

    pub const MAX_CAPACITY: usize = 10_000;

    pub const MIN_PANEL_PAGE_SIZE: usize = 1;

    pub const MAX_PANEL_PAGE_SIZE: usize = 100;

    /// Both settings lie within their bounds.
    pub open spec fn is_normalized(self) -> bool {
        &&& CLIPBOARD_MIN_CAPACITY() <= self.capacity <= CLIPBOARD_MAX_CAPACITY()
        &&& CLIPBOARD_MIN_PAGE_SIZE() <= self.panel_page_size <= CLIPBOARD_MAX_PAGE_SIZE()
    }

    /// The configuration with each setting clamped into its bounds.
    pub open spec fn normalized_spec(self) -> ClipboardConfig {
        ClipboardConfig {
            capacity: clamp(
                self.capacity as int,
                CLIPBOARD_MIN_CAPACITY() as int,
                CLIPBOARD_MAX_CAPACITY() as int,
            ) as usize,
            panel_page_size: clamp(
                self.panel_page_size as int,
                CLIPBOARD_MIN_PAGE_SIZE() as int,
                CLIPBOARD_MAX_PAGE_SIZE() as int,
            ) as usize,
        }
    }

    /// Clamps the capacity into `[1, 10000]` and the page size into `[1, 100]`.
    pub fn normalized(self) -> (r: Self)
        ensures
            r == self.normalized_spec(),
            r.is_normalized(),
    {
        let capacity = if self.capacity < Self::MIN_CAPACITY {
            Self::MIN_CAPACITY
        } else if self.capacity > Self::MAX_CAPACITY {
            Self::MAX_CAPACITY
        } else {
            self.capacity
        };
        let panel_page_size = if self.panel_page_size < Self::MIN_PANEL_PAGE_SIZE {
            Self::MIN_PANEL_PAGE_SIZE
        } else if self.panel_page_size > Self::MAX_PANEL_PAGE_SIZE {
            Self::MAX_PANEL_PAGE_SIZE
        } else {
            self.panel_page_size
        };
        ClipboardConfig { capacity, panel_page_size }
    }
}

impl Default for ClipboardConfig {
    fn default() -> (r: Self)
        ensures
            r.capacity == 100,
            r.panel_page_size == 10,
    {
        ClipboardConfig {
            capacity: Self::DEFAULT_CAPACITY,
            panel_page_size: Self::DEFAULT_PANEL_PAGE_SIZE,
        }
    }
}

/// Normalizing twice gives what normalizing once gives, and a normalized
/// configuration is left as it is.
pub proof fn lemma_normalized_idempotent(c: ClipboardConfig)
    ensures
        c.normalized_spec().normalized_spec() == c.normalized_spec(),
        c.is_normalized() ==> c.normalized_spec() == c,
        c.normalized_spec().is_normalized(),
{
}

/// How paths are written: with `/` between components, or, on Windows,
/// with `\` (where `/` also separates components).
#[derive(Debug, Clone, Copy, PartialEq, Eq, Structural)]
pub enum PathStyle {
    Unix,
    Windows,
}

/// The separator that joining inserts.
pub open spec fn separator(style: PathStyle) -> char {
    match style {
        PathStyle::Unix => '/',
        PathStyle::Windows => '\\',
    }
}

/// Whether `c` separates path components.
pub open spec fn is_separator(style: PathStyle, c: char) -> bool {
    c == '/' || (style == PathStyle::Windows && c == '\\')
}

/// An ASCII letter, which names a Windows drive.
pub open spec fn is_drive_letter(c: char) -> bool {
    ('a' <= c && c <= 'z') || ('A' <= c && c <= 'Z')
}

/// `s` is exactly a Windows drive prefix: a drive letter and `:` (such as
/// `C:`), or the same after `\\?\`.
pub open spec fn is_drive_prefix(s: Seq<char>) -> bool {
    ||| s.len() == 2 && is_drive_letter(s[0]) && s[1] == ':'
    ||| s.len() == 6 && s[0] == '\\' && s[1] == '\\' && s[2] == '?' && s[3] == '\\'
        && is_drive_letter(s[4]) && s[5] == ':'
}

/// `base` joined with the relative name `name`, with the style's separator
/// between them unless `base` is empty, already ends with a separator, or,
/// on Windows, is only a drive prefix (`C:` joined with `x` is the
/// drive-relative `C:x`).
pub open spec fn join_path(style: PathStyle, base: Seq<char>, name: Seq<char>) -> Seq<char> {
    if base.len() == 0 || is_separator(style, base.last()) || (style == PathStyle::Windows
        && is_drive_prefix(base)) {
        base + name
    } else {
        base.push(separator(style)) + name
    }
}

/// The settings directory: `.trinity` under the home directory, or under
/// the current directory when no home directory is known.
pub open spec fn trinity_dir_spec(style: PathStyle, home: Option<Seq<char>>) -> Seq<char> {
    let base = match home {
        Some(h) => h,
        None => seq!['.'],
    };
    join_path(style, base, ".trinity"@)
}

fn append_str(s: &mut String, t: &str)
    ensures
        final(s)@ == old(s)@ + t@,
{
    s.append(t);
}

fn drive_letter(c: char) -> (b: bool)
    ensures
        b == is_drive_letter(c),
{
    ('a' <= c && c <= 'z') || ('A' <= c && c <= 'Z')
}

/// Whether `s` is exactly a Windows drive prefix.
fn drive_prefix(s: &str) -> (b: bool)
    ensures
        b == is_drive_prefix(s@),
{
    let n = s.unicode_len();
    if n == 2 {
        drive_letter(s.get_char(0)) && s.get_char(1) == ':'
    } else if n == 6 {
        s.get_char(0) == '\\' && s.get_char(1) == '\\' && s.get_char(2) == '?' && s.get_char(3)
            == '\\' && drive_letter(s.get_char(4)) && s.get_char(5) == ':'
    } else {
        false
    }
}

/// `base` joined with the relative name `name`.
pub fn join_path_exec(style: PathStyle, base: &str, name: &str) -> (r: String)
    ensures
        r@ == join_path(style, base@, name@),
{
    let n = base.unicode_len();
    let mut r = String::from_str(base);
    if n > 0 {
        let last = base.get_char(n - 1);
        let ends_with_separator = last == '/' || (style == PathStyle::Windows && last == '\\');
        let drive_only = style == PathStyle::Windows && drive_prefix(base);
        if !ends_with_separator && !drive_only {
            let sep = match style {
                PathStyle::Unix => '/',
                PathStyle::Windows => '\\',
            };
            push_char(&mut r, sep);
        }
    }
    append_str(&mut r, name);
    r
}

/// The settings directory for the given home directory (`HOME`, or
/// `USERPROFILE` where that is unset).
pub fn trinity_dir(style: PathStyle, home: Option<&str>) -> (r: String)
    ensures
        r@ == trinity_dir_spec(
            style,
            match home {
                Some(h) => Some(h@),
                None => None,
            },
        ),
{
    proof {
        reveal_strlit(".trinity");
        reveal_strlit(".");
    }
    match home {
        Some(h) => join_path_exec(style, h, ".trinity"),
        None => join_path_exec(style, ".", ".trinity"),
    }
}

/// Where the JSON configuration is kept: `config.json` in the settings
/// directory.
pub fn config_path(style: PathStyle, home: Option<&str>) -> (r: String)
    ensures
        r@ == join_path(
            style,
            trinity_dir_spec(
                style,
                match home {
                    Some(h) => Some(h@),
                    None => None,
                },
            ),
            "config.json"@,
        ),
{
    let dir = trinity_dir(style, home);
    join_path_exec(style, dir.as_str(), "config.json")
}

/// Where the clipboard history is kept: `clipboard_history.json` in the
/// settings directory.
pub fn clipboard_history_path(style: PathStyle, home: Option<&str>) -> (r: String)
    ensures
        r@ == join_path(
            style,
            trinity_dir_spec(
                style,
                match home {
                    Some(h) => Some(h@),
                    None => None,
                },
            ),
            "clipboard_history.json"@,
        ),
{
    let dir = trinity_dir(style, home);
    join_path_exec(style, dir.as_str(), "clipboard_history.json")
}

/// The translation endpoint used when none is configured.
pub fn default_api() -> (r: String)
    ensures
        r@ == DEFAULT_API_URL@,
{
    String::from_str(DEFAULT_API_URL)
}

/// The theme used when none is configured.
pub fn default_theme() -> (r: String)
    ensures
        r@ == DEFAULT_THEME@,
{
    String::from_str(DEFAULT_THEME)
}

/// The clipboard capacity used when none is configured.
pub fn default_clipboard_capacity() -> (r: usize)
    ensures
        r == 100,
{
    ClipboardConfig::DEFAULT_CAPACITY
}

/// The clipboard picker page size used when none is configured.
pub fn default_clipboard_panel_page_size() -> (r: usize)
    ensures
        r == 10,
{
    ClipboardConfig::DEFAULT_PANEL_PAGE_SIZE
}

} // verus!
