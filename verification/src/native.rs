use vstd::prelude::*;
use vstd::utf8::{decode_utf8, encode_scalar, encode_utf8, valid_utf8};

use crate::capture::{preview_text, spec_preview_text};
use crate::models::{opt_str, ItemView, StoredClipboardItem};
use crate::names::{file_name_chars, path_stem_and_extension, split_stem_extension};
use crate::payload::PlatformFamily;
use crate::text::{
    trim_char_end, trim_char_start,
    ascii_lower_seq, chars_of, lower_ascii_chars, push_chars, push_str, string_from_chars,
    sub_chars, trim, trim_char, trim_chars, trim_matches_char,
};
use crate::url::utf8_lossy;

verus! {

/// The file extension of a path as `Path::extension` gives it on the platform: the part after
/// the last dot of the file name, unless that dot starts the name; nothing when the path has no
/// file name.
pub open spec fn path_extension(path: Seq<char>, platform: PlatformFamily) -> Option<Seq<char>> {
    path_stem_and_extension(path, platform).1
}

/// Extensions of image files that the clipboard may hold as a copied file.
pub open spec fn is_image_extension(e: Seq<char>) -> bool {
    let l = ascii_lower_seq(e);
    l == "png"@ || l == "jpg"@ || l == "jpeg"@ || l == "gif"@ || l == "bmp"@ || l == "webp"@
}

/// The first copied file whose extension names an image format.
pub open spec fn spec_image_path_from_files(files: Seq<Seq<char>>, platform: PlatformFamily) -> Option<Seq<char>>
    decreases files.len(),
{
    if files.len() == 0 {
        None
    } else if path_extension(files[0], platform) matches Some(e) && is_image_extension(e) {
        Some(files[0])
    } else {
        spec_image_path_from_files(files.drop_first(), platform)
    }
}

fn extension_of(path: &Vec<char>, platform: &PlatformFamily) -> (r: Option<Vec<char>>)
    ensures
        match r {
            Some(e) => path_extension(path@, *platform) == Some(e@),
            None => path_extension(path@, *platform) is None,
        },
{
    match file_name_chars(path, platform) {
        Some(name) => split_stem_extension(&name).1,
        None => None,
    }
}

/// The first copied file that is an image, by the extension of its file name as the platform
/// reads paths: `/` separates components everywhere, `\` only on Windows.
pub fn image_path_from_files(files: &Vec<String>, platform: &PlatformFamily) -> (r: Option<String>)
    ensures
        opt_str(r) == spec_image_path_from_files(files@.map_values(|f: String| f@), *platform),
{
    let ghost all = files@.map_values(|f: String| f@);
    assert(all.skip(0) =~= all);
    for i in 0..files.len()
        invariant
            all == files@.map_values(|f: String| f@),
            spec_image_path_from_files(all, *platform) == spec_image_path_from_files(all.skip(i as int), *platform),
    {
        proof {
            let rest = all.skip(i as int);
            assert(rest[0] == files@[i as int]@);
            assert(rest.drop_first() =~= all.skip(i + 1));
        }
        let v = chars_of(files[i].as_str());
        if let Some(e) = extension_of(&v, platform) {
            let l = lower_ascii_chars(&e);
            if crate::text::chars_equal_str(&l, "png") || crate::text::chars_equal_str(&l, "jpg")
                || crate::text::chars_equal_str(&l, "jpeg") || crate::text::chars_equal_str(
                &l,
                "gif",
            ) || crate::text::chars_equal_str(&l, "bmp") || crate::text::chars_equal_str(
                &l,
                "webp",
            ) {
                return Some(files[i].clone());
            }
        }
    }
    assert(all.skip(files.len() as int) =~= Seq::<Seq<char>>::empty());
    None
}

/// The markup of a decoded HTML clipboard format: without surrounding NUL characters and
/// whitespace; nothing when that is empty.
pub open spec fn spec_html_text(t: Seq<char>) -> Option<Seq<char>> {
    let x = trim(trim_char(t, '\0'));
    if x.len() > 0 {
        Some(x)
    } else {
        None
    }
}

/// What the HTML clipboard format holds: the bytes read as UTF-8 (invalid sequences replaced),
/// without surrounding NUL characters and whitespace; nothing when that is empty.
pub open spec fn spec_read_html(bytes: Seq<u8>) -> Option<Seq<char>> {
    spec_html_text(utf8_lossy(bytes))
}

/// Reads the HTML clipboard format from its raw bytes.
pub fn read_html(bytes: &Vec<u8>) -> (r: Option<String>)
    ensures
        opt_str(r) == spec_read_html(bytes@),
        valid_utf8(bytes@) ==> opt_str(r) == spec_html_text(decode_utf8(bytes@)),
{
    let s = crate::url::string_from_utf8_lossy(bytes);
    let v = chars_of(s.as_str());
    let a = trim_matches_char(&v, '\0');
    let t = trim_chars(&a);
    if t.len() > 0 {
        Some(string_from_chars(&t))
    } else {
        None
    }
}

/// The bytes written for a UTF-8 text clipboard format: the text and a terminating NUL.
pub fn set_clipboard_utf8_text(text: &str) -> (r: Vec<u8>)
    ensures
        r@ == encode_utf8(text@).push(0u8),
{
    let b = text.as_bytes();
    let mut out: Vec<u8> = Vec::new();
    for i in 0..b.len()
        invariant
            b@ == encode_utf8(text@),
            out@ == b@.take(i as int),
    {
        out.push(b[i]);
        assert(b@.take(i + 1) =~= b@.take(i as int).push(b@[i as int]));
    }
    assert(b@.take(b.len() as int) =~= b@);
    out.push(0u8);
    out
}

/// Text entries, links and mixed entries show the preview of their text.
pub open spec fn spec_refresh_preview(item: ItemView) -> ItemView {
    if (item.kind == "text"@ || item.kind == "link"@ || item.kind == "mixed"@) && item.full_text is Some {
        ItemView { preview: spec_preview_text(item.full_text->0), ..item }
    } else {
        item
    }
}

/// Recomputes the preview of an entry read back from storage.
pub fn refresh_preview(item: &mut StoredClipboardItem)
    ensures
        final(item)@ == spec_refresh_preview(old(item)@),
{
    let textual = crate::text::str_equal(item.kind.as_str(), "text") || crate::text::str_equal(
        item.kind.as_str(),
        "link",
    ) || crate::text::str_equal(item.kind.as_str(), "mixed");
    if textual {
        let p = match &item.full_text {
            Some(t) => Some(preview_text(t.as_str())),
            None => None,
        };
        if let Some(p) = p {
            item.preview = p;
        }
    }
}

/// A panel position on screen: the corner of the panel placed 32 pixels left of and 18 below
/// the cursor, and kept 16 pixels inside the monitor.
pub open spec fn spec_panel_position(
    cursor_x: int,
    cursor_y: int,
    origin_x: int,
    origin_y: int,
    screen_width: int,
    screen_height: int,
    window_width: int,
    window_height: int,
) -> (int, int) {
    let min_x = origin_x + 16;
    let min_y = origin_y + 16;
    let max_x = origin_x + screen_width - window_width - 16;
    let max_y = origin_y + screen_height - window_height - 16;
    let hi_x = if max_x > min_x {
        max_x
    } else {
        min_x
    };
    let hi_y = if max_y > min_y {
        max_y
    } else {
        min_y
    };
    let tx = cursor_x - 32;
    let ty = cursor_y + 18;
    (
        if tx < min_x {
            min_x
        } else if tx > hi_x {
            hi_x
        } else {
            tx
        },
        if ty < min_y {
            min_y
        } else if ty > hi_y {
            hi_y
        } else {
            ty
        },
    )
}

/// Where the panel opens near the cursor (already rounded to whole pixels), on a monitor with
/// the given origin and size.
pub fn panel_position(
    cursor_x: i32,
    cursor_y: i32,
    origin_x: i32,
    origin_y: i32,
    screen_width: u32,
    screen_height: u32,
    window_width: u32,
    window_height: u32,
) -> (r: (i32, i32))
    requires
        i32::MIN + 32 <= cursor_x,
        cursor_y <= i32::MAX - 18,
        origin_x <= i32::MAX - 16,
        origin_y <= i32::MAX - 16,
        screen_width <= i32::MAX as u32,
        screen_height <= i32::MAX as u32,
        window_width <= i32::MAX as u32,
        window_height <= i32::MAX as u32,
        i32::MIN <= origin_x + screen_width as int <= i32::MAX,
        i32::MIN <= origin_y + screen_height as int <= i32::MAX,
        i32::MIN <= origin_x + screen_width as int - window_width as int <= i32::MAX,
        i32::MIN <= origin_y + screen_height as int - window_height as int <= i32::MAX,
        i32::MIN <= origin_x + screen_width as int - window_width as int - 16 <= i32::MAX,
        i32::MIN <= origin_y + screen_height as int - window_height as int - 16 <= i32::MAX,
    ensures
        (r.0 as int, r.1 as int) == spec_panel_position(
            cursor_x as int,
            cursor_y as int,
            origin_x as int,
            origin_y as int,
            screen_width as int,
            screen_height as int,
            window_width as int,
            window_height as int,
        ),
{
    let tx = cursor_x - 32;
    let ty = cursor_y + 18;
    let min_x = origin_x + 16;
    let min_y = origin_y + 16;
    let max_x = origin_x + screen_width as i32 - window_width as i32 - 16;
    let max_y = origin_y + screen_height as i32 - window_height as i32 - 16;
    let hi_x = if max_x > min_x {
        max_x
    } else {
        min_x
    };
    let hi_y = if max_y > min_y {
        max_y
    } else {
        min_y
    };
    let x = if tx < min_x {
        min_x
    } else if tx > hi_x {
        hi_x
    } else {
        tx
    };
    let y = if ty < min_y {
        min_y
    } else if ty > hi_y {
        hi_y
    } else {
        ty
    };
    (x, y)
}

/// The panel opened by `panel_position` stays at least 16 pixels inside the left and top of
/// the monitor, and inside its right and bottom when the monitor is large enough.
pub proof fn law_panel_stays_on_screen(
    cursor_x: int,
    cursor_y: int,
    origin_x: int,
    origin_y: int,
    screen_width: int,
    screen_height: int,
    window_width: int,
    window_height: int,
)
    ensures
        ({
            let (x, y) = spec_panel_position(
                cursor_x,
                cursor_y,
                origin_x,
                origin_y,
                screen_width,
                screen_height,
                window_width,
                window_height,
            );
            &&& x >= origin_x + 16
            &&& y >= origin_y + 16
            &&& window_width + 32 <= screen_width ==> x + window_width + 16 <= origin_x + screen_width
            &&& window_height + 32 <= screen_height ==> y + window_height + 16 <= origin_y
                + screen_height
        }),
{
}

/// The PowerShell script that plays the copy sound from the given file; quotes in the path
/// are doubled for the single-quoted string.
pub open spec fn spec_quote_for_powershell(path: Seq<char>) -> Seq<char>
    decreases path.len(),
{
    if path.len() == 0 {
        seq![]
    } else {
        spec_quote_for_powershell(path.drop_last()) + if path.last() == '\'' {
            seq!['\'', '\'']
        } else {
            seq![path.last()]
        }
    }
}

/// A path made safe inside a single-quoted PowerShell string.
pub fn quote_for_powershell(path: &str) -> (r: String)
    ensures
        r@ == spec_quote_for_powershell(path@),
{
    let v = chars_of(path);
    let mut out: Vec<char> = Vec::new();
    for i in 0..v.len()
        invariant
            v@ == path@,
            out@ == spec_quote_for_powershell(v@.take(i as int)),
    {
        proof {
            assert(v@.take(i + 1).drop_last() =~= v@.take(i as int));
            assert(v@.take(i + 1).last() == v@[i as int]);
        }
        if v[i] == '\'' {
            out.push('\'');
            out.push('\'');
        } else {
            out.push(v[i]);
        }
    }
    assert(v@.take(v.len() as int) =~= v@);
    string_from_chars(&out)
}

/// The start of the PowerShell command that plays the copy sound, up to the quoted path.
pub const COPY_SOUND_SCRIPT_HEAD: &'static str = r#"Add-Type -AssemblyName PresentationCore; $p = New-Object System.Windows.Media.MediaPlayer;
$p.Open([Uri]::new('"#;

/// The rest of the PowerShell command after the quoted path.
pub const COPY_SOUND_SCRIPT_TAIL: &'static str = r#"'));
for ($i = 0; $i -lt 50 -and -not $p.NaturalDuration.HasTimeSpan; $i++) {
  Start-Sleep -Milliseconds 20;
}
$p.Volume = 1;
$p.Play();
$duration = 800;
if ($p.NaturalDuration.HasTimeSpan) {
  $duration = [Math]::Min([int]$p.NaturalDuration.TimeSpan.TotalMilliseconds + 120, 1500);
}
Start-Sleep -Milliseconds $duration;
$p.Close()"#;

/// The PowerShell command that plays the sound file at `path` through the media player of
/// the system, waiting for it to finish for at most 1.5 seconds.
pub fn copy_sound_command(path: &str) -> (r: String)
    ensures
        r@ == COPY_SOUND_SCRIPT_HEAD@ + spec_quote_for_powershell(path@) + COPY_SOUND_SCRIPT_TAIL@,
{
    let mut out = chars_of(COPY_SOUND_SCRIPT_HEAD);
    let q = quote_for_powershell(path);
    push_str(&mut out, q.as_str());
    push_str(&mut out, COPY_SOUND_SCRIPT_TAIL);
    string_from_chars(&out)
}


/// The smallest width of the panel, in logical pixels.
pub const PANEL_MIN_WIDTH: u32 = 380;

/// The smallest height of the panel, in logical pixels.
pub const PANEL_MIN_HEIGHT: u32 = 600;

/// A saved panel size in logical pixels, raised to the minimum.
pub fn clamp_panel_logical_size(width: u32, height: u32) -> (r: (u32, u32))
    ensures
        r.0 == if width < PANEL_MIN_WIDTH { PANEL_MIN_WIDTH } else { width },
        r.1 == if height < PANEL_MIN_HEIGHT { PANEL_MIN_HEIGHT } else { height },
{
    (
        if width < PANEL_MIN_WIDTH {
            PANEL_MIN_WIDTH
        } else {
            width
        },
        if height < PANEL_MIN_HEIGHT {
            PANEL_MIN_HEIGHT
        } else {
            height
        },
    )
}

/// How the window gets back its saved size at start.
pub enum WindowSizeRestore {
    /// Nothing complete is saved: the window keeps its size.
    Keep,
    /// A panel size saved in physical pixels with the scale factor of its time: converted to
    /// the current scale factor.
    SavedPhysical { width: u32, height: u32 },
    /// A panel size in logical pixels, already raised to the minimum.
    Logical { width: u32, height: u32 },
    /// A window size in physical pixels, raised to the minimum for the current scale factor.
    Physical { width: u32, height: u32 },
}

/// Which saved size the window takes back: the panel size when both its sides were saved
/// (physical when a scale factor was saved with it, else logical), else the window size,
/// each side taken from the panel size when saved and from the window size otherwise.
pub fn restore_window_size(
    main_panel_width: Option<u32>,
    main_panel_height: Option<u32>,
    has_saved_scale_factor: bool,
    window_width: Option<u32>,
    window_height: Option<u32>,
) -> (r: WindowSizeRestore)
    ensures
        ({
            let w = if main_panel_width is Some { main_panel_width } else { window_width };
            let h = if main_panel_height is Some { main_panel_height } else { window_height };
            match r {
                WindowSizeRestore::Keep => w is None || h is None,
                WindowSizeRestore::SavedPhysical { width, height } => main_panel_width == Some(width)
                    && main_panel_height == Some(height) && has_saved_scale_factor,
                WindowSizeRestore::Logical { width, height } => main_panel_width is Some && main_panel_height is Some
                    && !has_saved_scale_factor && width == if main_panel_width->0 < PANEL_MIN_WIDTH {
                    PANEL_MIN_WIDTH
                } else {
                    main_panel_width->0
                } && height == if main_panel_height->0 < PANEL_MIN_HEIGHT {
                    PANEL_MIN_HEIGHT
                } else {
                    main_panel_height->0
                },
                WindowSizeRestore::Physical { width, height } => !(main_panel_width is Some && main_panel_height is Some)
                    && w == Some(width) && h == Some(height),
            }
        }),
{
    let w = match main_panel_width {
        Some(v) => Some(v),
        None => window_width,
    };
    let h = match main_panel_height {
        Some(v) => Some(v),
        None => window_height,
    };
    match (w, h) {
        (Some(width), Some(height)) => {
            if main_panel_width.is_some() && main_panel_height.is_some() {
                if has_saved_scale_factor {
                    WindowSizeRestore::SavedPhysical { width, height }
                } else {
                    let (lw, lh) = clamp_panel_logical_size(width, height);
                    WindowSizeRestore::Logical { width: lw, height: lh }
                }
            } else {
                WindowSizeRestore::Physical { width, height }
            }
        },
        _ => WindowSizeRestore::Keep,
    }
}

/// The script that tells the page whether its context menu is allowed.
pub open spec fn spec_debug_guard_script(enabled: bool) -> Seq<char> {
    "window.__CLIPDESK_DEBUG_GUARD__ = Object.assign(window.__CLIPDESK_DEBUG_GUARD__ || {}, { allowContextMenu: "@
        + (if enabled { "true"@ } else { "false"@ }) + " });"@
}

/// The script run in the panel when debug mode is switched.
pub fn debug_guard_script(enabled: bool) -> (r: String)
    ensures
        r@ == spec_debug_guard_script(enabled),
{
    let mut v: Vec<char> = Vec::new();
    push_str(
        &mut v,
        "window.__CLIPDESK_DEBUG_GUARD__ = Object.assign(window.__CLIPDESK_DEBUG_GUARD__ || {}, { allowContextMenu: ",
    );
    push_str(
        &mut v,
        if enabled {
            "true"
        } else {
            "false"
        },
    );
    push_str(&mut v, " });");
    string_from_chars(&v)
}


/// What the panel shortcut does.
pub enum PanelToggle {
    /// The panel is shown and has the focus: it is hidden.
    Hide,
    /// The panel is shown without the focus: it is brought to the front and focused.
    Focus,
    /// The panel is hidden: it opens near the cursor.
    Open,
}

/// What the panel shortcut does, given whether the panel is shown and focused; the
/// application that had the focus is remembered for pasting unless the panel is hidden.
pub fn panel_toggle_action(visible: bool, focused: bool) -> (r: PanelToggle)
    ensures
        visible && focused ==> r is Hide,
        visible && !focused ==> r is Focus,
        !visible ==> r is Open,
{
    if visible {
        if focused {
            PanelToggle::Hide
        } else {
            PanelToggle::Focus
        }
    } else {
        PanelToggle::Open
    }
}

/// How the panel is sized when it opens on a monitor.
pub enum PanelOpenSize {
    /// A panel size saved with its scale factor is converted to the new scale factor.
    ReapplySaved,
    /// The panel keeps its size.
    Keep,
    /// The panel is raised to its minimum size for the monitor.
    EnsureMinimum,
}

/// How the panel is sized when it opens: with a saved panel size it is converted again only
/// when the scale factor changes and was saved with it; without one the panel is raised to
/// its minimum.
pub fn panel_open_size(has_main_panel_size: bool, scale_changed: bool, has_saved_scale_factor: bool) -> (r: PanelOpenSize)
    ensures
        !has_main_panel_size ==> r is EnsureMinimum,
        has_main_panel_size && scale_changed && has_saved_scale_factor ==> r is ReapplySaved,
        has_main_panel_size && !(scale_changed && has_saved_scale_factor) ==> r is Keep,
{
    if !has_main_panel_size {
        PanelOpenSize::EnsureMinimum
    } else if scale_changed && has_saved_scale_factor {
        PanelOpenSize::ReapplySaved
    } else {
        PanelOpenSize::Keep
    }
}

/// The saved window position, when both coordinates were saved.
pub fn restore_window_position(x: Option<i32>, y: Option<i32>) -> (r: Option<(i32, i32)>)
    ensures
        r == match (x, y) {
            (Some(a), Some(b)) => Some((a, b)),
            _ => None::<(i32, i32)>,
        },
{
    match (x, y) {
        (Some(a), Some(b)) => Some((a, b)),
        _ => None,
    }
}


proof fn lemma_encode_utf8_append(a: Seq<char>, b: Seq<char>)
    ensures
        encode_utf8(a + b) == encode_utf8(a) + encode_utf8(b),
    decreases a.len(),
{
    if a.len() == 0 {
        assert(a + b =~= b);
        assert(encode_utf8(a) + encode_utf8(b) =~= encode_utf8(b));
    } else {
        lemma_encode_utf8_append(a.drop_first(), b);
        assert((a + b)[0] == a[0]);
        assert((a + b).drop_first() =~= a.drop_first() + b);
        assert(encode_utf8(a) + encode_utf8(b) =~= encode_scalar(a[0] as u32) + (encode_utf8(a.drop_first())
            + encode_utf8(b)));
    }
}

/// The markup written to the HTML clipboard format reads back without its surrounding
/// whitespace: the written bytes are valid UTF-8, and decoding and trimming them gives the
/// trimmed markup, for markup without NUL characters that is not blank.
pub proof fn law_html_round_trip(html: Seq<char>)
    requires
        forall|i: int| 0 <= i < html.len() ==> html[i] != '\0',
        trim(html).len() > 0,
    ensures
        valid_utf8(encode_utf8(html).push(0u8)),
        spec_html_text(decode_utf8(encode_utf8(html).push(0u8))) == Some(trim(html)),
{
    let nul = seq!['\0'];
    lemma_encode_utf8_append(html, nul);
    vstd::utf8::char_u32_cast('\0', 0);
    assert((0u32 & 0x7F) as u8 == 0u8) by (bit_vector);
    assert(encode_scalar(0u32) =~= seq![0u8]);
    assert(nul.drop_first() =~= Seq::<char>::empty());
    assert(nul[0] == '\0');
    assert(nul[0] as u32 == 0u32);
    assert(encode_utf8(nul.drop_first()) =~= Seq::<u8>::empty());
    assert(encode_utf8(nul) == encode_scalar(nul[0] as u32) + encode_utf8(nul.drop_first()));
    assert(encode_utf8(nul) =~= seq![0u8]);
    assert(encode_utf8(html).push(0u8) =~= encode_utf8(html + nul));
    vstd::utf8::encode_utf8_valid_utf8(html + nul);
    vstd::utf8::encode_utf8_decode_utf8(html + nul);
    let t = html + nul;
    assert(html.len() > 0);
    assert(t[0] != '\0');
    assert(trim_char_start(t, '\0') == t);
    assert(t.last() == '\0');
    assert(t.drop_last() =~= html);
    assert(trim_char_end(html, '\0') == html);
    assert(trim_char(t, '\0') == html);
}

} // verus!
