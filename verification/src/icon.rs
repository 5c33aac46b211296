//! Where a notification's icon comes from, and the geometry of icon images.
//!
//! Decoding images and loading icon themes is the presentation layer's work;
//! this module decides which hints to try, how a name or path is read, and
//! which sizes the images get.
use vstd::prelude::*;

use crate::text::{
    contains_lowercased, contains_lowered, has_prefix, lower_code, occurs_lowered_at, starts_with, strip,
    strip_prefix,
};

verus! {

/// The size, in pixels, that icons are fitted into.
pub const ICON_SIZE: i32 = 64;

// ── Hints ─────────────────────────────────────────────────────────────────────

/// A hint key that may carry an icon: it mentions an image or an icon,
/// whatever the case of its ASCII letters.
pub open spec fn might_be_icon(key: Seq<char>) -> bool {
    contains_lowered(key, "image"@) || contains_lowered(key, "icon"@) || contains_lowered(key, "app_icon"@)
}

/// Whether the hint `key` may carry an icon.
pub fn hint_key_might_be_icon(key: &str) -> (r: bool)
    ensures
        r == might_be_icon(key@),
{
    contains_lowercased(key, "image") || contains_lowercased(key, "icon") || contains_lowercased(key, "app_icon")
}

/// The hint keys by their characters.
pub open spec fn keys_view(keys: Seq<String>) -> Seq<Seq<char>> {
    keys.map_values(|k: String| k@)
}

/// Some hint may carry an icon: an `image-path` or `image-data` hint, or a
/// key that mentions an image or an icon.
pub open spec fn spec_may_have_icon(keys: Seq<Seq<char>>) -> bool {
    keys.contains("image-path"@) || keys.contains("image-data"@) || exists|i: int|
        0 <= i < keys.len() && might_be_icon(#[trigger] keys[i])
}

/// Whether any of the hints (given by their keys) may carry an icon.
pub fn may_have_icon_from_hint(keys: &Vec<String>) -> (r: bool)
    ensures
        r == spec_may_have_icon(keys_view(keys@)),
{
    let ghost kv = keys_view(keys@);
    let n = keys.len();
    let mut found = false;
    for i in 0..n
        invariant
            n == keys@.len(),
            kv == keys_view(keys@),
            found == exists|k: int| 0 <= k < i && might_be_icon(#[trigger] kv[k]),
    {
        if hint_key_might_be_icon(keys[i].as_str()) {
            assert(might_be_icon(kv[i as int]));
            found = true;
        }
    }
    proof {
        if kv.contains("image-path"@) {
            let k = choose|k: int| 0 <= k < kv.len() && kv[k] == "image-path"@;
            lemma_mentions_image("image-path"@);
            assert(might_be_icon(kv[k]));
        }
        if kv.contains("image-data"@) {
            let k = choose|k: int| 0 <= k < kv.len() && kv[k] == "image-data"@;
            lemma_mentions_image("image-data"@);
            assert(might_be_icon(kv[k]));
        }
    }
    found
}

/// The two named image hints mention an image.
proof fn lemma_mentions_image(key: Seq<char>)
    requires
        key == "image-path"@ || key == "image-data"@,
    ensures
        might_be_icon(key),
{
    reveal_strlit("image-path");
    reveal_strlit("image-data");
    reveal_strlit("image");
    let p = "image"@;
    assert(p.len() == 5);
    assert(key[0] == 'i' && key[1] == 'm' && key[2] == 'a' && key[3] == 'g' && key[4] == 'e');
    assert forall|j: int| 0 <= j < p.len() implies lower_code(#[trigger] key[0 + j]) == p[j] as u32 by {
        assert(key[0 + j] == key[j]);
    }
    assert(occurs_lowered_at(key, p, 0));
}

/// The keys to try, in order, for an icon: `image-path` if present, then
/// `image-data` if present, then every key that may carry an icon, in the
/// order given (the two named keys among them again).
pub open spec fn spec_icon_hint_order(keys: Seq<Seq<char>>) -> Seq<Seq<char>> {
    (if keys.contains("image-path"@) {
        seq!["image-path"@]
    } else {
        Seq::empty()
    }) + (if keys.contains("image-data"@) {
        seq!["image-data"@]
    } else {
        Seq::empty()
    }) + keys.filter(|k: Seq<char>| might_be_icon(k))
}

/// Whether `keys` holds a key equal to `name`.
pub fn has_key(keys: &Vec<String>, name: &str) -> (r: bool)
    ensures
        r == keys_view(keys@).contains(name@),
{
    let ghost kv = keys_view(keys@);
    let n = keys.len();
    let target = String::from_str(name);
    for i in 0..n
        invariant
            n == keys@.len(),
            kv == keys_view(keys@),
            target@ == name@,
            forall|k: int| 0 <= k < i ==> kv[k] != name@,
    {
        if keys[i] == target {
            assert(kv[i as int] == name@);
            return true;
        }
    }
    false
}

/// The hint keys to try for an icon, in order.
pub fn icon_hint_order(keys: &Vec<String>) -> (r: Vec<String>)
    ensures
        keys_view(r@) == spec_icon_hint_order(keys_view(keys@)),
{
    let ghost kv = keys_view(keys@);
    let ghost pred = |k: Seq<char>| might_be_icon(k);
    let mut out: Vec<String> = Vec::new();
    if has_key(keys, "image-path") {
        out.push(String::from_str("image-path"));
    }
    if has_key(keys, "image-data") {
        out.push(String::from_str("image-data"));
    }
    let ghost head = keys_view(out@);
    assert(head =~= (if kv.contains("image-path"@) {
        seq!["image-path"@]
    } else {
        Seq::<Seq<char>>::empty()
    }) + (if kv.contains("image-data"@) {
        seq!["image-data"@]
    } else {
        Seq::<Seq<char>>::empty()
    }));
    let n = keys.len();
    for i in 0..n
        invariant
            n == keys@.len(),
            kv == keys_view(keys@),
            pred == (|k: Seq<char>| might_be_icon(k)),
            keys_view(out@) =~= head + kv.take(i as int).filter(pred),
    {
        reveal_with_fuel(Seq::<_>::filter, 1);
        assert(kv.take(i + 1).drop_last() =~= kv.take(i as int));
        assert(kv.take(i + 1).last() == keys@[i as int]@);
        if hint_key_might_be_icon(keys[i].as_str()) {
            let k = keys[i].clone();
            let ghost before = out@;
            out.push(k);
            assert(keys_view(out@) =~= keys_view(before).push(k@));
        }
    }
    assert(kv.take(n as int) =~= kv);
    out
}

// ── Names and paths ───────────────────────────────────────────────────────────

/// The local path that an icon name or path stands for: a `file://` URI is
/// read as its path, whose host part is empty or `localhost` (so both
/// `file:///P` and `file://localhost/P` stand for `/P`); anything else is
/// taken as it is.
pub open spec fn spec_local_path(name: Seq<char>) -> Seq<char> {
    if has_prefix(name, "file://"@) {
        let rest = name.skip(("file://"@).len() as int);
        if has_prefix(rest, "localhost/"@) {
            rest.skip(("localhost"@).len() as int)
        } else {
            rest
        }
    } else {
        name
    }
}

/// The local path that an icon name or path stands for.
pub fn local_icon_path(name_or_path: &str) -> (r: &str)
    ensures
        r@ == spec_local_path(name_or_path@),
{
    if starts_with(name_or_path, "file://") {
        let rest = strip(name_or_path, "file://");
        if starts_with(rest, "localhost/") {
            let from = "localhost".unicode_len();
            let to = rest.unicode_len();
            proof {
                reveal_strlit("localhost");
                reveal_strlit("localhost/");
            }
            let path = rest.substring_char(from, to);
            assert(path@ =~= rest@.skip(("localhost"@).len() as int));
            path
        } else {
            rest
        }
    } else {
        name_or_path
    }
}

/// A `file://` URI names the same absolute path whether its host part is
/// empty or `localhost`.
pub proof fn lemma_file_uri_path(p: Seq<char>)
    ensures
        spec_local_path("file://localhost/"@ + p) == "/"@ + p,
        spec_local_path("file:///"@ + p) == "/"@ + p,
{
    reveal_strlit("file://");
    reveal_strlit("file://localhost/");
    reveal_strlit("file:///");
    reveal_strlit("localhost/");
    reveal_strlit("localhost");
    reveal_strlit("/");
    let a = "file://localhost/"@ + p;
    assert(a.take(7) =~= "file://"@);
    let rest = a.skip(7);
    assert(rest =~= "localhost/"@ + p);
    assert(rest.take(10) =~= "localhost/"@);
    assert(rest.skip(9) =~= "/"@ + p);
    let b = "file:///"@ + p;
    assert(b.take(7) =~= "file://"@);
    let rest2 = b.skip(7);
    assert(rest2 =~= "/"@ + p);
    assert(rest2.len() < 10 || rest2.take(10) != "localhost/"@) by {
        if rest2.len() >= 10 {
            assert(rest2.take(10)[0] == '/');
        }
    }
}

/// Where an icon is taken from.
#[derive(Debug, Clone, Copy, PartialEq, Eq, Structural)]
pub enum IconSource {
    /// The image file at the local path (see `local_icon_path`).
    LocalFile,
    /// An image fetched from the URL; a placeholder shows meanwhile.
    Remote,
    /// The icon of that name in the icon theme.
    ThemeName,
}

/// The source of an icon given by name or path: none for an empty name; the
/// local file when it could be loaded; a download for an `http://` or
/// `https://` URL; else a theme icon of that name.
pub open spec fn spec_icon_source(name: Seq<char>, local_loaded: bool) -> Option<IconSource> {
    if name.len() == 0 {
        None
    } else if local_loaded {
        Some(IconSource::LocalFile)
    } else if has_prefix(name, "http://"@) || has_prefix(name, "https://"@) {
        Some(IconSource::Remote)
    } else {
        Some(IconSource::ThemeName)
    }
}

/// Where the icon named `name_or_path` comes from. `local_loaded` tells
/// whether the file at `local_icon_path(name_or_path)` exists and decoded.
pub fn icon_from_path(name_or_path: &str, local_loaded: bool) -> (r: Option<IconSource>)
    ensures
        r == spec_icon_source(name_or_path@, local_loaded),
{
    if name_or_path.is_empty() {
        None
    } else if local_loaded {
        Some(IconSource::LocalFile)
    } else if starts_with(name_or_path, "http://") || starts_with(name_or_path, "https://") {
        Some(IconSource::Remote)
    } else {
        Some(IconSource::ThemeName)
    }
}

// ── Image geometry ────────────────────────────────────────────────────────────

/// The channel count of raw image data, clamped to 1..=4.
pub open spec fn clamp_channels(channels: i32) -> int {
    if channels < 1 {
        1
    } else if channels > 4 {
        4
    } else {
        channels as int
    }
}

/// Raw image data (the `image-data` hint) that is decoded: positive
/// dimensions and 8 bits per sample.
pub open spec fn image_data_usable(width: i32, height: i32, bits: i32) -> bool {
    width > 0 && height > 0 && bits == 8
}

/// The row stride used for raw image data: the given one, raised to
/// width × channels when it is smaller or not positive.
pub open spec fn spec_rowstride(width: i32, rowstride: i32, channels: i32) -> int {
    let min_stride = width * clamp_channels(channels);
    if rowstride <= 0 || rowstride < min_stride {
        min_stride
    } else {
        rowstride as int
    }
}

/// The row stride with which raw image data is decoded, or `None` when the
/// data is not decoded at all.
pub fn image_data_rowstride(width: i32, height: i32, rowstride: i32, bits: i32, channels: i32) -> (r: Option<i32>)
    requires
        image_data_usable(width, height, bits) ==> width * clamp_channels(channels) <= i32::MAX,
    ensures
        r == (if image_data_usable(width, height, bits) {
            Some(spec_rowstride(width, rowstride, channels) as i32)
        } else {
            None
        }),
        r matches Some(st) ==> st >= width * clamp_channels(channels),
        r matches Some(st) ==> (rowstride >= width * clamp_channels(channels) ==> st == rowstride),
{
    if width <= 0 || height <= 0 || bits != 8 {
        return None;
    }
    let channels = if channels < 1 {
        1
    } else if channels > 4 {
        4
    } else {
        channels
    };
    let min_stride = width * channels;
    let stride = if rowstride <= 0 || rowstride < min_stride {
        min_stride
    } else {
        rowstride
    };
    Some(stride)
}

/// `d` is the nearest integer to `len` × 64 / `longest`, halves rounded up.
pub open spec fn scaled_side(len: int, longest: int, d: int) -> bool {
    2 * longest * d <= 128 * len + longest < 2 * longest * (d + 1)
}

/// A scaled side is never longer than 64, and the longest side becomes
/// exactly 64.
pub proof fn lemma_scaled_side_fits(len: int, longest: int, d: int)
    requires
        0 <= len <= longest,
        longest > 64,
        scaled_side(len, longest, d),
    ensures
        0 <= d <= 64,
        len == longest ==> d == 64,
{
    assert(0 <= d <= 64) by (nonlinear_arith)
        requires
            0 <= len <= longest,
            longest > 64,
            2 * longest * d <= 128 * len + longest < 2 * longest * (d + 1),
    {
        assert(128 * len + longest < 2 * longest * 65);
    }
    if len == longest {
        assert(d == 64) by (nonlinear_arith)
            requires
                longest > 64,
                2 * longest * d <= 128 * longest + longest < 2 * longest * (d + 1),
        {
            assert(2 * longest * d < 2 * longest * 65);
            assert(2 * longest * 64 < 2 * longest * (d + 1));
        }
    }
}

/// The size an image of `width` × `height` is shown at: unchanged when it
/// fits in 64 × 64, else scaled down so that its longer side is 64, each
/// side rounded to the nearest pixel.
pub fn scaled_icon_size(width: i32, height: i32) -> (r: (i32, i32))
    requires
        width >= 0,
        height >= 0,
    ensures
        ({
            let longest = if width >= height { width as int } else { height as int };
            if longest <= 64 {
                r == (width, height)
            } else {
                scaled_side(width as int, longest, r.0 as int) && scaled_side(height as int, longest, r.1 as int)
            }
        }),
        0 <= r.0 <= 64,
        0 <= r.1 <= 64,
        (width > 64 || height > 64) ==> (r.0 == 64 || r.1 == 64),
{
    let longest = if width >= height { width } else { height };
    if longest <= ICON_SIZE {
        return (width, height);
    }
    let m = longest as i64;
    let w = width as i64;
    let h = height as i64;
    let dw = (128 * w + m) / (2 * m);
    let dh = (128 * h + m) / (2 * m);
    proof {
        assert(0 <= dw <= 64) by (nonlinear_arith)
            requires
                0 <= w <= m,
                m > 64,
                dw == (128 * w + m) / (2 * m),
        {
            assert(128 * w + m < 2 * m * 65);
        }
        assert(0 <= dh <= 64) by (nonlinear_arith)
            requires
                0 <= h <= m,
                m > 64,
                dh == (128 * h + m) / (2 * m),
        {
            assert(128 * h + m < 2 * m * 65);
        }
        assert(scaled_side(w as int, m as int, dw as int)) by (nonlinear_arith)
            requires
                m > 64,
                w >= 0,
                dw == (128 * w + m) / (2 * m),
        {}
        assert(scaled_side(h as int, m as int, dh as int)) by (nonlinear_arith)
            requires
                m > 64,
                h >= 0,
                dh == (128 * h + m) / (2 * m),
        {}
    }
    proof {
        lemma_scaled_side_fits(w as int, m as int, dw as int);
        lemma_scaled_side_fits(h as int, m as int, dh as int);
    }
    (dw as i32, dh as i32)
}

} // verus!
