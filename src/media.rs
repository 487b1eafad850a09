//! File icons and images: the bounded icon cache and its keys, the MIME type
//! of an image file, and its `data:` URI.

use vstd::prelude::*;
use base64::Engine;
use image::ImageEncoder;
use crate::text::{chars_of, string_of, slice_chars, same_text};

verus! {

/// More entries than this make the cache drop its oldest ones...
pub const ICON_CACHE_LIMIT: usize = 100;
/// ...down to this many.
pub const ICON_CACHE_KEEP: usize = 50;

/// The lower-case form of a text, as Unicode defines it.
pub uninterp spec fn lowercase_of(s: Seq<char>) -> Seq<char>;

/// Relies on `str::to_lowercase`: Unicode lower-casing, which depends on the
/// characters alone.
#[verifier::external_body]
fn lowercase(s: &str) -> (r: String)
    ensures
        r@ == lowercase_of(s@),
{
    s.to_lowercase()
}

/// Standard Base64 of bytes, with padding.
pub uninterp spec fn base64_of(b: Seq<u8>) -> Seq<char>;

/// Relies on `base64::engine::general_purpose::STANDARD.encode`: padded
/// Base64 in the standard alphabet, four characters for every three bytes
/// or part of three. It panics when that length overflows `usize`.
#[verifier::external_body]
fn base64_encode(b: &[u8]) -> (r: String)
    requires
        4 * ((b@.len() + 2) / 3) <= usize::MAX,
    ensures
        r@ == base64_of(b@),
        r@.len() == 4 * ((b@.len() + 2) / 3),
{
    base64::engine::general_purpose::STANDARD.encode(b)
}

/// The PNG file of `width` by `height` RGBA pixels, or `None` where the
/// encoder refuses them.
pub uninterp spec fn png_of(width: u32, height: u32, rgba: Seq<u8>) -> Option<Seq<u8>>;

pub open spec fn opt_bytes(r: Option<Vec<u8>>) -> Option<Seq<u8>> {
    match r {
        Some(v) => Some(v@),
        None => None,
    }
}

/// Relies on `image::codecs::png::PngEncoder::write_image` with 8-bit RGBA:
/// the PNG encoding of the pixels, which depends on them alone. It panics
/// unless the buffer holds exactly four bytes per pixel.
#[verifier::external_body]
fn encode_png(width: u32, height: u32, rgba: &Vec<u8>) -> (r: Option<Vec<u8>>)
    requires
        rgba@.len() == 4 * width * height,
    ensures
        opt_bytes(r) == png_of(width, height, rgba@),
{
    let mut out = Vec::new();
    let done = image::codecs::png::PngEncoder::new(&mut out).write_image(rgba, width, height, image::ExtendedColorType::Rgba8);
    done.ok().map(|_| out)
}

/// BGRA pixels as RGBA: in every pixel the first and third bytes trade places.
pub open spec fn rgba_of_bgra(p: Seq<u8>) -> Seq<u8> {
    Seq::new(
        p.len(),
        |i: int|
            if i % 4 == 0 {
                p[i + 2]
            } else if i % 4 == 2 {
                p[i - 2]
            } else {
                p[i]
            },
    )
}

/// Turns BGRA pixels into RGBA pixels in place.
pub fn bgra_to_rgba(pixels: &mut Vec<u8>)
    requires
        old(pixels)@.len() % 4 == 0,
    ensures
        final(pixels)@ == rgba_of_bgra(old(pixels)@),
{
    let ghost orig = pixels@;
    let n = pixels.len();
    let mut i: usize = 0;
    while i < n
        invariant
            n == orig.len(),
            n % 4 == 0,
            i % 4 == 0,
            i <= n,
            pixels@.len() == n,
            forall|j: int| 0 <= j < i ==> pixels@[j] == rgba_of_bgra(orig)[j],
            forall|j: int| i <= j < n ==> pixels@[j] == orig[j],
        decreases n - i,
    {
        let b = pixels[i];
        let r = pixels[i + 2];
        pixels.set(i, r);
        pixels.set(i + 2, b);
        i = i + 4;
    }
    assert(pixels@ =~= rgba_of_bgra(orig));
}

/// The `data:` URI of a PNG file.
pub open spec fn png_uri(png: Seq<u8>) -> Seq<char> {
    "data:image/png;base64,"@ + base64_of(png)
}

/// A file icon's `data:` URI, from its `width` by `height` BGRA pixels as
/// the Windows shell gives them: the pixels as RGBA, encoded as PNG, in
/// Base64. `None` where the encoder refuses them or the text would not fit
/// in memory.
pub fn icon_data_uri(width: u32, height: u32, bgra: Vec<u8>) -> (r: Option<String>)
    requires
        bgra@.len() == 4 * width * height,
    ensures
        match png_of(width, height, rgba_of_bgra(bgra@)) {
            Some(png) => if 4 * ((png.len() + 2) / 3) <= usize::MAX {
                r matches Some(u) && u@ == png_uri(png)
            } else {
                r is None
            },
            None => r is None,
        },
{
    let mut pixels = bgra;
    proof {
        let k = width as int * height as int;
        assert(4 * width * height == 4 * k) by (nonlinear_arith)
            requires
                k == width as int * height as int,
        ;
        assert((4 * k) % 4 == 0) by (nonlinear_arith);
    }
    bgra_to_rgba(&mut pixels);
    let png = match encode_png(width, height, &pixels) {
        Some(p) => p,
        None => return None,
    };
    let l = png.len();
    let q = l / 3 + if l % 3 == 0 {
        0
    } else {
        1
    };
    assert(q == (l + 2) / 3);
    if q > usize::MAX / 4 {
        return None;
    }
    let mut m = String::from_str("data:image/png;base64,");
    m.append(base64_encode(png.as_slice()).as_str());
    Some(m)
}

/// The index just after the last `/` or `\` of `p` before `end`; 0 if none.
pub open spec fn name_start(p: Seq<char>, end: int) -> int
    decreases end,
{
    if end <= 0 {
        0
    } else if p[end - 1] == '/' || p[end - 1] == '\\' {
        end
    } else {
        name_start(p, end - 1)
    }
}

/// The index of the last `.` of `p` in `[lo, end)`, if any.
pub open spec fn last_dot(p: Seq<char>, lo: int, end: int) -> Option<int>
    decreases end - lo,
{
    if end <= lo {
        None
    } else if p[end - 1] == '.' {
        Some(end - 1)
    } else {
        last_dot(p, lo, end - 1)
    }
}

/// The extension of a path's file name: what follows its last `.`, unless
/// that dot opens the name. Both `/` and `\` separate names.
pub open spec fn extension_of(p: Seq<char>) -> Option<Seq<char>> {
    let lo = name_start(p, p.len() as int);
    match last_dot(p, lo, p.len() as int) {
        Some(d) => if d > lo {
            Some(p.subrange(d + 1, p.len() as int))
        } else {
            None
        },
        None => None,
    }
}

/// The extension of a path's file name (see `extension_of`).
pub fn file_extension(path: &str) -> (r: Option<String>)
    ensures
        crate::uri::opt_chars(r) == extension_of(path@),
{
    let p = chars_of(path);
    let n = p.len();
    let mut lo: usize = n;
    while lo > 0 && p[lo - 1] != '/' && p[lo - 1] != '\\'
        invariant
            lo <= n,
            n == p@.len(),
            name_start(p@, n as int) == name_start(p@, lo as int),
        decreases lo,
    {
        lo = lo - 1;
    }
    let mut d: usize = n;
    while d > lo && p[d - 1] != '.'
        invariant
            lo <= d <= n,
            n == p@.len(),
            name_start(p@, n as int) == lo,
            last_dot(p@, lo as int, n as int) == last_dot(p@, lo as int, d as int),
        decreases d,
    {
        d = d - 1;
    }
    if d > lo && d - 1 > lo {
        Some(string_of(&slice_chars(&p, d, n)))
    } else {
        None
    }
}

/// The key under which a file's icon is cached: `.` and its lower-cased
/// extension, shared by every file of that type; the path itself for a
/// file without an extension or a folder.
pub open spec fn icon_key_of(path: Seq<char>) -> Seq<char> {
    match extension_of(path) {
        Some(e) => if e.len() > 0 {
            seq!['.'] + lowercase_of(e)
        } else {
            path
        },
        None => path,
    }
}

pub fn icon_cache_key(path: &str) -> (r: String)
    ensures
        r@ == icon_key_of(path@),
{
    match file_extension(path) {
        Some(e) => {
            if e.unicode_len() > 0 {
                let mut k = String::from_str(".");
                k.append(lowercase(e.as_str()).as_str());
                proof {
                    reveal_strlit(".");
                    assert("."@ =~= seq!['.']);
                }
                k
            } else {
                String::from_str(path)
            }
        },
        None => String::from_str(path),
    }
}

pub open spec fn entry_views(s: Seq<(String, String)>) -> Seq<(Seq<char>, Seq<char>)> {
    s.map_values(|e: (String, String)| (e.0@, e.1@))
}

/// The first index of an entry with key `k`.
pub open spec fn key_position(s: Seq<(Seq<char>, Seq<char>)>, k: Seq<char>) -> Option<int>
    decreases s.len(),
{
    if s.len() == 0 {
        None
    } else if s[0].0 == k {
        Some(0)
    } else {
        match key_position(s.drop_first(), k) {
            Some(i) => Some(i + 1),
            None => None,
        }
    }
}

/// The cache after storing `v` under `k`: an existing entry gets the new
/// icon in place; a new one goes last. Past the limit, only the newest
/// entries that the cache keeps remain.
pub open spec fn cache_after_insert(s: Seq<(Seq<char>, Seq<char>)>, k: Seq<char>, v: Seq<char>) -> Seq<(Seq<char>, Seq<char>)> {
    let t = match key_position(s, k) {
        Some(i) => s.update(i, (k, v)),
        None => s.push((k, v)),
    };
    if t.len() > ICON_CACHE_LIMIT {
        t.subrange(t.len() - ICON_CACHE_KEEP, t.len() as int)
    } else {
        t
    }
}

/// Icons by key, oldest first.
pub struct IconCache {
    pub entries: Vec<(String, String)>,
}

impl IconCache {
    pub open spec fn view(&self) -> Seq<(Seq<char>, Seq<char>)> {
        entry_views(self.entries@)
    }

    pub fn new() -> (r: IconCache)
        ensures
            r.view().len() == 0,
    {
        IconCache { entries: Vec::new() }
    }

    fn position(&self, key: &str) -> (r: Option<usize>)
        ensures
            match r {
                Some(i) => key_position(self.view(), key@) == Some(i as int) && i < self.entries@.len(),
                None => key_position(self.view(), key@) is None,
            },
    {
        let ghost s = self.view();
        let mut i: usize = 0;
        assert(s.subrange(0, s.len() as int) =~= s);
        while i < self.entries.len()
            invariant
                s == self.view(),
                i <= s.len(),
                key_position(s, key@) == match key_position(s.subrange(i as int, s.len() as int), key@) {
                    Some(j) => Some(j + i),
                    None => None,
                },
            decreases s.len() - i,
        {
            let ghost rest = s.subrange(i as int, s.len() as int);
            assert(rest[0] == s[i as int]);
            assert(s[i as int] == (self.entries@[i as int].0@, self.entries@[i as int].1@));
            if same_text(self.entries[i].0.as_str(), key) {
                assert(key_position(rest, key@) == Some(0int));
                return Some(i);
            }
            assert(rest.drop_first() =~= s.subrange(i + 1, s.len() as int));
            i = i + 1;
        }
        None
    }

    /// The icon cached under `key`.
    pub fn get(&self, key: &str) -> (r: Option<String>)
        ensures
            match key_position(self.view(), key@) {
                Some(i) => r matches Some(v) && v@ == self.view()[i].1,
                None => r is None,
            },
    {
        match self.position(key) {
            Some(i) => {
                assert(self.view()[i as int] == (self.entries@[i as int].0@, self.entries@[i as int].1@));
                Some(self.entries[i].1.clone())
            },
            None => None,
        }
    }

    /// Stores an icon, then trims the cache if it grew past its limit.
    pub fn insert(&mut self, key: String, icon: String)
        ensures
            final(self).view() == cache_after_insert(old(self).view(), key@, icon@),
    {
        let ghost s = self.view();
        let ghost k = key@;
        let ghost v = icon@;
        match self.position(key.as_str()) {
            Some(i) => {
                self.entries.set(i, (key, icon));
                assert(self.view() =~= s.update(i as int, (k, v)));
            },
            None => {
                self.entries.push((key, icon));
                assert(self.view() =~= s.push((k, v)));
            },
        }
        let ghost t = self.view();
        if self.entries.len() > ICON_CACHE_LIMIT {
            let drop = self.entries.len() - ICON_CACHE_KEEP;
            let mut n: usize = 0;
            while n < drop
                invariant
                    n <= drop,
                    t.len() > ICON_CACHE_LIMIT,
                    drop == t.len() - ICON_CACHE_KEEP,
                    self.entries@.len() == t.len() - n,
                    self.view() == t.subrange(n as int, t.len() as int),
                decreases drop - n,
            {
                let ghost before = self.entries@;
                self.entries.remove(0);
                assert(self.entries@ =~= before.subrange(1, before.len() as int));
                assert forall|j: int| 0 <= j < self.view().len() implies self.view()[j] == t.subrange(
                    n + 1,
                    t.len() as int,
                )[j] by {
                    assert(self.entries@[j] == before[j + 1]);
                    assert(entry_views(before)[j + 1] == t.subrange(n as int, t.len() as int)[j + 1]);
                }
                assert(self.view() =~= t.subrange(n + 1, t.len() as int));
                n = n + 1;
            }
        }
    }
}

/// The MIME type of an image file with the given extension; `image/png`
/// for any other.
pub open spec fn mime_of(ext: Option<Seq<char>>) -> Seq<char> {
    match ext {
        Some(e) => if e == "jpg"@ || e == "jpeg"@ {
            "image/jpeg"@
        } else if e == "png"@ {
            "image/png"@
        } else if e == "gif"@ {
            "image/gif"@
        } else if e == "bmp"@ {
            "image/bmp"@
        } else if e == "webp"@ {
            "image/webp"@
        } else if e == "svg"@ {
            "image/svg+xml"@
        } else if e == "ico"@ {
            "image/x-icon"@
        } else {
            "image/png"@
        },
        None => "image/png"@,
    }
}

pub fn image_mime_type(path: &str) -> (r: &'static str)
    ensures
        r@ == mime_of(extension_of(path@)),
{
    match file_extension(path) {
        Some(e) => {
            let e = e.as_str();
            if same_text(e, "jpg") || same_text(e, "jpeg") {
                "image/jpeg"
            } else if same_text(e, "png") {
                "image/png"
            } else if same_text(e, "gif") {
                "image/gif"
            } else if same_text(e, "bmp") {
                "image/bmp"
            } else if same_text(e, "webp") {
                "image/webp"
            } else if same_text(e, "svg") {
                "image/svg+xml"
            } else if same_text(e, "ico") {
                "image/x-icon"
            } else {
                "image/png"
            }
        },
        None => "image/png",
    }
}

/// A `data:` URI holding an image file's bytes.
pub open spec fn data_uri_of(path: Seq<char>, bytes: Seq<u8>) -> Seq<char> {
    "data:"@ + mime_of(extension_of(path)) + ";base64,"@ + base64_of(bytes)
}

/// The `data:` URI of an image file whose path and contents are given.
pub fn image_data_uri(path: &str, bytes: &Vec<u8>) -> (r: String)
    requires
        4 * ((bytes@.len() + 2) / 3) <= usize::MAX,
    ensures
        r@ == data_uri_of(path@, bytes@),
{
    let mut m = String::from_str("data:");
    m.append(image_mime_type(path));
    m.append(";base64,");
    m.append(base64_encode(bytes.as_slice()).as_str());
    m
}

} // verus!
