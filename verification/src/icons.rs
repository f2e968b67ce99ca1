//! App icons: the `.ico` container that every icon is turned into, and the
//! URL rules by which an icon is found for a web page. Fetching, writing and
//! SVG rendering are done by the caller.
use vstd::prelude::*;
use vstd::slice::slice_to_vec;
use crate::text::{chars_of, concat2, concat3, contains_seq, contains_str, has_prefix, matches_at, occurs_at, owned, push_char, starts_with, string_of, string_of_range, trim, trim_seq};

verus! {

// ---------------------------------------------------------------------------
// The ICO container
// ---------------------------------------------------------------------------

/// The eight-byte PNG signature.
pub open spec fn png_signature() -> Seq<u8> {
    seq![0x89u8, 0x50u8, 0x4eu8, 0x47u8, 0x0du8, 0x0au8, 0x1au8, 0x0au8]
}

/// Bytes that start like a PNG image with its IHDR chunk (at least 24 bytes).
pub open spec fn is_png(b: Seq<u8>) -> bool {
    b.len() >= 24 && b.take(8) == png_signature()
}

/// Bytes that start with the ICO header magic (reserved 0, type 1).
pub open spec fn is_ico(b: Seq<u8>) -> bool {
    b.len() >= 6 && b[0] == 0 && b[1] == 0 && b[2] == 1 && b[3] == 0
}

/// The big-endian `u32` at `i`.
pub open spec fn be_u32(b: Seq<u8>, i: int) -> nat {
    (b[i] as nat) * 16777216 + (b[i + 1] as nat) * 65536 + (b[i + 2] as nat) * 256 + (b[i + 3] as nat)
}

/// The little-endian bytes of `n < 2^32`.
pub open spec fn le_u32(n: nat) -> Seq<u8> {
    seq![
        (n % 256) as u8,
        ((n / 256) % 256) as u8,
        ((n / 65536) % 256) as u8,
        ((n / 16777216) % 256) as u8,
    ]
}

/// An icon dimension byte: the size when below 256, else 0 (meaning 256+).
pub open spec fn dim_byte(d: nat) -> u8 {
    if d >= 256 {
        0
    } else {
        d as u8
    }
}

/// A PNG wrapped in an ICO container with one entry: the 6-byte directory,
/// the 16-byte entry (width and height from the PNG header, 1 plane, 32 bits
/// per pixel, the PNG's size modulo 2^32, offset 22), then the PNG itself.
pub open spec fn ico_of_png(png: Seq<u8>) -> Seq<u8> {
    seq![0u8, 0u8, 1u8, 0u8, 1u8, 0u8] + seq![
        dim_byte(be_u32(png, 16)),
        dim_byte(be_u32(png, 20)),
        0u8,
        0u8,
        1u8,
        0u8,
        32u8,
        0u8,
    ] + le_u32(png.len() % 4294967296) + seq![22u8, 0u8, 0u8, 0u8] + png
}

fn push_le_u32(v: &mut Vec<u8>, n: u32)
    ensures
        final(v)@ == old(v)@ + le_u32(n as nat),
{
    v.push((n % 256) as u8);
    v.push(((n / 256) % 256) as u8);
    v.push(((n / 65536) % 256) as u8);
    v.push(((n / 16777216) % 256) as u8);
    proof {
        assert(final(v)@ =~= old(v)@ + le_u32(n as nat));
    }
}

/// Wraps a PNG image in an ICO container (see [`ico_of_png`]); `None` for
/// bytes that are not a PNG with its header.
pub fn png_to_ico(png: &[u8]) -> (r: Option<Vec<u8>>)
    ensures
        match r {
            Some(v) => is_png(png@) && v@ == ico_of_png(png@),
            None => !is_png(png@),
        },
{
    if png.len() < 24 || png[0] != 0x89 || png[1] != 0x50 || png[2] != 0x4e || png[3] != 0x47
        || png[4] != 0x0d || png[5] != 0x0a || png[6] != 0x1a || png[7] != 0x0a {
        proof {
            if png@.len() >= 24 && png@.take(8) == png_signature() {
                assert(png@.take(8)[0] == png@[0]);
                assert(png@.take(8)[1] == png@[1]);
                assert(png@.take(8)[2] == png@[2]);
                assert(png@.take(8)[3] == png@[3]);
                assert(png@.take(8)[4] == png@[4]);
                assert(png@.take(8)[5] == png@[5]);
                assert(png@.take(8)[6] == png@[6]);
                assert(png@.take(8)[7] == png@[7]);
            }
        }
        return None;
    }
    proof {
        assert(png@.take(8) =~= png_signature());
    }
    let width: u32 = (png[16] as u32) * 16777216 + (png[17] as u32) * 65536 + (png[18] as u32)
        * 256 + (png[19] as u32);
    let height: u32 = (png[20] as u32) * 16777216 + (png[21] as u32) * 65536 + (png[22] as u32)
        * 256 + (png[23] as u32);
    let mut ico: Vec<u8> = Vec::new();
    ico.push(0);
    ico.push(0);
    ico.push(1);
    ico.push(0);
    ico.push(1);
    ico.push(0);
    let w: u8 = if width >= 256 {
        0
    } else {
        width as u8
    };
    let h: u8 = if height >= 256 {
        0
    } else {
        height as u8
    };
    ico.push(w);
    ico.push(h);
    ico.push(0);
    ico.push(0);
    ico.push(1);
    ico.push(0);
    ico.push(32);
    ico.push(0);
    let size: u32 = ((png.len() as u64) % 4294967296) as u32;
    push_le_u32(&mut ico, size);
    ico.push(22);
    ico.push(0);
    ico.push(0);
    ico.push(0);
    let ghost head = ico@;
    let mut i: usize = 0;
    while i < png.len()
        invariant
            i <= png@.len(),
            ico@ == head + png@.take(i as int),
        decreases png.len() - i,
    {
        ico.push(png[i]);
        proof {
            assert(png@.take(i + 1) =~= png@.take(i as int).push(png@[i as int]));
        }
        i += 1;
    }
    proof {
        assert(png@.take(png@.len() as int) =~= png@);
        assert(ico@ =~= ico_of_png(png@));
    }
    Some(ico)
}

/// The length of the UTF-8 encoding of a White_Space char starting at byte
/// `i`, or 0 when no such encoding starts there.
pub open spec fn space_len(b: Seq<u8>, i: int) -> int {
    if i < 0 || i >= b.len() {
        0
    } else if (0x09 <= b[i] && b[i] <= 0x0d) || b[i] == 0x20 {
        1
    } else if b[i] == 0xc2 && i + 1 < b.len() && (b[i + 1] == 0x85 || b[i + 1] == 0xa0) {
        2
    } else if b[i] == 0xe1 && i + 2 < b.len() && b[i + 1] == 0x9a && b[i + 2] == 0x80 {
        3
    } else if b[i] == 0xe2 && i + 2 < b.len() && ((b[i + 1] == 0x80 && ((0x80 <= b[i + 2] && b[i
        + 2] <= 0x8a) || b[i + 2] == 0xa8 || b[i + 2] == 0xa9 || b[i + 2] == 0xaf)) || (b[i + 1]
        == 0x81 && b[i + 2] == 0x9f)) {
        3
    } else if b[i] == 0xe3 && i + 2 < b.len() && b[i + 1] == 0x80 && b[i + 2] == 0x80 {
        3
    } else {
        0
    }
}

/// The position after the White_Space chars that start at byte `i`.
pub open spec fn skip_spaces(b: Seq<u8>, i: int) -> int
    decreases b.len() - i,
{
    if 0 <= i < b.len() && space_len(b, i) > 0 {
        skip_spaces(b, i + space_len(b, i))
    } else {
        i
    }
}

/// The first 1024 bytes (or all) of an image look like SVG: after leading
/// White_Space comes `<svg` in any letter case. This is what "decoding the
/// head as UTF-8 with replacement, trimming its start and lowercasing it
/// starts with `<svg`" comes to: White_Space chars are valid UTF-8 and decode
/// alike, a replacement char is not White_Space, and no char but `<` lowers
/// to `<` and none but `s`/`S`, `v`/`V`, `g`/`G` to `s`, `v`, `g`.
pub open spec fn svg_head(bytes: Seq<u8>) -> bool {
    let h = if bytes.len() <= 1024 {
        bytes
    } else {
        bytes.take(1024)
    };
    let i = skip_spaces(h, 0);
    &&& 0 <= i
    &&& i + 4 <= h.len()
    &&& h[i] == 0x3c
    &&& (h[i + 1] == 0x73 || h[i + 1] == 0x53)
    &&& (h[i + 2] == 0x76 || h[i + 2] == 0x56)
    &&& (h[i + 3] == 0x67 || h[i + 3] == 0x47)
}

fn space_len_at(b: &[u8], n: usize, i: usize) -> (r: usize)
    requires
        n <= b@.len(),
        i < n,
    ensures
        r as int == space_len(b@.take(n as int), i as int),
        r <= 3,
{
    let ghost h = b@.take(n as int);
    let c = b[i];
    if (0x09 <= c && c <= 0x0d) || c == 0x20 {
        1
    } else if c == 0xc2 && n - i > 1 && (b[i + 1] == 0x85 || b[i + 1] == 0xa0) {
        2
    } else if c == 0xe1 && n - i > 2 && b[i + 1] == 0x9a && b[i + 2] == 0x80 {
        3
    } else if c == 0xe2 && n - i > 2 && ((b[i + 1] == 0x80 && ((0x80 <= b[i + 2] && b[i + 2]
        <= 0x8a) || b[i + 2] == 0xa8 || b[i + 2] == 0xa9 || b[i + 2] == 0xaf)) || (b[i + 1]
        == 0x81 && b[i + 2] == 0x9f)) {
        3
    } else if c == 0xe3 && n - i > 2 && b[i + 1] == 0x80 && b[i + 2] == 0x80 {
        3
    } else {
        0
    }
}

/// Whether image bytes look like SVG (see [`svg_head`]).
pub fn looks_like_svg(bytes: &[u8]) -> (r: bool)
    ensures
        r == svg_head(bytes@),
{
    let n: usize = if bytes.len() <= 1024 {
        bytes.len()
    } else {
        1024
    };
    let ghost h = if bytes@.len() <= 1024 {
        bytes@
    } else {
        bytes@.take(1024)
    };
    proof {
        assert(h =~= bytes@.take(n as int));
    }
    let mut i: usize = 0;
    while i < n && space_len_at(bytes, n, i) > 0
        invariant
            n <= bytes@.len(),
            h == bytes@.take(n as int),
            i <= n,
            skip_spaces(h, 0) == skip_spaces(h, i as int),
        decreases n - i,
    {
        let k = space_len_at(bytes, n, i);
        i = i + k;
    }
    proof {
        assert(skip_spaces(h, i as int) == i);
    }
    if i + 4 > n {
        return false;
    }
    proof {
        assert(h[i as int] == bytes@[i as int]);
        assert(h[i + 1] == bytes@[i + 1]);
        assert(h[i + 2] == bytes@[i + 2]);
        assert(h[i + 3] == bytes@[i + 3]);
    }
    bytes[i] == 0x3c && (bytes[i + 1] == 0x73 || bytes[i + 1] == 0x53) && (bytes[i + 2] == 0x76
        || bytes[i + 2] == 0x56) && (bytes[i + 3] == 0x67 || bytes[i + 3] == 0x47)
}

/// Turns icon bytes into `.ico` bytes: ICO bytes stay as they are; SVG
/// bytes (see [`svg_head`]) are rendered to PNG by `render_svg` and wrapped;
/// any other bytes are wrapped as PNG. `None` when the bytes cannot be
/// turned into an icon.
pub fn to_ico<F: Fn(&[u8]) -> Option<Vec<u8>>>(bytes: &[u8], render_svg: F) -> (r: Option<Vec<u8>>)
    requires
        call_requires(render_svg, (bytes,)),
    ensures
        is_ico(bytes@) ==> (r matches Some(v) && v@ == bytes@),
        !is_ico(bytes@) && !svg_head(bytes@) ==> match r {
            Some(v) => is_png(bytes@) && v@ == ico_of_png(bytes@),
            None => !is_png(bytes@),
        },
        !is_ico(bytes@) && svg_head(bytes@) ==> exists|out: Option<Vec<u8>>|
            call_ensures(render_svg, (bytes,), out) && match out {
                None => r is None,
                Some(png) => match r {
                    Some(v) => is_png(png@) && v@ == ico_of_png(png@),
                    None => !is_png(png@),
                },
            },
{
    if bytes.len() >= 6 && bytes[0] == 0 && bytes[1] == 0 && bytes[2] == 1 && bytes[3] == 0 {
        return Some(slice_to_vec(bytes));
    }
    if looks_like_svg(bytes) {
        let out = render_svg(bytes);
        match out {
            Some(png) => png_to_ico(png.as_slice()),
            None => None,
        }
    } else {
        png_to_ico(bytes)
    }
}

/// Law: an icon made from a PNG is recognized as an icon, so turning it into
/// an icon again leaves it as it is.
pub proof fn law_ico_is_fixed_point(png: Seq<u8>)
    requires
        is_png(png),
    ensures
        is_ico(ico_of_png(png)),
{
    let ico = ico_of_png(png);
    assert(ico[0] == 0 && ico[1] == 0 && ico[2] == 1 && ico[3] == 0);
}

// ---------------------------------------------------------------------------
// Icon URLs and file names
// ---------------------------------------------------------------------------

/// The part of `s` before the first `c` (all of `s` when there is none).
pub open spec fn before_first(s: Seq<char>, c: char) -> Seq<char>
    decreases s.len(),
{
    if s.len() == 0 {
        s
    } else if s[0] == c {
        Seq::empty()
    } else {
        seq![s[0]] + before_first(s.drop_first(), c)
    }
}

/// The part of `s` after the last `c` (all of `s` when there is none).
pub open spec fn after_last(s: Seq<char>, c: char) -> Seq<char>
    decreases s.len(),
{
    if s.len() == 0 {
        s
    } else if s.last() == c {
        Seq::empty()
    } else {
        after_last(s.drop_last(), c).push(s.last())
    }
}

/// A char that Windows forbids in file names.
pub open spec fn illegal_in_filename(c: char) -> bool {
    c == '\\' || c == '/' || c == ':' || c == '*' || c == '?' || c == '"' || c == '<' || c == '>'
        || c == '|'
}

/// The chars of `s` that are allowed in file names.
pub open spec fn legal_chars(s: Seq<char>) -> Seq<char>
    decreases s.len(),
{
    if s.len() == 0 {
        s
    } else if illegal_in_filename(s.last()) {
        legal_chars(s.drop_last())
    } else {
        legal_chars(s.drop_last()).push(s.last())
    }
}

/// The local file name for a downloaded icon: the last path segment of the
/// URL without its query, illegal chars dropped, trimmed; `favicon.ico` when
/// that is empty or has no `.`.
pub open spec fn icon_file_name(url: Seq<char>) -> Seq<char> {
    let t = trim_seq(legal_chars(after_last(before_first(url, '?'), '/')));
    if t.len() == 0 || !t.contains('.') {
        "favicon.ico"@
    } else {
        t
    }
}

pub(crate) fn before_first_of(v: &Vec<char>, c: char) -> (r: Vec<char>)
    ensures
        r@ == before_first(v@, c),
{
    let mut out: Vec<char> = Vec::new();
    let mut i: usize = 0;
    proof {
        assert(v@.skip(0) =~= v@);
        assert(out@ + before_first(v@, c) =~= before_first(v@, c));
    }
    while i < v.len()
        invariant
            i <= v@.len(),
            before_first(v@, c) == out@ + before_first(v@.skip(i as int), c),
        decreases v.len() - i,
    {
        proof {
            assert(v@.skip(i as int)[0] == v@[i as int]);
            assert(v@.skip(i as int).drop_first() =~= v@.skip(i + 1));
        }
        if v[i] == c {
            proof {
                assert(out@ + Seq::<char>::empty() =~= out@);
            }
            return out;
        }
        out.push(v[i]);
        proof {
            assert(out@.drop_last() + (seq![v@[i as int]] + before_first(v@.skip(i + 1), c))
                =~= out@ + before_first(v@.skip(i + 1), c));
        }
        i += 1;
    }
    proof {
        assert(v@.skip(i as int) =~= Seq::<char>::empty());
        assert(out@ + Seq::<char>::empty() =~= out@);
    }
    out
}

fn after_last_of(v: &Vec<char>, c: char) -> (r: Vec<char>)
    ensures
        r@ == after_last(v@, c),
{
    let mut i: usize = v.len();
    proof {
        assert(v@.take(v@.len() as int) =~= v@);
        assert(after_last(v@, c) + v@.subrange(v@.len() as int, v@.len() as int) =~= after_last(v@, c));
    }
    while i > 0 && v[i - 1] != c
        invariant
            i <= v@.len(),
            after_last(v@, c) == after_last(v@.take(i as int), c) + v@.subrange(i as int, v@.len() as int),
        decreases i,
    {
        proof {
            let t = v@.take(i as int);
            assert(t.drop_last() =~= v@.take(i - 1));
            assert(t.last() == v@[i - 1]);
            assert(after_last(v@.take(i - 1), c).push(v@[i - 1]) + v@.subrange(i as int, v@.len() as int)
                =~= after_last(v@.take(i - 1), c) + v@.subrange(i - 1, v@.len() as int));
        }
        i -= 1;
    }
    proof {
        if i > 0 {
            assert(v@.take(i as int).last() == v@[i - 1]);
        }
        assert(after_last(v@.take(i as int), c) =~= Seq::<char>::empty());
        assert(Seq::<char>::empty() + v@.subrange(i as int, v@.len() as int) =~= v@.subrange(
            i as int,
            v@.len() as int,
        ));
    }
    let mut out: Vec<char> = Vec::new();
    let mut j: usize = i;
    while j < v.len()
        invariant
            i <= j <= v@.len(),
            out@ == v@.subrange(i as int, j as int),
        decreases v.len() - j,
    {
        out.push(v[j]);
        proof {
            assert(v@.subrange(i as int, j + 1) =~= v@.subrange(i as int, j as int).push(v@[j as int]));
        }
        j += 1;
    }
    out
}

fn legal_chars_of(v: &Vec<char>) -> (r: Vec<char>)
    ensures
        r@ == legal_chars(v@),
{
    let mut out: Vec<char> = Vec::new();
    let mut i: usize = 0;
    while i < v.len()
        invariant
            i <= v@.len(),
            out@ == legal_chars(v@.take(i as int)),
        decreases v.len() - i,
    {
        proof {
            assert(v@.take(i + 1).drop_last() =~= v@.take(i as int));
            assert(v@.take(i + 1).last() == v@[i as int]);
        }
        let c = v[i];
        if !(c == '\\' || c == '/' || c == ':' || c == '*' || c == '?' || c == '"' || c == '<' || c
            == '>' || c == '|') {
            out.push(c);
        }
        i += 1;
    }
    proof {
        assert(v@.take(v@.len() as int) =~= v@);
    }
    out
}

/// The local file name for a downloaded icon (see [`icon_file_name`]).
pub fn safe_filename(icon_url: &str) -> (r: String)
    ensures
        r@ == icon_file_name(icon_url@),
{
    let v = chars_of(icon_url);
    let no_query = before_first_of(&v, '?');
    let last = after_last_of(&no_query, '/');
    let cleaned = legal_chars_of(&last);
    let cs = string_of(&cleaned);
    let t = trim(cs.as_str());
    let tv = chars_of(t.as_str());
    let mut has_dot = false;
    let mut i: usize = 0;
    while i < tv.len()
        invariant
            i <= tv@.len(),
            has_dot == exists|k: int| 0 <= k < i && tv@[k] == '.',
        decreases tv.len() - i,
    {
        if tv[i] == '.' {
            has_dot = true;
        }
        i += 1;
    }
    proof {
        assert(has_dot == tv@.contains('.'));
    }
    if tv.len() == 0 || !has_dot {
        owned("favicon.ico")
    } else {
        t
    }
}

/// ASCII letters lowered, other chars kept.
pub open spec fn ascii_lower(c: char) -> char {
    if 'A' <= c && c <= 'Z' {
        ((c as u32) + 32) as char
    } else {
        c
    }
}

/// The image extensions by which a URL is taken to point at an icon file.
pub open spec fn icon_extensions() -> Seq<Seq<char>> {
    seq![".ico"@, ".png"@, ".svg"@, ".jpg"@, ".jpeg"@, ".webp"@, ".gif"@]
}

/// A URL that points at an image file directly: its lowercase form contains
/// one of the image extensions. (Lowering beyond ASCII cannot make these
/// ASCII runs appear: only `A`-`Z`, the Kelvin sign and `İ` lower to ASCII
/// letters, and `İ` lowers to `i` followed by a combining dot.)
pub open spec fn is_icon_file_url(url: Seq<char>) -> bool {
    let lower = url.map_values(|c: char| ascii_lower(c));
    exists|k: int| 0 <= k < icon_extensions().len() && contains_seq(lower, #[trigger] icon_extensions()[k])
}

/// Whether a URL points at an image file directly.
pub fn points_at_icon_file(url: &str) -> (r: bool)
    ensures
        r == is_icon_file_url(url@),
        r == names_image_file(url@),
{
    let v = chars_of(url);
    let mut lower = String::new();
    let mut i: usize = 0;
    while i < v.len()
        invariant
            v@ == url@,
            i <= v@.len(),
            lower@ == url@.take(i as int).map_values(|c: char| ascii_lower(c)),
        decreases v.len() - i,
    {
        let c = v[i];
        let l = if 'A' <= c && c <= 'Z' {
            let u: u8 = (c as u32) as u8;
            (u + 32) as char
        } else {
            c
        };
        push_char(&mut lower, l);
        proof {
            assert(url@.take(i + 1).map_values(|c: char| ascii_lower(c)) =~= url@.take(
                i as int,
            ).map_values(|c: char| ascii_lower(c)).push(ascii_lower(c)));
        }
        i += 1;
    }
    proof {
        assert(url@.take(v@.len() as int) =~= url@);
        reveal_strlit(".ico");
        reveal_strlit(".png");
        reveal_strlit(".svg");
        reveal_strlit(".jpg");
        reveal_strlit(".jpeg");
        reveal_strlit(".webp");
        reveal_strlit(".gif");
    }
    let l = lower.as_str();
    let r = contains_str(l, ".ico") || contains_str(l, ".png") || contains_str(l, ".svg")
        || contains_str(l, ".jpg") || contains_str(l, ".jpeg") || contains_str(l, ".webp")
        || contains_str(l, ".gif");
    proof {
        let lw = url@.map_values(|c: char| ascii_lower(c));
        if r {
            if contains_seq(lw, ".ico"@) {
                assert(icon_extensions()[0] == ".ico"@);
            } else if contains_seq(lw, ".png"@) {
                assert(icon_extensions()[1] == ".png"@);
            } else if contains_seq(lw, ".svg"@) {
                assert(icon_extensions()[2] == ".svg"@);
            } else if contains_seq(lw, ".jpg"@) {
                assert(icon_extensions()[3] == ".jpg"@);
            } else if contains_seq(lw, ".jpeg"@) {
                assert(icon_extensions()[4] == ".jpeg"@);
            } else if contains_seq(lw, ".webp"@) {
                assert(icon_extensions()[5] == ".webp"@);
            } else {
                assert(icon_extensions()[6] == ".gif"@);
            }
        }
    }
    r
}

/// Whether the ASCII-lowered URL contains one of `.ico`, `.png`, `.svg`,
/// `.jpg`, `.jpeg`, `.webp` and `.gif`.
pub open spec fn names_image_file(url: Seq<char>) -> bool {
    let lower = url.map_values(|c: char| ascii_lower(c));
    ||| contains_seq(lower, ".ico"@)
    ||| contains_seq(lower, ".png"@)
    ||| contains_seq(lower, ".svg"@)
    ||| contains_seq(lower, ".jpg"@)
    ||| contains_seq(lower, ".jpeg"@)
    ||| contains_seq(lower, ".webp"@)
    ||| contains_seq(lower, ".gif"@)
}

/// Law: a URL points at an icon file exactly when its lowered form contains
/// one of the seven image extensions (see [`names_image_file`]); so an
/// `.svg` URL is used as it is, not read as a page.
pub proof fn law_image_url(url: Seq<char>)
    ensures
        is_icon_file_url(url) == names_image_file(url),
{
    let lw = url.map_values(|c: char| ascii_lower(c));
    if names_image_file(url) {
        if contains_seq(lw, ".ico"@) {
            assert(icon_extensions()[0] == ".ico"@);
        } else if contains_seq(lw, ".png"@) {
            assert(icon_extensions()[1] == ".png"@);
        } else if contains_seq(lw, ".svg"@) {
            assert(icon_extensions()[2] == ".svg"@);
        } else if contains_seq(lw, ".jpg"@) {
            assert(icon_extensions()[3] == ".jpg"@);
        } else if contains_seq(lw, ".jpeg"@) {
            assert(icon_extensions()[4] == ".jpeg"@);
        } else if contains_seq(lw, ".webp"@) {
            assert(icon_extensions()[5] == ".webp"@);
        } else {
            assert(icon_extensions()[6] == ".gif"@);
        }
    }
    if is_icon_file_url(url) {
        let k = choose|k: int| 0 <= k < icon_extensions().len() && contains_seq(lw, #[trigger] icon_extensions()[k]);
        assert(k == 0 || k == 1 || k == 2 || k == 3 || k == 4 || k == 5 || k == 6);
    }
}

/// Whether an icon source must be downloaded first: an `http://` or
/// `https://` URL (anything else is a local path).
pub fn icon_needs_download(icon: &str) -> (r: bool)
    ensures
        r == (has_prefix(icon@, "http://"@) || has_prefix(icon@, "https://"@)),
{
    starts_with(icon, "http://") || starts_with(icon, "https://")
}

/// The first position at or after `i` where `p` occurs in `s`.
pub open spec fn find_from(s: Seq<char>, p: Seq<char>, i: int) -> Option<int>
    decreases s.len() - i,
{
    if i < 0 || i + p.len() > s.len() {
        None
    } else if occurs_at(s, p, i) {
        Some(i)
    } else {
        find_from(s, p, i + 1)
    }
}

/// A position found is a position where the pattern occurs.
proof fn lemma_find_from_occurs(s: Seq<char>, p: Seq<char>, i: int, j: int)
    requires
        find_from(s, p, i) == Some(j),
    ensures
        occurs_at(s, p, j),
    decreases s.len() - i,
{
    if i < 0 || i + p.len() > s.len() {
    } else if occurs_at(s, p, i) {
    } else {
        lemma_find_from_occurs(s, p, i + 1, j);
    }
}

fn find_in(s: &Vec<char>, p: &Vec<char>) -> (r: Option<usize>)
    ensures
        match r {
            Some(i) => find_from(s@, p@, 0) == Some(i as int) && occurs_at(s@, p@, i as int),
            None => find_from(s@, p@, 0) is None,
        },
{
    if p.len() > s.len() {
        return None;
    }
    let mut i: usize = 0;
    while i <= s.len() - p.len()
        invariant
            p@.len() <= s@.len(),
            i <= s@.len() - p@.len() + 1,
            find_from(s@, p@, 0) == find_from(s@, p@, i as int),
        decreases s.len() - i,
    {
        if matches_at(s, p, i) {
            return Some(i);
        }
        i += 1;
    }
    None
}

/// The position of the last `/` in `s`, if any.
pub open spec fn last_slash(s: Seq<char>) -> Option<int>
    decreases s.len(),
{
    if s.len() == 0 {
        None
    } else if s.last() == '/' {
        Some(s.len() - 1)
    } else {
        last_slash(s.drop_last())
    }
}

/// The directory of a page URL, where a relative link starts from: the URL
/// without its query, up to and including the last `/` of its path; a URL
/// without a path (a bare origin) followed by `/`.
pub open spec fn page_dir(base: Seq<char>) -> Seq<char> {
    let p = before_first(base, '?');
    let start = match find_from(p, "://"@, 0) {
        Some(i) => i + 3,
        None => 0,
    };
    match last_slash(p) {
        Some(j) => if j >= start {
            p.take(j + 1)
        } else {
            p + "/"@
        },
        None => p + "/"@,
    }
}

/// The origin `scheme://host[:port]` of a URL: the scheme before the first
/// `://`, and the host as the text after it up to the next `://` and then up
/// to the first `/`. A URL without `://` is its own origin.
pub open spec fn origin_of(url: Seq<char>) -> Seq<char> {
    match find_from(url, "://"@, 0) {
        None => url,
        Some(i) => {
            let rest = url.skip(i + 3);
            let part = match find_from(rest, "://"@, 0) {
                Some(j) => rest.take(j),
                None => rest,
            };
            url.take(i) + "://"@ + before_first(part, '/')
        },
    }
}

/// The absolute URL of a link `href` found on the page at `base`: an
/// absolute URL stays (`//host/...` gets `https:`), a root-relative path is
/// put after the page's origin, and any other path after the page's
/// directory (see [`page_dir`]).
pub open spec fn absolute_url(base: Seq<char>, href: Seq<char>) -> Seq<char> {
    if has_prefix(href, "//"@) {
        "https:"@ + href
    } else if has_prefix(href, "http://"@) || has_prefix(href, "https://"@) {
        href
    } else if has_prefix(href, "/"@) {
        origin_of(base) + href
    } else {
        page_dir(base) + href
    }
}

/// The origin of a URL (see [`origin_of`]).
pub fn origin(url: &str) -> (r: String)
    ensures
        r@ == origin_of(url@),
{
    let v = chars_of(url);
    let sep = chars_of("://");
    proof {
        reveal_strlit("://");
    }
    match find_in(&v, &sep) {
        None => owned(url),
        Some(i) => {
            let rest = string_of_range(&v, i + 3, v.len());
            proof {
                assert(rest@ =~= url@.skip(i + 3));
            }
            let rv = chars_of(rest.as_str());
            let part: Vec<char> = match find_in(&rv, &sep) {
                Some(j) => {
                    let s = string_of_range(&rv, 0, j);
                    proof {
                        assert(s@ =~= rv@.take(j as int));
                    }
                    chars_of(s.as_str())
                },
                None => rv,
            };
            let host = before_first_of(&part, '/');
            let scheme = string_of_range(&v, 0, i);
            proof {
                assert(scheme@ =~= url@.take(i as int));
            }
            let hs = string_of(&host);
            concat3(scheme.as_str(), "://", hs.as_str())
        },
    }
}

/// The absolute URL of a link on a page (see [`absolute_url`]).
pub fn absolutize_url(base: &str, href: &str) -> (r: String)
    ensures
        r@ == absolute_url(base@, href@),
{
    if starts_with(href, "//") {
        concat2("https:", href)
    } else if starts_with(href, "http://") || starts_with(href, "https://") {
        owned(href)
    } else if starts_with(href, "/") {
        let o = origin(base);
        concat2(o.as_str(), href)
    } else {
        let dir = page_directory(base);
        concat2(dir.as_str(), href)
    }
}

/// The directory of a page URL (see [`page_dir`]).
fn page_directory(base: &str) -> (r: String)
    ensures
        r@ == page_dir(base@),
{
    let v = chars_of(base);
    let p = before_first_of(&v, '?');
    let sep = chars_of("://");
    proof {
        reveal_strlit("://");
    }
    let start: usize = match find_in(&p, &sep) {
        Some(i) => i + 3,
        None => 0,
    };
    let mut n: usize = p.len();
    proof {
        assert(p@.take(p@.len() as int) =~= p@);
    }
    while n > 0 && p[n - 1] != '/'
        invariant
            n <= p@.len(),
            last_slash(p@) == last_slash(p@.take(n as int)),
        decreases n,
    {
        proof {
            assert(p@.take(n as int).drop_last() =~= p@.take(n - 1));
        }
        n -= 1;
    }
    proof {
        if n == 0 {
            assert(p@.take(0) =~= Seq::<char>::empty());
        } else {
            assert(p@.take(n as int).last() == p@[n - 1]);
        }
    }
    if n > 0 && n - 1 >= start {
        let d = string_of_range(&p, 0, n);
        proof {
            assert(d@ =~= p@.take(n as int));
        }
        d
    } else {
        let mut d = string_of(&p);
        push_char(&mut d, '/');
        proof {
            reveal_strlit("/");
            assert(d@ =~= p@ + "/"@);
        }
        d
    }
}

/// The regex by which a page declares its icon: a `<link>` whose `rel`
/// mentions `icon`, capturing its `href`.
pub const ICON_LINK_PATTERN: &'static str = "<link[^>]+rel=[\"'][^\"']*icon[^\"']*[\"'][^>]*href=[\"']([^\"']+)[\"']";

/// The name of what the `regex` crate finds for a pattern in a text:
/// `None` when the pattern does not compile, `Some(None)` when it does not
/// match, and `Some(Some(g))` with the text of capture group 1 of the first
/// match (`None` inside if that group did not take part).
pub uninterp spec fn regex_first_group(pattern: Seq<char>, haystack: Seq<char>) -> Option<Option<Seq<char>>>;

/// `Regex::new(pattern)` then `captures(haystack)` and group 1 of it, from
/// the `regex` crate; its result is named (see [`regex_first_group`]).
#[verifier::external_body]
fn first_group(pattern: &str, haystack: &str) -> (r: Option<Option<String>>)
    ensures
        match r {
            None => regex_first_group(pattern@, haystack@) is None,
            Some(None) => regex_first_group(pattern@, haystack@) == Some(None::<Seq<char>>),
            Some(Some(g)) => regex_first_group(pattern@, haystack@) == Some(Some(g@)),
        },
{
    match regex::Regex::new(pattern) {
        Ok(re) => Some(re.captures(haystack).and_then(|c| c.get(1)).map(|m| m.as_str().to_string())),
        Err(_) => None,
    }
}

/// The icon URL given what the icon pattern found on the page at `url`:
/// the `href` made absolute, or `{origin}/favicon.ico` when there is no
/// match (or an empty `href`); `None` when the pattern did not compile.
pub open spec fn icon_url_of_match(url: Seq<char>, found: Option<Option<Seq<char>>>) -> Option<Seq<char>> {
    match found {
        None => None,
        Some(Some(href)) => if href.len() > 0 {
            Some(absolute_url(url, href))
        } else {
            Some(origin_of(url) + "/favicon.ico"@)
        },
        Some(None) => Some(origin_of(url) + "/favicon.ico"@),
    }
}

/// The view of what the icon pattern found.
pub open spec fn found_view(found: Option<Option<String>>) -> Option<Option<Seq<char>>> {
    match found {
        None => None,
        Some(None) => Some(None),
        Some(Some(g)) => Some(Some(g@)),
    }
}

/// The icon URL that a page declares (see [`icon_url_of_match`] and
/// [`regex_first_group`]).
pub open spec fn page_icon_url_of(url: Seq<char>, html: Seq<char>) -> Option<Seq<char>> {
    icon_url_of_match(url, regex_first_group(ICON_LINK_PATTERN@, html))
}

/// The icon URL given what the icon pattern found (see
/// [`icon_url_of_match`]).
pub fn icon_url_from_match(url: &str, found: Option<Option<String>>) -> (r: Option<String>)
    ensures
        match r {
            Some(s) => icon_url_of_match(url@, found_view(found)) == Some(s@),
            None => icon_url_of_match(url@, found_view(found)) is None,
        },
{
    match found {
        None => None,
        Some(Some(href)) => {
            if href.as_str().is_empty() {
                let o = origin(url);
                Some(concat2(o.as_str(), "/favicon.ico"))
            } else {
                Some(absolutize_url(url, href.as_str()))
            }
        },
        Some(None) => {
            let o = origin(url);
            Some(concat2(o.as_str(), "/favicon.ico"))
        },
    }
}

/// The icon URL that the page at `url`, with text `html`, declares (see
/// [`page_icon_url_of`]).
pub fn page_icon_url(url: &str, html: &str) -> (r: Option<String>)
    ensures
        match r {
            Some(s) => page_icon_url_of(url@, html@) == Some(s@),
            None => page_icon_url_of(url@, html@) is None,
        },
{
    let found = first_group(ICON_LINK_PATTERN, html);
    proof {
        assert(found_view(found) == regex_first_group(ICON_LINK_PATTERN@, html@));
    }
    icon_url_from_match(url, found)
}

} // verus!
