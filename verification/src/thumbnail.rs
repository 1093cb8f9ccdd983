//! Locating the desktop's cached thumbnail of a video (freedesktop.org
//! thumbnail specification: the MD5 of the file's URI names a PNG in the
//! `large` or `normal` thumbnail directory) and embedding it as a data URL.
use crate::text::{ascii_chars, ascii_string, is_ascii_bytes};
use md5::Digest;
use vstd::prelude::*;

verus! {

/// Bytes that stand for themselves in a file URI path.
pub open spec fn is_unreserved(b: u8) -> bool {
    ||| b == 0x21  // !
    ||| b == 0x24  // $
    ||| b == 0x26  // &
    ||| b == 0x27  // '
    ||| b == 0x28  // (
    ||| b == 0x29  // )
    ||| b == 0x2a  // *
    ||| b == 0x2b  // +
    ||| b == 0x2c  // ,
    ||| b == 0x2d  // -
    ||| b == 0x2e  // .
    ||| b == 0x2f  // /
    ||| b == 0x3a  // :
    ||| b == 0x3b  // ;
    ||| b == 0x3d  // =
    ||| b == 0x40  // @
    ||| b == 0x5f  // _
    ||| b == 0x7e  // ~
    ||| 0x41 <= b <= 0x5a  // A-Z
    ||| 0x61 <= b <= 0x7a  // a-z
    ||| 0x30 <= b <= 0x39  // 0-9
}

/// Upper-case hexadecimal digit of `n < 16`.
pub open spec fn hex_upper(n: u8) -> u8 {
    if n < 10 {
        (0x30 + n) as u8
    } else {
        (0x41 + n - 10) as u8
    }
}

/// Lower-case hexadecimal digit of `n < 16`.
pub open spec fn hex_lower(n: u8) -> u8 {
    if n < 10 {
        (0x30 + n) as u8
    } else {
        (0x61 + n - 10) as u8
    }
}

/// A byte of a URI path: itself when unreserved, otherwise `%` and two
/// upper-case hex digits.
pub open spec fn encode_byte(b: u8) -> Seq<u8> {
    if is_unreserved(b) {
        seq![b]
    } else {
        seq![0x25u8, hex_upper(b / 16), hex_upper(b % 16)]
    }
}

/// Percent-encoding of a path for a `file://` URI.
pub open spec fn uri_encode(s: Seq<u8>) -> Seq<u8>
    decreases s.len(),
{
    if s.len() == 0 {
        Seq::empty()
    } else {
        uri_encode(s.drop_last()) + encode_byte(s.last())
    }
}

/// Value of a hexadecimal digit, `-1` for other bytes.
pub open spec fn hex_value(c: u8) -> int {
    if 0x30 <= c <= 0x39 {
        c - 0x30
    } else if 0x41 <= c <= 0x46 {
        c - 0x41 + 10
    } else if 0x61 <= c <= 0x66 {
        c - 0x61 + 10
    } else {
        -1
    }
}

/// Percent-decoding: `%` followed by two hex digits stands for that byte,
/// any other byte for itself; `None` for a `%` not followed by two hex
/// digits.
pub open spec fn uri_decode(s: Seq<u8>) -> Option<Seq<u8>>
    decreases s.len(),
{
    if s.len() == 0 {
        Some(Seq::empty())
    } else if s[0] == 0x25 {
        if s.len() >= 3 && hex_value(s[1]) >= 0 && hex_value(s[2]) >= 0 {
            match uri_decode(s.skip(3)) {
                Some(r) => Some(seq![(hex_value(s[1]) * 16 + hex_value(s[2])) as u8] + r),
                None => None,
            }
        } else {
            None
        }
    } else {
        match uri_decode(s.drop_first()) {
            Some(r) => Some(seq![s[0]] + r),
            None => None,
        }
    }
}

pub proof fn lemma_uri_encode_concat(a: Seq<u8>, b: Seq<u8>)
    ensures
        uri_encode(a + b) == uri_encode(a) + uri_encode(b),
    decreases b.len(),
{
    if b.len() == 0 {
        assert(a + b =~= a);
        assert(uri_encode(a) + uri_encode(b) =~= uri_encode(a));
    } else {
        lemma_uri_encode_concat(a, b.drop_last());
        assert((a + b).drop_last() =~= a + b.drop_last());
        assert((a + b).last() == b.last());
        assert(uri_encode(a + b) =~= uri_encode(a) + uri_encode(b));
    }
}

/// Decoding one encoded byte in front of any text.
pub proof fn lemma_decode_encoded_byte(c: u8, rest: Seq<u8>)
    ensures
        uri_decode(encode_byte(c) + rest) == match uri_decode(rest) {
            Some(r) => Some(seq![c] + r),
            None => None::<Seq<u8>>,
        },
{
    let x = encode_byte(c) + rest;
    if is_unreserved(c) {
        assert(x[0] == c);
        assert(x.drop_first() =~= rest);
    } else {
        let hi = c / 16;
        let lo = c % 16;
        assert(hex_value(hex_upper(hi)) == hi);
        assert(hex_value(hex_upper(lo)) == lo);
        assert(x[1] == hex_upper(hi));
        assert(x[2] == hex_upper(lo));
        assert(x.skip(3) =~= rest);
        assert((hi * 16 + lo) as u8 == c);
    }
}

/// Percent-encoding loses nothing: decoding the encoded path gives the path
/// back (so distinct paths have distinct URIs).
pub proof fn lemma_uri_roundtrip(s: Seq<u8>)
    ensures
        uri_decode(uri_encode(s)) == Some(s),
    decreases s.len(),
{
    if s.len() == 0 {
        assert(uri_encode(s) =~= Seq::<u8>::empty());
    } else {
        let head = seq![s[0]];
        let tail = s.drop_first();
        assert(s =~= head + tail);
        lemma_uri_encode_concat(head, tail);
        assert(head.drop_last() =~= Seq::<u8>::empty());
        assert(uri_encode(head.drop_last()) =~= Seq::<u8>::empty());
        assert(head.last() == s[0]);
        assert(uri_encode(head) =~= encode_byte(s[0]));
        lemma_uri_roundtrip(tail);
        lemma_decode_encoded_byte(s[0], uri_encode(tail));
        assert(seq![s[0]] + tail =~= s);
    }
}

/// Two lower-case hex digits per byte.
pub open spec fn hex_bytes(s: Seq<u8>) -> Seq<u8>
    decreases s.len(),
{
    if s.len() == 0 {
        Seq::empty()
    } else {
        hex_bytes(s.drop_last()) + seq![hex_lower(s.last() / 16), hex_lower(s.last() % 16)]
    }
}

pub proof fn lemma_uri_encode_ascii(s: Seq<u8>)
    ensures
        is_ascii_bytes(uri_encode(s)),
    decreases s.len(),
{
    if s.len() > 0 {
        lemma_uri_encode_ascii(s.drop_last());
        let t = uri_encode(s);
        let u = uri_encode(s.drop_last());
        assert forall|i: int| 0 <= i < t.len() implies #[trigger] t[i] < 0x80 by {
            if i < u.len() {
                assert(t[i] == u[i]);
            }
        }
    }
}

pub proof fn lemma_hex_bytes_ascii(s: Seq<u8>)
    ensures
        is_ascii_bytes(hex_bytes(s)),
        hex_bytes(s).len() == 2 * s.len(),
    decreases s.len(),
{
    if s.len() > 0 {
        lemma_hex_bytes_ascii(s.drop_last());
        let t = hex_bytes(s);
        let u = hex_bytes(s.drop_last());
        assert forall|i: int| 0 <= i < t.len() implies #[trigger] t[i] < 0x80 by {
            if i < u.len() {
                assert(t[i] == u[i]);
            }
        }
    }
}

fn hex_upper_exec(n: u8) -> (r: u8)
    requires
        n < 16,
    ensures
        r == hex_upper(n),
{
    if n < 10 {
        0x30 + n
    } else {
        0x41 + n - 10
    }
}

fn hex_lower_exec(n: u8) -> (r: u8)
    requires
        n < 16,
    ensures
        r == hex_lower(n),
{
    if n < 10 {
        0x30 + n
    } else {
        0x61 + n - 10
    }
}

/// Percent-encodes the UTF-8 bytes of `path` for a `file://` URI.
pub fn encode_uri_path(path: &str) -> (r: String)
    ensures
        r@ == ascii_chars(uri_encode(vstd::utf8::encode_utf8(path@))),
{
    let bytes = path.as_bytes();
    let n = bytes.len();
    let mut out: Vec<u8> = Vec::new();
    let mut i: usize = 0;
    while i < n
        invariant
            n == bytes@.len(),
            bytes@ == vstd::utf8::encode_utf8(path@),
            i <= n,
            out@ == uri_encode(bytes@.take(i as int)),
        decreases n - i,
    {
        let b = bytes[i];
        assert(bytes@.take(i + 1).drop_last() =~= bytes@.take(i as int));
        assert(bytes@.take(i + 1).last() == b);
        let ghost before = out@;
        if b == 0x20 {
            out.push(0x25);
            out.push(0x32);
            out.push(0x30);
        } else if b == 0x21 || b == 0x24 || b == 0x26 || b == 0x27 || b == 0x28 || b == 0x29 || b
            == 0x2a || b == 0x2b || b == 0x2c || b == 0x2d || b == 0x2e || b == 0x2f || b == 0x3a
            || b == 0x3b || b == 0x3d || b == 0x40 || b == 0x5f || b == 0x7e || (0x41 <= b && b
            <= 0x5a) || (0x61 <= b && b <= 0x7a) || (0x30 <= b && b <= 0x39) {
            out.push(b);
        } else {
            out.push(0x25);
            out.push(hex_upper_exec(b / 16));
            out.push(hex_upper_exec(b % 16));
        }
        assert(out@ =~= before + encode_byte(b));
        i = i + 1;
    }
    assert(bytes@.take(n as int) =~= bytes@);
    proof {
        lemma_uri_encode_ascii(bytes@);
    }
    ascii_string(out)
}

/// The digest of `data` under MD5.
pub uninterp spec fn md5_digest(data: Seq<u8>) -> Seq<u8>;

/// `md5::Md5::digest` (RustCrypto `md-5`). Claimed: the result is a
/// function of the input (named `md5_digest`) and is 16 bytes long.
#[verifier::external_body]
fn md5_of(data: &[u8]) -> (d: Vec<u8>)
    ensures
        d@ == md5_digest(data@),
        d@.len() == 16,
{
    md5::Md5::digest(data).to_vec()
}

/// Lower-case hex text of `d` (what `format!("{:x}", digest)` gives).
pub fn hex_string(d: &Vec<u8>) -> (r: String)
    ensures
        r@ == ascii_chars(hex_bytes(d@)),
{
    let n = d.len();
    let mut out: Vec<u8> = Vec::new();
    let mut i: usize = 0;
    while i < n
        invariant
            n == d@.len(),
            i <= n,
            out@ == hex_bytes(d@.take(i as int)),
        decreases n - i,
    {
        let b = d[i];
        assert(d@.take(i + 1).drop_last() =~= d@.take(i as int));
        assert(d@.take(i + 1).last() == b);
        let ghost before = out@;
        out.push(hex_lower_exec(b / 16));
        out.push(hex_lower_exec(b % 16));
        assert(out@ =~= before + seq![hex_lower(b / 16), hex_lower(b % 16)]);
        i = i + 1;
    }
    assert(d@.take(n as int) =~= d@);
    proof {
        lemma_hex_bytes_ascii(d@);
    }
    ascii_string(out)
}

/// The `file://` URI of a video.
pub open spec fn file_uri(path: &str) -> Seq<char> {
    "file://"@ + ascii_chars(uri_encode(vstd::utf8::encode_utf8(path@)))
}

/// Name of the cached thumbnail of the video at `path`: the hex MD5 of its
/// URI's UTF-8 bytes, with `.png`.
pub open spec fn thumbnail_file_name(path: &str) -> Seq<char> {
    ascii_chars(hex_bytes(md5_digest(vstd::utf8::encode_utf8(file_uri(path))))) + ".png"@
}

/// `base` joined with the relative component `comp` (`PathBuf::join`):
/// a `/` is put between them unless `base` is empty or already ends in one.
pub open spec fn path_join(base: Seq<char>, comp: Seq<char>) -> Seq<char> {
    if base.len() == 0 || base.last() == '/' {
        base + comp
    } else {
        base + seq!['/'] + comp
    }
}

fn join(base: &String, comp: &str) -> (r: String)
    ensures
        r@ == path_join(base@, comp@),
{
    let n = base.as_str().unicode_len();
    let mut r = base.clone();
    if n > 0 && base.as_str().get_char(n - 1) != '/' {
        r.append("/");
        proof {
            reveal_strlit("/");
        }
    }
    r.append(comp);
    assert(r@ =~= path_join(base@, comp@));
    r
}

/// Candidate locations of the thumbnail of the video at `video_path`
/// under the cache directory `cache_dir`: the large one first, then the
/// normal one.
pub fn thumbnail_candidates(cache_dir: &String, video_path: &str) -> (r: Vec<String>)
    ensures
        r@.len() == 2,
        r@[0]@ == path_join(
            path_join(path_join(cache_dir@, "thumbnails"@), "large"@),
            thumbnail_file_name(video_path),
        ),
        r@[1]@ == path_join(
            path_join(path_join(cache_dir@, "thumbnails"@), "normal"@),
            thumbnail_file_name(video_path),
        ),
{
    let mut uri = String::from_str("file://");
    let encoded = encode_uri_path(video_path);
    uri.append(encoded.as_str());
    let digest = md5_of(uri.as_str().as_bytes());
    let mut name = hex_string(&digest);
    name.append(".png");
    let base = join(cache_dir, "thumbnails");
    let large_dir = join(&base, "large");
    let normal_dir = join(&base, "normal");
    let large = join(&large_dir, name.as_str());
    let normal = join(&normal_dir, name.as_str());
    let mut r: Vec<String> = Vec::new();
    r.push(large);
    r.push(normal);
    r
}

/// Digit `n < 64` of the standard Base64 alphabet `A-Z a-z 0-9 + /`.
pub open spec fn b64_digit(n: int) -> char {
    if n < 26 {
        (0x41 + n) as char
    } else if n < 52 {
        (0x61 + n - 26) as char
    } else if n < 62 {
        (0x30 + n - 52) as char
    } else if n == 62 {
        '+'
    } else {
        '/'
    }
}

/// Base64 (standard alphabet, padded) text of `data`: each group of three
/// bytes gives four digits of six bits each; a last group of one or two
/// bytes gives two or three digits (low bits zero) followed by `'='`s.
pub open spec fn base64_standard(data: Seq<u8>) -> Seq<char>
    decreases data.len(),
{
    if data.len() == 0 {
        Seq::empty()
    } else if data.len() == 1 {
        let a = data[0] as int;
        seq![b64_digit(a / 4), b64_digit((a % 4) * 16), '=', '=']
    } else if data.len() == 2 {
        let a = data[0] as int;
        let b = data[1] as int;
        seq![b64_digit(a / 4), b64_digit((a % 4) * 16 + b / 16), b64_digit((b % 16) * 4), '=']
    } else {
        let a = data[0] as int;
        let b = data[1] as int;
        let c = data[2] as int;
        seq![
            b64_digit(a / 4),
            b64_digit((a % 4) * 16 + b / 16),
            b64_digit((b % 16) * 4 + c / 64),
            b64_digit(c % 64),
        ] + base64_standard(data.subrange(3, data.len() as int))
    }
}

/// `base64::Engine::encode` with `base64::engine::general_purpose::STANDARD`
/// (standard alphabet, with padding). Claimed: the text is exactly
/// `base64_standard(data)`. The length bound keeps the encoder's size
/// computation from overflowing, on which it panics.
#[verifier::external_body]
fn base64_encode(data: &[u8]) -> (s: String)
    requires
        data@.len() <= isize::MAX,
    ensures
        s@ == base64_standard(data@),
{
    base64::Engine::encode(&base64::engine::general_purpose::STANDARD, data)
}

/// A `data:` URL embedding PNG bytes.
pub fn png_data_url(data: &Vec<u8>) -> (r: String)
    requires
        data@.len() <= isize::MAX,
    ensures
        r@ == "data:image/png;base64,"@ + base64_standard(data@),
{
    let mut r = String::from_str("data:image/png;base64,");
    let b64 = base64_encode(data.as_slice());
    r.append(b64.as_str());
    r
}

} // verus!
