//! File URLs, window titles and the text shown for a file that cannot be read.

use vstd::prelude::*;

use vstd::utf8::encode_utf8;

use crate::text::{chars_of, matches_at, starts_with};

verus! {

/// The value of an ASCII hexadecimal digit.
pub open spec fn hex_value(b: u8) -> Option<u8> {
    if 0x30 <= b <= 0x39 {
        Some((b - 0x30) as u8)
    } else if 0x61 <= b <= 0x66 {
        Some((b - 0x61 + 10) as u8)
    } else if 0x41 <= b <= 0x46 {
        Some((b - 0x41 + 10) as u8)
    } else {
        None
    }
}

/// The byte that the two characters after a `%` stand for, read as a base-16 `u8`: two
/// hexadecimal digits, or a `+` sign and one digit.
pub open spec fn escape_value(a: u8, b: u8) -> Option<u8> {
    match (hex_value(a), hex_value(b)) {
        (Some(x), Some(y)) => Some((16 * x + y) as u8),
        _ => if a == 0x2b {
            hex_value(b)
        } else {
            None
        },
    }
}

/// `b` with each `%` escape that has two more bytes after it, and that they spell, replaced
/// by the byte it stands for; every other byte is kept.
pub open spec fn percent_decoded(b: Seq<u8>) -> Seq<u8>
    decreases b.len(),
{
    if b.len() == 0 {
        Seq::empty()
    } else if b[0] == 0x25 && b.len() >= 3 && escape_value(b[1], b[2]) is Some {
        seq![escape_value(b[1], b[2])->0] + percent_decoded(b.subrange(3, b.len() as int))
    } else {
        seq![b[0]] + percent_decoded(b.drop_first())
    }
}

fn hex_digit(b: u8) -> (r: Option<u8>)
    ensures
        r == hex_value(b),
{
    if 0x30 <= b && b <= 0x39 {
        Some(b - 0x30)
    } else if 0x61 <= b && b <= 0x66 {
        Some(b - 0x61 + 10)
    } else if 0x41 <= b && b <= 0x46 {
        Some(b - 0x41 + 10)
    } else {
        None
    }
}

fn escaped_byte(a: u8, b: u8) -> (r: Option<u8>)
    ensures
        r == escape_value(a, b),
{
    match (hex_digit(a), hex_digit(b)) {
        (Some(x), Some(y)) => Some(16 * x + y),
        _ => if a == 0x2b {
            hex_digit(b)
        } else {
            None
        },
    }
}

/// Decodes the `%` escapes of `input`, as in a file URL (`%20` is a space).
pub fn percent_decode_bytes(input: &[u8]) -> (r: Vec<u8>)
    ensures
        r@ == percent_decoded(input@),
{
    let n = input.len();
    let mut r: Vec<u8> = Vec::new();
    let mut i: usize = 0;
    assert(input@.subrange(0, n as int) =~= input@);
    while i < n
        invariant
            n == input@.len(),
            i <= n,
            r@ + percent_decoded(input@.subrange(i as int, n as int)) == percent_decoded(input@),
        decreases n - i,
    {
        let ghost s = input@.subrange(i as int, n as int);
        let ghost r0 = r@;
        let mut step: usize = 1;
        let mut decoded: Option<u8> = None;
        if input[i] == 0x25 && n - i >= 3 {
            decoded = escaped_byte(input[i + 1], input[i + 2]);
        }
        match decoded {
            Some(v) => {
                r.push(v);
                step = 3;
                assert(s.subrange(3, s.len() as int) =~= input@.subrange(i + 3, n as int));
            },
            None => {
                r.push(input[i]);
                assert(s.drop_first() =~= input@.subrange(i + 1, n as int));
            },
        }
        assert(r@ + percent_decoded(input@.subrange(i + step, n as int)) =~= r0
            + percent_decoded(s));
        i = i + step;
    }
    assert(r@ + percent_decoded(input@.subrange(n as int, n as int)) =~= r@);
    r
}

/// What `String::from_utf8_lossy` gives for the bytes `b`.
pub uninterp spec fn lossy_utf8(b: Seq<u8>) -> Seq<char>;

/// Relies on `String::from_utf8_lossy`: invalid sequences become U+FFFD, and the result
/// depends on the bytes alone.
#[verifier::external_body]
fn utf8_lossy(b: &[u8]) -> (r: String)
    ensures
        r@ == lossy_utf8(b@),
{
    String::from_utf8_lossy(b).into_owned()
}

/// `input` with its `%` escapes decoded, read back as UTF-8.
pub fn percent_decode(input: &str) -> (r: String)
    ensures
        r@ == lossy_utf8(percent_decoded(encode_utf8(input@))),
{
    let decoded = percent_decode_bytes(input.as_bytes());
    utf8_lossy(decoded.as_slice())
}

/// The scheme that file URLs open with.
pub open spec fn file_scheme() -> Seq<char> {
    seq!['f', 'i', 'l', 'e', ':', '/', '/']
}

/// The path that a `file://` URL names, decoded; `None` for another kind of URL.
pub fn file_url_path(url: &str) -> (r: Option<String>)
    ensures
        r is Some <==> starts_with(url@, file_scheme()),
        r matches Some(p) ==> p@ == lossy_utf8(
            percent_decoded(encode_utf8(url@.subrange(7, url@.len() as int))),
        ),
{
    let v = chars_of(url);
    let scheme = vec!['f', 'i', 'l', 'e', ':', '/', '/'];
    assert(scheme@ =~= file_scheme());
    if matches_at(&v, &scheme, 0) {
        let rest = url.substring_char(7, v.len());
        Some(percent_decode(rest))
    } else {
        None
    }
}

/// The application's name, which heads every window title.
pub const APP_TITLE: &'static str = "MarkZap";

/// What stands between the application's name and a file name in a window title.
pub const TITLE_SEPARATOR: &'static str = " \u{2014} ";

/// Start of the text shown for an unreadable file, up to the path.
pub const READ_ERROR_OPEN: &'static str = "# Error\n\nCould not read `";

/// Between the path and the error message.
pub const READ_ERROR_MIDDLE: &'static str = "`:\n\n```\n";

/// After the error message.
pub const READ_ERROR_CLOSE: &'static str = "\n```";

/// The title of a window that shows the file `file_name`, or no file.
pub fn window_title(file_name: Option<&str>) -> (r: String)
    ensures
        file_name matches Some(n) ==> r@ == APP_TITLE@ + TITLE_SEPARATOR@ + n@,
        file_name is None ==> r@ == APP_TITLE@,
{
    let mut r = String::new();
    r.append(APP_TITLE);
    if let Some(n) = file_name {
        r.append(TITLE_SEPARATOR);
        r.append(n);
    }
    r
}

/// The markdown shown in place of a file that could not be read: a heading, the path in
/// code quotes, and the error in a code block.
pub fn read_error_markdown(path: &str, error: &str) -> (r: String)
    ensures
        r@ == READ_ERROR_OPEN@ + path@ + READ_ERROR_MIDDLE@ + error@ + READ_ERROR_CLOSE@,
{
    let mut r = String::new();
    r.append(READ_ERROR_OPEN);
    r.append(path);
    r.append(READ_ERROR_MIDDLE);
    r.append(error);
    r.append(READ_ERROR_CLOSE);
    r
}

} // verus!
