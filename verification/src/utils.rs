use rand::Rng;
use vstd::prelude::*;

verus! {

/// Length of every generated short code.
pub const SHORT_CODE_LENGTH: usize = 6;

/// Size of the code alphabet: 26 lowercase letters, 26 uppercase letters and
/// 10 digits.
pub const ALPHABET_SIZE: u8 = 62;

/// A character that may appear in a short code: an ASCII letter or digit.
pub open spec fn is_code_char(c: char) -> bool {
    ||| 'a' as int <= c as int <= 'z' as int
    ||| 'A' as int <= c as int <= 'Z' as int
    ||| '0' as int <= c as int <= '9' as int
}

/// The code alphabet, by position: 0..26 are the lowercase letters in order,
/// 26..52 the uppercase letters, 52..62 the digits.
pub open spec fn alphabet_char(i: int) -> char {
    if 0 <= i < 26 {
        ('a' as int + i) as char
    } else if 26 <= i < 52 {
        ('A' as int + (i - 26)) as char
    } else {
        ('0' as int + (i - 52)) as char
    }
}

/// A well-formed short code: exactly `SHORT_CODE_LENGTH` characters, all from
/// the code alphabet.
pub open spec fn is_code(s: Seq<char>) -> bool {
    &&& s.len() == SHORT_CODE_LENGTH
    &&& forall|i: int| 0 <= i < s.len() ==> is_code_char(#[trigger] s[i])
}

/// Relies on `str`'s `PartialEq` implementation: two string slices are equal
/// exactly when their character sequences are.
#[verifier::external_body]
pub(crate) fn str_eq(a: &str, b: &str) -> (r: bool)
    ensures
        r == (a@ == b@),
{
    a == b
}

/// Relies on `rand::thread_rng` and `rand::Rng::gen_range`: returns a value
/// uniformly distributed in `0..bound`; the range is non-empty, so the call
/// does not panic. Nothing beyond the bound can be promised of a random draw.
#[verifier::external_body]
fn random_index(bound: u8) -> (r: u8)
    requires
        bound > 0,
    ensures
        r < bound,
{
    rand::thread_rng().gen_range(0..bound)
}

/// Relies on `String`'s `FromIterator<char>` implementation: collecting
/// yields exactly the characters of the vector, in order.
#[verifier::external_body]
fn chars_to_string(chars: Vec<char>) -> (r: String)
    ensures
        r@ == chars@,
{
    chars.into_iter().collect()
}

/// The alphabet position `idx` as a character.
fn code_char(idx: u8) -> (c: char)
    requires
        idx < ALPHABET_SIZE,
    ensures
        c == alphabet_char(idx as int),
        is_code_char(c),
{
    let b: u8 = if idx < 26 {
        97 + idx
    } else if idx < 52 {
        65 + (idx - 26)
    } else {
        48 + (idx - 52)
    };
    b as char
}

/// Whether `s` parses as an absolute URL.
pub uninterp spec fn url_parses(s: Seq<char>) -> bool;

/// The scheme of the URL that `s` parses to, in its lowercase normal form.
pub uninterp spec fn url_scheme(s: Seq<char>) -> Seq<char>;

/// Whether the URL that `s` parses to has a host.
pub uninterp spec fn url_host_present(s: Seq<char>) -> bool;

/// The canonical string form of the URL that `s` parses to.
pub uninterp spec fn url_canonical(s: Seq<char>) -> Seq<char>;

/// The parts of a parsed URL that validation reads, as plain values.
pub struct ParsedUrl {
    pub scheme: String,
    pub has_host: bool,
    pub normalized: String,
}

/// Relies on `url::Url::parse` (which succeeds exactly on strings that parse
/// as absolute URLs), and on `url::Url::scheme`, `url::Url::host_str` and
/// `url::Url`'s `Display` for the extracted parts; each is a pure function
/// of the input string.
#[verifier::external_body]
fn parse_url(s: &str) -> (r: Option<ParsedUrl>)
    ensures
        r is Some <==> url_parses(s@),
        r is Some ==> {
            &&& r->0.scheme@ == url_scheme(s@)
            &&& r->0.has_host <==> url_host_present(s@)
            &&& r->0.normalized@ == url_canonical(s@)
        },
{
    match url::Url::parse(s) {
        Ok(u) => Some(ParsedUrl {
            scheme: u.scheme().to_string(),
            has_host: u.host_str().is_some(),
            normalized: u.to_string(),
        }),
        Err(_) => None,
    }
}

/// The scheme is one this service accepts.
pub open spec fn scheme_allowed(s: Seq<char>) -> bool {
    url_scheme(s) == "http"@ || url_scheme(s) == "https"@
}

/// Validate a long URL before allocation: it must parse as an absolute URL,
/// use the `http` or `https` scheme, and name a host. On success the
/// canonical string form of the URL is returned — that is what gets stored.
/// Each rejection reports the first rule the input breaks.
pub fn validate_url(url_str: &str) -> (r: Result<String, String>)
    ensures
        r is Ok <==> url_parses(url_str@) && scheme_allowed(url_str@) && url_host_present(
            url_str@,
        ),
        r is Ok ==> r->Ok_0@ == url_canonical(url_str@),
        !url_parses(url_str@) ==> (r matches Err(e) && e@ == "Invalid URL format"@),
        url_parses(url_str@) && !scheme_allowed(url_str@) ==> (r matches Err(e) && e@
            == "URL must use http or https scheme"@),
        url_parses(url_str@) && scheme_allowed(url_str@) && !url_host_present(url_str@) ==> (
        r matches Err(e) && e@ == "URL must have a valid host"@),
{
    match parse_url(url_str) {
        Some(parsed) => {
            if !str_eq(parsed.scheme.as_str(), "http") && !str_eq(parsed.scheme.as_str(), "https")
            {
                return Err("URL must use http or https scheme".to_owned());
            }
            if !parsed.has_host {
                return Err("URL must have a valid host".to_owned());
            }
            Ok(parsed.normalized)
        },
        None => Err("Invalid URL format".to_owned()),
    }
}

/// Produce a fresh candidate short code: `SHORT_CODE_LENGTH` characters, each
/// drawn independently at random from the 62-character alphabet. Stateless:
/// repeats across calls are possible and are the allocator's concern.
pub fn generate_short_code() -> (r: String)
    ensures
        is_code(r@),
{
    let mut chars: Vec<char> = Vec::new();
    let mut i: usize = 0;
    while i < SHORT_CODE_LENGTH
        invariant
            i <= SHORT_CODE_LENGTH,
            chars@.len() == i,
            forall|k: int| 0 <= k < i as int ==> is_code_char(#[trigger] chars@[k]),
        decreases SHORT_CODE_LENGTH - i,
    {
        let idx = random_index(ALPHABET_SIZE);
        chars.push(code_char(idx));
        i = i + 1;
    }
    chars_to_string(chars)
}

} // verus!
