//! Assembling the final request URL: named query parameters, percent
//! encoding of their values, and the validity check of the assembled text.

use vstd::prelude::*;

use crate::auth::AuthDetails;
use crate::error::Error;
use crate::text::dec_digits;
use crate::text::digit_char;
use crate::text::push_char;

verus! {

/// One named query parameter. The names the library sends are fixed
/// unreserved strings; the value is percent-encoded when the URL is
/// rendered.
#[derive(Clone, Debug)]
pub struct QueryParam {
    pub name: String,
    pub value: String,
}

impl View for QueryParam {
    type V = (Seq<char>, Seq<char>);

    open spec fn view(&self) -> (Seq<char>, Seq<char>) {
        (self.name@, self.value@)
    }
}

impl QueryParam {
    /// Pairs a parameter name with its raw, not yet encoded, value.
    pub fn new(name: &str, value: String) -> (r: QueryParam)
        ensures
            r@ == (name@, value@),
    {
        QueryParam { name: name.to_owned(), value }
    }
}

// ---------------------------------------------------------------------------
// Percent encoding
// ---------------------------------------------------------------------------

/// The characters that stand for themselves in an encoded value.
pub open spec fn is_unreserved(c: char) -> bool {
    ('a' <= c && c <= 'z') || ('A' <= c && c <= 'Z') || ('0' <= c && c <= '9') || c == '-' || c
        == '_' || c == '.' || c == '~'
}

/// The uppercase hexadecimal digit for a value below 16.
pub open spec fn hex_char(d: nat) -> char {
    if d < 10 {
        digit_char(d)
    } else if d == 10 {
        'A'
    } else if d == 11 {
        'B'
    } else if d == 12 {
        'C'
    } else if d == 13 {
        'D'
    } else if d == 14 {
        'E'
    } else {
        'F'
    }
}

/// One byte written as a percent escape: `%` and two hexadecimal digits.
pub open spec fn pct_byte(b: nat) -> Seq<char> {
    seq!['%', hex_char(b / 16), hex_char(b % 16)]
}

/// The UTF-8 bytes of one character, as arithmetic on its code point.
pub open spec fn utf8_bytes(c: char) -> Seq<nat> {
    let n = c as nat;
    if n < 0x80 {
        seq![n]
    } else if n < 0x800 {
        seq![0xC0 + n / 64, 0x80 + n % 64]
    } else if n < 0x10000 {
        seq![0xE0 + n / 4096, 0x80 + (n / 64) % 64, 0x80 + n % 64]
    } else {
        seq![0xF0 + n / 262144, 0x80 + (n / 4096) % 64, 0x80 + (n / 64) % 64, 0x80 + n % 64]
    }
}

/// A run of bytes written as percent escapes.
pub open spec fn pct_bytes(bs: Seq<nat>) -> Seq<char>
    decreases bs.len(),
{
    if bs.len() == 0 {
        Seq::<char>::empty()
    } else {
        pct_bytes(bs.drop_last()) + pct_byte(bs.last())
    }
}

/// How one character of a value appears in the URL: unreserved characters
/// stand for themselves, every other character as the percent escapes of
/// its UTF-8 bytes.
pub open spec fn enc_char(c: char) -> Seq<char> {
    if is_unreserved(c) {
        seq![c]
    } else {
        pct_bytes(utf8_bytes(c))
    }
}

/// A whole value percent-encoded, character by character.
pub open spec fn enc_text(s: Seq<char>) -> Seq<char>
    decreases s.len(),
{
    if s.len() == 0 {
        Seq::<char>::empty()
    } else {
        enc_text(s.drop_last()) + enc_char(s.last())
    }
}

/// The uppercase hexadecimal digit character for a value below 16.
fn hex_char_of(d: u32) -> (c: char)
    requires
        d < 16,
    ensures
        c == hex_char(d as nat),
{
    if d == 0 {
        '0'
    } else if d == 1 {
        '1'
    } else if d == 2 {
        '2'
    } else if d == 3 {
        '3'
    } else if d == 4 {
        '4'
    } else if d == 5 {
        '5'
    } else if d == 6 {
        '6'
    } else if d == 7 {
        '7'
    } else if d == 8 {
        '8'
    } else if d == 9 {
        '9'
    } else if d == 10 {
        'A'
    } else if d == 11 {
        'B'
    } else if d == 12 {
        'C'
    } else if d == 13 {
        'D'
    } else if d == 14 {
        'E'
    } else {
        'F'
    }
}

/// Appends the percent escape of one byte value.
fn append_pct_byte(t: &mut String, b: u32)
    requires
        b < 256,
    ensures
        final(t)@ == old(t)@ + pct_byte(b as nat),
{
    push_char(t, '%');
    push_char(t, hex_char_of(b / 16));
    push_char(t, hex_char_of(b % 16));
    proof {
        assert(t@ =~= old(t)@ + pct_byte(b as nat));
    }
}

/// Appends the URL form of one character of a value.
fn append_enc_char(t: &mut String, c: char)
    ensures
        final(t)@ == old(t)@ + enc_char(c),
{
    let unreserved = (c >= 'a' && c <= 'z') || (c >= 'A' && c <= 'Z') || (c >= '0' && c <= '9')
        || c == '-' || c == '_' || c == '.' || c == '~';
    if unreserved {
        push_char(t, c);
        proof {
            assert(t@ =~= old(t)@ + enc_char(c));
        }
        return ;
    }
    let n = c as u32;
    let ghost bs = utf8_bytes(c);
    proof {
        assert(!is_unreserved(c));
        assert(n as nat == c as nat);
    }
    if n < 0x80 {
        append_pct_byte(t, n);
        proof {
            assert(bs.drop_last() =~= Seq::<nat>::empty());
            assert(pct_bytes(bs.drop_last()) =~= Seq::<char>::empty());
            assert(bs.last() == n as nat);
            assert(pct_bytes(bs) =~= pct_byte(n as nat));
            assert(t@ =~= old(t)@ + enc_char(c));
        }
    } else if n < 0x800 {
        append_pct_byte(t, 0xC0 + n / 64);
        append_pct_byte(t, 0x80 + n % 64);
        proof {
            assert(bs.drop_last().drop_last() =~= Seq::<nat>::empty());
            assert(pct_bytes(bs.drop_last().drop_last()) =~= Seq::<char>::empty());
            assert(bs.drop_last() =~= seq![(0xC0 + n / 64) as nat]);
            assert(pct_bytes(bs.drop_last()) =~= pct_byte((0xC0 + n / 64) as nat));
            assert(bs.last() == (0x80 + n % 64) as nat);
            assert(pct_bytes(bs) =~= pct_byte((0xC0 + n / 64) as nat) + pct_byte(
                (0x80 + n % 64) as nat,
            ));
            assert(t@ =~= old(t)@ + enc_char(c));
        }
    } else if n < 0x10000 {
        append_pct_byte(t, 0xE0 + n / 4096);
        append_pct_byte(t, 0x80 + (n / 64) % 64);
        append_pct_byte(t, 0x80 + n % 64);
        proof {
            assert(bs.drop_last().drop_last().drop_last() =~= Seq::<nat>::empty());
            assert(pct_bytes(bs.drop_last().drop_last().drop_last()) =~= Seq::<char>::empty());
            assert(bs.drop_last().drop_last() =~= seq![(0xE0 + n / 4096) as nat]);
            assert(pct_bytes(bs.drop_last().drop_last()) =~= pct_byte((0xE0 + n / 4096) as nat));
            assert(bs.drop_last() =~= seq![(0xE0 + n / 4096) as nat, (0x80 + (n / 64) % 64) as nat]);
            assert(pct_bytes(bs.drop_last()) =~= pct_byte((0xE0 + n / 4096) as nat) + pct_byte(
                (0x80 + (n / 64) % 64) as nat,
            ));
            assert(bs.last() == (0x80 + n % 64) as nat);
            assert(pct_bytes(bs) =~= pct_bytes(bs.drop_last()) + pct_byte((0x80 + n % 64) as nat));
            assert(t@ =~= old(t)@ + enc_char(c));
        }
    } else {
        append_pct_byte(t, 0xF0 + n / 262144);
        append_pct_byte(t, 0x80 + (n / 4096) % 64);
        append_pct_byte(t, 0x80 + (n / 64) % 64);
        append_pct_byte(t, 0x80 + n % 64);
        proof {
            assert(bs.drop_last().drop_last().drop_last().drop_last() =~= Seq::<nat>::empty());
            assert(pct_bytes(bs.drop_last().drop_last().drop_last().drop_last())
                =~= Seq::<char>::empty());
            assert(bs.drop_last().drop_last().drop_last() =~= seq![(0xF0 + n / 262144) as nat]);
            assert(pct_bytes(bs.drop_last().drop_last().drop_last()) =~= pct_byte(
                (0xF0 + n / 262144) as nat,
            ));
            assert(bs.drop_last().drop_last() =~= seq![
                (0xF0 + n / 262144) as nat,
                (0x80 + (n / 4096) % 64) as nat,
            ]);
            assert(pct_bytes(bs.drop_last().drop_last()) =~= pct_byte((0xF0 + n / 262144) as nat)
                + pct_byte((0x80 + (n / 4096) % 64) as nat));
            assert(bs.drop_last() =~= seq![
                (0xF0 + n / 262144) as nat,
                (0x80 + (n / 4096) % 64) as nat,
                (0x80 + (n / 64) % 64) as nat,
            ]);
            assert(pct_bytes(bs.drop_last()) =~= pct_bytes(bs.drop_last().drop_last()) + pct_byte(
                (0x80 + (n / 64) % 64) as nat,
            ));
            assert(bs.last() == (0x80 + n % 64) as nat);
            assert(pct_bytes(bs) =~= pct_bytes(bs.drop_last()) + pct_byte((0x80 + n % 64) as nat));
            assert(t@ =~= old(t)@ + enc_char(c));
        }
    }
}

/// Percent-encodes a whole value.
pub fn encode_value(s: &str) -> (r: String)
    ensures
        r@ == enc_text(s@),
{
    let len = s.unicode_len();
    let mut r = String::new();
    let mut i: usize = 0;
    proof {
        assert(r@ =~= enc_text(s@.take(0)));
    }
    while i < len
        invariant
            0 <= i <= len,
            len == s@.len(),
            r@ == enc_text(s@.take(i as int)),
        decreases len - i,
    {
        let c = s.get_char(i);
        append_enc_char(&mut r, c);
        proof {
            assert(s@.take(i + 1).drop_last() =~= s@.take(i as int));
            assert(s@.take(i + 1).last() == c);
        }
        i += 1;
    }
    proof {
        assert(s@.take(len as int) =~= s@);
    }
    r
}

// ---------------------------------------------------------------------------
// URL rendering
// ---------------------------------------------------------------------------

/// The fixed base of every request URL: the endpoint with its protocol
/// selectors already in place.
pub open spec fn base_url_chars() -> Seq<char> {
    "https://gelbooru.com/index.php?page=dapi&q=index&json=1"@
}

/// The fixed base of every request URL.
pub fn base_url() -> (r: &'static str)
    ensures
        r@ == base_url_chars(),
{
    "https://gelbooru.com/index.php?page=dapi&q=index&json=1"
}

/// Every parameter appended in order as `&name=value`, names verbatim,
/// values percent-encoded.
pub open spec fn rendered_params(ps: Seq<(Seq<char>, Seq<char>)>) -> Seq<char>
    decreases ps.len(),
{
    if ps.len() == 0 {
        Seq::<char>::empty()
    } else {
        rendered_params(ps.drop_last()) + seq!['&'] + ps.last().0 + seq!['='] + enc_text(
            ps.last().1,
        )
    }
}

/// The credential parameters appended when credentials are present.
pub open spec fn auth_params(auth: Option<AuthDetails>) -> Seq<(Seq<char>, Seq<char>)> {
    match auth {
        None => Seq::<(Seq<char>, Seq<char>)>::empty(),
        Some(a) => seq![("user_id"@, dec_digits(a.user as nat)), ("api_key"@, a.key@)],
    }
}

/// The complete request URL for the given parameters and credentials.
pub open spec fn url_of(ps: Seq<(Seq<char>, Seq<char>)>, auth: Option<AuthDetails>) -> Seq<char> {
    base_url_chars() + rendered_params(ps + auth_params(auth))
}

/// Renders the complete request URL, injecting the credential parameters
/// when credentials are present.
pub fn render_url(params: &Vec<QueryParam>, auth: &Option<AuthDetails>) -> (r: String)
    ensures
        r@ == url_of(params@.map_values(|p: QueryParam| p@), *auth),
{
    let mut all: Vec<QueryParam> = Vec::new();
    let ghost pv = params@.map_values(|p: QueryParam| p@);
    let mut i: usize = 0;
    while i < params.len()
        invariant
            0 <= i <= params.len(),
            pv == params@.map_values(|p: QueryParam| p@),
            pv.len() == params.len(),
            all@.map_values(|p: QueryParam| p@) =~= pv.take(i as int),
        decreases params.len() - i,
    {
        let p = QueryParam::new(params[i].name.as_str(), params[i].value.clone());
        proof {
            assert(p@ == pv[i as int]);
        }
        let ghost prev_map = all@.map_values(|q: QueryParam| q@);
        all.push(p);
        proof {
            assert(all@.map_values(|q: QueryParam| q@) =~= prev_map.push(pv[i as int]));
            assert(prev_map.push(pv[i as int]) =~= pv.take(i + 1));
        }
        i += 1;
    }
    proof {
        assert(pv.take(params.len() as int) =~= pv);
    }
    match auth {
        Some(a) => {
            all.push(QueryParam::new("user_id", crate::text::usize_to_dec(a.user)));
            all.push(QueryParam::new("api_key", a.key.clone()));
            proof {
                assert(all@.map_values(|p: QueryParam| p@) =~= pv + auth_params(*auth));
            }
        },
        None => {
            proof {
                assert(all@.map_values(|p: QueryParam| p@) =~= pv + auth_params(*auth));
            }
        },
    }
    let mut r = base_url().to_owned();
    let ghost av = all@.map_values(|p: QueryParam| p@);
    let mut j: usize = 0;
    proof {
        assert(r@ =~= base_url_chars() + rendered_params(av.take(0)));
    }
    while j < all.len()
        invariant
            0 <= j <= all.len(),
            av == all@.map_values(|p: QueryParam| p@),
            av.len() == all.len(),
            r@ == base_url_chars() + rendered_params(av.take(j as int)),
        decreases all.len() - j,
    {
        push_char(&mut r, '&');
        r.append(all[j].name.as_str());
        push_char(&mut r, '=');
        let enc = encode_value(all[j].value.as_str());
        r.append(enc.as_str());
        proof {
            assert(av.take(j + 1).drop_last() =~= av.take(j as int));
            assert(av.take(j + 1).last() == av[j as int]);
            assert(r@ =~= base_url_chars() + rendered_params(av.take(j + 1)));
        }
        j += 1;
    }
    proof {
        assert(av.take(all.len() as int) =~= av);
    }
    r
}

// ---------------------------------------------------------------------------
// URL validity
// ---------------------------------------------------------------------------

/// Whether the HTTP client's URI grammar accepts the text; the outcome
/// depends on the text alone.
pub uninterp spec fn uri_ok(s: Seq<char>) -> bool;

/// Relies on `http::Uri::try_from(&str)`: it parses the text by its URI
/// grammar and its outcome is a function of the text alone.
#[verifier::external_body]
fn check_uri(s: &str) -> (b: bool)
    ensures
        b == uri_ok(s@),
{
    http::Uri::try_from(s).is_ok()
}

/// Accepts exactly the texts the HTTP client's URI grammar accepts.
pub fn validate_url(s: &str) -> (r: Result<(), Error>)
    ensures
        r is Ok <==> uri_ok(s@),
        r matches Err(e) ==> e == Error::UrlConstruction,
{
    if check_uri(s) {
        Ok(())
    } else {
        Err(Error::UrlConstruction)
    }
}

/// Renders the complete request URL and accepts it exactly when the HTTP
/// client's URI grammar does.
pub fn build_url(params: &Vec<QueryParam>, auth: &Option<AuthDetails>) -> (r: Result<String, Error>)
    ensures
        uri_ok(url_of(params@.map_values(|p: QueryParam| p@), *auth)) <==> r is Ok,
        r matches Ok(u) ==> u@ == url_of(params@.map_values(|p: QueryParam| p@), *auth),
        r matches Err(e) ==> e == Error::UrlConstruction,
{
    let u = render_url(params, auth);
    match validate_url(u.as_str()) {
        Ok(()) => Ok(u),
        Err(e) => Err(e),
    }
}

} // verus!
