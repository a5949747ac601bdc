//! The InfluxDB endpoint: where a sample is written to, with what
//! credentials, in which words, and what the endpoint's answer means.
//!
//! A write is one HTTP `POST` to the base URL followed by `/api/v2/write`,
//! with the organisation, the bucket and the precision as its query, the
//! token in its `Authorization` header, and the sample as one line of line
//! protocol in its body. It is made up here as a [`WriteRequest`] and sent by the caller,
//! once; [`DeliveryOutcome::classify`] says what came of it.

use vstd::prelude::*;
use vstd::string::StrSliceExecFns;
use vstd::string::StringExecFns;
use vstd::string::StringSliceAdditionalSpecFns;
use vstd::utf8::{encode_scalar, encode_utf8, has_width_1_encoding};

use reqwest::header::HeaderValue;
use reqwest::Url;

use crate::datum::Datum;
use crate::decimal::{decimal, to_decimal};
use crate::error::Error;

verus! {

/// What `reqwest::Url::parse` makes of a text: the URL, written out as
/// `Url::as_str` gives it, or nothing where the text is no absolute URL.
pub uninterp spec fn parsed_url(text: Seq<char>) -> Option<Seq<char>>;

/// What `reqwest::Url::join` makes of a reference read against the URL that
/// a text parses to: the URL referred to, written out as `Url::as_str` gives
/// it. Nothing where the text is no absolute URL, or the two give no URL.
pub uninterp spec fn joined_url(base: Seq<char>, reference: Seq<char>) -> Option<Seq<char>>;

/// Calls `reqwest::Url::parse` and hands the URL that it gives back as its
/// text. Nothing comes back where the parser refuses `text`.
///
/// Taken on trust: what comes back depends on the text alone, so that
/// [`parsed_url`] can stand for it. Nothing more is claimed of it.
#[verifier::external_body]
fn parse_url(text: &str) -> (url: Option<String>)
    ensures
        match url {
            Some(url) => parsed_url(text@) == Some(url@),
            None => parsed_url(text@) is None,
        },
{
    Url::parse(text).ok().map(String::from)
}

/// Calls `reqwest::Url::join` on the URL that `base` parses to, and hands the
/// URL that it gives back as its text. Nothing comes back where `base` does
/// not parse or the join fails.
///
/// Taken on trust: what comes back depends on the two texts alone, so that
/// [`joined_url`] can stand for it. Nothing more is claimed of it.
#[verifier::external_body]
fn join_url(base: &str, reference: &str) -> (url: Option<String>)
    ensures
        match url {
            Some(url) => joined_url(base@, reference@) == Some(url@),
            None => joined_url(base@, reference@) is None,
        },
{
    Url::parse(base).ok()?.join(reference).ok().map(String::from)
}

/// Whether a byte may stand in the value of an HTTP header: a tab, or
/// anything from the space upwards but the delete character.
pub open spec fn header_byte_ok(byte: u8) -> bool {
    (byte >= 32 && byte != 127) || byte == 9
}

/// Whether every byte may stand in the value of an HTTP header.
pub open spec fn header_bytes_ok(bytes: Seq<u8>) -> bool {
    forall|i: int| 0 <= i < bytes.len() ==> header_byte_ok(#[trigger] bytes[i])
}

/// Calls `reqwest::header::HeaderValue::from_str` and says whether it
/// accepted `text`.
///
/// Taken on trust: the function goes through the bytes of the text, which
/// are its UTF-8 encoding, and accepts the text if and only if each of them
/// is a tab, or at least 32 and not 127.
#[verifier::external_body]
fn header_value_accepts(text: &str) -> (accepted: bool)
    ensures
        accepted == header_bytes_ok(text.spec_bytes()),
{
    HeaderValue::from_str(text).is_ok()
}

/// Whether a character may stand in the value of an HTTP header: a tab, or
/// anything from the space upwards but the delete character. No other
/// control character of ASCII may; every character beyond ASCII may.
pub open spec fn header_char_ok(c: char) -> bool {
    (c as u32 >= 32 && c as u32 != 127) || c as u32 == 9
}

/// Whether every character may stand in the value of an HTTP header.
pub open spec fn header_text_ok(text: Seq<char>) -> bool {
    forall|i: int| 0 <= i < text.len() ==> header_char_ok(#[trigger] text[i])
}

proof fn lemma_one_byte(scalar: u32)
    by (bit_vector)
    requires
        scalar <= 0x7F,
    ensures
        ((scalar & 0x7F) as u8) as u32 == scalar,
{
}

proof fn lemma_high_bytes(scalar: u32)
    by (bit_vector)
    ensures
        0xC0u8 | ((scalar >> 6) & 0x1F) as u8 >= 0x80u8,
        0xE0u8 | ((scalar >> 12) & 0x0F) as u8 >= 0x80u8,
        0xF0u8 | ((scalar >> 18) & 0x7) as u8 >= 0x80u8,
        0x80u8 | (scalar & 0x3F) as u8 >= 0x80u8,
        0x80u8 | ((scalar >> 6) & 0x3F) as u8 >= 0x80u8,
        0x80u8 | ((scalar >> 12) & 0x3F) as u8 >= 0x80u8,
{
}

/// The bytes that encode one character may all stand in a header value if and
/// only if the character may: a character of ASCII is its own single byte,
/// and every byte of a longer encoding is 128 at least.
proof fn lemma_header_bytes_of_char(c: char)
    ensures
        header_bytes_ok(encode_scalar(c as u32)) == header_char_ok(c),
{
    let scalar = c as u32;
    let bytes = encode_scalar(scalar);
    lemma_high_bytes(scalar);
    if has_width_1_encoding(scalar) {
        lemma_one_byte(scalar);
        assert(bytes[0] as u32 == scalar);
        assert(header_byte_ok(bytes[0]) == header_char_ok(c));
    } else {
        assert(scalar >= 0x80);
        assert(header_char_ok(c));
    }
}

/// The UTF-8 encoding of a text may stand in a header value byte by byte if
/// and only if the text may character by character.
pub proof fn lemma_header_bytes_of_text(text: Seq<char>)
    ensures
        header_bytes_ok(encode_utf8(text)) == header_text_ok(text),
    decreases text.len(),
{
    if text.len() > 0 {
        let head = encode_scalar(text[0] as u32);
        let rest = text.drop_first();
        let tail = encode_utf8(rest);
        lemma_header_bytes_of_char(text[0]);
        lemma_header_bytes_of_text(rest);
        assert(encode_utf8(text) == head + tail);
        if header_text_ok(text) {
            assert(header_char_ok(text[0]));
            assert forall|i: int| 0 <= i < rest.len() implies header_char_ok(
                #[trigger] rest[i],
            ) by {
                assert(rest[i] == text[i + 1]);
            }
            assert forall|i: int| 0 <= i < (head + tail).len() implies header_byte_ok(
                #[trigger] (head + tail)[i],
            ) by {
                if i < head.len() {
                    assert((head + tail)[i] == head[i]);
                } else {
                    assert((head + tail)[i] == tail[i - head.len()]);
                }
            }
        }
        if header_bytes_ok(head + tail) {
            assert forall|i: int| 0 <= i < head.len() implies header_byte_ok(
                #[trigger] head[i],
            ) by {
                assert(head[i] == (head + tail)[i]);
            }
            assert forall|i: int| 0 <= i < tail.len() implies header_byte_ok(
                #[trigger] tail[i],
            ) by {
                assert(tail[i] == (head + tail)[i + head.len()]);
            }
            assert forall|i: int| 0 <= i < text.len() implies header_char_ok(
                #[trigger] text[i],
            ) by {
                if i > 0 {
                    assert(text[i] == rest[i - 1]);
                }
            }
        }
    }
}

/// The value of the `Authorization` header for a token.
pub open spec fn authorization(token: Seq<char>) -> Seq<char> {
    "Token "@ + token
}

/// A token may follow `Token ` in a header value if and only if it may stand
/// in one by itself.
pub proof fn lemma_token_ok(token: Seq<char>)
    ensures
        header_text_ok(authorization(token)) == header_text_ok(token),
{
    reveal_strlit("Token ");
    let prefix = "Token "@;
    let whole = authorization(token);
    assert(prefix.len() == 6);
    if header_text_ok(token) {
        assert forall|i: int| 0 <= i < whole.len() implies header_char_ok(#[trigger] whole[i]) by {
            if i >= 6 {
                assert(whole[i] == token[i - 6]);
            }
        }
    }
    if header_text_ok(whole) {
        assert forall|i: int| 0 <= i < token.len() implies header_char_ok(#[trigger] token[i]) by {
            assert(token[i] == whole[i + 6]);
        }
    }
}

/// Whether a character ends the path of a URL: `?` begins the query, and `#`
/// the fragment.
pub open spec fn ends_path(c: char) -> bool {
    c == '?' || c == '#'
}

/// Where the path of a URL ends: how many characters stand before its first
/// `?` or `#`, or in all of it where it has neither.
pub open spec fn path_end(url: Seq<char>) -> nat
    decreases url.len(),
{
    if url.len() == 0 || ends_path(url[0]) {
        0
    } else {
        1 + path_end(url.drop_first())
    }
}

/// A URL as a directory: the same text with `/` set at the end of its path,
/// where the path ends in none. A query and a fragment stay behind the path.
pub open spec fn directory(url: Seq<char>) -> Seq<char> {
    let end = path_end(url) as int;
    if end > 0 && url[end - 1] == '/' {
        url
    } else {
        url.subrange(0, end) + seq!['/'] + url.subrange(end, url.len() as int)
    }
}

/// The path of a URL ends at `end` if no `?` or `#` stands before `end`, and
/// one stands there or the text is over.
pub proof fn lemma_path_end(url: Seq<char>, end: int)
    requires
        0 <= end <= url.len(),
        forall|i: int| 0 <= i < end ==> !ends_path(#[trigger] url[i]),
        end < url.len() ==> ends_path(url[end]),
    ensures
        path_end(url) == end,
    decreases end,
{
    if end > 0 {
        let rest = url.drop_first();
        assert(!ends_path(url[0]));
        assert forall|i: int| 0 <= i < end - 1 implies !ends_path(#[trigger] rest[i]) by {
            assert(rest[i] == url[i + 1]);
        }
        if end < url.len() {
            assert(rest[end - 1] == url[end]);
        }
        lemma_path_end(rest, end - 1);
    }
}

/// Where the path of a URL ends, no `?` or `#` stands before, and one
/// stands there unless the text is over.
pub proof fn lemma_path_end_is(url: Seq<char>)
    ensures
        path_end(url) <= url.len(),
        forall|i: int| 0 <= i < path_end(url) ==> !ends_path(#[trigger] url[i]),
        path_end(url) < url.len() ==> ends_path(url[path_end(url) as int]),
    decreases url.len(),
{
    if url.len() > 0 && !ends_path(url[0]) {
        let rest = url.drop_first();
        lemma_path_end_is(rest);
        assert forall|i: int| 0 <= i < path_end(url) implies !ends_path(#[trigger] url[i]) by {
            if i > 0 {
                assert(url[i] == rest[i - 1]);
            }
        }
        if path_end(url) < url.len() {
            assert(url[path_end(url) as int] == rest[path_end(rest) as int]);
        }
    }
}

/// The path of a directory ends in `/`. A URL whose path ends in `/` is a
/// directory as it stands, and any other becomes one by that one character:
/// what stood before the end of its path and what stood behind it stay.
pub proof fn lemma_directory(url: Seq<char>)
    ensures
        path_end(directory(url)) > 0,
        directory(url)[path_end(directory(url)) - 1] == '/',
        directory(directory(url)) == directory(url),
        directory(url) == url || (directory(url).len() == url.len() + 1 && directory(
            url,
        ).remove(path_end(url) as int) == url),
{
    let end = path_end(url) as int;
    let made = directory(url);
    lemma_path_end_is(url);
    if end > 0 && url[end - 1] == '/' {
    } else {
        assert forall|i: int| 0 <= i < end + 1 implies !ends_path(#[trigger] made[i]) by {
            if i < end {
                assert(made[i] == url[i]);
            }
        }
        if end + 1 < made.len() {
            assert(made[end + 1] == url[end]);
        }
        lemma_path_end(made, end + 1);
        assert(made[end] == '/');
        assert(made.remove(end) =~= url);
    }
}

/// Writes a URL as a directory: see [`directory`].
pub fn as_directory(url: &str) -> (text: String)
    ensures
        text@ == directory(url@),
{
    let len = url.unicode_len();
    let mut end: usize = 0;
    let mut found = false;
    while end < len && !found
        invariant
            len == url@.len(),
            end <= len,
            forall|i: int| 0 <= i < end ==> !ends_path(#[trigger] url@[i]),
            found ==> end < len && ends_path(url@[end as int]),
        decreases len - end + (if found { 0int } else { 1int }),
    {
        let c = url.get_char(end);
        if c == '?' || c == '#' {
            found = true;
        } else {
            end = end + 1;
        }
    }
    proof {
        lemma_path_end(url@, end as int);
    }
    if end > 0 && url.get_char(end - 1) == '/' {
        String::from_str(url)
    } else {
        let mut text = String::from_str(url.substring_char(0, end));
        text.append("/");
        text.append(url.substring_char(end, len));
        proof {
            reveal_strlit("/");
            assert("/"@ =~= seq!['/']);
        }
        text
    }
}

/// The address that samples are written to, for a base URL given as text:
/// the base followed by `/api/v2/write`. It is `api/v2/write` read against
/// the base as a directory, the base being taken as the URL parser writes it
/// out. Nothing where the text is no absolute URL, or the URL cannot serve as
/// a base.
pub open spec fn write_url(base: Seq<char>) -> Option<Seq<char>> {
    match parsed_url(base) {
        Some(url) => joined_url(directory(url), "api/v2/write"@),
        None => None,
    }
}

/// The query of a write: the organisation and the bucket that the sample
/// goes to, and the unit of its timestamp, which is the second.
pub open spec fn query(org: Seq<char>, bucket: Seq<char>) -> Seq<(Seq<char>, Seq<char>)> {
    seq![("org"@, org), ("bucket"@, bucket), ("precision"@, "s"@)]
}

/// One sample in line protocol: the measurement `co2mon`, the fields `c` for
/// the CO2 concentration and `t` for the temperature, and the timestamp.
/// `temperature` is the sample's temperature written in decimal.
pub open spec fn line(datum: Datum, temperature: Seq<char>) -> Seq<char> {
    "co2mon c="@ + decimal(datum.co2 as nat) + ",t="@ + temperature + " "@ + decimal(
        datum.timestamp as nat,
    )
}

/// A client, as values.
pub struct InfluxDBClientView {
    /// The value of the `Authorization` header.
    pub authorization: Seq<char>,
    /// The organisation that samples go to.
    pub org: Seq<char>,
    /// The bucket that samples go to.
    pub bucket: Seq<char>,
    /// The address that samples are written to.
    pub url_write: Seq<char>,
}

/// The text that an optional string holds.
pub open spec fn text_of(string: Option<String>) -> Option<Seq<char>> {
    match string {
        Some(string) => Some(string@),
        None => None,
    }
}

/// The client that the settings make once the URL parser has been asked, or
/// the words that say why they make none. `parsed` is whether the base URL
/// `url` is an absolute URL, and `url_write` the address to write to, where
/// the base gives one.
///
/// They make none where the base is no absolute URL, where the token holds a
/// character that no header value may hold, and where the base gives no
/// address to write to; the first of these that applies is reported.
pub open spec fn assembled(
    url: Seq<char>,
    parsed: bool,
    url_write: Option<Seq<char>>,
    token: Seq<char>,
    bucket: Seq<char>,
    org: Seq<char>,
) -> Result<InfluxDBClientView, Seq<char>> {
    if !parsed {
        Err("Invalid InfluxDB base url "@ + url)
    } else if !header_text_ok(token) {
        Err("Invalid InfluxDB token for Authorization header."@)
    } else {
        match url_write {
            None => Err("Invalid InfluxDB base url "@ + url),
            Some(url_write) => Ok(
                InfluxDBClientView { authorization: authorization(token), org, bucket, url_write },
            ),
        }
    }
}

/// The client that a base URL, a token, a bucket and an organisation make,
/// or the words that say why they make none: [`assembled`], with what the
/// URL parser makes of the base.
pub open spec fn made(url: Seq<char>, token: Seq<char>, bucket: Seq<char>, org: Seq<char>) -> Result<
    InfluxDBClientView,
    Seq<char>,
> {
    assembled(url, parsed_url(url) is Some, write_url(url), token, bucket, org)
}

/// Where samples are written to and with what credentials. Made once, from
/// the settings, and never changed.
pub struct InfluxDBClient {
    authorization: String,
    org: String,
    bucket: String,
    url_write: String,
}

/// One write, ready to be sent: an HTTP `POST` to `url` with the pairs of
/// `query` as its query, `authorization` as the value of its `Authorization`
/// header and `body` as its body.
#[derive(Debug, PartialEq, Eq)]
pub struct WriteRequest {
    pub url: String,
    pub query: Vec<(String, String)>,
    pub authorization: String,
    pub body: String,
}

/// How one attempt to write a sample ended.
#[derive(Debug, PartialEq, Eq)]
pub enum DeliveryOutcome {
    /// The endpoint took the sample.
    Delivered,
    /// The endpoint was reached and answered with this status, which is not
    /// one of success.
    Rejected(u16),
    /// The endpoint could not be reached. The text is the transport's own
    /// account of the failure.
    TransportFailed(String),
}

/// What an answer means: a status from 200 to 299 is success, any other
/// status a rejection, and no answer at all a failure of the transport.
pub open spec fn classified(response: Result<u16, String>) -> DeliveryOutcome {
    match response {
        Ok(status) => if 200 <= status < 300 {
            DeliveryOutcome::Delivered
        } else {
            DeliveryOutcome::Rejected(status)
        },
        Err(reason) => DeliveryOutcome::TransportFailed(reason),
    }
}

impl DeliveryOutcome {
    /// Why the sample was not delivered, in words. Empty where it was.
    pub open spec fn failure_text(self) -> Seq<char> {
        match self {
            DeliveryOutcome::Delivered => Seq::empty(),
            DeliveryOutcome::Rejected(status) => "HTTP status "@ + decimal(status as nat),
            DeliveryOutcome::TransportFailed(reason) => reason@,
        }
    }

    /// Says what the answer to a write means. `response` is the status of the
    /// endpoint's answer or, where none came, the transport's account of why.
    pub fn classify(response: Result<u16, String>) -> (outcome: DeliveryOutcome)
        ensures
            outcome == classified(response),
    {
        match response {
            Ok(status) => if 200 <= status && status < 300 {
                DeliveryOutcome::Delivered
            } else {
                DeliveryOutcome::Rejected(status)
            },
            Err(reason) => DeliveryOutcome::TransportFailed(reason),
        }
    }

    /// The failure as an error: none where the sample was delivered.
    pub fn error(&self) -> (error: Option<Error>)
        ensures
            match error {
                Some(error) => {
                    &&& !(self is Delivered)
                    &&& error matches Error::Reqwest { description }
                    &&& description@ == self.failure_text()
                },
                None => self is Delivered,
            },
    {
        match self {
            DeliveryOutcome::Delivered => None,
            DeliveryOutcome::Rejected(status) => {
                let number = to_decimal(*status as u64);
                Some(
                    Error::Reqwest {
                        description: String::from_str("HTTP status ").concat(number.as_str()),
                    },
                )
            },
            DeliveryOutcome::TransportFailed(reason) => Some(
                Error::Reqwest { description: reason.clone() },
            ),
        }
    }
}

fn invalid_base_url(url: &str) -> (error: Error)
    ensures
        error matches Error::User { description } && description@
            == "Invalid InfluxDB base url "@ + url@,
{
    Error::User { description: String::from_str("Invalid InfluxDB base url ").concat(url) }
}

impl View for InfluxDBClient {
    type V = InfluxDBClientView;

    closed spec fn view(&self) -> InfluxDBClientView {
        InfluxDBClientView {
            authorization: self.authorization@,
            org: self.org@,
            bucket: self.bucket@,
            url_write: self.url_write@,
        }
    }
}

impl InfluxDBClient {
    #[verifier::type_invariant]
    spec fn well_formed(self) -> bool {
        header_text_ok(self.authorization@)
    }

    /// Makes the client for the endpoint at the base URL `url`, or says which
    /// of the settings cannot be used: see [`made`].
    pub fn new(url: &str, token: &str, bucket: &str, org: &str) -> (result: Result<
        InfluxDBClient,
        Error,
    >)
        ensures
            match result {
                Ok(client) => made(url@, token@, bucket@, org@) == Ok::<
                    InfluxDBClientView,
                    Seq<char>,
                >(client@),
                Err(error) => error matches Error::User { description } && made(
                    url@,
                    token@,
                    bucket@,
                    org@,
                ) == Err::<InfluxDBClientView, Seq<char>>(description@),
            },
    {
        let (parsed, url_write) = match parse_url(url) {
            Some(base) => {
                let base = as_directory(base.as_str());
                (true, join_url(base.as_str(), "api/v2/write"))
            },
            None => (false, None),
        };
        InfluxDBClient::from_parsed(url, parsed, url_write, token, bucket, org)
    }

    /// Makes the client once the URL parser has been asked, or says which of
    /// the settings cannot be used: see [`assembled`]. `parsed` is whether
    /// the base URL `url` is an absolute URL, and `url_write` the address to
    /// write to, where the base gives one.
    pub fn from_parsed(
        url: &str,
        parsed: bool,
        url_write: Option<String>,
        token: &str,
        bucket: &str,
        org: &str,
    ) -> (result: Result<InfluxDBClient, Error>)
        ensures
            match result {
                Ok(client) => assembled(url@, parsed, text_of(url_write), token@, bucket@, org@)
                    == Ok::<InfluxDBClientView, Seq<char>>(client@),
                Err(error) => error matches Error::User { description } && assembled(
                    url@,
                    parsed,
                    text_of(url_write),
                    token@,
                    bucket@,
                    org@,
                ) == Err::<InfluxDBClientView, Seq<char>>(description@),
            },
    {
        if !parsed {
            return Err(invalid_base_url(url));
        }
        let authorization = String::from_str("Token ").concat(token);
        let accepted = header_value_accepts(authorization.as_str());
        proof {
            lemma_header_bytes_of_text(authorization@);
            lemma_token_ok(token@);
        }
        if !accepted {
            return Err(
                Error::User {
                    description: String::from_str(
                        "Invalid InfluxDB token for Authorization header.",
                    ),
                },
            );
        }
        match url_write {
            None => Err(invalid_base_url(url)),
            Some(url_write) => Ok(
                InfluxDBClient {
                    authorization,
                    org: String::from_str(org),
                    bucket: String::from_str(bucket),
                    url_write,
                },
            ),
        }
    }

    /// The value of the `Authorization` header of every write. It holds no
    /// character that a header value may not hold.
    pub fn authorization(&self) -> (text: &str)
        ensures
            text@ == self@.authorization,
            header_text_ok(text@),
    {
        proof {
            use_type_invariant(self);
        }
        self.authorization.as_str()
    }

    /// The address that samples are written to.
    pub fn url_write(&self) -> (text: &str)
        ensures
            text@ == self@.url_write,
    {
        self.url_write.as_str()
    }

    /// The one write that delivers `datum`. `temperature` is the sample's
    /// temperature written in decimal: the caller writes it, for a
    /// temperature is held here by its bits and not as a number.
    pub fn write_request(&self, datum: &Datum, temperature: &str) -> (request: WriteRequest)
        ensures
            request.url@ == self@.url_write,
            request.query.deep_view() == query(self@.org, self@.bucket),
            request.authorization@ == self@.authorization,
            header_text_ok(request.authorization@),
            request.body@ == line(*datum, temperature@),
    {
        proof {
            use_type_invariant(self);
        }
        let mut query: Vec<(String, String)> = Vec::new();
        query.push((String::from_str("org"), self.org.clone()));
        query.push((String::from_str("bucket"), self.bucket.clone()));
        query.push((String::from_str("precision"), String::from_str("s")));
        assert(query.deep_view() =~= self::query(self@.org, self@.bucket));
        let co2 = to_decimal(datum.co2 as u64);
        let timestamp = to_decimal(datum.timestamp);
        let mut body = String::from_str("co2mon c=");
        body.append(co2.as_str());
        body.append(",t=");
        body.append(temperature);
        body.append(" ");
        body.append(timestamp.as_str());
        WriteRequest {
            url: self.url_write.clone(),
            query,
            authorization: self.authorization.clone(),
            body,
        }
    }
}

} // verus!
