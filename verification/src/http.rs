//! What the server says and understands of HTTP: the request line it reads,
//! the response head it writes, and which file answers which path.

use crate::text::{
    chars_of, decimal, push_decimal, push_signed_decimal, same_text, signed_decimal, string_of,
    whitespace,
};
use vstd::prelude::*;
use vstd::string::{StrSliceExecFns, StringExecFns};

verus! {

/// The kinds of content that the server announces.
#[derive(Clone, Copy, PartialEq, Eq, Debug)]
pub enum HttpContentType {
    Html,
    Css,
    Jpeg,
    Png,
    Icon,
}

impl HttpContentType {
    /// The content type of a file with the given extension. An extension that
    /// is not known counts as HTML.
    pub open spec fn of_extension(extension: Seq<char>) -> HttpContentType {
        if extension == "html"@ {
            HttpContentType::Html
        } else if extension == "css"@ {
            HttpContentType::Css
        } else if extension == "jpeg"@ {
            HttpContentType::Jpeg
        } else if extension == "png"@ {
            HttpContentType::Png
        } else if extension == "ico"@ {
            HttpContentType::Icon
        } else {
            HttpContentType::Html
        }
    }

    /// The media type as it stands in a `Content-Type` header.
    pub open spec fn media_type(self) -> Seq<char> {
        match self {
            HttpContentType::Html => "text/html"@,
            HttpContentType::Css => "text/css"@,
            HttpContentType::Jpeg => "image/jpeg"@,
            HttpContentType::Png => "image/png"@,
            HttpContentType::Icon => "image/x-icon"@,
        }
    }

    /// The content type of a file with the extension `s`.
    pub fn from_str(s: &str) -> (kind: HttpContentType)
        ensures
            kind == Self::of_extension(s@),
    {
        if same_text(s, "html") {
            HttpContentType::Html
        } else if same_text(s, "css") {
            HttpContentType::Css
        } else if same_text(s, "jpeg") {
            HttpContentType::Jpeg
        } else if same_text(s, "png") {
            HttpContentType::Png
        } else if same_text(s, "ico") {
            HttpContentType::Icon
        } else {
            HttpContentType::Html
        }
    }

    /// The media type as it stands in a `Content-Type` header.
    pub fn to_text(&self) -> (text: &'static str)
        ensures
            text@ == self.media_type(),
    {
        match self {
            HttpContentType::Html => "text/html",
            HttpContentType::Css => "text/css",
            HttpContentType::Jpeg => "image/jpeg",
            HttpContentType::Png => "image/png",
            HttpContentType::Icon => "image/x-icon",
        }
    }
}

/// A response header.
#[derive(Clone, Copy, PartialEq, Eq, Debug)]
pub enum HttpHeader {
    ContentType(HttpContentType),
    ContentLength(i32),
}

impl HttpHeader {
    /// The header as one line of the response head, without the line end.
    pub open spec fn text(self) -> Seq<char> {
        match self {
            HttpHeader::ContentType(kind) => "Content-Type: "@ + kind.media_type(),
            HttpHeader::ContentLength(length) => "Content-Length: "@ + signed_decimal(
                length as int,
            ),
        }
    }

    /// The header as one line of the response head, without the line end.
    pub fn to_text(&self) -> (text: String)
        ensures
            text@ == self.text(),
    {
        match self {
            HttpHeader::ContentType(kind) => {
                let mut text = "Content-Type: ".to_owned();
                text.append(kind.to_text());
                text
            },
            HttpHeader::ContentLength(length) => {
                push_signed_decimal("Content-Length: ".to_owned(), *length)
            },
        }
    }
}

/// The status of a response: its code, and whether it reports success or
/// failure.
#[derive(Clone, Copy, PartialEq, Eq, Debug)]
pub enum HttpStatus {
    HttpOk(i32),
    HttpErr(i32),
}

impl HttpStatus {
    /// The code and the reason phrase, as they stand in the status line.
    pub open spec fn text(self) -> Seq<char> {
        match self {
            HttpStatus::HttpOk(code) => if code == 200 {
                "200 OK"@
            } else if code == 201 {
                "201 Created"@
            } else if code == 204 {
                "204 No Content"@
            } else {
                signed_decimal(code as int) + " OK"@
            },
            HttpStatus::HttpErr(code) => if code == 400 {
                "400 Bad Request"@
            } else if code == 404 {
                "404 Not Found"@
            } else if code == 500 {
                "500 Internal Server Error"@
            } else {
                signed_decimal(code as int) + " Unknown Error"@
            },
        }
    }

    /// The code and the reason phrase, as they stand in the status line.
    pub fn to_text(&self) -> (text: String)
        ensures
            text@ == self.text(),
    {
        match self {
            HttpStatus::HttpOk(code) => {
                if *code == 200 {
                    "200 OK".to_owned()
                } else if *code == 201 {
                    "201 Created".to_owned()
                } else if *code == 204 {
                    "204 No Content".to_owned()
                } else {
                    let mut text = push_signed_decimal(String::new(), *code);
                    text.append(" OK");
                    text
                }
            },
            HttpStatus::HttpErr(code) => {
                if *code == 400 {
                    "400 Bad Request".to_owned()
                } else if *code == 404 {
                    "404 Not Found".to_owned()
                } else if *code == 500 {
                    "500 Internal Server Error".to_owned()
                } else {
                    let mut text = push_signed_decimal(String::new(), *code);
                    text.append(" Unknown Error");
                    text
                }
            },
        }
    }
}

/// The header lines of a response head, each ended by carriage return and
/// line feed. A `Content-Length` among the headers is left out: the head
/// states the length of the body itself.
pub open spec fn header_lines(headers: Seq<HttpHeader>) -> Seq<char>
    decreases headers.len(),
{
    if headers.len() == 0 {
        Seq::empty()
    } else {
        header_lines(headers.drop_last()) + (match headers.last() {
            HttpHeader::ContentLength(_) => Seq::empty(),
            HttpHeader::ContentType(_) => headers.last().text() + "\r\n"@,
        })
    }
}

/// A response: status, headers and body.
pub struct Response {
    pub status: HttpStatus,
    pub contents: Vec<u8>,
    pub headers: Option<Vec<HttpHeader>>,
}

impl Response {
    /// The head of the response: the status line, the header lines, the
    /// length of the body, and the empty line that ends the head.
    pub open spec fn head(self) -> Seq<char> {
        "HTTP/1.1 "@ + self.status.text() + "\r\n"@ + (match self.headers {
            Some(headers) => header_lines(headers@),
            None => Seq::empty(),
        }) + "Content-Length: "@ + decimal(self.contents@.len()) + "\r\n\r\n"@
    }

    /// The head of the response, as text.
    pub fn head_text(&self) -> (head: String)
        ensures
            head@ == self.head(),
    {
        let mut head = "HTTP/1.1 ".to_owned();
        let status = self.status.to_text();
        head.append(status.as_str());
        head.append("\r\n");
        let ghost before = head@;
        if let Some(headers) = &self.headers {
            let mut i: usize = 0;
            while i < headers.len()
                invariant
                    i <= headers@.len(),
                    head@ == before + header_lines(headers@.take(i as int)),
                decreases headers@.len() - i,
            {
                proof {
                    let done = headers@.take(i + 1);
                    assert(done.drop_last() =~= headers@.take(i as int));
                    assert(done.last() == headers@[i as int]);
                }
                match headers[i] {
                    HttpHeader::ContentLength(_) => {},
                    HttpHeader::ContentType(_) => {
                        let line = headers[i].to_text();
                        head.append(line.as_str());
                        head.append("\r\n");
                    },
                }
                assert(head@ =~= before + header_lines(headers@.take(i + 1)));
                i += 1;
            }
            assert(headers@.take(i as int) =~= headers@);
        }
        head.append("Content-Length: ");
        let mut head = push_decimal(head, self.contents.len() as u64);
        head.append("\r\n\r\n");
        assert(head@ =~= self.head());
        head
    }

    /// The response as it goes over the wire: the head in UTF-8, then the
    /// body.
    pub fn fmt_as_bytes(&self) -> (bytes: Vec<u8>)
        ensures
            bytes@ == vstd::utf8::encode_utf8(self.head()) + self.contents@,
    {
        let head = self.head_text();
        let mut bytes = head.as_str().as_bytes_vec();
        let ghost framed = bytes@;
        let mut i: usize = 0;
        while i < self.contents.len()
            invariant
                i <= self.contents@.len(),
                bytes@ == framed + self.contents@.take(i as int),
            decreases self.contents@.len() - i,
        {
            bytes.push(self.contents[i]);
            assert(bytes@ =~= framed + self.contents@.take(i + 1));
            i += 1;
        }
        assert(self.contents@.take(i as int) =~= self.contents@);
        bytes
    }
}

/// Where the word begins that begins at or after `from`: the first position
/// that holds no white space, or the end of the text.
pub open spec fn word_start(text: Seq<char>, from: int) -> int
    decreases text.len() - from,
{
    if 0 <= from < text.len() && whitespace(text[from]) {
        word_start(text, from + 1)
    } else {
        from
    }
}

/// Where the word ends that begins at `from`: the first position that holds
/// white space, or the end of the text.
pub open spec fn word_end(text: Seq<char>, from: int) -> int
    decreases text.len() - from,
{
    if 0 <= from < text.len() && !whitespace(text[from]) {
        word_end(text, from + 1)
    } else {
        from
    }
}

/// The first three words of `text`, where it has as many. Words are what
/// white space separates.
pub open spec fn first_three_words(text: Seq<char>) -> Option<
    (Seq<char>, Seq<char>, Seq<char>),
> {
    let first = word_start(text, 0);
    let first_end = word_end(text, first);
    let second = word_start(text, first_end);
    let second_end = word_end(text, second);
    let third = word_start(text, second_end);
    let third_end = word_end(text, third);
    if third < text.len() {
        Some(
            (
                text.subrange(first, first_end),
                text.subrange(second, second_end),
                text.subrange(third, third_end),
            ),
        )
    } else {
        None
    }
}

/// Skips the white space at `from`.
fn skip_space(chars: &Vec<char>, from: usize) -> (at: usize)
    requires
        from <= chars@.len(),
    ensures
        at == word_start(chars@, from as int),
        from <= at <= chars@.len(),
{
    let mut at = from;
    while at < chars.len() && chars[at].is_whitespace()
        invariant
            from <= at <= chars@.len(),
            word_start(chars@, from as int) == word_start(chars@, at as int),
        decreases chars@.len() - at,
    {
        at += 1;
    }
    at
}

/// Skips the word at `from`.
fn skip_word(chars: &Vec<char>, from: usize) -> (at: usize)
    requires
        from <= chars@.len(),
    ensures
        at == word_end(chars@, from as int),
        from <= at <= chars@.len(),
{
    let mut at = from;
    while at < chars.len() && !chars[at].is_whitespace()
        invariant
            from <= at <= chars@.len(),
            word_end(chars@, from as int) == word_end(chars@, at as int),
        decreases chars@.len() - at,
    {
        at += 1;
    }
    at
}

/// The request line of an HTTP request.
#[derive(Debug)]
pub struct Request {
    pub method: String,
    pub path: String,
    pub version: String,
}

impl Request {
    /// Reads method, path and version off the beginning of a request: its
    /// first three words. A text with fewer words is no request.
    pub fn parse(text: &str) -> (request: Option<Request>)
        ensures
            match request {
                Some(read) => first_three_words(text@) == Some(
                    (read.method@, read.path@, read.version@),
                ),
                None => first_three_words(text@) is None,
            },
    {
        let chars = chars_of(text);
        let first = skip_space(&chars, 0);
        let first_end = skip_word(&chars, first);
        let second = skip_space(&chars, first_end);
        let second_end = skip_word(&chars, second);
        let third = skip_space(&chars, second_end);
        let third_end = skip_word(&chars, third);
        if third < chars.len() {
            Some(
                Request {
                    method: string_of(&chars, first, first_end),
                    path: string_of(&chars, second, second_end),
                    version: string_of(&chars, third, third_end),
                },
            )
        } else {
            None
        }
    }
}

/// What follows the last full stop of `path`; all of `path` where it has
/// none.
pub open spec fn extension(path: Seq<char>) -> Seq<char>
    decreases path.len(),
{
    if path.len() == 0 || path.last() == '.' {
        Seq::empty()
    } else {
        extension(path.drop_last()).push(path.last())
    }
}

/// Whether files with this extension are kept with the media.
pub open spec fn is_media(extension: Seq<char>) -> bool {
    extension == "ico"@ || extension == "jpg"@ || extension == "jpeg"@ || extension == "png"@
}

/// The directory that holds the files with this extension.
pub open spec fn directory(extension: Seq<char>) -> Seq<char> {
    if is_media(extension) {
        "./media"@
    } else {
        "./static"@
    }
}

/// The extension of `path`.
pub fn extension_of(path: &str) -> (found: String)
    ensures
        found@ == extension(path@),
{
    let chars = chars_of(path);
    let mut from: usize = chars.len();
    proof {
        assert(chars@.take(from as int) =~= chars@);
        assert(extension(chars@) + chars@.subrange(from as int, chars@.len() as int) =~= extension(
            chars@,
        ));
    }
    while from > 0 && chars[from - 1] != '.'
        invariant
            from <= chars@.len(),
            extension(chars@) == extension(chars@.take(from as int)) + chars@.subrange(
                from as int,
                chars@.len() as int,
            ),
        decreases from,
    {
        proof {
            let head = chars@.take(from as int);
            assert(head.drop_last() =~= chars@.take(from - 1));
            assert(head.last() == chars@[from - 1]);
            assert(extension(head.drop_last()).push(head.last()) + chars@.subrange(
                from as int,
                chars@.len() as int,
            ) =~= extension(chars@.take(from - 1)) + chars@.subrange(
                from - 1,
                chars@.len() as int,
            ));
        }
        from -= 1;
    }
    proof {
        let head = chars@.take(from as int);
        assert(from > 0 ==> head.last() == chars@[from - 1]);
        assert(extension(head) =~= Seq::<char>::empty());
        assert(extension(chars@) =~= chars@.subrange(from as int, chars@.len() as int));
    }
    string_of(&chars, from, chars.len())
}

/// The file that answers a request for `path`, and the kind of content it
/// holds: media are looked up in one directory, everything else in another.
pub fn resource_location(path: &str) -> (found: (String, HttpContentType))
    ensures
        found.0@ == directory(extension(path@)) + path@,
        found.1 == HttpContentType::of_extension(extension(path@)),
{
    let file_type = extension_of(path);
    let media = same_text(file_type.as_str(), "ico") || same_text(file_type.as_str(), "jpg")
        || same_text(file_type.as_str(), "jpeg") || same_text(file_type.as_str(), "png");
    let mut file = if media {
        "./media".to_owned()
    } else {
        "./static".to_owned()
    };
    file.append(path);
    (file, HttpContentType::from_str(file_type.as_str()))
}

/// The views that a request can be routed to.
#[derive(Clone, Copy, PartialEq, Eq, Debug)]
pub enum Route {
    /// The slow test page.
    Test,
    /// The index page.
    Index,
    /// A file, named by the path.
    Resource,
}

/// The view that answers `path`.
pub open spec fn route_of(path: Seq<char>) -> Route {
    if path == "/test"@ {
        Route::Test
    } else if path == "/"@ {
        Route::Index
    } else {
        Route::Resource
    }
}

/// Decides which view answers a request for `path`.
pub fn route(path: &str) -> (view: Route)
    ensures
        view == route_of(path@),
{
    if same_text(path, "/test") {
        Route::Test
    } else if same_text(path, "/") {
        Route::Index
    } else {
        Route::Resource
    }
}

} // verus!
