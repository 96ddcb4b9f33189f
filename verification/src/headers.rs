//! Header fields: from the text that the embedder prepares for HTTP/1, and back to it.
use crate::bytes::{copy, either, position, slices, split, split_at, str_eq};
use crate::nsresult::NsResult;
use crate::text::{
    is_ascii_caseless, is_white_space, lemma_ascii_encoded, lowercase, lowercase_text, trim,
    trim_bytes, trim_end, trim_start, trim_text, utf8_text,
};
use crate::thin::{thin_bytes, thin_extend};
use thin_vec::ThinVec;
use vstd::prelude::*;
use vstd::slice::slice_subrange;
use vstd::string::StringSliceAdditionalSpecFns;
use vstd::utf8::{decode_utf8, encode_utf8, encode_utf8_decode_utf8, valid_utf8};

verus! {

/// A header field.
#[derive(Debug)]
pub struct Header {
    pub name: String,
    pub value: Vec<u8>,
}

/// The contents of a [`Header`].
pub struct HeaderView {
    pub name: Seq<char>,
    pub value: Seq<u8>,
}

impl View for Header {
    type V = HeaderView;

    open spec fn view(&self) -> HeaderView {
        HeaderView { name: self.name@, value: self.value@ }
    }
}

/// The contents of a list of header fields.
pub open spec fn header_views(list: Seq<Header>) -> Seq<HeaderView> {
    list.map_values(|h: Header| h@)
}

impl Header {
    /// A header field with a text as its value.
    pub fn new(name: &str, value: &str) -> (header: Header)
        ensures
            header@ == (HeaderView { name: name@, value: value.spec_bytes() }),
    {
        Header { name: name.to_owned(), value: crate::bytes::text_bytes(value) }
    }

    /// A header field with bytes as its value.
    pub fn with_bytes(name: &str, value: &[u8]) -> (header: Header)
        ensures
            header@ == (HeaderView { name: name@, value: value@ }),
    {
        Header { name: name.to_owned(), value: copy(value) }
    }

    /// A copy of the header field.
    pub fn duplicate(&self) -> (header: Header)
        ensures
            header@ == self@,
    {
        Header { name: self.name.as_str().to_owned(), value: copy(self.value.as_slice()) }
    }

    /// Whether the header field has this name.
    pub fn is_named(&self, name: &str) -> (named: bool)
        ensures
            named == (self@.name == name@),
    {
        str_eq(self.name.as_str(), name)
    }
}

/// Whether a header field is left out of a request: it belongs to the connection of HTTP/1.
pub open spec fn is_excluded(name: Seq<char>) -> bool {
    ||| name == "connection"@
    ||| name == "host"@
    ||| name == "keep-alive"@
    ||| name == "proxy-connection"@
    ||| name == "te"@
    ||| name == "transfer-encoding"@
    ||| name == "upgrade"@
    ||| name == "sec-websocket-key"@
}

/// Whether a header field is left out of a request.
pub fn is_excluded_header(name: &str) -> (excluded: bool)
    ensures
        excluded == is_excluded(name@),
{
    str_eq(name, "connection") || str_eq(name, "host") || str_eq(name, "keep-alive") || str_eq(
        name,
        "proxy-connection",
    ) || str_eq(name, "te") || str_eq(name, "transfer-encoding") || str_eq(name, "upgrade")
        || str_eq(name, "sec-websocket-key")
}

/// Recognises the bytes that end a line.
pub open spec fn line_end() -> spec_fn(u8) -> bool {
    either(0x0d, 0x0a)
}

/// Recognises the white space that may stand around a value.
pub open spec fn optional_space() -> spec_fn(u8) -> bool {
    either(0x20, 0x09)
}

/// What a line of a request's head gives.
pub enum LineView {
    /// Nothing: the line is empty or has no colon, or its header field is left out.
    Nothing,
    /// The name of the header field is no text.
    BadName,
    Field(HeaderView),
}

/// The first position of a colon, or the length of the line.
pub open spec fn colon(line: Seq<u8>) -> int
    decreases line.len(),
{
    if line.len() == 0 || line[0] == 0x3a {
        0
    } else {
        1 + colon(line.skip(1))
    }
}

/// The name that the bytes before the colon give: in lower case, without white space around it.
pub open spec fn field_name(bytes: Seq<u8>) -> Seq<char> {
    lowercase(trim(decode_utf8(bytes), |c: char| is_white_space(c)))
}

/// What a line gives. A line that begins with a colon gives nothing: it would be a pseudo header
/// field, and those do not come from the embedder.
pub open spec fn line_view(line: Seq<u8>) -> LineView {
    let at = colon(line);
    if at == 0 || at >= line.len() {
        LineView::Nothing
    } else if !valid_utf8(line.take(at)) {
        LineView::BadName
    } else if is_excluded(field_name(line.take(at))) {
        LineView::Nothing
    } else {
        LineView::Field(
            HeaderView {
                name: field_name(line.take(at)),
                value: trim(line.skip(at + 1), optional_space()),
            },
        )
    }
}

/// The header fields that lines give, where no name is bad.
pub open spec fn fields(lines: Seq<Seq<u8>>) -> Option<Seq<HeaderView>>
    decreases lines.len(),
{
    if lines.len() == 0 {
        Some(Seq::empty())
    } else {
        match fields(lines.drop_last()) {
            None => None,
            Some(before) => match line_view(lines.last()) {
                LineView::Nothing => Some(before),
                LineView::BadName => None,
                LineView::Field(header) => Some(before.push(header)),
            },
        }
    }
}

/// The header fields of a request's head: what its lines but the first give.
pub open spec fn parsed_headers(head: Seq<u8>) -> Option<Seq<HeaderView>> {
    fields(split(head, line_end()).skip(1))
}

proof fn lemma_colon(line: Seq<u8>, at: int)
    requires
        0 <= at <= line.len(),
        forall|j: int| 0 <= j < at ==> line[j] != 0x3a,
        at < line.len() ==> line[at] == 0x3a,
    ensures
        colon(line) == at,
    decreases line.len(),
{
    if at > 0 {
        let rest = line.skip(1);
        assert forall|j: int| 0 <= j < at - 1 implies rest[j] != 0x3a by {
            assert(rest[j] == line[j + 1]);
        }
        if at < line.len() {
            assert(rest[at - 1] == line[at]);
        }
        lemma_colon(rest, at - 1);
    }
}

/// Whether a name holds no colon, no line end and none of `A` to `Z`. So it is not that of a
/// pseudo header field.
pub open spec fn is_request_name(name: Seq<char>) -> bool {
    forall|i: int|
        0 <= i < name.len() ==> #[trigger] name[i] != ':' && name[i] != '\r' && name[i] != '\n' && !(
        'A' <= name[i] <= 'Z')
}

/// What stands before the colon, without white space around it, holds no byte that the line does
/// not hold before its colon.
proof fn lemma_name_bytes(bytes: Seq<u8>, text: Seq<char>, c: char)
    requires
        bytes == encode_utf8(text),
        c <= '\u{7f}',
        trim(text, |c: char| is_white_space(c)).contains(c),
    ensures
        bytes.contains(c as u8),
{
    let f = |c: char| is_white_space(c);
    lemma_trim_start_keeps(text, f);
    let k = choose|k: int|
        0 <= k <= text.len() && trim_start(text, f) == #[trigger] text.skip(k) && (k < text.len()
            ==> !f(text[k]));
    let started = text.skip(k);
    lemma_trim_end_keeps(started, f);
    let m = choose|m: int|
        0 <= m <= started.len() && trim_end(started, f) == #[trigger] started.take(m) && (m > 0
            ==> !f(started[m - 1]));
    let i = choose|i: int| 0 <= i < started.take(m).len() && started.take(m)[i] == c;
    assert(text[i + k] == c);
    lemma_ascii_encoded(text, i + k);
}

/// What a line of a request's head gives.
enum Line {
    Nothing,
    BadName,
    Field(Header),
}

fn parse_line(line: &[u8]) -> (parsed: Line)
    requires
        forall|i: int| 0 <= i < line@.len() ==> #[trigger] line@[i] != 0x0a && line@[i] != 0x0d,
    ensures
        match parsed {
            Line::Nothing => line_view(line@) is Nothing,
            Line::BadName => line_view(line@) is BadName,
            Line::Field(header) => line_view(line@) == LineView::Field(header@) && is_request_name(
                header@.name,
            ),
        },
{
    let at: usize = match position(line, 0x3a) {
        Some(at) => at,
        None => {
            proof {
                lemma_colon(line@, line@.len() as int);
            }
            return Line::Nothing;
        },
    };
    proof {
        lemma_colon(line@, at as int);
    }
    if at == 0 {
        return Line::Nothing;
    }
    assert(at < line.len());
    let name_bytes = slice_subrange(line, 0, at);
    let value_bytes = slice_subrange(line, at + 1, line.len());
    proof {
        assert(name_bytes@ =~= line@.take(at as int));
        assert(value_bytes@ =~= line@.skip(at + 1));
    }
    let name = match utf8_text(name_bytes) {
        Some(text) => {
            proof {
                encode_utf8_decode_utf8(text@);
            }
            let trimmed = trim_text(text);
            let name = lowercase_text(trimmed);
            proof {
                assert forall|i: int| 0 <= i < name@.len() implies #[trigger] name@[i] != ':'
                    && name@[i] != '\r' && name@[i] != '\n' && !('A' <= name@[i] <= 'Z') by {
                    let c = name@[i];
                    if c == ':' || c == '\r' || c == '\n' {
                        assert(is_ascii_caseless(c));
                        lemma_name_bytes(name_bytes@, text@, c);
                        let j = choose|j: int|
                            0 <= j < name_bytes@.len() && name_bytes@[j] == c as u8;
                        assert(name_bytes@[j] == line@[j]);
                    }
                }
            }
            name
        },
        None => {
            return Line::BadName;
        },
    };
    if is_excluded_header(name.as_str()) {
        return Line::Nothing;
    }
    let value = copy(trim_bytes(value_bytes, 0x20, 0x09));
    Line::Field(Header { name, value })
}

/// The header fields of a request's head. The first line is not looked at.
pub fn parse_headers(headers: &[u8]) -> (parsed: Result<Vec<Header>, NsResult>)
    ensures
        parsed is Ok <==> parsed_headers(headers@) is Some,
        parsed matches Ok(list) ==> parsed_headers(headers@) == Some(header_views(list@)),
        parsed matches Ok(list) ==> forall|k: int|
            0 <= k < list@.len() ==> is_request_name((#[trigger] list@[k])@.name)
                && is_request_field(list@[k]@),
        parsed matches Err(e) ==> e == NsResult::NS_ERROR_DOM_INVALID_HEADER_NAME,
{
    let pieces = split_at(headers, 0x0d, 0x0a);
    let ghost lines = split(headers@, line_end()).skip(1);
    let mut parsed: Vec<Header> = Vec::new();
    let mut i: usize = 1;
    proof {
        crate::bytes::lemma_split_nonempty(headers@, line_end());
        assert(slices(pieces@).len() == pieces@.len());
        assert(header_views(parsed@) =~= Seq::<HeaderView>::empty());
        assert(lines.take(0) =~= Seq::<Seq<u8>>::empty());
    }
    while i < pieces.len()
        invariant
            1 <= i <= pieces@.len(),
            lines == slices(pieces@).skip(1),
            slices(pieces@) == split(headers@, line_end()),
            lines == split(headers@, line_end()).skip(1),
            fields(lines.take(i - 1)) == Some(header_views(parsed@)),
            forall|k: int|
                0 <= k < parsed@.len() ==> is_request_name((#[trigger] parsed@[k])@.name),
        decreases pieces@.len() - i,
    {
        let line = pieces[i];
        let ghost before = header_views(parsed@);
        proof {
            assert(lines.take(i as int).drop_last() =~= lines.take(i - 1));
            assert(lines.take(i as int).last() == line@);
            lemma_split_pieces(headers@, line_end());
            assert forall|j: int| 0 <= j < line@.len() implies #[trigger] line@[j] != 0x0a
                && line@[j] != 0x0d by {
                assert(line@ == slices(pieces@)[i as int]);
                assert(!line_end()(split(headers@, line_end())[i as int][j]));
            }
        }
        match parse_line(line) {
            Line::Nothing => {},
            Line::BadName => {
                proof {
                    lemma_fields_none(lines, i as int);
                }
                return Err(NsResult::NS_ERROR_DOM_INVALID_HEADER_NAME);
            },
            Line::Field(header) => {
                parsed.push(header);
                assert(header_views(parsed@) =~= before.push(header@));
            },
        }
        i += 1;
    }
    proof {
        assert(lines.take(i - 1) =~= lines);
        assert(parsed_headers(headers@) == Some(header_views(parsed@)));
        law_parsed_headers(headers@);
        assert forall|k: int| 0 <= k < parsed@.len() implies is_request_name(
            (#[trigger] parsed@[k])@.name,
        ) && is_request_field(parsed@[k]@) by {
            let list = parsed_headers(headers@)->0;
            assert(list == header_views(parsed@));
            assert(list.len() == parsed@.len());
            assert(is_request_field(list[k]));
        }
    }
    Ok(parsed)
}

proof fn lemma_fields_none(lines: Seq<Seq<u8>>, k: int)
    requires
        0 <= k <= lines.len(),
        fields(lines.take(k)) is None,
    ensures
        fields(lines) is None,
    decreases lines.len(),
{
    if k < lines.len() {
        assert(lines.drop_last().take(k) =~= lines.take(k));
        lemma_fields_none(lines.drop_last(), k);
    } else {
        assert(lines.take(k) =~= lines);
    }
}

/// The byte that stands for `b` in a line of HTTP/1: line ends and zero bytes become spaces.
pub open spec fn sanitized_byte(b: u8) -> u8 {
    if b == 0x0a || b == 0x0d || b == 0 {
        0x20
    } else {
        b
    }
}

/// `bytes` without line ends and zero bytes.
pub open spec fn sanitized(bytes: Seq<u8>) -> Seq<u8> {
    bytes.map_values(|b: u8| sanitized_byte(b))
}

/// A copy of `bytes` in which line ends and zero bytes are replaced by spaces.
pub fn sanitize_header(bytes: &[u8]) -> (clean: Vec<u8>)
    ensures
        clean@ == sanitized(bytes@),
{
    let mut clean: Vec<u8> = Vec::new();
    let mut i: usize = 0;
    while i < bytes.len()
        invariant
            i <= bytes@.len(),
            clean@ == sanitized(bytes@.take(i as int)),
        decreases bytes@.len() - i,
    {
        let b: u8 = bytes[i];
        if b == 0x0a || b == 0x0d || b == 0 {
            clean.push(0x20);
        } else {
            clean.push(b);
        }
        i += 1;
        assert(clean@ =~= sanitized(bytes@.take(i as int)));
    }
    assert(bytes@.take(i as int) =~= bytes@);
    clean
}

/// How many of the header fields are the status.
pub open spec fn status_count(headers: Seq<HeaderView>) -> nat
    decreases headers.len(),
{
    if headers.len() == 0 {
        0
    } else {
        status_count(headers.drop_last()) + if headers.last().name == ":status"@ {
            1nat
        } else {
            0nat
        }
    }
}

/// The value of the last header field that is the status.
pub open spec fn status_value(headers: Seq<HeaderView>) -> Seq<u8>
    decreases headers.len(),
{
    if headers.len() == 0 {
        Seq::empty()
    } else if headers.last().name == ":status"@ {
        headers.last().value
    } else {
        status_value(headers.drop_last())
    }
}

/// The end of a line.
pub open spec fn crlf() -> Seq<u8> {
    "\r\n".spec_bytes()
}

/// The line of HTTP/1 that a header field gives.
pub open spec fn header_line(header: HeaderView) -> Seq<u8> {
    sanitized(encode_utf8(header.name)) + ": ".spec_bytes() + sanitized(header.value) + crlf()
}

/// The lines that the header fields but the status give.
pub open spec fn header_lines(headers: Seq<HeaderView>) -> Seq<u8>
    decreases headers.len(),
{
    if headers.len() == 0 {
        Seq::empty()
    } else if headers.last().name == ":status"@ {
        header_lines(headers.drop_last())
    } else {
        header_lines(headers.drop_last()) + header_line(headers.last())
    }
}

/// The head of a response in the form of HTTP/1.
pub open spec fn h1_head(headers: Seq<HeaderView>) -> Seq<u8> {
    "HTTP/3 ".spec_bytes() + status_value(headers) + crlf() + header_lines(headers) + crlf()
}

/// Appends the head of a response in the form of HTTP/1. There has to be exactly one status.
pub fn convert_h3_to_h1_headers(headers: &Vec<Header>, ret_headers: &mut ThinVec<u8>) -> (result:
    NsResult)
    ensures
        result == (if status_count(header_views(headers@)) == 1 {
            NsResult::NS_OK
        } else {
            NsResult::NS_ERROR_ILLEGAL_VALUE
        }),
        thin_bytes(*final(ret_headers)) == (if status_count(header_views(headers@)) == 1 {
            thin_bytes(*old(ret_headers)) + h1_head(header_views(headers@))
        } else {
            thin_bytes(*old(ret_headers))
        }),
{
    let ghost views = header_views(headers@);
    let mut count: usize = 0;
    let mut status: usize = 0;
    let mut i: usize = 0;
    assert(views.take(0) =~= Seq::<HeaderView>::empty());
    while i < headers.len()
        invariant
            i <= headers@.len(),
            views == header_views(headers@),
            count <= i,
            count == status_count(views.take(i as int)),
            count > 0 ==> status < i && status_value(views.take(i as int))
                == headers@[status as int]@.value,
        decreases headers@.len() - i,
    {
        proof {
            assert(views.take(i + 1).drop_last() =~= views.take(i as int));
            assert(views.take(i + 1).last() == headers@[i as int]@);
        }
        if headers[i].is_named(":status") {
            count += 1;
            status = i;
        }
        i += 1;
    }
    assert(views.take(i as int) =~= views);
    if count != 1 {
        return NsResult::NS_ERROR_ILLEGAL_VALUE;
    }
    thin_extend(ret_headers, "HTTP/3 ".as_bytes());
    thin_extend(ret_headers, headers[status].value.as_slice());
    thin_extend(ret_headers, "\r\n".as_bytes());
    let ghost start = thin_bytes(*ret_headers);
    let mut k: usize = 0;
    assert(views.take(0) =~= Seq::<HeaderView>::empty());
    assert(start =~= start + header_lines(views.take(0)));
    while k < headers.len()
        invariant
            k <= headers@.len(),
            views == header_views(headers@),
            thin_bytes(*ret_headers) == start + header_lines(views.take(k as int)),
        decreases headers@.len() - k,
    {
        proof {
            assert(views.take(k + 1).drop_last() =~= views.take(k as int));
            assert(views.take(k + 1).last() == headers@[k as int]@);
        }
        if !headers[k].is_named(":status") {
            let name = sanitize_header(headers[k].name.as_str().as_bytes());
            let value = sanitize_header(headers[k].value.as_slice());
            thin_extend(ret_headers, name.as_slice());
            thin_extend(ret_headers, ": ".as_bytes());
            thin_extend(ret_headers, value.as_slice());
            thin_extend(ret_headers, "\r\n".as_bytes());
            assert(thin_bytes(*ret_headers) =~= start + header_lines(views.take(k + 1)));
        }
        k += 1;
    }
    assert(views.take(k as int) =~= views);
    thin_extend(ret_headers, "\r\n".as_bytes());
    assert(thin_bytes(*ret_headers) =~= thin_bytes(*old(ret_headers)) + h1_head(views));
    NsResult::NS_OK
}

/// Whether a byte string holds no line end and no zero byte.
pub open spec fn is_clean(bytes: Seq<u8>) -> bool {
    forall|i: int|
        0 <= i < bytes.len() ==> #[trigger] bytes[i] != 0x0a && bytes[i] != 0x0d && bytes[i] != 0
}

/// Sanitized bytes hold no line end and no zero byte, are as many as before, and are left alone
/// where they were clean; so sanitizing again changes nothing.
pub proof fn law_sanitized(bytes: Seq<u8>)
    ensures
        is_clean(sanitized(bytes)),
        sanitized(bytes).len() == bytes.len(),
        is_clean(bytes) ==> sanitized(bytes) == bytes,
        sanitized(sanitized(bytes)) == sanitized(bytes),
{
    if is_clean(bytes) {
        assert(sanitized(bytes) =~= bytes);
    }
    assert(sanitized(sanitized(bytes)) =~= sanitized(bytes));
}

/// No header field can add a line to the head of a response: the line that it gives holds no
/// line end before its own.
pub proof fn law_header_is_one_line(header: HeaderView)
    ensures
        ({
            let line = header_line(header);
            line.len() >= 4 && is_clean(line.take(line.len() - 2)) && line.skip(line.len() - 2)
                == seq![0x0du8, 0x0au8]
        }),
{
    let line = header_line(header);
    let name = sanitized(encode_utf8(header.name));
    let value = sanitized(header.value);
    reveal_strlit("\r\n");
    reveal_strlit(": ");
    vstd::string::is_ascii_spec_bytes("\r\n");
    vstd::string::is_ascii_spec_bytes(": ");
    law_sanitized(encode_utf8(header.name));
    law_sanitized(header.value);
    let head = line.take(line.len() - 2);
    assert(head =~= name + ": ".spec_bytes() + value);
    assert forall|i: int| 0 <= i < head.len() implies #[trigger] head[i] != 0x0a && head[i] != 0x0d
        && head[i] != 0 by {
        if i < name.len() {
            assert(head[i] == name[i]);
        } else if i >= name.len() + 2 {
            assert(head[i] == value[i - name.len() - 2]);
        }
    }
    assert(line.skip(line.len() - 2) =~= seq![0x0du8, 0x0au8]);
}

proof fn lemma_split_pieces(bytes: Seq<u8>, sep: spec_fn(u8) -> bool)
    ensures
        forall|k: int, i: int|
            0 <= k < split(bytes, sep).len() && 0 <= i < split(bytes, sep)[k].len() ==> !sep(
                #[trigger] split(bytes, sep)[k][i],
            ),
    decreases bytes.len(),
{
    if bytes.len() > 0 {
        let before = split(bytes.drop_last(), sep);
        lemma_split_pieces(bytes.drop_last(), sep);
        crate::bytes::lemma_split_nonempty(bytes.drop_last(), sep);
        let pieces = split(bytes, sep);
        assert forall|k: int, i: int| 0 <= k < pieces.len() && 0 <= i < pieces[k].len() implies !sep(
            #[trigger] pieces[k][i],
        ) by {
            if sep(bytes.last()) {
                if k < before.len() {
                    assert(pieces[k][i] == before[k][i]);
                }
            } else if k < before.len() - 1 {
                assert(pieces[k][i] == before[k][i]);
            } else if i < before[k].len() {
                assert(pieces[k][i] == before[k][i]);
            }
        }
    }
}

proof fn lemma_trim_start_keeps<A>(s: Seq<A>, f: spec_fn(A) -> bool)
    ensures
        exists|k: int|
            0 <= k <= s.len() && trim_start(s, f) == #[trigger] s.skip(k) && (k < s.len() ==> !f(
                s[k],
            )),
    decreases s.len(),
{
    if s.len() > 0 && f(s[0]) {
        lemma_trim_start_keeps(s.skip(1), f);
        let k = choose|k: int|
            0 <= k <= s.skip(1).len() && trim_start(s.skip(1), f) == #[trigger] s.skip(1).skip(k)
                && (k < s.skip(1).len() ==> !f(s.skip(1)[k]));
        assert(s.skip(1).skip(k) =~= s.skip(k + 1));
        if k < s.skip(1).len() {
            assert(s.skip(1)[k] == s[k + 1]);
        }
    } else {
        assert(s.skip(0) =~= s);
    }
}

proof fn lemma_trim_end_keeps<A>(s: Seq<A>, f: spec_fn(A) -> bool)
    ensures
        exists|k: int|
            0 <= k <= s.len() && trim_end(s, f) == #[trigger] s.take(k) && (k > 0 ==> !f(s[k - 1])),
    decreases s.len(),
{
    if s.len() > 0 && f(s.last()) {
        lemma_trim_end_keeps(s.drop_last(), f);
        let k = choose|k: int|
            0 <= k <= s.drop_last().len() && trim_end(s.drop_last(), f)
                == #[trigger] s.drop_last().take(k) && (k > 0 ==> !f(s.drop_last()[k - 1]));
        assert(s.drop_last().take(k) =~= s.take(k));
        if k > 0 {
            assert(s.drop_last()[k - 1] == s[k - 1]);
        }
    } else {
        assert(s.take(s.len() as int) =~= s);
    }
}

/// What every parsed header field has: a name that is not left out, and a value without line
/// ends and without spaces or tabs at either end.
pub open spec fn is_request_field(header: HeaderView) -> bool {
    let v = header.value;
    &&& !is_excluded(header.name)
    &&& forall|i: int| 0 <= i < v.len() ==> #[trigger] v[i] != 0x0a && v[i] != 0x0d
    &&& v.len() > 0 ==> v[0] != 0x20 && v[0] != 0x09 && v.last() != 0x20 && v.last() != 0x09
}

proof fn lemma_line_field(line: Seq<u8>)
    requires
        forall|i: int| 0 <= i < line.len() ==> #[trigger] line[i] != 0x0a && line[i] != 0x0d,
    ensures
        line_view(line) matches LineView::Field(h) ==> is_request_field(h),
{
    if line_view(line) is Field {
        let raw = line.skip(colon(line) + 1);
        let f = optional_space();
        lemma_trim_start_keeps(raw, f);
        let k = choose|k: int|
            0 <= k <= raw.len() && trim_start(raw, f) == #[trigger] raw.skip(k) && (k < raw.len()
                ==> !f(raw[k]));
        let started = raw.skip(k);
        lemma_trim_end_keeps(started, f);
        let m = choose|m: int|
            0 <= m <= started.len() && trim_end(started, f) == #[trigger] started.take(m) && (m > 0
                ==> !f(started[m - 1]));
        let v = started.take(m);
        assert(trim(raw, f) == v);
        lemma_colon_bounds(line);
        assert forall|i: int| 0 <= i < v.len() implies #[trigger] v[i] != 0x0a && v[i] != 0x0d by {
            assert(v[i] == line[i + k + colon(line) + 1]);
        }
        if v.len() > 0 {
            assert(v[0] == raw[k]);
            assert(v.last() == started[m - 1]);
        }
    }
}

proof fn lemma_colon_bounds(line: Seq<u8>)
    ensures
        0 <= colon(line) <= line.len(),
    decreases line.len(),
{
    if line.len() > 0 && line[0] != 0x3a {
        lemma_colon_bounds(line.skip(1));
    }
}

/// Every header field that a request's head gives has a name that is not left out, and a value
/// without line ends and without white space around it.
pub proof fn law_parsed_headers(head: Seq<u8>)
    ensures
        parsed_headers(head) matches Some(list) ==> forall|k: int|
            0 <= k < list.len() ==> is_request_field(#[trigger] list[k]),
{
    let pieces = split(head, line_end());
    lemma_split_pieces(head, line_end());
    crate::bytes::lemma_split_nonempty(head, line_end());
    let lines = pieces.skip(1);
    assert forall|k: int, i: int| 0 <= k < lines.len() && 0 <= i < lines[k].len() implies #[trigger]
        lines[k][i] != 0x0a && lines[k][i] != 0x0d by {
        assert(lines[k] == pieces[k + 1]);
        assert(!line_end()(pieces[k + 1][i]));
    }
    lemma_fields(lines);
}

proof fn lemma_fields(lines: Seq<Seq<u8>>)
    requires
        forall|k: int, i: int|
            0 <= k < lines.len() && 0 <= i < lines[k].len() ==> #[trigger] lines[k][i] != 0x0a
                && lines[k][i] != 0x0d,
    ensures
        fields(lines) matches Some(list) ==> forall|k: int|
            0 <= k < list.len() ==> is_request_field(#[trigger] list[k]),
    decreases lines.len(),
{
    if lines.len() > 0 {
        let shorter = lines.drop_last();
        assert forall|k: int, i: int| 0 <= k < shorter.len() && 0 <= i < shorter[k].len() implies
            #[trigger] shorter[k][i] != 0x0a && shorter[k][i] != 0x0d by {
            assert(shorter[k] == lines[k]);
            assert(lines[k][i] != 0x0a);
        }
        lemma_fields(shorter);
        let line = lines.last();
        assert forall|i: int| 0 <= i < line.len() implies #[trigger] line[i] != 0x0a && line[i]
            != 0x0d by {
            assert(lines[lines.len() - 1][i] != 0x0a);
        }
        lemma_line_field(line);
    }
}

/// Whether exactly one of the header fields is the status.
pub open spec fn has_one_status(headers: Seq<HeaderView>) -> bool {
    exists|i: int|
        0 <= i < headers.len() && (#[trigger] headers[i]).name == ":status"@ && forall|j: int|
            0 <= j < headers.len() && j != i ==> (#[trigger] headers[j]).name != ":status"@
}

proof fn lemma_status(headers: Seq<HeaderView>)
    ensures
        status_count(headers) == 0 <==> forall|j: int|
            0 <= j < headers.len() ==> (#[trigger] headers[j]).name != ":status"@,
        status_count(headers) == 1 <==> has_one_status(headers),
    decreases headers.len(),
{
    if headers.len() > 0 {
        let before = headers.drop_last();
        let last = headers.len() - 1;
        lemma_status(before);
        if headers[last].name == ":status"@ {
            if status_count(before) == 0 {
                assert forall|j: int| 0 <= j < headers.len() && j != last implies (
                #[trigger] headers[j]).name != ":status"@ by {
                    assert(before[j].name != ":status"@);
                }
            } else {
                let k = choose|k: int| 0 <= k < before.len() && (#[trigger] before[k]).name
                    == ":status"@;
                assert(headers[k].name == ":status"@);
            }
        } else {
            if status_count(before) == 0 {
                assert forall|j: int| 0 <= j < headers.len() implies (#[trigger] headers[j]).name
                    != ":status"@ by {
                    if j < last {
                        assert(before[j].name != ":status"@);
                    }
                }
            } else {
                let k = choose|k: int| 0 <= k < before.len() && (#[trigger] before[k]).name
                    == ":status"@;
                assert(headers[k].name == ":status"@);
            }
            if has_one_status(before) {
                let i = choose|i: int|
                    0 <= i < before.len() && (#[trigger] before[i]).name == ":status"@ && forall|
                        j: int,
                    |
                        0 <= j < before.len() && j != i ==> (#[trigger] before[j]).name
                            != ":status"@;
                assert(headers[i].name == ":status"@);
                assert forall|j: int| 0 <= j < headers.len() && j != i implies (
                #[trigger] headers[j]).name != ":status"@ by {
                    if j < last {
                        assert(before[j].name != ":status"@);
                    }
                }
            }
            if has_one_status(headers) {
                let i = choose|i: int|
                    0 <= i < headers.len() && (#[trigger] headers[i]).name == ":status"@ && forall|
                        j: int,
                    |
                        0 <= j < headers.len() && j != i ==> (#[trigger] headers[j]).name
                            != ":status"@;
                assert(before[i].name == ":status"@);
                assert forall|j: int| 0 <= j < before.len() && j != i implies (
                #[trigger] before[j]).name != ":status"@ by {
                    assert(headers[j].name != ":status"@);
                }
            }
        }
    }
}

/// Header fields form the head of a response exactly where one of them, and no other, is the
/// status.
pub proof fn law_one_status(headers: Seq<HeaderView>)
    ensures
        status_count(headers) == 1 <==> has_one_status(headers),
{
    lemma_status(headers);
}

/// Whether a name is one of those that belong to the connection of HTTP/1.
pub open spec fn belongs_to_h1(name: Seq<char>) -> bool {
    name == "connection"@ || name == "host"@ || name == "keep-alive"@ || name
        == "proxy-connection"@ || name == "te"@ || name == "transfer-encoding"@ || name
        == "upgrade"@ || name == "sec-websocket-key"@
}

/// Whether bytes stand on one line.
pub open spec fn on_one_line(bytes: Seq<u8>) -> bool {
    forall|i: int| 0 <= i < bytes.len() ==> #[trigger] bytes[i] != 0x0d && bytes[i] != 0x0a
}

/// Whether bytes end a line.
pub open spec fn ends_line(bytes: Seq<u8>) -> bool {
    bytes == seq![0x0du8, 0x0a] || bytes == seq![0x0au8] || bytes == seq![0x0du8]
}

proof fn lemma_one_more_line(head: Seq<u8>, end: Seq<u8>, line: Seq<u8>)
    requires
        ends_line(end),
        on_one_line(line),
    ensures
        parsed_headers(head + end + line) == (match (parsed_headers(head), line_view(line)) {
            (None, _) => None,
            (Some(before), LineView::Nothing) => Some(before),
            (Some(before), LineView::BadName) => None,
            (Some(before), LineView::Field(header)) => Some(before.push(header)),
        }),
{
    let sep = line_end();
    let all = head + end + line;
    let at = head.len() + end.len() - 1;
    assert(sep(all[at]));
    assert forall|j: int| at < j < all.len() implies !sep(#[trigger] all[j]) by {
        assert(all[j] == line[j - at - 1]);
    }
    crate::bytes::lemma_split_last(all, sep, at);
    assert(all.skip(at + 1) =~= line);
    crate::bytes::lemma_split_nonempty(head, sep);
    let before = split(head, sep);
    if end.len() == 2 {
        let shorter = all.take(at);
        assert(shorter =~= head.push(0x0d));
        assert(shorter.drop_last() =~= head);
        assert(split(shorter, sep) == before.push(Seq::empty()));
        let lines = before.push(Seq::empty()).skip(1);
        assert(lines =~= before.skip(1).push(Seq::empty()));
        assert(lines.drop_last() =~= before.skip(1));
        assert(line_view(Seq::<u8>::empty()) is Nothing);
        assert(fields(lines) == parsed_headers(head));
        let whole = split(all, sep).skip(1);
        assert(whole =~= lines.push(line));
        assert(whole.drop_last() =~= lines);
    } else {
        assert(all.take(at) =~= head);
        let whole = split(all, sep).skip(1);
        assert(whole =~= before.skip(1).push(line));
        assert(whole.drop_last() =~= before.skip(1));
    }
}

proof fn lemma_trimmed(pad: Seq<u8>, value: Seq<u8>, more: Seq<u8>)
    requires
        forall|i: int| 0 <= i < pad.len() ==> #[trigger] pad[i] == 0x20 || pad[i] == 0x09,
        forall|i: int| 0 <= i < more.len() ==> #[trigger] more[i] == 0x20 || more[i] == 0x09,
        value.len() > 0 ==> value[0] != 0x20 && value[0] != 0x09 && value.last() != 0x20
            && value.last() != 0x09,
    ensures
        trim(pad + value + more, optional_space()) == value,
    decreases pad.len() + more.len(),
{
    let f = optional_space();
    let s = pad + value + more;
    if pad.len() > 0 {
        assert(f(s[0]));
        assert(s.skip(1) =~= pad.skip(1) + value + more);
        assert forall|i: int| 0 <= i < pad.skip(1).len() implies #[trigger] pad.skip(1)[i] == 0x20
            || pad.skip(1)[i] == 0x09 by {
            assert(pad[i + 1] == 0x20 || pad[i + 1] == 0x09);
        }
        lemma_trimmed(pad.skip(1), value, more);
    } else if value.len() > 0 {
        assert(s =~= value + more);
        assert(!f(s[0]));
        lemma_trimmed_end(value, more);
    } else if more.len() > 0 {
        assert(s =~= more);
        assert(f(s[0]));
        assert(s.skip(1) =~= more.skip(1));
        assert forall|i: int| 0 <= i < more.skip(1).len() implies #[trigger] more.skip(1)[i] == 0x20
            || more.skip(1)[i] == 0x09 by {
            assert(more[i + 1] == 0x20 || more[i + 1] == 0x09);
        }
        lemma_trimmed(pad, value, more.skip(1));
        assert(pad + value + more.skip(1) =~= more.skip(1));
    } else {
        assert(s =~= value);
    }
}

proof fn lemma_trimmed_end(value: Seq<u8>, more: Seq<u8>)
    requires
        forall|i: int| 0 <= i < more.len() ==> #[trigger] more[i] == 0x20 || more[i] == 0x09,
        value.len() > 0,
        value.last() != 0x20 && value.last() != 0x09,
    ensures
        trim_end(value + more, optional_space()) == value,
    decreases more.len(),
{
    let f = optional_space();
    let s = value + more;
    if more.len() > 0 {
        assert(more[more.len() - 1] == 0x20 || more[more.len() - 1] == 0x09);
        assert(f(s.last()));
        assert(s.drop_last() =~= value + more.drop_last());
        assert forall|i: int| 0 <= i < more.drop_last().len() implies #[trigger] more.drop_last()[i]
            == 0x20 || more.drop_last()[i] == 0x09 by {
            assert(more[i] == 0x20 || more[i] == 0x09);
        }
        lemma_trimmed_end(value, more.drop_last());
    } else {
        assert(s =~= value);
    }
}

/// The text of a header field's name: in lower case, and without white space around it.
pub open spec fn name_text(name: Seq<u8>) -> Seq<char> {
    lowercase(trim(decode_utf8(name), |c: char| is_white_space(c)))
}

/// A head without lines gives no header fields: the first line is not looked at.
pub proof fn law_first_line_gives_nothing(first: Seq<u8>)
    requires
        on_one_line(first),
    ensures
        parsed_headers(first) == Some(Seq::<HeaderView>::empty()),
{
    let sep = line_end();
    assert forall|j: int| 0 <= j < first.len() implies !sep(#[trigger] first[j]) by {}
    crate::bytes::lemma_split_none(first, sep);
    assert(seq![first].skip(1) =~= Seq::<Seq<u8>>::empty());
}

/// A further line of a head with a name and a value gives one more header field, behind the
/// others, with that name in lower case and the value without the white space around it; only a
/// name of the connection of HTTP/1 gives none. It does not matter how lines end.
pub proof fn law_line_gives_field(
    head: Seq<u8>,
    end: Seq<u8>,
    name: Seq<u8>,
    pad: Seq<u8>,
    value: Seq<u8>,
    more: Seq<u8>,
)
    requires
        parsed_headers(head) is Some,
        ends_line(end),
        name.len() > 0,
        valid_utf8(name),
        on_one_line(name),
        on_one_line(value),
        forall|i: int| 0 <= i < name.len() ==> #[trigger] name[i] != 0x3a,
        forall|i: int| 0 <= i < pad.len() ==> #[trigger] pad[i] == 0x20 || pad[i] == 0x09,
        forall|i: int| 0 <= i < more.len() ==> #[trigger] more[i] == 0x20 || more[i] == 0x09,
        value.len() > 0 ==> value[0] != 0x20 && value[0] != 0x09 && value.last() != 0x20
            && value.last() != 0x09,
    ensures
        parsed_headers(head + end + (name + seq![0x3au8] + (pad + value + more))) == Some(
            if belongs_to_h1(name_text(name)) {
                parsed_headers(head)->0
            } else {
                parsed_headers(head)->0.push(HeaderView { name: name_text(name), value })
            },
        ),
{
    let tail = pad + value + more;
    let line = name + seq![0x3au8] + tail;
    assert forall|i: int| 0 <= i < line.len() implies #[trigger] line[i] != 0x0d && line[i]
        != 0x0a by {
        if i < name.len() {
            assert(line[i] == name[i]);
        } else if i > name.len() {
            let k = i - name.len() - 1;
            assert(line[i] == tail[k]);
            if k < pad.len() {
                assert(tail[k] == pad[k]);
            } else if k < pad.len() + value.len() {
                assert(tail[k] == value[k - pad.len()]);
            } else {
                assert(tail[k] == more[k - pad.len() - value.len()]);
            }
        }
    }
    lemma_one_more_line(head, end, line);
    assert forall|j: int| 0 <= j < name.len() implies line[j] != 0x3a by {
        assert(line[j] == name[j]);
    }
    lemma_colon(line, name.len() as int);
    assert(line.take(name.len() as int) =~= name);
    assert(line.skip(name.len() as int + 1) =~= tail);
    lemma_trimmed(pad, value, more);
}

/// A line without a colon, or that begins with one, gives no header field: so no pseudo header
/// field comes from the embedder. A name that is no text makes the whole head bad.
pub proof fn law_other_lines(head: Seq<u8>, end: Seq<u8>, line: Seq<u8>)
    requires
        ends_line(end),
        on_one_line(line),
    ensures
        (forall|i: int| 0 <= i < line.len() ==> #[trigger] line[i] != 0x3a) ==> parsed_headers(
            head + end + line,
        ) == parsed_headers(head),
        line.len() > 0 && line[0] == 0x3a ==> parsed_headers(head + end + line) == parsed_headers(
            head,
        ),
        parsed_headers(head) is None ==> parsed_headers(head + end + line) is None,
        forall|at: int|
            0 < at < line.len() && #[trigger] line[at] == 0x3a && (forall|j: int|
                0 <= j < at ==> #[trigger] line[j] != 0x3a) && !valid_utf8(line.take(at))
                ==> parsed_headers(head + end + line) is None,
{
    lemma_one_more_line(head, end, line);
    if forall|i: int| 0 <= i < line.len() ==> #[trigger] line[i] != 0x3a {
        lemma_colon(line, line.len() as int);
    }
    assert forall|at: int|
        0 < at < line.len() && #[trigger] line[at] == 0x3a && (forall|j: int|
            0 <= j < at ==> #[trigger] line[j] != 0x3a) && !valid_utf8(
            line.take(at),
        ) implies parsed_headers(head + end + line) is None by {
        lemma_colon(line, at);
    }
}

/// A line of a head: a name and a value, of which neither holds a line end and the name no colon,
/// the name is a text, and no white space stands around the value.
pub open spec fn is_row(row: (Seq<u8>, Seq<u8>)) -> bool {
    let (name, value) = row;
    &&& name.len() > 0
    &&& valid_utf8(name)
    &&& on_one_line(name)
    &&& on_one_line(value)
    &&& forall|i: int| 0 <= i < name.len() ==> #[trigger] name[i] != 0x3a
    &&& value.len() > 0 ==> value[0] != 0x20 && value[0] != 0x09 && value.last() != 0x20
        && value.last() != 0x09
}

/// Every line of a head gives one header field, in the order of the lines, but for the names of
/// the connection of HTTP/1.
pub proof fn law_no_field_is_lost(first: Seq<u8>, rows: Seq<(Seq<u8>, Seq<u8>)>)
    requires
        on_one_line(first),
        forall|i: int| 0 <= i < rows.len() ==> is_row(#[trigger] rows[i]),
    ensures
        parsed_headers(
            first + rows.map_values(
                |row: (Seq<u8>, Seq<u8>)|
                    seq![0x0du8, 0x0a] + (row.0 + seq![0x3au8, 0x20] + row.1),
            ).flatten(),
        ) == Some(
            rows.filter(|row: (Seq<u8>, Seq<u8>)| !belongs_to_h1(name_text(row.0))).map_values(
                |row: (Seq<u8>, Seq<u8>)| HeaderView { name: name_text(row.0), value: row.1 },
            ),
        ),
    decreases rows.len(),
{
    let line = |row: (Seq<u8>, Seq<u8>)|
        seq![0x0du8, 0x0a] + (row.0 + seq![0x3au8, 0x20] + row.1);
    let kept = |row: (Seq<u8>, Seq<u8>)| !belongs_to_h1(name_text(row.0));
    let field = |row: (Seq<u8>, Seq<u8>)| HeaderView { name: name_text(row.0), value: row.1 };
    reveal(Seq::filter);
    if rows.len() == 0 {
        assert(rows.map_values(line) =~= Seq::<Seq<u8>>::empty());
        assert(first + rows.map_values(line).flatten() =~= first);
        law_first_line_gives_nothing(first);
        assert(rows.filter(kept).map_values(field) =~= Seq::<HeaderView>::empty());
    } else {
        let before = rows.drop_last();
        let row = rows.last();
        assert forall|i: int| 0 <= i < before.len() implies is_row(#[trigger] before[i]) by {
            assert(before[i] == rows[i]);
        }
        law_no_field_is_lost(first, before);
        assert(is_row(rows[rows.len() - 1]));
        let head = first + before.map_values(line).flatten();
        assert(rows.map_values(line) =~= before.map_values(line).push(line(row)));
        before.map_values(line).lemma_flatten_push(line(row));
        let pad = seq![0x20u8];
        let none = Seq::<u8>::empty();
        law_line_gives_field(head, seq![0x0du8, 0x0a], row.0, pad, row.1, none);
        assert(first + rows.map_values(line).flatten() =~= head + seq![0x0du8, 0x0a] + (row.0
            + seq![0x3au8] + (pad + row.1 + none)));
        if kept(row) {
            assert(rows.filter(kept).map_values(field) =~= before.filter(kept).map_values(
                field,
            ).push(field(row)));
        }
    }
}

/// The head of a response is a line with the status, a line for each of the other header fields
/// in their order, and an empty line. In a line for a header field, line ends and zero bytes are
/// replaced by spaces.
pub proof fn law_response_head(
    before: Seq<HeaderView>,
    status: HeaderView,
    after: Seq<HeaderView>,
)
    requires
        status.name == ":status"@,
        forall|i: int| 0 <= i < before.len() ==> (#[trigger] before[i]).name != ":status"@,
        forall|i: int| 0 <= i < after.len() ==> (#[trigger] after[i]).name != ":status"@,
    ensures
        h1_head(before.push(status) + after) == seq![0x48u8, 0x54, 0x54, 0x50, 0x2f, 0x33, 0x20]
            + status.value + seq![0x0du8, 0x0a] + (before + after).map_values(
            |h: HeaderView| one_line(encode_utf8(h.name)) + seq![0x3au8, 0x20] + one_line(h.value)
                + seq![0x0du8, 0x0a],
        ).flatten() + seq![0x0du8, 0x0a],
{
    reveal_strlit("HTTP/3 ");
    reveal_strlit("\r\n");
    vstd::string::is_ascii_spec_bytes("HTTP/3 ");
    vstd::string::is_ascii_spec_bytes("\r\n");
    assert("HTTP/3 ".spec_bytes() =~= seq![0x48u8, 0x54, 0x54, 0x50, 0x2f, 0x33, 0x20]);
    assert("\r\n".spec_bytes() =~= seq![0x0du8, 0x0a]);
    lemma_response_lines(before, status, after);
}

/// Bytes in which line ends and zero bytes are replaced by spaces.
pub open spec fn one_line(bytes: Seq<u8>) -> Seq<u8> {
    Seq::new(
        bytes.len(),
        |i: int|
            if bytes[i] == 0x00 || bytes[i] == 0x0a || bytes[i] == 0x0d {
                0x20u8
            } else {
                bytes[i]
            },
    )
}

proof fn lemma_response_lines(
    before: Seq<HeaderView>,
    status: HeaderView,
    after: Seq<HeaderView>,
)
    requires
        status.name == ":status"@,
        forall|i: int| 0 <= i < before.len() ==> (#[trigger] before[i]).name != ":status"@,
        forall|i: int| 0 <= i < after.len() ==> (#[trigger] after[i]).name != ":status"@,
    ensures
        status_value(before.push(status) + after) == status.value,
        header_lines(before.push(status) + after) == (before + after).map_values(
            |h: HeaderView| one_line(encode_utf8(h.name)) + seq![0x3au8, 0x20] + one_line(h.value)
                + seq![0x0du8, 0x0a],
        ).flatten(),
    decreases after.len(),
{
    let line = |h: HeaderView|
        one_line(encode_utf8(h.name)) + seq![0x3au8, 0x20] + one_line(h.value)
            + seq![0x0du8, 0x0a];
    let all = before.push(status) + after;
    if after.len() > 0 {
        let shorter = after.drop_last();
        let last = after.last();
        assert forall|i: int| 0 <= i < shorter.len() implies (#[trigger] shorter[i]).name
            != ":status"@ by {
            assert(shorter[i] == after[i]);
        }
        lemma_response_lines(before, status, shorter);
        assert(all.drop_last() =~= before.push(status) + shorter);
        assert(all.last() == last);
        assert(after[after.len() - 1].name != ":status"@);
        lemma_header_line(last);
        let others = (before + shorter).map_values(line);
        assert((before + after).map_values(line) =~= others.push(line(last)));
        others.lemma_flatten_push(line(last));
    } else {
        assert(all.drop_last() =~= before);
        assert(all.last() == status);
        assert(before + after =~= before);
        lemma_plain_lines(before);
    }
}

proof fn lemma_plain_lines(headers: Seq<HeaderView>)
    requires
        forall|i: int| 0 <= i < headers.len() ==> (#[trigger] headers[i]).name != ":status"@,
    ensures
        header_lines(headers) == headers.map_values(
            |h: HeaderView| one_line(encode_utf8(h.name)) + seq![0x3au8, 0x20] + one_line(h.value)
                + seq![0x0du8, 0x0a],
        ).flatten(),
    decreases headers.len(),
{
    let line = |h: HeaderView|
        one_line(encode_utf8(h.name)) + seq![0x3au8, 0x20] + one_line(h.value)
            + seq![0x0du8, 0x0a];
    if headers.len() > 0 {
        let shorter = headers.drop_last();
        assert forall|i: int| 0 <= i < shorter.len() implies (#[trigger] shorter[i]).name
            != ":status"@ by {
            assert(shorter[i] == headers[i]);
        }
        lemma_plain_lines(shorter);
        assert(headers[headers.len() - 1].name != ":status"@);
        lemma_header_line(headers.last());
        let others = shorter.map_values(line);
        assert(headers.map_values(line) =~= others.push(line(headers.last())));
        others.lemma_flatten_push(line(headers.last()));
    } else {
        assert(headers.map_values(line) =~= Seq::<Seq<u8>>::empty());
        assert(headers.map_values(line).flatten() =~= Seq::<u8>::empty());
    }
}

proof fn lemma_header_line(header: HeaderView)
    ensures
        header_line(header) == one_line(encode_utf8(header.name)) + seq![0x3au8, 0x20] + one_line(
            header.value,
        ) + seq![0x0du8, 0x0a],
{
    reveal_strlit("\r\n");
    reveal_strlit(": ");
    vstd::string::is_ascii_spec_bytes("\r\n");
    vstd::string::is_ascii_spec_bytes(": ");
    assert("\r\n".spec_bytes() =~= seq![0x0du8, 0x0a]);
    assert(": ".spec_bytes() =~= seq![0x3au8, 0x20]);
    assert(sanitized(header.value) =~= one_line(header.value));
    assert(sanitized(encode_utf8(header.name)) =~= one_line(encode_utf8(header.name)));
}

/// What parsing a head gives, and what a response's head is made of, is what is said of heads
/// here; a head that is bad is told as such, and leaves nothing behind.
pub proof fn law_heads(
    head: &[u8],
    parsed: Result<Vec<Header>, NsResult>,
    headers: Vec<Header>,
    out: &mut ThinVec<u8>,
    result: NsResult,
    bytes: &[u8],
    clean: Vec<u8>,
)
    requires
        call_ensures(parse_headers, (head,), parsed),
        call_ensures(convert_h3_to_h1_headers, (&headers, out), result),
        call_ensures(sanitize_header, (bytes,), clean),
    ensures
        parsed matches Ok(list) ==> parsed_headers(head@) == Some(header_views(list@)),
        parsed matches Err(e) ==> parsed_headers(head@) is None && e
            == NsResult::NS_ERROR_DOM_INVALID_HEADER_NAME,
        has_one_status(header_views(headers@)) ==> result == NsResult::NS_OK && thin_bytes(
            *final(out),
        ) == thin_bytes(*old(out)) + h1_head(header_views(headers@)),
        !has_one_status(header_views(headers@)) ==> result == NsResult::NS_ERROR_ILLEGAL_VALUE
            && thin_bytes(*final(out)) == thin_bytes(*old(out)),
        clean@ == one_line(bytes@),
{
    law_one_status(header_views(headers@));
    assert(sanitized(bytes@) =~= one_line(bytes@));
}

/// A header field holds the name and the value that it is made of, a copy holds the same, and it
/// has the one name that it has.
pub proof fn law_header_fields(
    name: &str,
    text: &str,
    value: &[u8],
    with_text: Header,
    with_value: Header,
    copied: Header,
    other: &str,
    named: bool,
)
    requires
        call_ensures(Header::new, (name, text), with_text),
        call_ensures(Header::with_bytes, (name, value), with_value),
        call_ensures(Header::duplicate, (&with_value,), copied),
        call_ensures(Header::is_named, (&with_value, other), named),
    ensures
        with_text.name@ == name@ && with_text.value@ == text.spec_bytes(),
        with_value.name@ == name@ && with_value.value@ == value@,
        copied.name@ == name@ && copied.value@ == value@,
        named <==> other@ == name@,
{
    assert(with_text@.name == name@ && with_value@.name == name@ && copied@.name == name@);
}

}
