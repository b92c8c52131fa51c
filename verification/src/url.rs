//! Target addresses: what a URL is made of, how query parameters are
//! written, and how both are put together.

use vstd::prelude::*;
use vstd::utf8::encode_utf8;
use crate::header::Field;

verus! {

/// Whether `url::Url::parse` accepts the text as an absolute URL.
pub uninterp spec fn url_parses(text: Seq<char>) -> bool;

/// For a text that parses, whether `url::Url::has_host` holds of the URL.
pub uninterp spec fn url_has_host(text: Seq<char>) -> bool;

/// For a text that parses, the written form of the URL up to the end of its
/// path: its slice before `url::Position::AfterPath`.
pub uninterp spec fn url_head(text: Seq<char>) -> Seq<char>;

/// For a text that parses, what `url::Url::query` gives: the text between
/// `?` and `#`, where there is a `?`.
pub uninterp spec fn url_query(text: Seq<char>) -> Option<Seq<char>>;

/// For a text that parses, what `url::Url::fragment` gives: the text after
/// `#`, where there is one.
pub uninterp spec fn url_fragment(text: Seq<char>) -> Option<Seq<char>>;

/// A parsed URL, cut where a query is inserted.
#[derive(Debug)]
pub struct UrlParts {
    /// Scheme, authority and path, as written after normalisation.
    pub head: String,
    /// The query, without its leading `?`.
    pub query: Option<String>,
    /// The fragment, without its leading `#`.
    pub fragment: Option<String>,
    /// Whether the URL names a host.
    pub has_host: bool,
}

/// The parts of a URL as text.
pub struct UrlPartsView {
    pub head: Seq<char>,
    pub query: Option<Seq<char>>,
    pub fragment: Option<Seq<char>>,
    pub has_host: bool,
}

impl View for UrlParts {
    type V = UrlPartsView;

    open spec fn view(&self) -> UrlPartsView {
        UrlPartsView {
            head: self.head@,
            query: self.query.deep_view(),
            fragment: self.fragment.deep_view(),
            has_host: self.has_host,
        }
    }
}

/// What parsing makes of a text that parses.
pub open spec fn parts_of(text: Seq<char>) -> UrlPartsView {
    UrlPartsView {
        head: url_head(text),
        query: url_query(text),
        fragment: url_fragment(text),
        has_host: url_has_host(text),
    }
}

/// Parses a URL with `url::Url::parse` and takes it apart with `Url::query`,
/// `Url::fragment`, `Url::has_host` and a slice up to `Position::AfterPath`.
///
/// Trusted: the parser's verdict and the four parts depend on the text
/// alone. Nothing is claimed here of which texts parse.
#[verifier::external_body]
fn parse_parts(text: &str) -> (res: Option<UrlParts>)
    ensures
        res is Some <==> url_parses(text@),
        res matches Some(parts) ==> parts.head@ == url_head(text@),
        res matches Some(parts) ==> parts.query.deep_view() == url_query(text@),
        res matches Some(parts) ==> parts.fragment.deep_view() == url_fragment(text@),
        res matches Some(parts) ==> parts.has_host == url_has_host(text@),
{
    match url::Url::parse(text) {
        Ok(parsed) => Some(
            UrlParts {
                head: parsed[..url::Position::AfterPath].to_owned(),
                query: parsed.query().map(str::to_owned),
                fragment: parsed.fragment().map(str::to_owned),
                has_host: parsed.has_host(),
            },
        ),
        Err(_) => None,
    }
}

/// A byte that is written as it stands in a query: an ASCII letter or digit,
/// or one of `*`, `-`, `.` and `_`.
pub open spec fn is_plain_byte(b: u8) -> bool {
    (0x30 <= b && b <= 0x39) || (0x41 <= b && b <= 0x5a) || (0x61 <= b && b <= 0x7a) || b == 0x2a
        || b == 0x2d || b == 0x2e || b == 0x5f
}

/// The upper-case hexadecimal digit for a number below sixteen.
pub open spec fn hex_digit(n: u8) -> char {
    if n < 10 {
        (0x30 + n) as char
    } else {
        (0x37 + n) as char
    }
}

/// How one byte is written in a query: plain bytes as they are, the space
/// as `+`, any other byte as `%` and two hexadecimal digits.
pub open spec fn encoded_byte(b: u8) -> Seq<char> {
    if is_plain_byte(b) {
        seq![b as char]
    } else if b == 0x20 {
        seq!['+']
    } else {
        seq!['%', hex_digit(b / 16), hex_digit(b % 16)]
    }
}

/// How a run of bytes is written in a query: byte by byte, in order.
pub open spec fn form_encoded(bytes: Seq<u8>) -> Seq<char>
    decreases bytes.len(),
{
    if bytes.len() == 0 {
        Seq::<char>::empty()
    } else {
        form_encoded(bytes.drop_last()) + encoded_byte(bytes.last())
    }
}

/// Percent-encodes a text with `url::form_urlencoded::byte_serialize`.
///
/// Trusted: the result is the form encoding, byte by byte, of the text's
/// UTF-8 bytes.
#[verifier::external_body]
fn form_encode(text: &str) -> (res: String)
    ensures
        res@ == form_encoded(encode_utf8(text@)),
{
    url::form_urlencoded::byte_serialize(text.as_bytes()).collect()
}

/// An address that a request can be sent to: it parses, and names a host.
pub open spec fn is_absolute_url(text: Seq<char>) -> bool {
    url_parses(text) && url_has_host(text)
}

/// One query parameter as written: the encoded name, `=`, the encoded value.
pub open spec fn pair_text(pair: Field) -> Seq<char> {
    form_encoded(encode_utf8(pair.0)) + seq!['='] + form_encoded(encode_utf8(pair.1))
}

/// A query with one parameter more at its end. Parameters are set apart by
/// `&`.
pub open spec fn with_pair(query: Seq<char>, pair: Field) -> Seq<char> {
    if query.len() > 0 {
        query + seq!['&'] + pair_text(pair)
    } else {
        pair_text(pair)
    }
}

/// A query with the parameters of a list added at its end, in order.
pub open spec fn with_pairs(query: Seq<char>, pairs: Seq<Field>) -> Seq<char>
    decreases pairs.len(),
{
    if pairs.len() == 0 {
        query
    } else {
        with_pair(with_pairs(query, pairs.drop_last()), pairs.last())
    }
}

/// The query of a request: what the URL brought, then the request's
/// parameters. An empty query is no query.
pub open spec fn final_query(existing: Option<Seq<char>>, pairs: Seq<Field>) -> Option<Seq<char>> {
    let start = match existing {
        Some(q) => q,
        None => Seq::<char>::empty(),
    };
    let query = with_pairs(start, pairs);
    if query.len() == 0 {
        None
    } else {
        Some(query)
    }
}

/// A URL as written: the head, then `?` and the query, then `#` and the
/// fragment, each where there is one.
pub open spec fn url_text(
    head: Seq<char>,
    query: Option<Seq<char>>,
    fragment: Option<Seq<char>>,
) -> Seq<char> {
    head + (match query {
        Some(q) => seq!['?'] + q,
        None => Seq::<char>::empty(),
    }) + (match fragment {
        Some(f) => seq!['#'] + f,
        None => Seq::<char>::empty(),
    })
}

/// The address that a request goes to: the parts of its URL, with its
/// parameters added to the query.
pub open spec fn target_text(parts: UrlPartsView, pairs: Seq<Field>) -> Seq<char> {
    url_text(parts.head, final_query(parts.query, pairs), parts.fragment)
}

/// Parses an address. Succeeds exactly on absolute URLs.
pub fn split_url(text: &str) -> (res: Option<UrlParts>)
    ensures
        res is Some <==> is_absolute_url(text@),
        res matches Some(parts) ==> parts@ == parts_of(text@),
{
    match parse_parts(text) {
        Some(parts) => {
            if parts.has_host {
                Some(parts)
            } else {
                None
            }
        },
        None => None,
    }
}

/// Whether the text is an address that a request can be sent to.
pub fn is_valid_url(text: &str) -> (res: bool)
    ensures
        res == is_absolute_url(text@),
{
    split_url(text).is_some()
}

/// Adds parameters to the end of a query.
pub fn append_pairs(query: String, pairs: &Vec<(String, String)>) -> (res: String)
    ensures
        res@ == with_pairs(query@, pairs.deep_view()),
{
    let ghost start = query@;
    let ghost view = pairs.deep_view();
    let mut out = query;
    let mut i: usize = 0;
    while i < pairs.len()
        invariant
            i <= pairs.len(),
            view == pairs.deep_view(),
            out@ == with_pairs(start, view.take(i as int)),
        decreases pairs.len() - i,
    {
        let pair = &pairs[i];
        proof {
            reveal_strlit("&");
            reveal_strlit("=");
            assert(view[i as int] == (pair.0@, pair.1@));
            assert(view.take(i + 1).drop_last() =~= view.take(i as int));
            assert(view.take(i + 1).last() == view[i as int]);
        }
        let ghost before = out@;
        if !out.as_str().is_empty() {
            out.append("&");
        }
        let name = form_encode(pair.0.as_str());
        let value = form_encode(pair.1.as_str());
        out.append(name.as_str());
        out.append("=");
        out.append(value.as_str());
        assert(out@ =~= with_pair(before, view[i as int]));
        i += 1;
    }
    assert(view.take(pairs.len() as int) =~= view);
    out
}

/// The query of a request: what its URL brought, then its parameters.
pub fn target_query(parts: &UrlParts, pairs: &Vec<(String, String)>) -> (res: Option<String>)
    ensures
        res.deep_view() == final_query(parts@.query, pairs.deep_view()),
{
    let start = match &parts.query {
        Some(q) => q.clone(),
        None => String::new(),
    };
    let query = append_pairs(start, pairs);
    if query.as_str().is_empty() {
        None
    } else {
        Some(query)
    }
}

/// Writes out a URL from its parts.
pub fn write_url(head: &str, query: &Option<String>, fragment: &Option<String>) -> (res: String)
    ensures
        res@ == url_text(head@, query.deep_view(), fragment.deep_view()),
{
    let mut out = String::from_str(head);
    match query {
        Some(q) => {
            out.append("?");
            out.append(q.as_str());
        },
        None => {},
    }
    match fragment {
        Some(f) => {
            out.append("#");
            out.append(f.as_str());
        },
        None => {},
    }
    proof {
        reveal_strlit("?");
        reveal_strlit("#");
        assert(out@ =~= url_text(head@, query.deep_view(), fragment.deep_view()));
    }
    out
}

/// Writes out the address that a request goes to.
pub fn target_url(parts: &UrlParts, pairs: &Vec<(String, String)>) -> (res: String)
    ensures
        res@ == target_text(parts@, pairs.deep_view()),
{
    let query = target_query(parts, pairs);
    write_url(parts.head.as_str(), &query, &parts.fragment)
}

/// A character that encoding can produce: a letter, a digit, or one of
/// `*`, `-`, `.`, `_`, `+` and `%`.
pub open spec fn is_encoded_char(c: char) -> bool {
    ('0' <= c && c <= '9') || ('A' <= c && c <= 'Z') || ('a' <= c && c <= 'z') || c == '*' || c
        == '-' || c == '.' || c == '_' || c == '+' || c == '%'
}

/// How often a character stands in a text.
pub open spec fn count_of(text: Seq<char>, c: char) -> nat
    decreases text.len(),
{
    if text.len() == 0 {
        0
    } else {
        count_of(text.drop_last(), c) + if text.last() == c {
            1nat
        } else {
            0nat
        }
    }
}

/// Encoded text holds only characters that encoding can produce; none of
/// them is `&`, `=`, `?` or `#`.
pub proof fn lemma_form_encoded_chars(bytes: Seq<u8>)
    ensures
        forall|i: int|
            0 <= i < form_encoded(bytes).len() ==> is_encoded_char(
                #[trigger] form_encoded(bytes)[i],
            ),
    decreases bytes.len(),
{
    if bytes.len() > 0 {
        lemma_form_encoded_chars(bytes.drop_last());
        let b = bytes.last();
        let done = form_encoded(bytes.drop_last());
        let piece = encoded_byte(b);
        assert forall|k: int| 0 <= k < piece.len() implies is_encoded_char(#[trigger] piece[k]) by {
            let high = b / 16;
            let low = b % 16;
            assert(high < 16 && low < 16);
            assert(is_encoded_char(hex_digit(high)));
            assert(is_encoded_char(hex_digit(low)));
        }
        assert forall|i: int| 0 <= i < form_encoded(bytes).len() implies is_encoded_char(
            #[trigger] form_encoded(bytes)[i],
        ) by {
            if i < done.len() {
                assert(form_encoded(bytes)[i] == done[i]);
            } else {
                assert(form_encoded(bytes)[i] == piece[i - done.len()]);
            }
        }
    }
}

/// Counting in a text that is made of two is counting in both.
pub proof fn lemma_count_of_add(a: Seq<char>, b: Seq<char>, c: char)
    ensures
        count_of(a + b, c) == count_of(a, c) + count_of(b, c),
    decreases b.len(),
{
    if b.len() == 0 {
        assert(a + b =~= a);
    } else {
        assert((a + b).drop_last() =~= a + b.drop_last());
        assert((a + b).last() == b.last());
        lemma_count_of_add(a, b.drop_last(), c);
    }
}

/// A character that stands nowhere in a text is counted zero times.
pub proof fn lemma_count_of_absent(text: Seq<char>, c: char)
    requires
        forall|i: int| 0 <= i < text.len() ==> #[trigger] text[i] != c,
    ensures
        count_of(text, c) == 0,
    decreases text.len(),
{
    if text.len() > 0 {
        assert(text.last() == text[text.len() - 1]);
        assert forall|i: int| 0 <= i < text.drop_last().len() implies #[trigger] text.drop_last()[i]
            != c by {
            assert(text.drop_last()[i] == text[i]);
        }
        lemma_count_of_absent(text.drop_last(), c);
    }
}

/// A written parameter holds one `=`, between the encoded name and the
/// encoded value, and no `&`.
pub proof fn lemma_pair_text_marks(pair: Field)
    ensures
        count_of(pair_text(pair), '=') == 1,
        count_of(pair_text(pair), '&') == 0,
        pair_text(pair).len() > 0,
{
    let name = form_encoded(encode_utf8(pair.0));
    let value = form_encoded(encode_utf8(pair.1));
    lemma_form_encoded_chars(encode_utf8(pair.0));
    lemma_form_encoded_chars(encode_utf8(pair.1));
    assert forall|i: int| 0 <= i < name.len() implies #[trigger] name[i] != '=' && name[i]
        != '&' by {
        assert(is_encoded_char(name[i]));
    }
    assert forall|i: int| 0 <= i < value.len() implies #[trigger] value[i] != '=' && value[i]
        != '&' by {
        assert(is_encoded_char(value[i]));
    }
    lemma_count_of_absent(name, '=');
    lemma_count_of_absent(name, '&');
    lemma_count_of_absent(value, '=');
    lemma_count_of_absent(value, '&');
    let mark = seq!['='];
    assert(mark.drop_last() =~= Seq::<char>::empty());
    assert(count_of(mark, '=') == 1) by {
        reveal_with_fuel(count_of, 2);
    }
    assert(count_of(mark, '&') == 0) by {
        reveal_with_fuel(count_of, 2);
    }
    lemma_count_of_add(name, mark, '=');
    lemma_count_of_add(name, mark, '&');
    lemma_count_of_add(name + mark, value, '=');
    lemma_count_of_add(name + mark, value, '&');
}

/// The query of a request whose URL brought none holds exactly the
/// request's parameters: one `=` for each of them, and one `&` between each
/// two.
pub proof fn lemma_query_holds_each_pair(pairs: Seq<Field>)
    ensures
        count_of(with_pairs(Seq::<char>::empty(), pairs), '=') == pairs.len(),
        pairs.len() > 0 ==> count_of(with_pairs(Seq::<char>::empty(), pairs), '&') == pairs.len()
            - 1,
        pairs.len() > 0 ==> with_pairs(Seq::<char>::empty(), pairs).len() > 0,
        pairs.len() == 0 ==> with_pairs(Seq::<char>::empty(), pairs).len() == 0,
    decreases pairs.len(),
{
    if pairs.len() > 0 {
        let before = with_pairs(Seq::<char>::empty(), pairs.drop_last());
        let piece = pair_text(pairs.last());
        lemma_query_holds_each_pair(pairs.drop_last());
        lemma_pair_text_marks(pairs.last());
        if before.len() > 0 {
            let mark = seq!['&'];
            assert(mark.drop_last() =~= Seq::<char>::empty());
            assert(count_of(mark, '&') == 1) by {
                reveal_with_fuel(count_of, 2);
            }
            assert(count_of(mark, '=') == 0) by {
                reveal_with_fuel(count_of, 2);
            }
            lemma_count_of_add(before, mark, '=');
            lemma_count_of_add(before, mark, '&');
            lemma_count_of_add(before + mark, piece, '=');
            lemma_count_of_add(before + mark, piece, '&');
        }
    }
}

/// A request without parameters leaves the query of its URL as it is, but
/// for an empty query, which is dropped: no parameters, no query string.
pub proof fn lemma_no_parameters(existing: Option<Seq<char>>)
    ensures
        final_query(existing, Seq::<Field>::empty()) == match existing {
            Some(query) => if query.len() > 0 {
                Some(query)
            } else {
                None
            },
            None => None,
        },
{
}

} // verus!
