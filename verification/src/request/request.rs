//! The request that a handler sees: the buffer, the ranges of its parts,
//! and the texts that stand in those ranges, made when first asked for.

use crate::constants::{AMPERSAND, EQUALS, QUESTION};
use crate::request::handle::HandleRequestError;
use crate::request::head::RequestHead;
use crate::request::headers::{RequestHeaderVec, RequestHeaders};
use crate::request::options::{Connection, RequestOptions};
use crate::request::parser::result::spec_headers_within;
use crate::request::parser::{
    ParserResult, ParserResultView, ParserState, ParserStatus, RequestParser,
};
use crate::request::VecOffset;
use crate::utils::{find_byte, lemma_find, slice_of, spec_find};
use vstd::prelude::*;
use crate::request::parser::model::spec_parse_request;
use crate::request::parser::resume::spec_start;
use crate::request::parser::ParserStatusView;
use vstd::utf8::{decode_utf8, encode_utf8, valid_utf8};

verus! {

/// A JSON value of `serde_json`. The library carries it for the handler
/// and never looks inside.
#[verifier::external_type_specification]
#[verifier::external_body]
pub struct ExJsonValue(serde_json::Value);

/// The text that `String::from_utf8_lossy` makes of bytes.
pub uninterp spec fn spec_lossy_text(bytes: Seq<u8>) -> Seq<char>;

/// Calls `String::from_utf8_lossy` and takes the result as a `String`.
/// The contract claims what the documentation of that function says: the
/// text depends on the bytes alone, and bytes that are valid UTF-8 are
/// decoded as they stand.
#[verifier::external_body]
pub(crate) fn lossy_text(bytes: &[u8]) -> (r: String)
    ensures
        r@ == spec_lossy_text(bytes@),
        valid_utf8(bytes@) ==> r@ == decode_utf8(bytes@),
{
    String::from_utf8_lossy(bytes).into_owned()
}

/// Makes the JSON object without members that a new request carries as
/// its context, by `serde_json::Map::new` and `serde_json::Value::Object`.
/// Nothing is claimed of the value.
#[verifier::external_body]
pub(crate) fn empty_context() -> serde_json::Value {
    serde_json::Value::Object(serde_json::Map::new())
}

/// The text of bytes: what they decode to where they are valid UTF-8,
/// and what `String::from_utf8_lossy` makes of them where they are not.
pub open spec fn spec_text_of(bytes: Seq<u8>) -> Seq<char> {
    if valid_utf8(bytes) {
        decode_utf8(bytes)
    } else {
        spec_lossy_text(bytes)
    }
}

/// The text of bytes.
pub fn text_of(bytes: &[u8]) -> (r: String)
    ensures
        r@ == spec_text_of(bytes@),
{
    lossy_text(bytes)
}

/// A key and a value as texts.
pub type TextPair = (Seq<char>, Seq<char>);

/// A key and a value as bytes.
pub type BytePair = (Seq<u8>, Seq<u8>);

/// A list of pairs of strings as texts.
pub open spec fn spec_texts(list: Seq<(String, String)>) -> Seq<TextPair> {
    list.map_values(|pair: (String, String)| (pair.0@, pair.1@))
}

/// Index of the first pair of `list` with the key `key`, or the length of
/// `list` when there is none.
pub open spec fn spec_index_of(list: Seq<TextPair>, key: Seq<char>) -> int
    decreases list.len(),
{
    if list.len() == 0 {
        0
    } else if list[0].0 == key {
        0
    } else {
        1 + spec_index_of(list.drop_first(), key)
    }
}

/// `list` as a map after `key` was set to `value`: the pair with that key
/// gets the value and keeps its place, and a new key goes to the end.
pub open spec fn spec_insert(list: Seq<TextPair>, key: Seq<char>, value: Seq<char>) -> Seq<
    TextPair,
> {
    let i = spec_index_of(list, key);
    if 0 <= i < list.len() {
        list.update(i, (key, value))
    } else {
        list.push((key, value))
    }
}

/// The map that setting the pairs of `pairs` one after the other gives,
/// each key and value read as text.
pub open spec fn spec_collect(pairs: Seq<BytePair>) -> Seq<TextPair>
    decreases pairs.len(),
{
    if pairs.len() == 0 {
        Seq::empty()
    } else {
        spec_insert(
            spec_collect(pairs.drop_last()),
            spec_text_of(pairs.last().0),
            spec_text_of(pairs.last().1),
        )
    }
}

/// The pair that the token `s[from..to)` of a query writes: key and value
/// around its first `=`, or the token as key and an empty value.
pub open spec fn spec_query_pair(s: Seq<u8>, from: int, to: int) -> BytePair {
    let eq = spec_find(s.subrange(0, to), from, EQUALS);
    if eq >= to {
        (s.subrange(from, to), Seq::empty())
    } else {
        (s.subrange(from, eq), s.subrange(eq + 1, to))
    }
}

/// The pairs of the tokens that `&` separates in `s` from `from` on.
pub open spec fn spec_query_tokens(s: Seq<u8>, from: int) -> Seq<BytePair>
    decreases s.len() - from,
{
    let to = spec_find(s, from, AMPERSAND);
    if to >= s.len() || from < 0 {
        seq![spec_query_pair(s, from, s.len() as int)]
    } else {
        proof {
            lemma_find(s, from, AMPERSAND);
        }
        seq![spec_query_pair(s, from, to)] + spec_query_tokens(s, to + 1)
    }
}

/// The pairs that the query of a path writes: none without a `?`, and
/// otherwise those of the tokens after the first `?`. Nothing is decoded.
pub open spec fn spec_query_pairs(path: Seq<u8>) -> Seq<BytePair> {
    let mark = spec_find(path, 0, QUESTION);
    if mark >= path.len() {
        Seq::empty()
    } else {
        spec_query_tokens(path, mark + 1)
    }
}

/// The part of a path that names the route: what stands before the first
/// `?`.
pub open spec fn spec_route_path(path: Seq<u8>) -> Seq<u8> {
    path.subrange(0, spec_find(path, 0, QUESTION))
}

/// Index of the first pair with the key `key`.
pub fn index_of(list: &Vec<(String, String)>, key: &String) -> (r: usize)
    ensures
        r == spec_index_of(spec_texts(list@), key@),
        r <= list@.len(),
{
    let ghost all = spec_texts(list@);
    let mut i: usize = 0;
    assert(all.subrange(0, all.len() as int) =~= all);
    while i < list.len()
        invariant
            i <= list@.len(),
            all == spec_texts(list@),
            spec_index_of(all, key@) == i + spec_index_of(
                all.subrange(i as int, all.len() as int),
                key@,
            ),
        decreases list@.len() - i,
    {
        let ghost rest = all.subrange(i as int, all.len() as int);
        assert(rest[0] == all[i as int]);
        assert(rest.drop_first() =~= all.subrange(i + 1, all.len() as int));
        if list[i].0 == *key {
            return i;
        }
        i += 1;
    }
    i
}

/// Sets `key` to `value` in a list that is used as a map.
pub fn insert(list: &mut Vec<(String, String)>, key: String, value: String)
    ensures
        spec_texts(final(list)@) == spec_insert(spec_texts(old(list)@), key@, value@),
{
    let i: usize = index_of(list, &key);
    if i < list.len() {
        list[i] = (key, value);
    } else {
        list.push((key, value));
    }
    assert(spec_texts(list@) =~= spec_insert(spec_texts(old(list)@), key@, value@));
}

/// The query of a path as a map from keys to values.
pub fn parse_query(path: &[u8]) -> (r: Vec<(String, String)>)
    ensures
        spec_texts(r@) == spec_collect(spec_query_pairs(path@)),
{
    let n: usize = path.len();
    let mut r: Vec<(String, String)> = Vec::new();
    assert(path@.subrange(0, n as int) =~= path@);
    let mark: usize = find_byte(path, 0, n, QUESTION);
    if mark >= n {
        assert(spec_texts(r@) =~= Seq::<TextPair>::empty());
        return r;
    }
    let mut from: usize = mark + 1;
    let ghost mut done: Seq<BytePair> = Seq::empty();
    assert(spec_texts(r@) =~= spec_collect(done));
    assert(done + spec_query_tokens(path@, from as int) =~= spec_query_pairs(path@));
    loop
        invariant
            n == path@.len(),
            from <= n,
            spec_texts(r@) == spec_collect(done),
            done + spec_query_tokens(path@, from as int) == spec_query_pairs(path@),
        decreases n - from,
    {
        assert(path@.subrange(0, n as int) =~= path@);
        let to: usize = find_byte(path, from, n, AMPERSAND);
        let eq: usize = find_byte(path, from, to, EQUALS);
        let (key, value) = if eq >= to {
            (text_of(slice_of(path, (from, to))), text_of(slice_of(path, (to, to))))
        } else {
            (text_of(slice_of(path, (from, eq))), text_of(slice_of(path, (eq + 1, to))))
        };
        let ghost pair = spec_query_pair(path@, from as int, to as int);
        assert(path@.subrange(to as int, to as int) =~= Seq::<u8>::empty());
        assert(key@ == spec_text_of(pair.0) && value@ == spec_text_of(pair.1));
        insert(&mut r, key, value);
        proof {
            let longer = done.push(pair);
            assert(longer.drop_last() =~= done);
            assert(spec_texts(r@) == spec_collect(longer));
            if to < n {
                assert(longer + spec_query_tokens(path@, to + 1) =~= done + spec_query_tokens(
                    path@,
                    from as int,
                ));
            } else {
                assert(longer =~= done + spec_query_tokens(path@, from as int));
            }
            done = longer;
        }
        if to >= n {
            return r;
        }
        from = to + 1;
    }
}

/// The texts of a request that have been made so far.
#[derive(Debug)]
struct RequestFieldCache {
    path: Option<String>,
    method: Option<String>,
    http_version: Option<String>,
    headers: Option<Vec<(String, String)>>,
    body: Option<String>,
}

impl RequestFieldCache {
    fn empty() -> (r: Self)
        ensures
            r.path is None,
            r.method is None,
            r.http_version is None,
            r.headers is None,
            r.body is None,
    {
        RequestFieldCache { path: None, method: None, http_version: None, headers: None, body: None }
    }
}

/// A complete request.
///
/// `params` is filled by whoever matched the route, `context` belongs to
/// the handler, and `query` holds the pairs of the path's query.
#[derive(Debug)]
pub struct Request {
    buf: Vec<u8>,
    head: RequestHead,
    headers: RequestHeaders,
    body: VecOffset,
    pub context: serde_json::Value,
    pub params: Vec<(String, String)>,
    pub query: Vec<(String, String)>,
    options: RequestOptions,
    cache: RequestFieldCache,
}

/// The bytes of the headers that ranges name, pair by pair.
pub open spec fn spec_header_bytes(buf: Seq<u8>, headers: Seq<RequestHeaderVec>) -> Seq<BytePair> {
    headers.map_values(
        |h: RequestHeaderVec|
            (buf.subrange(h.0.0 as int, h.0.1 as int), buf.subrange(h.1.0 as int, h.1.1 as int)),
    )
}

/// A text that was kept is the text of these bytes.
pub open spec fn spec_kept(kept: Option<String>, bytes: Seq<u8>) -> bool {
    kept matches Some(text) ==> text@ == spec_text_of(bytes)
}

impl Request {
    /// The buffer that holds the request.
    pub closed spec fn spec_buf(&self) -> Seq<u8> {
        self.buf@
    }

    /// The ranges of the request line.
    pub closed spec fn spec_head(&self) -> RequestHead {
        self.head
    }

    /// The ranges of the headers.
    pub closed spec fn spec_headers(&self) -> Seq<RequestHeaderVec> {
        self.headers@
    }

    /// The range of the body.
    pub closed spec fn spec_body(&self) -> VecOffset {
        self.body
    }

    /// The options of the request.
    pub closed spec fn spec_options(&self) -> RequestOptions {
        self.options
    }

    /// The parameters of the route.
    pub closed spec fn spec_params(&self) -> Seq<(String, String)> {
        self.params@
    }

    /// The pairs of the query.
    pub closed spec fn spec_query(&self) -> Seq<(String, String)> {
        self.query@
    }

    /// The handler's value.
    pub closed spec fn spec_context(&self) -> serde_json::Value {
        self.context
    }

    /// The bytes that a range names in the request's buffer.
    pub open spec fn spec_part(&self, range: VecOffset) -> Seq<u8> {
        self.spec_buf().subrange(range.0 as int, range.1 as int)
    }

    /// The headers as a map of texts: each name with the value of its
    /// last line, in the order in which the names first occur.
    pub open spec fn spec_header_map(&self) -> Seq<TextPair> {
        spec_collect(spec_header_bytes(self.spec_buf(), self.spec_headers()))
    }

    /// Every range lies inside the buffer.
    pub open spec fn spec_within(&self) -> bool {
        &&& self.spec_head().spec_within(self.spec_buf().len())
        &&& spec_headers_within(self.spec_headers(), self.spec_buf().len())
        &&& self.spec_body().0 <= self.spec_body().1 <= self.spec_buf().len()
    }

    /// The request is well formed: every range lies inside the buffer,
    /// and every text that was kept is the text of its range.
    pub closed spec fn wf(&self) -> bool {
        &&& self.spec_within()
        &&& spec_kept(self.cache.method, self.spec_part(self.head.method))
        &&& spec_kept(self.cache.path, self.spec_part(self.head.path))
        &&& spec_kept(self.cache.http_version, self.spec_part(self.head.http_version))
        &&& spec_kept(self.cache.body, self.spec_part(self.body))
        &&& (self.cache.headers matches Some(map) ==> spec_texts(map@) == self.spec_header_map())
    }

    /// The request is the one that a result of the parser stands for:
    /// it has the result's buffer and ranges and the result's choice for
    /// the connection, the query of the result's path, and no
    /// parameters.
    pub open spec fn spec_made_of(&self, result: ParserResultView) -> bool {
        &&& self.wf()
        &&& self.spec_buf() == result.buf
        &&& self.spec_head() == result.head
        &&& self.spec_headers() == result.headers
        &&& self.spec_body() == result.body
        &&& self.spec_options() == (RequestOptions {
            connection: result.header_options.connection,
        })
        &&& self.spec_params().len() == 0
        &&& spec_texts(self.spec_query()) == spec_collect(
            spec_query_pairs(
                result.buf.subrange(result.head.path.0 as int, result.head.path.1 as int),
            ),
        )
    }

    /// The same request: buffer, ranges and options are those of `other`.
    pub open spec fn spec_same(&self, other: &Request) -> bool {
        &&& self.spec_buf() == other.spec_buf()
        &&& self.spec_head() == other.spec_head()
        &&& self.spec_headers() == other.spec_headers()
        &&& self.spec_body() == other.spec_body()
        &&& self.spec_options() == other.spec_options()
        &&& self.spec_params() == other.spec_params()
        &&& self.spec_query() == other.spec_query()
        &&& self.spec_context() == other.spec_context()
    }

    /// A request of the given parts, with an empty JSON object as its
    /// context. The ranges must lie inside `buf`.
    pub fn new(
        buf: Vec<u8>,
        head: RequestHead,
        headers: RequestHeaders,
        body: VecOffset,
        query: Vec<(String, String)>,
        params: Vec<(String, String)>,
        options: RequestOptions,
    ) -> (r: Request)
        requires
            head.spec_within(buf@.len()),
            spec_headers_within(headers@, buf@.len()),
            body.0 <= body.1 <= buf@.len(),
        ensures
            r.wf(),
            r.spec_buf() == buf@,
            r.spec_head() == head,
            r.spec_headers() == headers@,
            r.spec_body() == body,
            r.spec_options() == options,
            r.spec_query() == query@,
            r.spec_params() == params@,
    {
        Request {
            buf,
            head,
            headers,
            body,
            context: empty_context(),
            params,
            query,
            options,
            cache: RequestFieldCache::empty(),
        }
    }

    /// The request that `buf` holds in full. Bytes that are the start of
    /// a request end like a stream that ended too early, and bytes that
    /// are no request are refused with the parser's reason.
    pub fn parse_request(buf: Vec<u8>) -> (r: Result<Request, HandleRequestError>)
        ensures
            match spec_parse_request(buf@, spec_start()) {
                ParserStatusView::Success(result) => r matches Ok(made) && made.spec_made_of(
                    result,
                ),
                ParserStatusView::Incomplete(_, _) => r matches Err(HandleRequestError::EOF),
                ParserStatusView::Invalid(reason) => r matches Err(
                    HandleRequestError::Invalid(text),
                ) && text@ == reason,
            },
    {
        match RequestParser::parse_request(buf, ParserState::Start { read_until: None }) {
            ParserStatus::Success(result) => Ok(result.into_request()),
            ParserStatus::Incomplete(_) => Err(HandleRequestError::EOF),
            ParserStatus::Invalid(reason) => Err(HandleRequestError::Invalid(reason)),
        }
    }

    /// The request that the text `request` writes in full; see
    /// `parse_request`.
    pub fn from_string(request: String) -> (r: Result<Request, HandleRequestError>)
        ensures
            match spec_parse_request(encode_utf8(request@), spec_start()) {
                ParserStatusView::Success(result) => r matches Ok(made) && made.spec_made_of(
                    result,
                ),
                ParserStatusView::Incomplete(_, _) => r matches Err(HandleRequestError::EOF),
                ParserStatusView::Invalid(reason) => r matches Err(
                    HandleRequestError::Invalid(text),
                ) && text@ == reason,
            },
    {
        Request::parse_request(crate::utils::to_vec(request.as_str().as_bytes()))
    }

    /// The method as text.
    pub fn method(&mut self) -> (r: &str)
        requires
            old(self).wf(),
        ensures
            final(self).wf(),
            final(self).spec_same(old(self)),
            r@ == spec_text_of(old(self).spec_part(old(self).spec_head().method)),
            valid_utf8(old(self).spec_part(old(self).spec_head().method)) ==> r@ == decode_utf8(old(self).spec_part(old(self).spec_head().method)),
    {
        if self.cache.method.is_none() {
            self.cache.method = Some(text_of(slice_of(self.buf.as_slice(), self.head.method)));
        }
        self.cache.method.as_ref().unwrap().as_str()
    }
}

impl Default for Request {
    fn default() -> (r: Self)
        ensures
            r.wf(),
            r.spec_buf() == Seq::<u8>::empty(),
            r.spec_head() == (RequestHead { method: (0, 0), path: (0, 0), http_version: (0, 0) }),
            r.spec_headers() == Seq::<RequestHeaderVec>::empty(),
            r.spec_body() == (0usize, 0usize),
            r.spec_options() == (RequestOptions { connection: Connection::KeepAlive }),
            r.spec_query().len() == 0,
            r.spec_params().len() == 0,
    {
        Request::new(
            Vec::new(),
            RequestHead { method: (0, 0), path: (0, 0), http_version: (0, 0) },
            Vec::new(),
            (0, 0),
            Vec::new(),
            Vec::new(),
            RequestOptions { connection: Connection::KeepAlive },
        )
    }
}

impl Request {
    /// The path as text, with its query.
    pub fn path(&mut self) -> (r: &str)
        requires
            old(self).wf(),
        ensures
            final(self).wf(),
            final(self).spec_same(old(self)),
            r@ == spec_text_of(old(self).spec_part(old(self).spec_head().path)),
            valid_utf8(old(self).spec_part(old(self).spec_head().path)) ==> r@ == decode_utf8(old(self).spec_part(old(self).spec_head().path)),
    {
        if self.cache.path.is_none() {
            self.cache.path = Some(text_of(slice_of(self.buf.as_slice(), self.head.path)));
        }
        self.cache.path.as_ref().unwrap().as_str()
    }

    /// The protocol version as text.
    pub fn http_version(&mut self) -> (r: &str)
        requires
            old(self).wf(),
        ensures
            final(self).wf(),
            final(self).spec_same(old(self)),
            r@ == spec_text_of(old(self).spec_part(old(self).spec_head().http_version)),
            valid_utf8(old(self).spec_part(old(self).spec_head().http_version)) ==> r@ == decode_utf8(old(self).spec_part(old(self).spec_head().http_version)),
    {
        if self.cache.http_version.is_none() {
            self.cache.http_version = Some(
                text_of(slice_of(self.buf.as_slice(), self.head.http_version)),
            );
        }
        self.cache.http_version.as_ref().unwrap().as_str()
    }

    /// The body as text.
    pub fn body(&mut self) -> (r: &str)
        requires
            old(self).wf(),
        ensures
            final(self).wf(),
            final(self).spec_same(old(self)),
            r@ == spec_text_of(old(self).spec_part(old(self).spec_body())),
            valid_utf8(old(self).spec_part(old(self).spec_body())) ==> r@ == decode_utf8(old(self).spec_part(old(self).spec_body())),
    {
        if self.cache.body.is_none() {
            self.cache.body = Some(text_of(slice_of(self.buf.as_slice(), self.body)));
        }
        self.cache.body.as_ref().unwrap().as_str()
    }

    /// The body as the bytes that came.
    pub fn body_bytes(&self) -> (r: &[u8])
        requires
            self.wf(),
        ensures
            r@ == self.spec_part(self.spec_body()),
    {
        slice_of(self.buf.as_slice(), self.body)
    }

    /// The headers as a map from names to values, in the order in which
    /// the names first occur; of two lines with one name the later one
    /// gives the value.
    pub fn headers(&mut self) -> (r: &Vec<(String, String)>)
        requires
            old(self).wf(),
        ensures
            final(self).wf(),
            final(self).spec_same(old(self)),
            spec_texts(r@) == old(self).spec_header_map(),
    {
        if self.cache.headers.is_none() {
            let ghost all = spec_header_bytes(self.buf@, self.headers@);
            let mut map: Vec<(String, String)> = Vec::new();
            let mut i: usize = 0;
            assert(spec_texts(map@) =~= spec_collect(all.subrange(0, 0)));
            while i < self.headers.len()
                invariant
                    i <= self.headers@.len(),
                    spec_headers_within(self.headers@, self.buf@.len()),
                    all == spec_header_bytes(self.buf@, self.headers@),
                    spec_texts(map@) == spec_collect(all.subrange(0, i as int)),
                decreases self.headers@.len() - i,
            {
                let h = self.headers[i];
                assert(h == self.headers@[i as int]);
                let name = text_of(slice_of(self.buf.as_slice(), h.0));
                let value = text_of(slice_of(self.buf.as_slice(), h.1));
                assert(all.subrange(0, i + 1).drop_last() =~= all.subrange(0, i as int));
                assert(all.subrange(0, i + 1).last() == all[i as int]);
                insert(&mut map, name, value);
                i += 1;
            }
            assert(all.subrange(0, i as int) =~= all);
            self.cache.headers = Some(map);
        }
        self.cache.headers.as_ref().unwrap()
    }

    /// The method as the bytes that came.
    pub fn method_bytes(&self) -> (r: &[u8])
        requires
            self.wf(),
        ensures
            r@ == self.spec_part(self.spec_head().method),
    {
        slice_of(self.buf.as_slice(), self.head.method)
    }

    /// Gives the request the parameters of its route.
    pub fn set_params(&mut self, params: Vec<(String, String)>)
        requires
            old(self).wf(),
        ensures
            final(self).wf(),
            final(self).spec_params() == params@,
            final(self).spec_buf() == old(self).spec_buf(),
            final(self).spec_head() == old(self).spec_head(),
            final(self).spec_headers() == old(self).spec_headers(),
            final(self).spec_body() == old(self).spec_body(),
            final(self).spec_options() == old(self).spec_options(),
            final(self).spec_query() == old(self).spec_query(),
            final(self).spec_context() == old(self).spec_context(),
    {
        self.params = params;
    }

    /// What the request says about the connection.
    pub fn get_connection(&self) -> (r: &Connection)
        ensures
            *r == self.spec_options().connection,
    {
        &self.options.connection
    }

    /// The ranges of the request line.
    pub fn head(&self) -> (r: &RequestHead)
        ensures
            *r == self.spec_head(),
    {
        &self.head
    }

    /// The part of the path that names the route: what stands before the
    /// first `?`.
    pub fn route_path(&self) -> (r: String)
        requires
            self.wf(),
        ensures
            r@ == spec_text_of(spec_route_path(self.spec_part(self.spec_head().path))),
            valid_utf8(spec_route_path(self.spec_part(self.spec_head().path))) ==> r@ == decode_utf8(spec_route_path(self.spec_part(self.spec_head().path))),
    {
        let path = slice_of(self.buf.as_slice(), self.head.path);
        assert(path@.subrange(0, path@.len() as int) =~= path@);
        let mark: usize = find_byte(path, 0, path.len(), QUESTION);
        text_of(slice_of(path, (0, mark)))
    }
}

impl ParserResult {
    /// Whether every range lies inside the buffer.
    pub fn is_within(&self) -> (r: bool)
        ensures
            r == self@.spec_within(),
    {
        let n: usize = self.buf.len();
        let head = self.head;
        if !(head.method.0 <= head.method.1 && head.method.1 <= head.path.0 && head.path.0
            <= head.path.1 && head.path.1 <= head.http_version.0 && head.http_version.0
            <= head.http_version.1 && head.http_version.1 <= n) {
            return false;
        }
        if !(self.body.0 <= self.body.1 && self.body.1 <= n) {
            return false;
        }
        let mut i: usize = 0;
        while i < self.headers.len()
            invariant
                i <= self.headers@.len(),
                n == self.buf@.len(),
                forall|k: int|
                    0 <= k < i ==> {
                        let h = #[trigger] self.headers@[k];
                        h.0.0 <= h.0.1 <= h.1.0 <= h.1.1 <= n
                    },
            decreases self.headers@.len() - i,
        {
            let h = self.headers[i];
            if !(h.0.0 <= h.0.1 && h.0.1 <= h.1.0 && h.1.0 <= h.1.1 && h.1.1 <= n) {
                return false;
            }
            i += 1;
        }
        true
    }

    /// The request that the result stands for, with the query of its
    /// path and no parameters. The ranges must lie inside the buffer, as
    /// those of every result of the parser do.
    pub fn into_request(self) -> (r: Request)
        requires
            self@.spec_within(),
        ensures
            r.spec_made_of(self@),
    {
        let query = parse_query(slice_of(self.buf.as_slice(), self.head.path));
        Request::new(
            self.buf,
            self.head,
            self.headers,
            self.body,
            query,
            Vec::new(),
            RequestOptions { connection: self.header_options.connection },
        )
    }
}

} // verus!
