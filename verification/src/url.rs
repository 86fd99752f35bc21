//! The addresses that requests go to.

use vstd::prelude::*;

use crate::error::{ErrorOf, SttError};
use crate::model::{self, is_flux_model, requested_model};
use crate::query::{self, batch_query, flux_query, live_query, CloudSttRequest};
use crate::text;

verus! {

/// Where batch requests go.
pub const DEEPGRAM_URL: &'static str = "https://api.deepgram.com/v1/listen";

/// Where streams go, but for Flux.
pub const DEEPGRAM_WS_URL: &'static str = "wss://api.deepgram.com/v1/listen";

/// Where Flux streams go.
pub const DEEPGRAM_FLUX_WS_URL: &'static str = "wss://api.deepgram.com/v2/listen";

/// One of Deepgram's endpoints.
pub open spec fn is_endpoint(url: Seq<char>) -> bool {
    url == DEEPGRAM_URL@ || url == DEEPGRAM_WS_URL@ || url == DEEPGRAM_FLUX_WS_URL@
}

/// The bytes that stand for themselves in `application/x-www-form-urlencoded`.
pub open spec fn is_plain(b: u8) -> bool {
    ||| '0' as u8 <= b <= '9' as u8
    ||| 'A' as u8 <= b <= 'Z' as u8
    ||| 'a' as u8 <= b <= 'z' as u8
    ||| b == '*' as u8
    ||| b == '-' as u8
    ||| b == '.' as u8
    ||| b == '_' as u8
}

/// The hexadecimal digit for a number below sixteen.
pub open spec fn hex_digit(d: u8) -> char {
    if d < 10 {
        ('0' as u8 + d) as char
    } else {
        ('A' as u8 + (d - 10)) as char
    }
}

/// How `application/x-www-form-urlencoded` writes a byte: as itself, as a plus sign for
/// a space, or as a percent sign and two digits.
pub open spec fn form_byte(b: u8) -> Seq<char> {
    if is_plain(b) {
        seq![b as char]
    } else if b == ' ' as u8 {
        seq!['+']
    } else {
        seq!['%', hex_digit(b / 16), hex_digit(b % 16)]
    }
}

/// How it writes bytes: one after the other.
pub open spec fn form_bytes(bytes: Seq<u8>) -> Seq<char>
    decreases bytes.len(),
{
    if bytes.len() == 0 {
        Seq::empty()
    } else {
        form_byte(bytes.first()) + form_bytes(bytes.drop_first())
    }
}

/// How it writes a text: by the bytes of its UTF-8 encoding.
pub open spec fn form_text(s: Seq<char>) -> Seq<char> {
    form_bytes(vstd::utf8::encode_utf8(s))
}

/// How it writes a parameter.
pub open spec fn form_param(param: (Seq<char>, Seq<char>)) -> Seq<char> {
    form_text(param.0) + seq!['='] + form_text(param.1)
}

/// How it writes a list of parameters: with an ampersand between neighbours.
pub open spec fn form_query(params: Seq<(Seq<char>, Seq<char>)>) -> Seq<char>
    decreases params.len(),
{
    if params.len() == 0 {
        Seq::empty()
    } else if params.len() == 1 {
        form_param(params[0])
    } else {
        form_query(params.drop_last()) + seq!['&'] + form_param(params.last())
    }
}

/// An endpoint with a list of parameters.
pub open spec fn url_text(endpoint: Seq<char>, params: Seq<(Seq<char>, Seq<char>)>) -> Seq<char> {
    endpoint + seq!['?'] + form_query(params)
}

/// The address of a batch request.
pub open spec fn batch_url(req: CloudSttRequest) -> Seq<char> {
    url_text(DEEPGRAM_URL@, req.batch_params())
}

/// The address of a stream.
pub open spec fn stream_url(req: CloudSttRequest) -> Seq<char> {
    let model = model::requested(req.model@);
    if model::is_flux(model) {
        url_text(DEEPGRAM_FLUX_WS_URL@, req.flux_params(model))
    } else {
        url_text(DEEPGRAM_WS_URL@, req.live_params())
    }
}

/// `reqwest::Url::parse`, then `extend_pairs` on its `query_pairs_mut`, then its text; if
/// the address does not parse, the text of the error.
///
/// Claimed is what becomes of Deepgram's endpoints, which have no query and no fragment
/// and are spelled as the parser would spell them: each parses, its text is what was
/// parsed, and the parameters follow behind a question mark, written in
/// `application/x-www-form-urlencoded`. Nothing is claimed of other addresses.
#[verifier::external_body]
fn with_query(endpoint: &str, params: &Vec<(String, String)>) -> (r: Result<String, String>)
    requires
        is_endpoint(endpoint@),
    ensures
        r is Ok,
        r->Ok_0@ == url_text(endpoint@, query::param_texts(params@)),
{
    match reqwest::Url::parse(endpoint) {
        Ok(mut url) => {
            url.query_pairs_mut().extend_pairs(params);
            Ok(url.to_string())
        },
        Err(error) => Err(error.to_string()),
    }
}

/// An endpoint with a list of parameters.
fn endpoint_url(endpoint: &str, params: &Vec<(String, String)>) -> (r: Result<String, SttError>)
    requires
        is_endpoint(endpoint@),
    ensures
        r matches Ok(url) && url@ == url_text(endpoint@, query::param_texts(params@)),
{
    match with_query(endpoint, params) {
        Ok(url) => Ok(url),
        Err(error) => Err(ErrorOf::Other(error)),
    }
}

/// The address of a batch request.
pub fn build_url(req: &CloudSttRequest) -> (r: Result<String, SttError>)
    ensures
        r matches Ok(url) && url@ == batch_url(*req),
{
    endpoint_url(DEEPGRAM_URL, &batch_query(req))
}

/// The address of a stream: `/v2` for a Flux model, `/v1` for any other.
pub fn build_ws_url(req: &CloudSttRequest) -> (r: Result<String, SttError>)
    ensures
        r matches Ok(url) && url@ == stream_url(*req),
{
    let model = requested_model(req.model.as_str());
    if is_flux_model(model) {
        return build_flux_ws_url(req, model);
    }
    endpoint_url(DEEPGRAM_WS_URL, &live_query(req))
}

/// The address of a Flux stream for a model.
pub fn build_flux_ws_url(req: &CloudSttRequest, model: &str) -> (r: Result<String, SttError>)
    ensures
        r matches Ok(url) && url@ == url_text(DEEPGRAM_FLUX_WS_URL@, req.flux_params(model@)),
{
    endpoint_url(DEEPGRAM_FLUX_WS_URL, &flux_query(req, model))
}

/// The characters that can occur in an encoded text.
pub open spec fn is_form_char(c: char) -> bool {
    c == '+' || c == '%' || (c as int <= 127 && is_plain(c as u8))
}

proof fn lemma_form_byte_chars(b: u8, i: int)
    requires
        0 <= i < form_byte(b).len(),
    ensures
        is_form_char(form_byte(b)[i]),
{
}

/// An encoded text holds no ampersand, equals sign, question mark, number sign or space:
/// no custom word, model or language can break out of its parameter.
pub proof fn law_encoded_text_has_no_delimiters(s: Seq<char>)
    ensures
        forall|i: int| 0 <= i < form_text(s).len() ==> is_form_char(#[trigger] form_text(s)[i]),
        !form_text(s).contains('&'),
        !form_text(s).contains('='),
        !form_text(s).contains('?'),
        !form_text(s).contains('#'),
        !form_text(s).contains(' '),
{
    lemma_form_bytes_chars(vstd::utf8::encode_utf8(s));
}

proof fn lemma_form_bytes_chars(bytes: Seq<u8>)
    ensures
        forall|i: int|
            0 <= i < form_bytes(bytes).len() ==> is_form_char(#[trigger] form_bytes(bytes)[i]),
    decreases bytes.len(),
{
    if bytes.len() > 0 {
        let front = form_byte(bytes.first());
        let rest = form_bytes(bytes.drop_first());
        lemma_form_bytes_chars(bytes.drop_first());
        assert forall|i: int| 0 <= i < form_bytes(bytes).len() implies is_form_char(
            #[trigger] form_bytes(bytes)[i],
        ) by {
            if i < front.len() {
                lemma_form_byte_chars(bytes.first(), i);
            } else {
                assert(form_bytes(bytes)[i] == rest[i - front.len()]);
            }
        }
    }
}

/// What stands behind an encoded byte does not blur which byte it was.
proof fn lemma_form_byte_injective(a: u8, x: Seq<char>, b: u8, y: Seq<char>)
    requires
        form_byte(a) + x == form_byte(b) + y,
    ensures
        a == b,
        x == y,
{
    let s = form_byte(a) + x;
    let t = form_byte(b) + y;
    assert(s[0] == t[0]);
    assert(s[0] == form_byte(a)[0] && t[0] == form_byte(b)[0]);
    if s[0] == '%' {
        assert(s[1] == t[1] && s[2] == t[2]);
        assert(s[1] == form_byte(a)[1] && t[1] == form_byte(b)[1]);
        assert(s[2] == form_byte(a)[2] && t[2] == form_byte(b)[2]);
        assert(a / 16 == b / 16 && a % 16 == b % 16);
    }
    assert(a == b);
    assert(x =~= s.skip(form_byte(a).len() as int));
    assert(y =~= t.skip(form_byte(b).len() as int));
}

proof fn lemma_form_bytes_injective(a: Seq<u8>, b: Seq<u8>)
    requires
        form_bytes(a) == form_bytes(b),
    ensures
        a == b,
    decreases a.len(),
{
    if a.len() == 0 || b.len() == 0 {
        if a.len() > 0 {
            assert(form_bytes(a).len() > 0);
        }
        if b.len() > 0 {
            assert(form_bytes(b).len() > 0);
        }
        assert(a =~= b);
    } else {
        lemma_form_byte_injective(
            a.first(),
            form_bytes(a.drop_first()),
            b.first(),
            form_bytes(b.drop_first()),
        );
        lemma_form_bytes_injective(a.drop_first(), b.drop_first());
        assert(a =~= seq![a.first()] + a.drop_first());
        assert(b =~= seq![b.first()] + b.drop_first());
    }
}

proof fn lemma_form_text_injective(a: Seq<char>, b: Seq<char>)
    requires
        form_text(a) == form_text(b),
    ensures
        a == b,
{
    lemma_form_bytes_injective(vstd::utf8::encode_utf8(a), vstd::utf8::encode_utf8(b));
    vstd::utf8::encode_utf8_decode_utf8(a);
    vstd::utf8::encode_utf8_decode_utf8(b);
}

/// A text splits in one way at a separator that does not occur before it.
proof fn lemma_split_first(a: Seq<char>, x: Seq<char>, b: Seq<char>, y: Seq<char>, sep: char)
    requires
        a + seq![sep] + x == b + seq![sep] + y,
        !a.contains(sep),
        !b.contains(sep),
    ensures
        a == b,
        x == y,
{
    let s = a + seq![sep] + x;
    let t = b + seq![sep] + y;
    assert(s[a.len() as int] == sep);
    assert(t[b.len() as int] == sep);
    if a.len() < b.len() {
        assert(t[a.len() as int] == b[a.len() as int]);
    }
    if b.len() < a.len() {
        assert(s[b.len() as int] == a[b.len() as int]);
    }
    assert(a =~= s.take(a.len() as int));
    assert(b =~= t.take(b.len() as int));
    assert(x =~= s.skip(a.len() + 1int));
    assert(y =~= t.skip(b.len() + 1int));
}

/// A text splits in one way at a separator that does not occur after it.
proof fn lemma_split_last(a: Seq<char>, x: Seq<char>, b: Seq<char>, y: Seq<char>, sep: char)
    requires
        a + seq![sep] + x == b + seq![sep] + y,
        !x.contains(sep),
        !y.contains(sep),
    ensures
        a == b,
        x == y,
{
    let s = a + seq![sep] + x;
    let t = b + seq![sep] + y;
    assert(s[a.len() as int] == sep);
    assert(t[b.len() as int] == sep);
    assert(s.len() == a.len() + 1 + x.len() && t.len() == b.len() + 1 + y.len());
    if a.len() < b.len() {
        let at = b.len() - (a + seq![sep]).len();
        assert(s[b.len() as int] == x[at]);
    }
    if b.len() < a.len() {
        let at = a.len() - (b + seq![sep]).len();
        assert(t[a.len() as int] == y[at]);
    }
    assert(a =~= s.take(a.len() as int));
    assert(b =~= t.take(b.len() as int));
    assert(x =~= s.skip(a.len() + 1int));
    assert(y =~= t.skip(b.len() + 1int));
}

proof fn lemma_form_param(param: (Seq<char>, Seq<char>))
    ensures
        !form_param(param).contains('&'),
        form_param(param).len() > 0,
{
    law_encoded_text_has_no_delimiters(param.0);
    law_encoded_text_has_no_delimiters(param.1);
    let s = form_param(param);
    let n = form_text(param.0).len() as int;
    assert forall|i: int| 0 <= i < s.len() implies s[i] != '&' by {
        if i < n {
            assert(s[i] == form_text(param.0)[i]);
        } else if i > n {
            assert(s[i] == form_text(param.1)[i - n - 1]);
        }
    }
}

proof fn lemma_form_param_injective(a: (Seq<char>, Seq<char>), b: (Seq<char>, Seq<char>))
    requires
        form_param(a) == form_param(b),
    ensures
        a == b,
{
    law_encoded_text_has_no_delimiters(a.0);
    law_encoded_text_has_no_delimiters(b.0);
    lemma_split_first(form_text(a.0), form_text(a.1), form_text(b.0), form_text(b.1), '=');
    lemma_form_text_injective(a.0, b.0);
    lemma_form_text_injective(a.1, b.1);
}

/// An address says which parameters it carries, their values and their order: two lists
/// that differ never make the same address.
pub proof fn law_query_is_unambiguous(
    a: Seq<(Seq<char>, Seq<char>)>,
    b: Seq<(Seq<char>, Seq<char>)>,
)
    requires
        form_query(a) == form_query(b),
    ensures
        a == b,
    decreases a.len(),
{
    if a.len() > 0 {
        lemma_form_param(a.last());
    }
    if b.len() > 0 {
        lemma_form_param(b.last());
    }
    if a.len() == 0 || b.len() == 0 {
        assert(a =~= b);
    } else if a.len() == 1 && b.len() == 1 {
        lemma_form_param_injective(a[0], b[0]);
        assert(a =~= b);
    } else if a.len() == 1 {
        let front = form_query(b.drop_last());
        assert(form_query(b)[front.len() as int] == '&');
        assert(form_param(a.last()).contains('&'));
    } else if b.len() == 1 {
        let front = form_query(a.drop_last());
        assert(form_query(a)[front.len() as int] == '&');
        assert(form_param(b.last()).contains('&'));
    } else {
        lemma_split_last(
            form_query(a.drop_last()),
            form_param(a.last()),
            form_query(b.drop_last()),
            form_param(b.last()),
            '&',
        );
        lemma_form_param_injective(a.last(), b.last());
        law_query_is_unambiguous(a.drop_last(), b.drop_last());
        assert(a =~= a.drop_last().push(a.last()));
        assert(b =~= b.drop_last().push(b.last()));
    }
}

/// A Flux model streams from `/v2` and any other model from `/v1`, both encrypted.
pub proof fn law_stream_endpoint(req: CloudSttRequest)
    ensures
        req.streams_flux() ==> DEEPGRAM_FLUX_WS_URL@.is_prefix_of(stream_url(req)),
        !req.streams_flux() ==> DEEPGRAM_WS_URL@.is_prefix_of(stream_url(req)),
        "wss://"@.is_prefix_of(stream_url(req)),
        "https://"@.is_prefix_of(batch_url(req)),
{
    reveal_strlit("wss://");
    reveal_strlit("https://");
    reveal_strlit("https://api.deepgram.com/v1/listen");
    reveal_strlit("wss://api.deepgram.com/v1/listen");
    reveal_strlit("wss://api.deepgram.com/v2/listen");
}

/// A list of one parameter is written as its name, an equals sign and its value, and two
/// lists as the one, an ampersand and the other: every parameter is there, in order, once.
pub proof fn law_query_notation(
    param: (Seq<char>, Seq<char>),
    a: Seq<(Seq<char>, Seq<char>)>,
    b: Seq<(Seq<char>, Seq<char>)>,
)
    ensures
        form_query(seq![param]) == form_text(param.0) + seq!['='] + form_text(param.1),
        a.len() > 0 && b.len() > 0 ==> form_query(a + b) == form_query(a) + seq!['&'] + form_query(
            b,
        ),
    decreases b.len(),
{
    if a.len() > 0 && b.len() > 0 {
        assert((a + b).drop_last() =~= a + b.drop_last());
        if b.len() == 1 {
            assert(a + b.drop_last() =~= a);
        } else {
            law_query_notation(param, a, b.drop_last());
        }
        assert(form_query(a + b) =~= form_query(a) + seq!['&'] + form_query(b));
    }
}

/// A batch request goes to Deepgram's batch endpoint with all of its parameters behind the
/// question mark, and with nothing else.
pub proof fn law_batch_address(req: CloudSttRequest)
    ensures
        batch_url(req) == "https://api.deepgram.com/v1/listen"@ + seq!['?'] + form_query(
            req.batch_params(),
        ),
{
}

/// A stream goes to the endpoint that its model speaks with, with all of its parameters
/// behind the question mark, and with nothing else.
pub proof fn law_stream_address(req: CloudSttRequest)
    ensures
        ({
            let name = text::trimmed(req.model@);
            if "flux"@.is_prefix_of(name) {
                stream_url(req) == "wss://api.deepgram.com/v2/listen"@ + seq!['?'] + form_query(
                    req.flux_params(name),
                )
            } else {
                stream_url(req) == "wss://api.deepgram.com/v1/listen"@ + seq!['?'] + form_query(
                    req.live_params(),
                )
            }
        }),
{
    reveal_strlit("flux");
    model::law_requested_model_is_named(req.model@);
}

/// Two requests that make the same batch address carry the same parameters, and so do two
/// that make the same address of a `/v1` stream.
pub proof fn law_addresses_tell_requests_apart(a: CloudSttRequest, b: CloudSttRequest)
    ensures
        batch_url(a) == batch_url(b) ==> a.batch_params() == b.batch_params(),
        !a.streams_flux() && !b.streams_flux() && stream_url(a) == stream_url(b)
            ==> a.live_params() == b.live_params(),
{
    if batch_url(a) == batch_url(b) {
        let n = DEEPGRAM_URL@.len() + 1int;
        assert(batch_url(a).skip(n) =~= form_query(a.batch_params()));
        assert(batch_url(b).skip(n) =~= form_query(b.batch_params()));
        law_query_is_unambiguous(a.batch_params(), b.batch_params());
    }
    if !a.streams_flux() && !b.streams_flux() && stream_url(a) == stream_url(b) {
        let n = DEEPGRAM_WS_URL@.len() + 1int;
        assert(stream_url(a).skip(n) =~= form_query(a.live_params()));
        assert(stream_url(b).skip(n) =~= form_query(b.live_params()));
        law_query_is_unambiguous(a.live_params(), b.live_params());
    }
}

} // verus!
