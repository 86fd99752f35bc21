//! The headers that a request carries.

use vstd::prelude::*;

use crate::error::{ErrorOf, SttError};

use reqwest::header::{HeaderMap, HeaderValue, InvalidHeaderValue};

verus! {

/// The header that proves who is asking.
pub const AUTHORIZATION: &'static str = "authorization";

/// The header that says what the body is.
pub const CONTENT_TYPE: &'static str = "content-type";

/// What the body of a batch request is.
pub const AUDIO_TYPE: &'static str = "application/octet-stream";

/// `reqwest::header::HeaderMap`: a collection of headers.
#[verifier::external_type_specification]
#[verifier::external_body]
#[verifier::reject_recursive_types(T)]
pub struct ExHeaderMap<T>(HeaderMap<T>);

/// `reqwest::header::HeaderValue`: the value of a header, some bytes.
#[verifier::external_type_specification]
#[verifier::external_body]
pub struct ExHeaderValue(HeaderValue);

/// `reqwest::header::InvalidHeaderValue`: the error for bytes that cannot stand in a
/// header.
#[verifier::external_type_specification]
#[verifier::external_body]
pub struct ExInvalidHeaderValue(InvalidHeaderValue);

/// What a collection holds: for each header in it, by its name in lower case, the values
/// in order.
pub uninterp spec fn header_entries(headers: HeaderMap) -> Map<Seq<char>, Seq<Seq<u8>>>;

/// What a value holds: its bytes.
pub uninterp spec fn value_bytes(value: HeaderValue) -> Seq<u8>;

/// The bytes that can stand in a header: all but control characters, and the tab.
pub open spec fn is_header_byte(b: u8) -> bool {
    b >= 32 && b != 127 || b == 9
}

/// Whether a text can stand in a header.
pub open spec fn is_header_text(s: Seq<char>) -> bool {
    forall|i: int|
        0 <= i < vstd::utf8::encode_utf8(s).len() ==> is_header_byte(
            #[trigger] vstd::utf8::encode_utf8(s)[i],
        )
}

/// No headers at all.
pub open spec fn no_entries() -> Map<Seq<char>, Seq<Seq<u8>>> {
    Map::empty()
}

/// `HeaderMap::new`: a collection without headers.
#[verifier::external_body]
fn no_headers() -> (r: HeaderMap)
    ensures
        header_entries(r) == no_entries(),
{
    HeaderMap::new()
}

/// `HeaderMap::insert`, under a name that is in lower case already: from then on that
/// header has this value and no other, and the other headers are as they were.
///
/// The outside function panics where the collection would outgrow its table, which has
/// room for more than twenty thousand headers; with fewer than a thousand it never does.
#[verifier::external_body]
fn insert_header(headers: &mut HeaderMap, name: &'static str, value: HeaderValue)
    requires
        name@ == AUTHORIZATION@ || name@ == CONTENT_TYPE@,
        header_entries(*old(headers)).dom().len() < 1000,
    ensures
        header_entries(*final(headers)) == header_entries(*old(headers)).insert(
            name@,
            seq![value_bytes(value)],
        ),
{
    headers.insert(name, value);
}

/// `HeaderValue::from_str`: the bytes of the text, if each of them can stand in a header,
/// and an error otherwise. Bytes above 127 can, so text beyond ASCII is no error.
#[verifier::external_body]
fn header_value(s: &str) -> (r: Result<HeaderValue, InvalidHeaderValue>)
    ensures
        r is Ok <==> is_header_text(s@),
        r matches Ok(value) ==> value_bytes(value) == vstd::utf8::encode_utf8(s@),
{
    HeaderValue::from_str(s)
}

/// Whether a text is made of visible ASCII, spaces and tabs.
pub open spec fn is_visible_ascii(s: Seq<char>) -> bool {
    forall|i: int|
        0 <= i < s.len() ==> (32 <= (#[trigger] s[i]) as int && (s[i] as int) < 127) || s[i]
            == '\t'
}

/// `HeaderValue::from_static`, which panics on any text but one of visible ASCII: the
/// bytes of the text.
#[verifier::external_body]
fn static_value(s: &'static str) -> (r: HeaderValue)
    requires
        is_visible_ascii(s@),
    ensures
        value_bytes(r) == vstd::utf8::encode_utf8(s@),
{
    HeaderValue::from_static(s)
}

/// What proves that the holder of a key is asking.
pub open spec fn token(api_key: Seq<char>) -> Seq<char> {
    "Token "@ + api_key
}

/// The value of the header that proves who is asking.
pub fn authorization(api_key: &str) -> (r: Result<HeaderValue, SttError>)
    ensures
        match r {
            Ok(value) => is_header_text(token(api_key@)) && value_bytes(value)
                == vstd::utf8::encode_utf8(token(api_key@)),
            Err(error) => !is_header_text(token(api_key@)) && error@ == ErrorOf::<
                Seq<char>,
            >::InvalidApiKey,
        },
{
    let mut text = "Token ".to_string();
    text.append(api_key);
    match header_value(text.as_str()) {
        Ok(value) => Ok(value),
        Err(_) => Err(ErrorOf::InvalidApiKey),
    }
}

/// The headers of a batch request under a key.
pub open spec fn request_headers(api_key: Seq<char>) -> Map<Seq<char>, Seq<Seq<u8>>> {
    no_entries().insert(
        AUTHORIZATION@,
        seq![vstd::utf8::encode_utf8(token(api_key))],
    ).insert(CONTENT_TYPE@, seq![vstd::utf8::encode_utf8(AUDIO_TYPE@)])
}

/// The headers of a batch request.
pub fn build_headers(api_key: &str) -> (r: Result<HeaderMap, SttError>)
    ensures
        match r {
            Ok(headers) => is_header_text(token(api_key@)) && header_entries(headers)
                == request_headers(api_key@),
            Err(error) => !is_header_text(token(api_key@)) && error@ == ErrorOf::<
                Seq<char>,
            >::InvalidApiKey,
        },
{
    let mut headers = no_headers();
    match authorization(api_key) {
        Ok(value) => insert_header(&mut headers, AUTHORIZATION, value),
        Err(error) => return Err(error),
    }
    proof {
        reveal_strlit("application/octet-stream");
    }
    insert_header(&mut headers, CONTENT_TYPE, static_value(AUDIO_TYPE));
    Ok(headers)
}

proof fn lemma_encode_concat(a: Seq<char>, b: Seq<char>)
    ensures
        vstd::utf8::encode_utf8(a + b) == vstd::utf8::encode_utf8(a) + vstd::utf8::encode_utf8(b),
    decreases a.len(),
{
    if a.len() == 0 {
        assert(a + b =~= b);
        assert(vstd::utf8::encode_utf8(a) + vstd::utf8::encode_utf8(b)
            =~= vstd::utf8::encode_utf8(b));
    } else {
        assert((a + b).drop_first() =~= a.drop_first() + b);
        lemma_encode_concat(a.drop_first(), b);
        assert(vstd::utf8::encode_utf8(a + b) =~= vstd::utf8::encode_utf8(a)
            + vstd::utf8::encode_utf8(b));
    }
}

/// A key is refused exactly on account of the characters that it holds itself.
pub proof fn law_key_alone_decides(api_key: Seq<char>)
    ensures
        is_header_text(token(api_key)) <==> is_header_text(api_key),
{
    let lead = vstd::utf8::encode_utf8("Token "@);
    let key = vstd::utf8::encode_utf8(api_key);
    let all = vstd::utf8::encode_utf8(token(api_key));
    reveal_strlit("Token ");
    lemma_encode_concat("Token "@, api_key);
    vstd::utf8::is_ascii_chars_encode_utf8("Token "@);
    assert(all == lead + key);
    assert forall|i: int| 0 <= i < lead.len() implies is_header_byte(#[trigger] lead[i]) by {
        assert(lead[i] == "Token "@[i] as u8);
    }
    if is_header_text(api_key) {
        assert forall|i: int| 0 <= i < all.len() implies is_header_byte(#[trigger] all[i]) by {
            if i >= lead.len() {
                assert(all[i] == key[i - lead.len()]);
            } else {
                assert(all[i] == lead[i]);
            }
        }
    }
    if is_header_text(token(api_key)) {
        assert forall|i: int| 0 <= i < key.len() implies is_header_byte(#[trigger] key[i]) by {
            assert(all[i + lead.len()] == key[i]);
        }
    }
}

/// A batch request proves who is asking by the key as it stands, says what its body is, and
/// has no other header.
pub proof fn law_headers_of_a_request(api_key: Seq<char>, name: Seq<char>)
    ensures
        token(api_key) == "Token "@ + api_key,
        request_headers(api_key).dom().contains(name) <==> name == "authorization"@ || name
            == "content-type"@,
        request_headers(api_key)["authorization"@] == seq![
            vstd::utf8::encode_utf8("Token "@ + api_key),
        ],
        request_headers(api_key)["content-type"@] == seq![
            vstd::utf8::encode_utf8("application/octet-stream"@),
        ],
{
    reveal_strlit("authorization");
    reveal_strlit("content-type");
    assert("authorization"@.len() == 13 && "content-type"@.len() == 12);
}

/// Different keys make different headers.
pub proof fn law_headers_tell_keys_apart(a: Seq<char>, b: Seq<char>)
    requires
        request_headers(a)["authorization"@] == request_headers(b)["authorization"@],
    ensures
        a == b,
{
    law_headers_of_a_request(a, "authorization"@);
    law_headers_of_a_request(b, "authorization"@);
    let n = "Token "@.len() as int;
    let left = "Token "@ + a;
    let right = "Token "@ + b;
    assert(seq![vstd::utf8::encode_utf8(left)][0] == seq![vstd::utf8::encode_utf8(right)][0]);
    vstd::utf8::encode_utf8_decode_utf8(left);
    vstd::utf8::encode_utf8_decode_utf8(right);
    assert(a =~= left.skip(n));
    assert(b =~= right.skip(n));
}

proof fn lemma_scalar_bytes(c: u32)
    requires
        vstd::utf8::is_scalar(c),
    ensures
        ({
            let bytes = vstd::utf8::encode_scalar(c);
            &&& c < 128 ==> bytes.len() == 1 && bytes[0] == c
            &&& c >= 128 ==> forall|i: int| 0 <= i < bytes.len() ==> #[trigger] bytes[i] >= 128
        }),
{
    assert(c < 128 ==> (c & 0x7F) as u8 == c) by (bit_vector);
    assert(0xC0u8 | ((c >> 6) & 0x1F) as u8 >= 128) by (bit_vector);
    assert(0xE0u8 | ((c >> 12) & 0x0F) as u8 >= 128) by (bit_vector);
    assert(0xF0u8 | ((c >> 18) & 0x7) as u8 >= 128) by (bit_vector);
    assert(0x80u8 | (c & 0x3F) as u8 >= 128) by (bit_vector);
    assert(0x80u8 | ((c >> 6) & 0x3F) as u8 >= 128) by (bit_vector);
    assert(0x80u8 | ((c >> 12) & 0x3F) as u8 >= 128) by (bit_vector);
}

/// A key is refused exactly where it has a control character other than the tab.
pub proof fn law_only_control_characters_are_refused(api_key: Seq<char>)
    ensures
        is_header_text(token(api_key)) <==> forall|i: int|
            0 <= i < api_key.len() ==> (#[trigger] api_key[i] as u32 >= 32 && api_key[i] as u32
                != 127) || api_key[i] as u32 == 9,
{
    law_key_alone_decides(api_key);
    lemma_header_chars(api_key);
}

proof fn lemma_header_chars(s: Seq<char>)
    ensures
        is_header_text(s) <==> forall|i: int|
            0 <= i < s.len() ==> (#[trigger] s[i] as u32 >= 32 && s[i] as u32 != 127)
                || s[i] as u32 == 9,
    decreases s.len(),
{
    if s.len() > 0 {
        let first = vstd::utf8::encode_scalar(s[0] as u32);
        let tail = s.drop_first();
        let rest = vstd::utf8::encode_utf8(tail);
        let all = vstd::utf8::encode_utf8(s);
        vstd::utf8::char_is_scalar(s[0]);
        lemma_scalar_bytes(s[0] as u32);
        lemma_header_chars(tail);
        assert(all == first + rest);
        let fits = (s[0] as u32 >= 32 && s[0] as u32 != 127) || s[0] as u32 == 9;
        if is_header_text(s) {
            assert(all[0] == first[0]);
            assert forall|i: int| 0 <= i < rest.len() implies is_header_byte(
                #[trigger] rest[i],
            ) by {
                assert(all[i + first.len()] == rest[i]);
            }
            assert(fits);
            assert forall|i: int| 0 <= i < s.len() implies (#[trigger] s[i] as u32 >= 32
                && s[i] as u32 != 127) || s[i] as u32 == 9 by {
                if i > 0 {
                    assert(tail[i - 1] == s[i]);
                }
            }
        }
        if forall|i: int|
            0 <= i < s.len() ==> (#[trigger] s[i] as u32 >= 32 && s[i] as u32 != 127)
                || s[i] as u32 == 9 {
            assert(fits) by {
                assert(s[0] as u32 >= 0);
            }
            assert forall|i: int| 0 <= i < tail.len() implies (#[trigger] tail[i] as u32 >= 32
                && tail[i] as u32 != 127) || tail[i] as u32 == 9 by {
                assert(tail[i] == s[i + 1]);
            }
            assert forall|i: int| 0 <= i < all.len() implies is_header_byte(#[trigger] all[i]) by {
                if i < first.len() {
                    assert(all[i] == first[i]);
                } else {
                    assert(all[i] == rest[i - first.len()]);
                }
            }
        }
    }
}

} // verus!
