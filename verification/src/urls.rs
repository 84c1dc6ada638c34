//! Links that carry an invitation: a base and three query parameters.

use crate::text::{
    decimal, decimal_injective, decimal_length, decimal_text, decimal_text_is_digits,
    is_alphanumeric, option_text,
};
use crate::uuids::{
    format_uuid, uuid_round_trip, uuid_text, uuid_text_injective, uuid_text_is_plain,
};
use url::Url;
use vstd::prelude::*;
use vstd::utf8::*;

verus! {

/// The longest base of a link, in bytes.
pub const MAX_URL_BYTES: usize = 2_048;

/// What a text is as a URL: its normal form, its scheme, and whether it has a host, a query and a
/// fragment.
pub uninterp spec fn parsed_url(text: Seq<char>) -> Option<(Seq<char>, Seq<char>, bool, bool, bool)>;

/// What is read of a URL.
pub struct ParsedUrl {
    pub text: String,
    pub scheme: String,
    pub has_host: bool,
    pub has_query: bool,
    pub has_fragment: bool,
}

pub open spec fn url_view(url: Option<ParsedUrl>) -> Option<
    (Seq<char>, Seq<char>, bool, bool, bool),
> {
    match url {
        Some(url) => Some(
            (url.text@, url.scheme@, url.has_host, url.has_query, url.has_fragment),
        ),
        None => None,
    }
}

/// `Url::parse` of `url`: the URL that a text stands for, or `None` where it is not one.
#[verifier::external_body]
pub(crate) fn parse_url(text: &str) -> (url: Option<ParsedUrl>)
    ensures
        url_view(url) == parsed_url(text@),
{
    match Url::parse(text) {
        Ok(url) => Some(
            ParsedUrl {
                text: url.to_string(),
                scheme: url.scheme().to_owned(),
                has_host: url.host_str().is_some(),
                has_query: url.query().is_some(),
                has_fragment: url.fragment().is_some(),
            },
        ),
        Err(_) => None,
    }
}

/// The characters that a query parameter holds as they are.
pub open spec fn is_unreserved(c: char) -> bool {
    is_alphanumeric(c) || c == '*' || c == '-' || c == '.' || c == '_'
}

pub open spec fn upper_hex_digit(d: int) -> char {
    if d < 10 {
        (48 + d) as char
    } else {
        (55 + d) as char
    }
}

/// A byte of a query parameter: as it is, `+` for a space, or `%` and two hexadecimal digits.
pub open spec fn form_byte(byte: u8) -> Seq<char> {
    if is_unreserved(byte as char) {
        seq![byte as char]
    } else if byte == 0x20 {
        seq!['+']
    } else {
        seq!['%', upper_hex_digit(byte as int / 16), upper_hex_digit(byte as int % 16)]
    }
}

pub open spec fn form_bytes(bytes: Seq<u8>) -> Seq<char>
    decreases bytes.len(),
{
    if bytes.len() == 0 {
        Seq::empty()
    } else {
        form_byte(bytes[0]) + form_bytes(bytes.drop_first())
    }
}

/// A text as the name or the value of a query parameter.
pub open spec fn form_text(text: Seq<char>) -> Seq<char> {
    form_bytes(encode_utf8(text))
}

pub open spec fn form_pair(pair: (Seq<char>, Seq<char>)) -> Seq<char> {
    form_text(pair.0) + "="@ + form_text(pair.1)
}

/// Query parameters, separated by `&`.
pub open spec fn form_pairs(pairs: Seq<(Seq<char>, Seq<char>)>) -> Seq<char>
    decreases pairs.len(),
{
    if pairs.len() == 0 {
        Seq::empty()
    } else if pairs.len() == 1 {
        form_pair(pairs[0])
    } else {
        form_pairs(pairs.drop_last()) + "&"@ + form_pair(pairs.last())
    }
}

/// A base with query parameters behind those that it has.
pub uninterp spec fn url_with_pairs(
    base: Seq<char>,
    pairs: Seq<(Seq<char>, Seq<char>)>,
) -> Option<Seq<char>>;

pub open spec fn pairs_view(pairs: Seq<(String, String)>) -> Seq<(Seq<char>, Seq<char>)> {
    pairs.map_values(|pair: (String, String)| (pair.0@, pair.1@))
}

/// `Url::query_pairs_mut` of `url`, with `extend_pairs`: the base with query parameters behind
/// those that it has, or `None` where the base is no URL. A base without query and fragment gets
/// `?` and the parameters, in the encoding of HTML forms. The offsets into a URL have 32 bits, so
/// the lengths are bounded.
#[verifier::external_body]
fn append_pairs(base: &str, pairs: &Vec<(String, String)>) -> (text: Option<String>)
    requires
        encode_utf8(base@).len() <= MAX_URL_BYTES,
        0 < pairs@.len() <= 16,
        forall|i: int|
            0 <= i < pairs@.len() ==> (#[trigger] pairs_view(pairs@)[i]).0.len() <= MAX_URL_BYTES,
        forall|i: int|
            0 <= i < pairs@.len() ==> (#[trigger] pairs_view(pairs@)[i]).1.len() <= MAX_URL_BYTES,
    ensures
        option_text(text) == url_with_pairs(base@, pairs_view(pairs@)),
        text is Some <==> parsed_url(base@) is Some,
        parsed_url(base@) matches Some((normal, _, _, false, false)) ==> text is Some && text->0@
            == normal + "?"@ + form_pairs(pairs_view(pairs@)),
{
    let mut url = match Url::parse(base) {
        Ok(url) => url,
        Err(_) => return None,
    };
    url.query_pairs_mut().extend_pairs(pairs.iter());
    Some(url.to_string())
}

/// The parameters of an invitation link.
pub open spec fn invitation_pairs(
    invitation_id: u128,
    token: Seq<char>,
    revision: i64,
) -> Seq<(Seq<char>, Seq<char>)> {
    seq![
        ("invitation_id"@, uuid_text(invitation_id)),
        ("token"@, token),
        ("revision"@, decimal(revision as int)),
    ]
}

/// The link by which an invitation is accepted.
pub fn invitation_url(base: &str, invitation_id: u128, token: &str, revision: i64) -> (url: Option<
    String,
>)
    requires
        encode_utf8(base@).len() <= MAX_URL_BYTES,
        token@.len() <= MAX_URL_BYTES,
    ensures
        option_text(url) == url_with_pairs(
            base@,
            invitation_pairs(invitation_id, token@, revision),
        ),
        url is Some <==> parsed_url(base@) is Some,
        parsed_url(base@) matches Some((normal, _, _, false, false)) ==> url is Some && url->0@
            == normal + "?"@ + form_pairs(invitation_pairs(invitation_id, token@, revision)),
{
    let pairs: Vec<(String, String)> = vec![
        ("invitation_id".to_owned(), format_uuid(invitation_id)),
        ("token".to_owned(), token.to_owned()),
        ("revision".to_owned(), decimal_text(revision)),
    ];
    proof {
        reveal_strlit("invitation_id");
        reveal_strlit("token");
        reveal_strlit("revision");
        uuid_round_trip(invitation_id);
        decimal_length(revision);
        assert(pairs_view(pairs@) =~= invitation_pairs(invitation_id, token@, revision));
    }
    append_pairs(base, &pairs)
}

proof fn lemma_form_bytes_safe(bytes: Seq<u8>)
    ensures
        forall|i: int|
            0 <= i < form_bytes(bytes).len() ==> is_form_char(#[trigger] form_bytes(bytes)[i]),
    decreases bytes.len(),
{
    if bytes.len() > 0 {
        lemma_form_bytes_safe(bytes.drop_first());
        let head = form_byte(bytes[0]);
        let tail = form_bytes(bytes.drop_first());
        assert forall|i: int| 0 <= i < form_bytes(bytes).len() implies is_form_char(
            #[trigger] form_bytes(bytes)[i],
        ) by {
            if i < head.len() {
                assert(form_bytes(bytes)[i] == head[i]);
            } else {
                assert(form_bytes(bytes)[i] == tail[i - head.len()]);
            }
        }
    }
}

/// The characters that the value of a query parameter is made of.
pub open spec fn is_form_char(c: char) -> bool {
    is_unreserved(c) || c == '+' || c == '%'
}

/// Nothing that a parameter holds can end it, or the query: `&`, `=`, `?` and `#` are escaped.
pub proof fn form_text_is_safe(text: Seq<char>)
    ensures
        forall|i: int|
            0 <= i < form_text(text).len() ==> is_form_char(#[trigger] form_text(text)[i]),
{
    lemma_form_bytes_safe(encode_utf8(text));
}

proof fn lemma_form_bytes_injective(left: Seq<u8>, right: Seq<u8>)
    requires
        form_bytes(left) == form_bytes(right),
    ensures
        left == right,
    decreases left.len(),
{
    let l = form_bytes(left);
    let r = form_bytes(right);
    if left.len() == 0 {
        if right.len() > 0 {
            assert(r.len() > 0);
        }
        assert(left =~= right);
    } else if right.len() == 0 {
        assert(l.len() > 0);
    } else {
        let lh = form_byte(left[0]);
        let rh = form_byte(right[0]);
        let lt = form_bytes(left.drop_first());
        let rt = form_bytes(right.drop_first());
        assert(l[0] == lh[0] && r[0] == rh[0]);
        assert(lh.len() == rh.len());
        if lh.len() == 3 {
            assert(l[1] == lh[1] && r[1] == rh[1]);
            assert(l[2] == lh[2] && r[2] == rh[2]);
            assert(left[0] as int / 16 == right[0] as int / 16);
            assert(left[0] as int % 16 == right[0] as int % 16);
        }
        assert(left[0] == right[0]);
        assert(lt =~= l.subrange(lh.len() as int, l.len() as int));
        assert(rt =~= r.subrange(rh.len() as int, r.len() as int));
        lemma_form_bytes_injective(left.drop_first(), right.drop_first());
        assert(left =~= seq![left[0]] + left.drop_first());
        assert(right =~= seq![right[0]] + right.drop_first());
    }
}

/// Different texts make different parameters.
pub proof fn form_text_injective(left: Seq<char>, right: Seq<char>)
    requires
        form_text(left) == form_text(right),
    ensures
        left == right,
{
    lemma_form_bytes_injective(encode_utf8(left), encode_utf8(right));
    encode_utf8_decode_utf8(left);
    encode_utf8_decode_utf8(right);
}

proof fn lemma_form_bytes_plain(bytes: Seq<u8>)
    requires
        forall|i: int| 0 <= i < bytes.len() ==> is_unreserved(#[trigger] bytes[i] as char),
    ensures
        form_bytes(bytes) == bytes.map_values(|byte: u8| byte as char),
    decreases bytes.len(),
{
    if bytes.len() > 0 {
        assert forall|i: int| 0 <= i < bytes.drop_first().len() implies is_unreserved(
            #[trigger] bytes.drop_first()[i] as char,
        ) by {
            assert(bytes.drop_first()[i] == bytes[i + 1]);
        }
        lemma_form_bytes_plain(bytes.drop_first());
    }
    assert(form_bytes(bytes) =~= bytes.map_values(|byte: u8| byte as char));
}

/// A text without reserved characters stands in a link as it is.
pub proof fn plain_text_is_not_escaped(text: Seq<char>)
    requires
        forall|i: int| 0 <= i < text.len() ==> is_unreserved(#[trigger] text[i]),
    ensures
        form_text(text) == text,
{
    assert(is_ascii_chars(text));
    is_ascii_chars_encode_utf8(text);
    let bytes = encode_utf8(text);
    assert forall|i: int| 0 <= i < bytes.len() implies is_unreserved(
        #[trigger] bytes[i] as char,
    ) by {
        assert(bytes[i] == text[i] as u8);
    }
    lemma_form_bytes_plain(bytes);
    assert(bytes.map_values(|byte: u8| byte as char) =~= text);
}

/// The query of an invitation link, for a revision that is not negative: the identifier and the
/// revision stand in it as they are, and the token is escaped.
pub proof fn invitation_query(invitation_id: u128, token: Seq<char>, revision: i64)
    requires
        revision >= 0,
    ensures
        form_pairs(invitation_pairs(invitation_id, token, revision)) == "invitation_id="@
            + uuid_text(invitation_id) + "&token="@ + form_text(token) + "&revision="@ + decimal(
            revision as int,
        ),
{
    reveal_strlit("invitation_id");
    reveal_strlit("token");
    reveal_strlit("revision");
    reveal_strlit("=");
    reveal_strlit("&");
    reveal_strlit("invitation_id=");
    reveal_strlit("&token=");
    reveal_strlit("&revision=");
    uuid_text_is_plain(invitation_id);
    decimal_text_is_digits(revision);
    plain_text_is_not_escaped("invitation_id"@);
    plain_text_is_not_escaped("token"@);
    plain_text_is_not_escaped("revision"@);
    plain_text_is_not_escaped(uuid_text(invitation_id));
    plain_text_is_not_escaped(decimal(revision as int));
    let pairs = invitation_pairs(invitation_id, token, revision);
    let two = pairs.drop_last();
    let one = two.drop_last();
    assert(one.len() == 1);
    assert(form_pairs(one) == form_pair(pairs[0]));
    assert(form_pairs(two) == form_pairs(one) + "&"@ + form_pair(pairs[1]));
    assert(form_pairs(pairs) == form_pairs(two) + "&"@ + form_pair(pairs[2]));
    assert("invitation_id"@ + "="@ =~= "invitation_id="@);
    assert("&"@ + "token"@ + "="@ =~= "&token="@);
    assert("&"@ + "revision"@ + "="@ =~= "&revision="@);
    assert(form_pairs(pairs) =~= "invitation_id="@ + uuid_text(invitation_id) + "&token="@
        + form_text(token) + "&revision="@ + decimal(revision as int));
}

/// A link tells its invitation, its token and its revision apart from all others.
pub proof fn invitation_links_differ(
    left: u128,
    left_token: Seq<char>,
    left_revision: i64,
    right: u128,
    right_token: Seq<char>,
    right_revision: i64,
)
    requires
        left_revision >= 0,
        right_revision >= 0,
        form_pairs(invitation_pairs(left, left_token, left_revision)) == form_pairs(
            invitation_pairs(right, right_token, right_revision),
        ),
    ensures
        left == right,
        left_token == right_token,
        left_revision == right_revision,
{
    invitation_query(left, left_token, left_revision);
    invitation_query(right, right_token, right_revision);
    uuid_round_trip(left);
    uuid_round_trip(right);
    reveal_strlit("invitation_id=");
    reveal_strlit("&token=");
    reveal_strlit("&revision=");
    let l = form_pairs(invitation_pairs(left, left_token, left_revision));
    let r = form_pairs(invitation_pairs(right, right_token, right_revision));
    assert(l.subrange(14, 50) =~= uuid_text(left));
    assert(r.subrange(14, 50) =~= uuid_text(right));
    uuid_text_injective(left, right);
    let lt = form_text(left_token);
    let rt = form_text(right_token);
    form_text_is_safe(left_token);
    form_text_is_safe(right_token);
    assert(l[57 + lt.len() as int] == '&');
    assert(r[57 + rt.len() as int] == '&');
    if lt.len() < rt.len() {
        assert(r[57 + lt.len() as int] == rt[lt.len() as int]);
    }
    if rt.len() < lt.len() {
        assert(l[57 + rt.len() as int] == lt[rt.len() as int]);
    }
    assert(l.subrange(57, 57 + lt.len() as int) =~= lt);
    assert(r.subrange(57, 57 + rt.len() as int) =~= rt);
    form_text_injective(left_token, right_token);
    assert(l.subrange(67 + lt.len() as int, l.len() as int) =~= decimal(left_revision as int));
    assert(r.subrange(67 + rt.len() as int, r.len() as int) =~= decimal(right_revision as int));
    decimal_injective(left_revision as nat, right_revision as nat);
}

} // verus!
