//! What callers may send: identifiers, references, e-mail addresses, tokens and free text.

use crate::text::{
    all_digits, alphanumeric, chars_text, control, digit, is_alphanumeric, is_control, is_digit,
    is_white_space, lower, lowercase, option_text, parse_positive, positive_value, same_text,
    text_chars, to_lower, trim_chars, trimmed,
};
use crate::uuids::{parse_uuid, uuid_value};
use vstd::prelude::*;
use vstd::utf8::*;

verus! {

pub const MAX_CALLERS: usize = 64;

pub const MAX_ID_BYTES: usize = 512;

pub const MAX_IDEMPOTENCY_BYTES: usize = 200;

pub const MAX_REASON_BYTES: usize = 2_000;

pub open spec fn is_opaque_char(c: char) -> bool {
    is_alphanumeric(c) || c == '.' || c == '_' || c == '-' || c == ':' || c == '/'
}

/// An opaque identifier: 1 to `maximum` letters, digits and `.`, `_`, `-`, `:`, `/`.
pub open spec fn is_opaque_id(s: Seq<char>, maximum: int) -> bool {
    &&& 0 < s.len() <= maximum
    &&& forall|i: int| 0 <= i < s.len() ==> is_opaque_char(#[trigger] s[i])
}

pub fn valid_opaque_id(value: &str, maximum: usize) -> (valid: bool)
    ensures
        valid == is_opaque_id(value@, maximum as int),
{
    let chars = text_chars(value);
    if chars.len() == 0 || chars.len() > maximum {
        return false;
    }
    for i in 0..chars.len()
        invariant
            chars@ == value@,
            forall|k: int| 0 <= k < i ==> is_opaque_char(#[trigger] value@[k]),
    {
        let c = chars[i];
        if !(alphanumeric(c) || c == '.' || c == '_' || c == '-' || c == ':' || c == '/') {
            assert(!is_opaque_char(value@[i as int]));
            return false;
        }
    }
    true
}

pub open spec fn is_idempotency_key(s: Seq<char>) -> bool {
    is_opaque_id(s, MAX_IDEMPOTENCY_BYTES as int)
}

pub fn valid_idempotency_key(value: &str) -> (valid: bool)
    ensures
        valid == is_idempotency_key(value@),
{
    valid_opaque_id(value, MAX_IDEMPOTENCY_BYTES)
}

/// An identifier: an opaque identifier without `/`.
pub open spec fn is_identifier(s: Seq<char>, maximum: int) -> bool {
    is_opaque_id(s, maximum) && !s.contains('/')
}

pub fn valid_identifier(value: &str, maximum: usize) -> (valid: bool)
    ensures
        valid == is_identifier(value@, maximum as int),
{
    if !valid_opaque_id(value, maximum) {
        return false;
    }
    let chars = text_chars(value);
    for i in 0..chars.len()
        invariant
            chars@ == value@,
            forall|k: int| 0 <= k < i ==> #[trigger] value@[k] != '/',
    {
        if chars[i] == '/' {
            assert(value@[i as int] == '/');
            return false;
        }
    }
    true
}

/// The pieces of `s` between the occurrences of `separator`.
pub open spec fn split(s: Seq<char>, separator: char) -> Seq<Seq<char>>
    decreases s.len(),
{
    if s.len() == 0 {
        seq![Seq::empty()]
    } else {
        let before = split(s.drop_last(), separator);
        if s.last() == separator {
            before.push(Seq::empty())
        } else {
            before.drop_last().push(before.last().push(s.last()))
        }
    }
}

pub open spec fn pieces_view(pieces: Seq<Vec<char>>) -> Seq<Seq<char>> {
    pieces.map_values(|piece: Vec<char>| piece@)
}

proof fn lemma_split_nonempty(s: Seq<char>, separator: char)
    ensures
        split(s, separator).len() > 0,
    decreases s.len(),
{
    if s.len() > 0 {
        lemma_split_nonempty(s.drop_last(), separator);
    }
}

fn split_chars(chars: &Vec<char>, separator: char) -> (pieces: Vec<Vec<char>>)
    ensures
        pieces_view(pieces@) == split(chars@, separator),
{
    let mut done: Vec<Vec<char>> = Vec::new();
    let mut current: Vec<char> = Vec::new();
    assert(pieces_view(done@).push(current@) =~= split(chars@.take(0), separator));
    for i in 0..chars.len()
        invariant
            pieces_view(done@).push(current@) == split(chars@.take(i as int), separator),
    {
        let ghost before = pieces_view(done@).push(current@);
        let ghost done_before = done@;
        let ghost current_before = current@;
        let c = chars[i];
        assert(chars@.take(i + 1).drop_last() =~= chars@.take(i as int));
        if c == separator {
            done.push(current);
            current = Vec::new();
            assert(pieces_view(done@) =~= before);
        } else {
            current.push(c);
            assert(before.drop_last() =~= pieces_view(done@));
        }
    }
    assert(chars@.take(chars@.len() as int) =~= chars@);
    let ghost before = pieces_view(done@).push(current@);
    done.push(current);
    assert(pieces_view(done@) =~= before);
    done
}

pub open spec fn is_local_char(c: char) -> bool {
    is_alphanumeric(c) || c == '.' || c == '_' || c == '%' || c == '+' || c == '-'
}

/// The part of an address before `@`: 1 to 64 characters, no dot at either end and no two dots
/// in a row.
pub open spec fn is_local_part(s: Seq<char>) -> bool {
    &&& 0 < s.len() <= 64
    &&& s.first() != '.'
    &&& s.last() != '.'
    &&& forall|i: int| 0 <= i < s.len() ==> is_local_char(#[trigger] s[i])
    &&& forall|i: int| 0 < i < s.len() ==> !(s[i - 1] == '.' && #[trigger] s[i] == '.')
}

fn local_part(chars: &Vec<char>) -> (valid: bool)
    ensures
        valid == is_local_part(chars@),
{
    let n = chars.len();
    if n == 0 || n > 64 || chars[0] == '.' || chars[n - 1] == '.' {
        return false;
    }
    for i in 0..n
        invariant
            n == chars@.len(),
            forall|k: int| 0 <= k < i ==> is_local_char(#[trigger] chars@[k]),
            forall|k: int| 0 < k < i ==> !(chars@[k - 1] == '.' && #[trigger] chars@[k] == '.'),
    {
        let c = chars[i];
        if !(alphanumeric(c) || c == '.' || c == '_' || c == '%' || c == '+' || c == '-') {
            assert(!is_local_char(chars@[i as int]));
            return false;
        }
        if i > 0 && c == '.' && chars[i - 1] == '.' {
            assert(chars@[i as int] == '.');
            return false;
        }
    }
    true
}

pub open spec fn is_label_char(c: char) -> bool {
    is_alphanumeric(c) || c == '-'
}

/// A domain label: 1 to 63 letters, digits and hyphens, with no hyphen at either end.
pub open spec fn is_label(s: Seq<char>) -> bool {
    &&& 0 < s.len() <= 63
    &&& s.first() != '-'
    &&& s.last() != '-'
    &&& forall|i: int| 0 <= i < s.len() ==> is_label_char(#[trigger] s[i])
}

fn label(chars: &Vec<char>) -> (valid: bool)
    ensures
        valid == is_label(chars@),
{
    let n = chars.len();
    if n == 0 || n > 63 || chars[0] == '-' || chars[n - 1] == '-' {
        return false;
    }
    for i in 0..n
        invariant
            n == chars@.len(),
            forall|k: int| 0 <= k < i ==> is_label_char(#[trigger] chars@[k]),
    {
        let c = chars[i];
        if !(alphanumeric(c) || c == '-') {
            assert(!is_label_char(chars@[i as int]));
            return false;
        }
    }
    true
}

/// A domain: at most 255 characters, made of labels separated by dots.
pub open spec fn is_domain(s: Seq<char>) -> bool {
    &&& s.len() <= 255
    &&& forall|i: int| 0 <= i < split(s, '.').len() ==> is_label(#[trigger] split(s, '.')[i])
}

fn domain(chars: &Vec<char>) -> (valid: bool)
    ensures
        valid == is_domain(chars@),
{
    if chars.len() > 255 {
        return false;
    }
    let labels = split_chars(chars, '.');
    for i in 0..labels.len()
        invariant
            pieces_view(labels@) == split(chars@, '.'),
            forall|k: int| 0 <= k < i ==> is_label(#[trigger] split(chars@, '.')[k]),
    {
        assert(pieces_view(labels@)[i as int] == labels@[i as int]@);
        if !label(&labels[i]) {
            return false;
        }
    }
    true
}

/// An address of 3 to 320 characters: a local part, one `@` and a domain.
pub open spec fn is_address(s: Seq<char>) -> bool {
    let parts = split(s, '@');
    &&& 3 <= s.len() <= 320
    &&& parts.len() == 2
    &&& is_local_part(parts[0])
    &&& is_domain(parts[1])
}

/// The normal form of an e-mail address: without white space around it, in small letters.
pub open spec fn normalized_email(s: Seq<char>) -> Option<Seq<char>> {
    if is_address(trimmed(s)) {
        Some(lowercase(trimmed(s)))
    } else {
        None
    }
}

pub fn normalize_email(value: &str) -> (email: Option<String>)
    ensures
        option_text(email) == normalized_email(value@),
{
    let chars = text_chars(value);
    let address = trim_chars(&chars);
    if address.len() < 3 || address.len() > 320 {
        return None;
    }
    let parts = split_chars(&address, '@');
    assert(pieces_view(parts@).len() == parts@.len());
    if parts.len() != 2 {
        return None;
    }
    assert(pieces_view(parts@)[0] == parts@[0]@);
    assert(pieces_view(parts@)[1] == parts@[1]@);
    if !local_part(&parts[0]) || !domain(&parts[1]) {
        return None;
    }
    let mut small: Vec<char> = Vec::new();
    for i in 0..address.len()
        invariant
            small@.len() == i,
            forall|k: int| 0 <= k < i ==> #[trigger] small@[k] == lower(address@[k]),
    {
        small.push(to_lower(address[i]));
    }
    assert(small@ =~= lowercase(address@));
    Some(chars_text(small.as_slice()))
}

proof fn lemma_split_lowercase(s: Seq<char>, separator: char)
    requires
        !is_alphanumeric(separator),
    ensures
        split(lowercase(s), separator) == split(s, separator).map_values(
            |piece: Seq<char>| lowercase(piece),
        ),
    decreases s.len(),
{
    let low = |piece: Seq<char>| lowercase(piece);
    lemma_split_nonempty(s, separator);
    if s.len() == 0 {
        assert(lowercase(s) =~= s);
        assert(lowercase(Seq::empty()) =~= Seq::empty());
    } else {
        let less = s.drop_last();
        lemma_split_lowercase(less, separator);
        lemma_split_nonempty(less, separator);
        assert(lowercase(s).drop_last() =~= lowercase(less));
        assert(lowercase(s).last() == lower(s.last()));
        let before = split(less, separator);
        if s.last() != separator {
            assert(lowercase(before.last().push(s.last())) =~= lowercase(before.last()).push(
                lower(s.last()),
            ));
            assert(before.map_values(low).last() == lowercase(before.last()));
            assert(before.map_values(low).drop_last() =~= before.drop_last().map_values(low));
        } else {
            assert(lowercase(Seq::empty()) =~= Seq::empty());
        }
    }
    assert(split(lowercase(s), separator) =~= split(s, separator).map_values(low));
}

proof fn lemma_pieces_cover(s: Seq<char>, separator: char, allowed: spec_fn(char) -> bool)
    requires
        forall|i: int, j: int|
            0 <= i < split(s, separator).len() && 0 <= j < split(s, separator)[i].len() ==> allowed(
                #[trigger] split(s, separator)[i][j],
            ),
    ensures
        forall|i: int| 0 <= i < s.len() ==> #[trigger] s[i] == separator || allowed(s[i]),
    decreases s.len(),
{
    if s.len() > 0 {
        let less = s.drop_last();
        let before = split(less, separator);
        lemma_split_nonempty(less, separator);
        let pieces = split(s, separator);
        assert forall|i: int, j: int|
            0 <= i < before.len() && 0 <= j < before[i].len() implies allowed(
            #[trigger] before[i][j],
        ) by {
            assert(pieces[i][j] == before[i][j]);
        }
        lemma_pieces_cover(less, separator, allowed);
        if s.last() != separator {
            let last = before.len() - 1;
            assert(pieces[last][before[last].len() as int] == s.last());
        }
        assert forall|i: int| 0 <= i < s.len() implies #[trigger] s[i] == separator || allowed(
            s[i],
        ) by {
            if i < less.len() {
                assert(less[i] == s[i]);
            }
        }
    }
}

proof fn lemma_address_has_no_white_space(s: Seq<char>)
    requires
        is_address(s),
    ensures
        forall|i: int| 0 <= i < s.len() ==> !is_white_space(#[trigger] s[i]),
{
    let plain = |c: char| !is_white_space(c);
    let parts = split(s, '@');
    assert forall|i: int, j: int| 0 <= i < parts.len() && 0 <= j < parts[i].len() implies plain(
        #[trigger] parts[i][j],
    ) by {
        if i == 0 {
            assert(is_local_char(parts[0][j]));
        } else {
            let domain = parts[1];
            let labels = split(domain, '.');
            assert forall|k: int, l: int|
                0 <= k < labels.len() && 0 <= l < labels[k].len() implies plain(
                #[trigger] labels[k][l],
            ) by {
                assert(is_label(labels[k]));
                assert(is_label_char(labels[k][l]));
            }
            lemma_pieces_cover(domain, '.', plain);
            assert(domain[j] == '.' || plain(domain[j]));
        }
    }
    lemma_pieces_cover(s, '@', plain);
    assert forall|i: int| 0 <= i < s.len() implies !is_white_space(#[trigger] s[i]) by {
        assert(s[i] == '@' || plain(s[i]));
    }
}

proof fn lemma_lowercase_address(s: Seq<char>)
    requires
        is_address(s),
    ensures
        is_address(lowercase(s)),
{
    let low = |piece: Seq<char>| lowercase(piece);
    lemma_split_lowercase(s, '@');
    let parts = split(s, '@');
    assert(split(lowercase(s), '@') == parts.map_values(low));
    assert(is_local_part(lowercase(parts[0]))) by {
        let local = parts[0];
        assert forall|i: int| 0 <= i < lowercase(local).len() implies is_local_char(
            #[trigger] lowercase(local)[i],
        ) by {
            assert(is_local_char(local[i]));
        }
        assert forall|i: int| 0 < i < lowercase(local).len() implies !(lowercase(local)[i - 1]
            == '.' && #[trigger] lowercase(local)[i] == '.') by {
            assert(is_local_char(local[i]) && is_local_char(local[i - 1]));
        }
    }
    let domain = parts[1];
    lemma_split_lowercase(domain, '.');
    let labels = split(domain, '.');
    assert forall|i: int| 0 <= i < split(lowercase(domain), '.').len() implies is_label(
        #[trigger] split(lowercase(domain), '.')[i],
    ) by {
        assert(split(lowercase(domain), '.')[i] == lowercase(labels[i]));
        assert(is_label(labels[i]));
        assert forall|k: int| 0 <= k < lowercase(labels[i]).len() implies is_label_char(
            #[trigger] lowercase(labels[i])[k],
        ) by {
            assert(is_label_char(labels[i][k]));
        }
    }
}

/// The normal form of an address is its own normal form.
pub proof fn normal_addresses_stay(s: Seq<char>)
    requires
        normalized_email(s) is Some,
    ensures
        normalized_email(normalized_email(s)->0) == normalized_email(s),
{
    let address = trimmed(s);
    let small = lowercase(address);
    lemma_lowercase_address(address);
    lemma_address_has_no_white_space(small);
    assert(small.len() > 0);
    assert(!is_white_space(small.first()) && !is_white_space(small.last()));
    assert(trimmed(small) == small);
    assert forall|i: int| 0 <= i < small.len() implies lower(#[trigger] small[i]) == small[i] by {}
    assert(lowercase(small) =~= small);
}

/// An organization-local identifier: `INV-` and a positive number without leading zeros.
pub open spec fn is_invitation_label(s: Seq<char>) -> bool {
    &&& s.len() > 4
    &&& s.take(4) == "INV-"@
    &&& all_digits(s.skip(4))
    &&& s[4] != '0'
}

/// What an invitation may be looked up by: its identifier, or its organization-local label.
pub open spec fn is_invitation_ref(s: Seq<char>) -> bool {
    uuid_value(s) is Some || is_invitation_label(s)
}

pub fn valid_invitation_ref(value: &str) -> (valid: bool)
    ensures
        valid == is_invitation_ref(value@),
{
    if parse_uuid(value).is_some() {
        return true;
    }
    proof {
        reveal_strlit("INV-");
    }
    let chars = text_chars(value);
    assert(chars@.len() >= 4 ==> (chars@.take(4) == "INV-"@ <==> chars@[0] == 'I' && chars@[1]
        == 'N' && chars@[2] == 'V' && chars@[3] == '-')) by {
        if chars@.len() >= 4 {
            let prefix = chars@.take(4);
            assert(prefix[0] == chars@[0] && prefix[1] == chars@[1] && prefix[2] == chars@[2]
                && prefix[3] == chars@[3]);
            if chars@[0] == 'I' && chars@[1] == 'N' && chars@[2] == 'V' && chars@[3] == '-' {
                assert(prefix =~= "INV-"@);
            }
        }
    }
    if chars.len() <= 4 || chars[0] != 'I' || chars[1] != 'N' || chars[2] != 'V' || chars[3] != '-'
        || chars[4] == '0' {
        return false;
    }
    for i in 4..chars.len()
        invariant
            chars@ == value@,
            chars@.len() > 4,
            uuid_value(value@) is None,
            forall|k: int| 0 <= k < i - 4 ==> is_digit(#[trigger] value@.skip(4)[k]),
    {
        if !digit(chars[i]) {
            assert(!is_digit(value@.skip(4)[i - 4]));
            return false;
        }
    }
    true
}

pub open spec fn is_token_char(c: char) -> bool {
    is_alphanumeric(c) || c == '-' || c == '_'
}

/// What is taken for an invitation token: 32 to 256 letters, digits, `-` and `_`.
pub open spec fn is_token_input(s: Seq<char>) -> bool {
    &&& 32 <= s.len() <= 256
    &&& forall|i: int| 0 <= i < s.len() ==> is_token_char(#[trigger] s[i])
}

pub fn valid_token_input(value: &str) -> (valid: bool)
    ensures
        valid == is_token_input(value@),
{
    let chars = text_chars(value);
    if chars.len() < 32 || chars.len() > 256 {
        return false;
    }
    for i in 0..chars.len()
        invariant
            chars@ == value@,
            forall|k: int| 0 <= k < i ==> is_token_char(#[trigger] value@[k]),
    {
        let c = chars[i];
        if !(alphanumeric(c) || c == '-' || c == '_') {
            assert(!is_token_char(value@[i as int]));
            return false;
        }
    }
    true
}

pub open spec fn is_text_char(c: char) -> bool {
    !is_control(c) || c == '\n' || c == '\r' || c == '\t'
}

/// Free text: at most `maximum` bytes of UTF-8, not blank, and without control characters
/// other than line breaks and tabs.
pub open spec fn is_free_text(s: Seq<char>, maximum: int) -> bool {
    &&& trimmed(s).len() > 0
    &&& encode_utf8(s).len() <= maximum
    &&& forall|i: int| 0 <= i < s.len() ==> is_text_char(#[trigger] s[i])
}

pub fn valid_text(value: &str, maximum: usize) -> (valid: bool)
    ensures
        valid == is_free_text(value@, maximum as int),
{
    let chars = text_chars(value);
    if trim_chars(&chars).len() == 0 || value.as_bytes().len() > maximum {
        return false;
    }
    for i in 0..chars.len()
        invariant
            chars@ == value@,
            forall|k: int| 0 <= k < i ==> is_text_char(#[trigger] value@[k]),
    {
        let c = chars[i];
        if control(c) && c != '\n' && c != '\r' && c != '\t' {
            assert(!is_text_char(value@[i as int]));
            return false;
        }
    }
    true
}

/// A segment of a secret reference: not empty, and neither `.` nor `..`.
pub open spec fn is_segment(s: Seq<char>) -> bool {
    s.len() > 0 && s != seq!['.'] && s != seq!['.', '.']
}

/// A reference to a secret: an opaque identifier of at most 256 characters, made of segments
/// separated by `/`.
pub open spec fn is_secret_reference(s: Seq<char>) -> bool {
    &&& is_opaque_id(s, 256)
    &&& forall|i: int| 0 <= i < split(s, '/').len() ==> is_segment(#[trigger] split(s, '/')[i])
}

pub fn valid_secret_reference(reference: &str) -> (valid: bool)
    ensures
        valid == is_secret_reference(reference@),
{
    if !valid_opaque_id(reference, 256) {
        return false;
    }
    let chars = text_chars(reference);
    let segments = split_chars(&chars, '/');
    for i in 0..segments.len()
        invariant
            chars@ == reference@,
            pieces_view(segments@) == split(chars@, '/'),
            forall|k: int| 0 <= k < i ==> is_segment(#[trigger] split(chars@, '/')[k]),
    {
        let segment = &segments[i];
        assert(pieces_view(segments@)[i as int] == segment@);
        let n = segment.len();
        if n == 0 || (n == 1 && segment[0] == '.') || (n == 2 && segment[0] == '.' && segment[1]
            == '.') {
            assert(segment@ =~= Seq::<char>::empty() || segment@ =~= seq!['.'] || segment@ =~= seq![
                '.',
                '.',
            ]);
            return false;
        }
        assert(segment@.len() == 1 ==> segment@[0] != '.');
        assert(is_segment(segment@));
    }
    true
}

pub open spec fn texts(values: Seq<String>) -> Seq<Seq<char>> {
    values.map_values(|value: String| value@)
}

/// An allowlist: 1 to 64 exact identifiers, each once.
pub open spec fn is_allowlist(callers: Seq<Seq<char>>) -> bool {
    &&& 0 < callers.len() <= MAX_CALLERS
    &&& forall|i: int| 0 <= i < callers.len() ==> is_identifier(#[trigger] callers[i], 256)
    &&& callers.no_duplicates()
}

pub fn validate_callers(callers: &Vec<String>) -> (result: Result<(), ()>)
    ensures
        result is Ok <==> is_allowlist(texts(callers@)),
{
    if callers.len() == 0 || callers.len() > MAX_CALLERS {
        return Err(());
    }
    let ghost names = texts(callers@);
    for i in 0..callers.len()
        invariant
            names == texts(callers@),
            forall|k: int| 0 <= k < i ==> is_identifier(#[trigger] names[k], 256),
            forall|k: int, l: int| 0 <= k < l < i ==> names[k] != names[l],
    {
        assert(names[i as int] == callers@[i as int]@);
        if !valid_identifier(callers[i].as_str(), 256) {
            return Err(());
        }
        for j in 0..i
            invariant
                names == texts(callers@),
                i < callers@.len(),
                forall|k: int| 0 <= k < j ==> names[k] != names[i as int],
        {
            assert(names[j as int] == callers@[j as int]@);
            assert(names[i as int] == callers@[i as int]@);
            if same_text(callers[j].as_str(), callers[i].as_str()) {
                return Err(());
            }
        }
    }
    Ok(())
}

/// The invitation and the revision that a mutation names, where the request is well formed.
pub open spec fn mutation_target(
    organization_id: Seq<char>,
    invitation_id: Seq<char>,
    expected_revision: Seq<char>,
    idempotency_key: Seq<char>,
) -> Option<(u128, i64)> {
    match (uuid_value(invitation_id), positive_value(expected_revision)) {
        (Some(id), Some(revision)) => if is_opaque_id(organization_id, MAX_ID_BYTES as int)
            && is_idempotency_key(idempotency_key) {
            Some((id, revision))
        } else {
            None
        },
        _ => None,
    }
}

pub fn parse_mutation(
    organization_id: &str,
    invitation_id: &str,
    expected_revision: &str,
    idempotency_key: &str,
) -> (target: Option<(u128, i64)>)
    ensures
        target == mutation_target(
            organization_id@,
            invitation_id@,
            expected_revision@,
            idempotency_key@,
        ),
{
    if !valid_opaque_id(organization_id, MAX_ID_BYTES) || !valid_idempotency_key(idempotency_key) {
        return None;
    }
    match (parse_uuid(invitation_id), parse_positive(expected_revision)) {
        (Some(id), Some(revision)) => Some((id, revision)),
        _ => None,
    }
}

} // verus!
