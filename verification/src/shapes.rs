//! What is accepted as an identifier, an address, a number, a secret or a configuration, and how
//! tokens, cursors and pages are made.

use crate::base64url::{base64url, base64url_round_trip};
use crate::config::{
    is_assertion_key, is_link_base, is_schema_name, OrganizationInvitationConfig,
    OrganizationInvitationConfigError, DEFAULT_COMMAND_LEASE_SECONDS, DEFAULT_LOCALE,
    DEFAULT_MAX_COMMAND_ATTEMPTS, DEFAULT_RETRY_BASE_SECONDS, DEFAULT_TOKEN_TTL_SECONDS,
};
use crate::contract::AcceptRequest;
use crate::cursor::{
    cursor_value, json_pair_value, page_size, place, precedes, shown, InvitationCursor,
};
use crate::digests::{
    argon2_matches, argon2id_text, ends_in_many_lanes_at, hmac_sha256, is_phc_text, names_lanes_at,
    names_many_lanes,
};
use crate::instants::rfc3339_value;
use crate::operations::{can_make_token, is_accept_request, is_limit, is_list_request};
use crate::records::InvitationView;
use crate::text::{
    all_digits, decimal, decimal_value, digits_value, is_alphanumeric, is_control, is_digit,
    is_white_space, lower, positive_value, trim_end, trim_start, trimmed,
};
use crate::token::{
    are_token_secrets, big_endian, derived_token, peppered_bytes, token_check, token_message,
    token_verifier, TokenError,
};
use crate::urls::{parsed_url, MAX_URL_BYTES};
use crate::uuids::{bytes_number, uuid_value};
use crate::validation::{
    is_address, is_allowlist, is_domain, is_free_text, is_idempotency_key, is_identifier,
    is_invitation_label, is_invitation_ref, is_label, is_local_part, is_opaque_id,
    is_secret_reference, is_token_input, mutation_target, normalized_email, split, texts,
};
use vstd::prelude::*;
use vstd::utf8::*;

verus! {

/// Letters and digits are those of ASCII, control characters those of Latin-1, and white space is
/// what Unicode says.
pub proof fn characters_are_classed(c: char)
    ensures
        is_digit(c) <==> 48 <= c as int <= 57,
        is_alphanumeric(c) <==> 48 <= c as int <= 57 || 65 <= c as int <= 90 || 97 <= c as int
            <= 122,
        is_control(c) <==> c as int <= 31 || 127 <= c as int <= 159,
        is_white_space(c) <==> 9 <= c as int <= 13 || c as int == 32 || c as int == 133 || c as int
            == 160 || c as int == 5_760 || 8_192 <= c as int <= 8_202 || c as int == 8_232
            || c as int == 8_233 || c as int == 8_239 || c as int == 8_287 || c as int == 12_288,
        65 <= c as int <= 90 ==> lower(c) as int == c as int + 32,
        !(65 <= c as int <= 90) ==> lower(c) == c,
{
}

/// An opaque identifier has a length up to its maximum, of letters, digits and `.`, `_`, `-`, `:`,
/// `/`. An idempotency key is one of up to 200, and an identifier one without `/`.
pub proof fn identifiers_are_opaque(s: Seq<char>, maximum: int)
    ensures
        is_opaque_id(s, maximum) <==> 1 <= s.len() <= maximum && forall|i: int|
            0 <= i < s.len() ==> is_alphanumeric(#[trigger] s[i]) || s[i] == '.' || s[i] == '_'
                || s[i] == '-' || s[i] == ':' || s[i] == '/',
        is_idempotency_key(s) <==> is_opaque_id(s, 200),
        is_identifier(s, maximum) <==> is_opaque_id(s, maximum) && forall|i: int|
            0 <= i < s.len() ==> #[trigger] s[i] != '/',
{
    if is_opaque_id(s, maximum) && (forall|i: int| 0 <= i < s.len() ==> #[trigger] s[i] != '/') {
        assert(!s.contains('/'));
    }
    if is_identifier(s, maximum) {
        assert forall|i: int| 0 <= i < s.len() implies #[trigger] s[i] != '/' by {
            if s[i] == '/' {
                assert(s.contains('/'));
            }
        }
    }
}

/// A token has 32 to 256 letters, digits, `-` and `_`. A text has something but white space, fits
/// into its bytes, and has no control characters but those that break lines and tabs.
pub proof fn tokens_and_texts_are_bounded(s: Seq<char>, maximum: int)
    ensures
        is_token_input(s) <==> 32 <= s.len() <= 256 && forall|i: int|
            0 <= i < s.len() ==> is_alphanumeric(#[trigger] s[i]) || s[i] == '-' || s[i] == '_',
        is_free_text(s, maximum) <==> trimmed(s).len() > 0 && encode_utf8(s).len() <= maximum
            && forall|i: int|
            0 <= i < s.len() ==> !is_control(#[trigger] s[i]) || s[i] == '\n' || s[i] == '\r'
                || s[i] == '\t',
{
}

/// A label is `INV-` and a number that does not start with 0. A reference is a label or the text of
/// an identifier.
pub proof fn references_are_labels_or_identifiers(s: Seq<char>)
    ensures
        is_invitation_label(s) <==> s.len() >= 5 && s.take(4) == "INV-"@ && s[4] != '0'
            && all_digits(s.skip(4)),
        is_invitation_ref(s) <==> is_invitation_label(s) || uuid_value(s) is Some,
{
}

/// A text without the separator is one piece.
pub proof fn texts_without_the_separator_are_one_piece(s: Seq<char>, separator: char)
    requires
        !s.contains(separator),
    ensures
        split(s, separator) == seq![s],
    decreases s.len(),
{
    if s.len() > 0 {
        let before = s.drop_last();
        assert(s.last() != separator) by {
            assert(s[s.len() - 1] == s.last());
        }
        assert(!before.contains(separator)) by {
            if before.contains(separator) {
                let i = choose|i: int| 0 <= i < before.len() && before[i] == separator;
                assert(s[i] == separator);
            }
        }
        texts_without_the_separator_are_one_piece(before, separator);
        assert(before.push(s.last()) =~= s);
        assert(split(s, separator) =~= seq![s]);
    } else {
        assert(s =~= Seq::empty());
    }
}

/// Two texts joined by the separator have the pieces of the one and then those of the other.
pub proof fn pieces_of_joined_texts(left: Seq<char>, right: Seq<char>, separator: char)
    ensures
        split(left.push(separator) + right, separator) == split(left, separator) + split(
            right,
            separator,
        ),
        split(right, separator).len() > 0,
    decreases right.len(),
{
    let whole = left.push(separator) + right;
    if right.len() == 0 {
        assert(whole =~= left.push(separator));
        assert(whole.drop_last() =~= left);
        assert(split(whole, separator) =~= split(left, separator) + split(right, separator));
    } else {
        let before = right.drop_last();
        pieces_of_joined_texts(left, before, separator);
        assert(whole.drop_last() =~= left.push(separator) + before);
        assert(whole.last() == right.last());
        let pieces = split(left, separator) + split(before, separator);
        assert(pieces.last() == split(before, separator).last());
        assert(pieces.drop_last() =~= split(left, separator) + split(
            before,
            separator,
        ).drop_last());
        assert(split(whole, separator) =~= split(left, separator) + split(right, separator));
    }
}

/// An address is a local part and a domain with one `@` between them, of 3 to 320 characters.
pub proof fn addresses_are_a_local_part_at_a_domain(local: Seq<char>, domain: Seq<char>)
    requires
        !local.contains('@'),
    ensures
        is_address(local.push('@') + domain) <==> 3 <= local.len() + 1 + domain.len() <= 320
            && is_local_part(local) && is_domain(domain) && !domain.contains('@'),
        !is_address(local),
{
    texts_without_the_separator_are_one_piece(local, '@');
    pieces_of_joined_texts(local, domain, '@');
    let parts = split(local.push('@') + domain, '@');
    assert(parts[0] == local);
    if domain.contains('@') {
        let i = domain.index_of('@');
        let before = domain.take(i);
        let behind = domain.skip(i + 1);
        assert(domain =~= before.push('@') + behind);
        pieces_of_joined_texts(before, behind, '@');
        pieces_of_joined_texts(Seq::empty(), before, '@');
        assert(parts.len() > 2);
    } else {
        texts_without_the_separator_are_one_piece(domain, '@');
        assert(parts =~= seq![local, domain]);
    }
}

/// A local part has up to 64 letters, digits and `.`, `_`, `%`, `+`, `-`. No dot stands at its ends
/// or beside another dot.
pub proof fn local_parts_have_single_dots_inside(s: Seq<char>)
    ensures
        is_local_part(s) <==> {
            &&& 1 <= s.len() <= 64
            &&& forall|i: int|
                0 <= i < s.len() ==> is_alphanumeric(#[trigger] s[i]) || s[i] == '.' || s[i] == '_'
                    || s[i] == '%' || s[i] == '+' || s[i] == '-'
            &&& forall|i: int|
                0 <= i < s.len() && #[trigger] s[i] == '.' ==> 0 < i < s.len() - 1 && s[i - 1]
                    != '.'
        },
{
    if is_local_part(s) {
        assert forall|i: int| 0 <= i < s.len() && #[trigger] s[i] == '.' implies 0 < i < s.len() - 1
            && s[i - 1] != '.' by {
            assert(s.first() == s[0]);
            assert(s.last() == s[s.len() - 1]);
        }
    }
}

/// A label of a domain has up to 63 letters, digits and `-`, with no `-` at its ends. A domain of
/// up to 255 characters is labels with dots between them.
pub proof fn domains_are_labels_with_dots(left: Seq<char>, right: Seq<char>)
    ensures
        is_label(left) <==> {
            &&& 1 <= left.len() <= 63
            &&& left[0] != '-'
            &&& left[left.len() - 1] != '-'
            &&& forall|i: int|
                0 <= i < left.len() ==> is_alphanumeric(#[trigger] left[i]) || left[i] == '-'
        },
        !left.contains('.') ==> (is_domain(left) <==> is_label(left)),
        left.len() + 1 + right.len() <= 255 ==> (is_domain(left.push('.') + right) <==> is_domain(
            left,
        ) && is_domain(right)),
        left.len() > 255 ==> !is_domain(left),
{
    let whole = left.push('.') + right;
    pieces_of_joined_texts(left, right, '.');
    let a = split(left, '.');
    let b = split(right, '.');
    let pieces = split(whole, '.');
    if whole.len() <= 255 {
        if is_domain(whole) {
            assert forall|i: int| 0 <= i < a.len() implies is_label(#[trigger] a[i]) by {
                assert(pieces[i] == a[i]);
            }
            assert forall|i: int| 0 <= i < b.len() implies is_label(#[trigger] b[i]) by {
                assert(pieces[a.len() + i] == b[i]);
            }
        }
        if is_domain(left) && is_domain(right) {
            assert forall|i: int| 0 <= i < pieces.len() implies is_label(#[trigger] pieces[i]) by {
                if i < a.len() {
                    assert(pieces[i] == a[i]);
                } else {
                    assert(pieces[i] == b[i - a.len()]);
                }
            }
        }
    }
    if !left.contains('.') {
        texts_without_the_separator_are_one_piece(left, '.');
        if is_domain(left) {
            assert(is_label(split(left, '.')[0]));
        }
    }
}

/// A secret reference is an opaque identifier of up to 256 characters whose segments between
/// slashes are neither empty nor `.` nor `..`.
pub proof fn secret_references_have_plain_segments(s: Seq<char>)
    ensures
        is_secret_reference(s) <==> is_opaque_id(s, 256) && forall|i: int|
            0 <= i < split(s, '/').len() ==> (#[trigger] split(s, '/')[i]).len() > 0
                && split(s, '/')[i] != seq!['.'] && split(s, '/')[i] != seq!['.', '.'],
{
}

/// An allowlist names 1 to 64 callers, each an identifier of up to 256 characters, each once.
pub proof fn allowlists_name_callers_once(callers: Seq<Seq<char>>)
    ensures
        is_allowlist(callers) <==> {
            &&& 1 <= callers.len() <= 64
            &&& forall|i: int| 0 <= i < callers.len() ==> is_identifier(#[trigger] callers[i], 256)
            &&& forall|i: int, j: int|
                0 <= i < j < callers.len() ==> #[trigger] callers[i] != #[trigger] callers[j]
        },
{
}

/// Trimming takes white space from the ends and nothing else. What it took is given back.
pub proof fn trimming_takes_only_white_space(s: Seq<char>) -> (taken: (Seq<char>, Seq<char>))
    ensures
        s == taken.0 + trimmed(s) + taken.1,
        forall|i: int| 0 <= i < taken.0.len() ==> is_white_space(#[trigger] taken.0[i]),
        forall|i: int| 0 <= i < taken.1.len() ==> is_white_space(#[trigger] taken.1[i]),
        trimmed(s).len() > 0 ==> !is_white_space(trimmed(s).first()) && !is_white_space(
            trimmed(s).last(),
        ),
{
    let before = lemma_trim_start(s);
    let behind = lemma_trim_end(trim_start(s));
    let middle = trim_start(s);
    assert(s =~= before + trimmed(s) + behind);
    if trimmed(s).len() > 0 {
        assert(trimmed(s).first() == middle.first());
    }
    (before, behind)
}

proof fn lemma_trim_start(s: Seq<char>) -> (before: Seq<char>)
    ensures
        s == before + trim_start(s),
        forall|i: int| 0 <= i < before.len() ==> is_white_space(#[trigger] before[i]),
        trim_start(s).len() > 0 ==> !is_white_space(trim_start(s).first()),
    decreases s.len(),
{
    if s.len() > 0 && is_white_space(s.first()) {
        let rest = lemma_trim_start(s.drop_first());
        let before = seq![s.first()] + rest;
        let middle = trim_start(s.drop_first());
        assert(trim_start(s) == middle);
        assert(s =~= seq![s.first()] + s.drop_first());
        assert(before + middle =~= seq![s.first()] + (rest + middle));
        assert forall|i: int| 0 <= i < before.len() implies is_white_space(
            #[trigger] before[i],
        ) by {
            if i > 0 {
                assert(before[i] == rest[i - 1]);
            }
        }
        before
    } else {
        assert(s =~= Seq::<char>::empty() + s);
        Seq::empty()
    }
}

proof fn lemma_trim_end(s: Seq<char>) -> (behind: Seq<char>)
    ensures
        s == trim_end(s) + behind,
        forall|i: int| 0 <= i < behind.len() ==> is_white_space(#[trigger] behind[i]),
        trim_end(s).len() > 0 ==> !is_white_space(trim_end(s).last()),
    decreases s.len(),
{
    if s.len() > 0 && is_white_space(s.last()) {
        let rest = lemma_trim_end(s.drop_last());
        let behind = rest.push(s.last());
        let middle = trim_end(s.drop_last());
        assert(trim_end(s) == middle);
        assert(s =~= s.drop_last().push(s.last()));
        assert(middle + behind =~= (middle + rest).push(s.last()));
        behind
    } else {
        assert(s =~= s + Seq::<char>::empty());
        Seq::empty()
    }
}

/// An address is kept in lower case and without white space around it.
pub proof fn addresses_are_kept_in_lower_case(s: Seq<char>)
    ensures
        normalized_email(s) is Some <==> is_address(trimmed(s)),
        normalized_email(s) matches Some(kept) ==> {
            &&& kept.len() == trimmed(s).len()
            &&& forall|i: int| 0 <= i < kept.len() ==> #[trigger] kept[i] == lower(trimmed(s)[i])
        },
{
}

/// A number is written digit by digit, the last one last, with a sign where it is negative.
pub proof fn numbers_are_written_digit_by_digit(n: int)
    ensures
        0 <= n < 10 ==> decimal(n) == seq![(48 + n) as char],
        n >= 10 ==> decimal(n) == decimal(n / 10) + decimal(n % 10),
        n < 0 ==> decimal(n) == seq!['-'] + decimal(-n),
{
    if n >= 10 {
        assert(decimal(n) =~= decimal(n / 10) + decimal(n % 10));
    }
}

/// A number is read digit by digit. A sign may stand before the digits, and nothing else.
pub proof fn numbers_are_read_digit_by_digit(digits: Seq<char>, last: char)
    requires
        all_digits(digits),
    ensures
        is_digit(last) ==> digits_value(digits.push(last)) == 10 * digits_value(digits) + (
        last as int - 48),
        digits_value(Seq::empty()) == 0,
        digits.len() > 0 ==> {
            &&& decimal_value(digits) == Some(digits_value(digits) as int)
            &&& decimal_value(seq!['+'] + digits) == Some(digits_value(digits) as int)
            &&& decimal_value(seq!['-'] + digits) == Some(-(digits_value(digits) as int))
        },
        decimal_value(Seq::empty()) is None,
        decimal_value(seq!['+']) is None,
        decimal_value(seq!['-']) is None,
        !is_digit(last) && digits.len() > 0 ==> decimal_value(digits.push(last)) is None,
{
    assert(digits.push(last).drop_last() =~= digits);
    if digits.len() > 0 {
        assert(is_digit(digits[0]));
        assert((seq!['+'] + digits).drop_first() =~= digits);
        assert((seq!['-'] + digits).drop_first() =~= digits);
    }
    assert(seq!['+'].drop_first() =~= Seq::<char>::empty());
    assert(seq!['-'].drop_first() =~= Seq::<char>::empty());
    if !is_digit(last) && digits.len() > 0 {
        let longer = digits.push(last);
        assert(longer[0] == digits[0]);
        assert(longer[longer.len() - 1] == last);
    }
}

/// A text is a number where every character of it is a digit.
pub proof fn digits_are_checked_one_by_one(s: Seq<char>)
    ensures
        all_digits(s) <==> forall|i: int| 0 <= i < s.len() ==> 48 <= (#[trigger] s[i]) as int <= 57,
{
}

/// A verifier asks for too many lanes where the last `p=` in it is followed by nine digits.
pub proof fn lanes_are_counted_at_the_last_place(text: Seq<char>, i: int)
    requires
        forall|j: int|
            i < j < text.len() - 1 ==> !(text[j] == 'p' && #[trigger] text[j + 1] == '='),
    ensures
        0 <= i < text.len() - 1 && text[i] == 'p' && text[i + 1] == '=' ==> (names_many_lanes(text)
            <==> i + 11 <= text.len() && forall|j: int|
            i + 2 <= j < i + 11 ==> is_digit(#[trigger] text[j])),
        i < 0 ==> !names_many_lanes(text),
{
    assert forall|j: int| i < j implies !#[trigger] names_lanes_at(text, j) by {
        if j < text.len() - 1 {
            assert(!(text[j] == 'p' && text[j + 1] == '='));
        }
    }
    if 0 <= i < text.len() - 1 && text[i] == 'p' && text[i + 1] == '=' {
        assert(names_lanes_at(text, i));
        if names_many_lanes(text) {
            let found = choose|k: int| #[trigger] ends_in_many_lanes_at(text, k);
            assert(names_lanes_at(text, found));
        }
        if i + 11 <= text.len() && (forall|j: int|
            i + 2 <= j < i + 11 ==> is_digit(#[trigger] text[j])) {
            assert(ends_in_many_lanes_at(text, i));
        }
    }
    if i < 0 && names_many_lanes(text) {
        let found = choose|k: int| #[trigger] ends_in_many_lanes_at(text, k);
        assert(names_lanes_at(text, found));
    }
}

/// A positive number is one that is greater than zero and can be stored.
pub proof fn positive_numbers_are_read_as_they_are(s: Seq<char>)
    ensures
        positive_value(s) matches Some(value) ==> value >= 1 && decimal_value(s) == Some(
            value as int,
        ),
        decimal_value(s) is None ==> positive_value(s) is None,
        decimal_value(s) matches Some(value) ==> (positive_value(s) is Some <==> 1 <= value
            <= i64::MAX),
{
}

/// A change names its invitation and the revision that it expects, on behalf of an organization and
/// under a key.
pub proof fn changes_name_their_target(
    organization_id: Seq<char>,
    invitation_id: Seq<char>,
    expected_revision: Seq<char>,
    idempotency_key: Seq<char>,
)
    ensures
        ({
            let target = mutation_target(
                organization_id,
                invitation_id,
                expected_revision,
                idempotency_key,
            );
            &&& target matches Some((id, revision)) ==> uuid_value(invitation_id) == Some(id)
                && positive_value(expected_revision) == Some(revision)
            &&& target is Some <==> {
                &&& is_opaque_id(organization_id, 512)
                &&& uuid_value(invitation_id) is Some
                &&& positive_value(expected_revision) is Some
                &&& is_opaque_id(idempotency_key, 200)
            }
        }),
{
}

/// A list has 1 to 100 entries to a page, and takes a cursor that was given out and an address. An
/// acceptance names its invitation, its revision, its token and its key.
pub proof fn requests_are_bounded(
    limit: i64,
    cursor: Option<Seq<char>>,
    email: Option<Seq<char>>,
    request: AcceptRequest,
)
    ensures
        is_limit(limit) <==> 1 <= limit <= 100,
        is_list_request(limit, cursor, email) <==> {
            &&& 1 <= limit <= 100
            &&& cursor is None || cursor_value(cursor->0) is Some
            &&& email is None || normalized_email(email->0) is Some
        },
        is_accept_request(request) <==> {
            &&& uuid_value(request.invitation_id@) is Some
            &&& positive_value(request.expected_revision@) is Some
            &&& is_token_input(request.token@)
            &&& is_opaque_id(request.idempotency_key@, 200)
        },
{
}

/// A configuration is valid where every part of it is, and the first part that is not is named.
pub proof fn configurations_are_checked_part_by_part(config: OrganizationInvitationConfig)
    ensures
        ({
            let schema = is_schema_name(config.schema@);
            let secrets = is_secret_reference(config.database_url_secret@) && is_secret_reference(
                config.token_pepper_secret@,
            ) && is_secret_reference(config.token_derivation_secret@)
                && config.database_url_secret@ != config.token_pepper_secret@
                && config.token_pepper_secret@ != config.token_derivation_secret@
                && config.token_derivation_secret@ != config.database_url_secret@;
            let issuer = is_identifier(config.auth_issuer@, 256);
            let key = is_assertion_key(config.auth_assertion_public_key@);
            let management = is_allowlist(texts(config.management_callers@));
            let acceptance = is_allowlist(texts(config.acceptance_callers@));
            let worker = is_allowlist(texts(config.worker_callers@));
            let link = is_link_base(config.invitation_url_base@);
            let locale = config.locale@ == "en"@ || config.locale@ == "en-US"@;
            let bounds = 300 <= config.token_ttl_seconds <= 2_592_000 && 30
                <= config.command_lease_seconds <= 3_600 && 1 <= config.max_command_attempts <= 20
                && 1 <= config.retry_base_seconds <= 3_600;
            match config.flaw() {
                None => schema && secrets && issuer && key && management && acceptance && worker
                    && link && locale && bounds,
                Some(OrganizationInvitationConfigError::InvalidSchema) => !schema,
                Some(OrganizationInvitationConfigError::InvalidSecretReference) => schema
                    && !secrets,
                Some(OrganizationInvitationConfigError::InvalidAuthIssuer) => schema && secrets
                    && !issuer,
                Some(OrganizationInvitationConfigError::InvalidAuthPublicKey) => schema && secrets
                    && issuer && !key,
                Some(OrganizationInvitationConfigError::InvalidManagementCallers) => schema
                    && secrets && issuer && key && !management,
                Some(OrganizationInvitationConfigError::InvalidAcceptanceCallers) => schema
                    && secrets && issuer && key && management && !acceptance,
                Some(OrganizationInvitationConfigError::InvalidWorkerCallers) => schema && secrets
                    && issuer && key && management && acceptance && !worker,
                Some(OrganizationInvitationConfigError::InvalidInvitationUrl) => schema && secrets
                    && issuer && key && management && acceptance && worker && !link,
                Some(OrganizationInvitationConfigError::InvalidLocale) => schema && secrets
                    && issuer && key && management && acceptance && worker && link && !locale,
                Some(OrganizationInvitationConfigError::InvalidBounds) => schema && secrets
                    && issuer && key && management && acceptance && worker && link && locale
                    && !bounds,
            }
        }),
        config.checked() == (match config.flaw() {
            None => Ok::<OrganizationInvitationConfig, OrganizationInvitationConfigError>(config),
            Some(error) => Err(error),
        }),
{
}

/// A base of links is an HTTPS URL with a host, without query and fragment, of up to 2048 bytes. A
/// configuration that leaves the rest out gives tokens a week, leases two minutes, eight attempts
/// and half a minute before the first retry, in English.
pub proof fn links_are_https_and_defaults_are_kept(base: Seq<char>)
    ensures
        is_link_base(base) <==> {
            &&& encode_utf8(base).len() <= 2_048
            &&& parsed_url(base) matches Some((_, scheme, has_host, has_query, has_fragment))
                && scheme == "https"@ && has_host && !has_query && !has_fragment
        },
        MAX_URL_BYTES == 2_048,
        DEFAULT_TOKEN_TTL_SECONDS == 7 * 24 * 3_600,
        DEFAULT_COMMAND_LEASE_SECONDS == 120,
        DEFAULT_MAX_COMMAND_ATTEMPTS == 8,
        DEFAULT_RETRY_BASE_SECONDS == 30,
        DEFAULT_LOCALE@ == "en"@,
{
}

/// The bytes of a number, the greatest first, give the number back.
pub proof fn big_endian_bytes_give_the_number_back(n: int, count: nat, bound: int)
    requires
        0 <= n < bound,
        bound == vstd::arithmetic::power::pow(256, count),
    ensures
        big_endian(n, count).len() == count,
        bytes_number(big_endian(n, count)) == n,
    decreases count,
{
    if count == 0 {
        vstd::arithmetic::power::lemma_pow0(256);
    } else {
        let rest = (count - 1) as nat;
        let smaller = vstd::arithmetic::power::pow(256, rest);
        vstd::arithmetic::power::lemma_pow_adds(256, rest, 1);
        vstd::arithmetic::power::lemma_pow1(256);
        assert(bound == smaller * 256);
        assert(0 <= n / 256 < smaller);
        big_endian_bytes_give_the_number_back(n / 256, rest, smaller);
        let bytes = big_endian(n, count);
        assert(bytes.drop_last() =~= big_endian(n / 256, rest));
        assert(bytes.last() == (n % 256) as u8);
        assert(bytes.last() as int == n % 256);
    }
}

/// A token is made of what it is for: the code of the context, the identifier in 16 bytes and the
/// generation in 8. Secrets of less than 256 bits, and generations that are not positive, make
/// none.
pub proof fn tokens_are_codes_of_their_invitation(
    secret: Seq<u8>,
    invitation_id: u128,
    generation: i64,
)
    ensures
        derived_token(secret, invitation_id, generation) is Ok <==> secret.len() >= 32 && generation
            >= 1,
        secret.len() >= 32 && generation >= 1 ==> derived_token(secret, invitation_id, generation)
            == Ok::<Seq<char>, TokenError>(
            base64url(hmac_sha256(secret, token_message(invitation_id, generation))),
        ),
        derived_token(secret, invitation_id, generation) is Err ==> derived_token(
            secret,
            invitation_id,
            generation,
        )->Err_0 == TokenError::InvalidSecret,
        generation >= 1 ==> {
            let message = token_message(invitation_id, generation);
            let context = encode_utf8("lenso.organization-invitation.token.v1\0"@);
            let count = context.len() as int;
            &&& message.len() == context.len() + 24
            &&& message.take(count) == context
            &&& bytes_number(message.subrange(count, count + 16)) == invitation_id
            &&& bytes_number(message.skip(count + 16)) == generation
        },
{
    if generation >= 1 {
        let message = token_message(invitation_id, generation);
        let context = encode_utf8("lenso.organization-invitation.token.v1\0"@);
        let count = context.len() as int;
        vstd::arithmetic::power2::lemma2_to64();
        lemma_powers_of_256();
        big_endian_bytes_give_the_number_back(
            invitation_id as int,
            16,
            vstd::arithmetic::power::pow(256, 16),
        );
        big_endian_bytes_give_the_number_back(
            generation as int,
            8,
            vstd::arithmetic::power::pow(256, 8),
        );
        assert(message.take(count) =~= context);
        assert(message.subrange(count, count + 16) =~= big_endian(invitation_id as int, 16));
        assert(message.skip(count + 16) =~= big_endian(generation as int, 8));
    }
}

proof fn lemma_powers_of_256()
    ensures
        vstd::arithmetic::power::pow(256, 8) == 0x1_0000_0000_0000_0000int,
        vstd::arithmetic::power::pow(256, 16) == 0x1_0000_0000_0000_0000_0000_0000_0000_0000int,
{
    vstd::arithmetic::power::lemma_pow1(256);
    let one = vstd::arithmetic::power::pow(256, 1);
    vstd::arithmetic::power::lemma_pow_adds(256, 1, 1);
    assert(one * one == 0x1_0000) by (nonlinear_arith)
        requires
            one == 256,
    ;
    let two = vstd::arithmetic::power::pow(256, 2);
    vstd::arithmetic::power::lemma_pow_adds(256, 2, 2);
    assert(two * two == 0x1_0000_0000) by (nonlinear_arith)
        requires
            two == 0x1_0000,
    ;
    let four = vstd::arithmetic::power::pow(256, 4);
    vstd::arithmetic::power::lemma_pow_adds(256, 4, 4);
    assert(four * four == 0x1_0000_0000_0000_0000int) by (nonlinear_arith)
        requires
            four == 0x1_0000_0000,
    ;
    let eight = vstd::arithmetic::power::pow(256, 8);
    vstd::arithmetic::power::lemma_pow_adds(256, 8, 8);
    assert(eight * eight == 0x1_0000_0000_0000_0000_0000_0000_0000_0000int) by (nonlinear_arith)
        requires
            eight == 0x1_0000_0000_0000_0000int,
    ;
}

/// A verifier is made of the token, a zero and the pepper, under fixed costs. A token is checked
/// against a verifier in the same way; a verifier that asks for too many lanes takes no token.
pub proof fn verifiers_are_made_of_token_and_pepper(
    token: Seq<char>,
    pepper: Seq<u8>,
    salt: Seq<u8>,
    stored: Seq<char>,
)
    ensures
        ({
            let bytes = encode_utf8(token);
            let input = peppered_bytes(token, pepper);
            let count = bytes.len() as int;
            let made = argon2id_text(input, salt, 19_456, 2, 1, 32);
            let verifier = token_verifier(token, pepper, salt);
            let check = token_check(token, pepper, stored);
            &&& input.len() == bytes.len() + 1 + pepper.len()
            &&& input.take(count) == bytes
            &&& input[count] == 0
            &&& input.skip(count + 1) == pepper
            &&& pepper.len() < 32 ==> verifier is Err && verifier->Err_0
                == TokenError::InvalidSecret
            &&& pepper.len() >= 32 && made is Some ==> verifier == Ok::<Seq<char>, TokenError>(
                made->0,
            )
            &&& pepper.len() >= 32 && made is None ==> verifier is Err && verifier->Err_0
                == TokenError::HashFailure
            &&& pepper.len() < 32 ==> check is Err && check->Err_0 == TokenError::InvalidSecret
            &&& pepper.len() >= 32 && !is_phc_text(stored) ==> check is Err && check->Err_0
                == TokenError::InvalidStoredHash
            &&& pepper.len() >= 32 && is_phc_text(stored) && names_many_lanes(stored) ==> check
                == Ok::<bool, TokenError>(false)
            &&& pepper.len() >= 32 && is_phc_text(stored) && !names_many_lanes(stored) ==> {
                let matches = argon2_matches(input, stored);
                &&& matches is Some ==> check == Ok::<bool, TokenError>(matches->0)
                &&& matches is None ==> check is Err && check->Err_0
                    == TokenError::InvalidStoredHash
            }
        }),
{
    let input = peppered_bytes(token, pepper);
    let bytes = encode_utf8(token);
    assert(input.take(bytes.len() as int) =~= bytes);
    assert(input.skip((bytes.len() + 1) as int) =~= pepper);
}

/// Two secrets are used: both of at least 256 bits, and not the same.
pub proof fn secrets_are_long_and_differ(pepper: Seq<u8>, derivation: Seq<u8>, generation: i64)
    ensures
        are_token_secrets(pepper, derivation) <==> pepper.len() >= 32 && derivation.len() >= 32
            && pepper != derivation,
        can_make_token(derivation, pepper, generation) <==> derivation.len() >= 32 && pepper.len()
            >= 32 && generation >= 1,
{
}

/// A cursor holds an instant and an identifier, and is read only where both can be.
pub proof fn cursors_hold_an_instant_and_an_identifier(bytes: Seq<u8>, cursor: InvitationCursor)
    ensures
        cursor_value(base64url(bytes)) == Some(cursor) <==> {
            &&& json_pair_value(bytes) matches Some((instant, id)) && id == cursor.invitation_id
                && rfc3339_value(instant) == Some(cursor.created_at)
        },
{
    base64url_round_trip(bytes);
}

/// Invitations are listed newest first, and those of one instant by their identifier, the greatest
/// first. Any two places are in order, one way only.
pub proof fn lists_are_newest_first(
    left: InvitationView<Seq<char>>,
    right: InvitationView<Seq<char>>,
)
    ensures
        left.created_at > right.created_at ==> precedes(place(left), place(right)),
        left.created_at == right.created_at && left.invitation_id > right.invitation_id
            ==> precedes(place(left), place(right)),
        precedes(place(left), place(right)) ==> !precedes(place(right), place(left)),
        !precedes(place(left), place(right)) && !precedes(place(right), place(left))
            ==> left.created_at == right.created_at && left.invitation_id == right.invitation_id,
        place(left).created_at == left.created_at * 1_000,
        place(left).invitation_id == left.invitation_id,
{
}

/// A page has as many entries as it has room for, the first ones.
pub proof fn pages_show_the_first_entries<T>(found: Seq<T>, limit: i64)
    ensures
        0 <= limit <= usize::MAX ==> page_size(limit) == limit,
        limit < 0 ==> page_size(limit) == 0,
        0 <= limit ==> {
            &&& shown(found, limit as int).is_prefix_of(found)
            &&& shown(found, limit as int).len() <= limit
            &&& shown(found, limit as int).len() < limit ==> shown(found, limit as int) == found
        },
{
}

} // verus!
