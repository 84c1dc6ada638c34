//! Listing invitations page by page: opaque cursors, and what follows a cursor.

use crate::base64url::{
    base64url, base64url_round_trip, base64url_value, decode_base64url, encode_base64url,
};
use crate::instants::{
    format_time, has_rfc3339_text, instant_text, parse_nanoseconds, rfc3339_value,
};
use crate::records::{InvitationView, StorageError};
use uuid::Uuid;
use vstd::prelude::*;

verus! {

/// A place in the list of invitations, which is ordered by creation and identifier. The instant
/// is in nanoseconds since the Unix epoch.
#[derive(Clone, Copy, Debug, PartialEq, Eq, Structural)]
pub struct InvitationCursor {
    pub created_at: i128,
    pub invitation_id: u128,
}

/// The JSON text of a pair of a text and an identifier.
pub uninterp spec fn json_pair(text: Seq<char>, id: u128) -> Seq<u8>;

/// The pair of a text and an identifier that a JSON text stands for.
pub uninterp spec fn json_pair_value(bytes: Seq<u8>) -> Option<(Seq<char>, u128)>;

/// `serde_json::to_vec`, for a pair of a text and an identifier: every pair has a JSON text, from
/// which it is read back.
#[verifier::external_body]
fn write_pair(text: &str, id: u128) -> (bytes: Option<Vec<u8>>)
    ensures
        bytes is Some,
        bytes->0@ == json_pair(text@, id),
        json_pair_value(bytes->0@) == Some((text@, id)),
{
    serde_json::to_vec(&(text, Uuid::from_u128(id))).ok()
}

pub open spec fn pair_view(pair: Option<(String, u128)>) -> Option<(Seq<char>, u128)> {
    match pair {
        Some((text, id)) => Some((text@, id)),
        None => None,
    }
}

/// `serde_json::from_slice`, for a pair of a text and an identifier: the pair that the bytes stand
/// for, if they are the JSON text of one.
#[verifier::external_body]
fn read_pair(bytes: &[u8]) -> (pair: Option<(String, u128)>)
    ensures
        pair_view(pair) == json_pair_value(bytes@),
{
    match serde_json::from_slice::<(String, Uuid)>(bytes) {
        Ok((text, id)) => Some((text, id.as_u128())),
        Err(_) => None,
    }
}

/// The place that a cursor stands for.
pub open spec fn cursor_value(text: Seq<char>) -> Option<InvitationCursor> {
    match base64url_value(text) {
        Some(bytes) => match json_pair_value(bytes) {
            Some((timestamp, invitation_id)) => match rfc3339_value(timestamp) {
                Some(created_at) => Some(InvitationCursor { created_at, invitation_id }),
                None => None,
            },
            None => None,
        },
        None => None,
    }
}

/// The place of an invitation in the list.
pub open spec fn place_of(created_at: i64, invitation_id: u128) -> InvitationCursor {
    InvitationCursor { created_at: (created_at * 1000) as i128, invitation_id }
}

/// The cursor of an invitation. It is read back as the place of that invitation.
pub fn encode_invitation_cursor(invitation: &InvitationView<String>) -> (cursor: Result<
    String,
    StorageError,
>)
    ensures
        match cursor {
            Ok(cursor) => {
                &&& instant_text(invitation.created_at) is Ok
                &&& cursor@ == base64url(
                    json_pair(instant_text(invitation.created_at)->Ok_0, invitation.invitation_id),
                )
                &&& cursor_value(cursor@) == Some(
                    place_of(invitation.created_at, invitation.invitation_id),
                )
            },
            Err(StorageError::CursorNotFormattable { error }) => {
                &&& !has_rfc3339_text((invitation.created_at * 1000) as i128)
                &&& instant_text(invitation.created_at) == Err::<Seq<char>, Seq<char>>(error@)
            },
            Err(_) => false,
        },
{
    let timestamp = match format_time(invitation.created_at) {
        Ok(timestamp) => timestamp,
        Err(error) => {
            return Err(StorageError::CursorNotFormattable { error });
        },
    };
    let payload = write_pair(timestamp.as_str(), invitation.invitation_id).unwrap();
    proof {
        base64url_round_trip(payload@);
    }
    Ok(encode_base64url(payload.as_slice()))
}

/// The place that a cursor stands for, or `None` where the text is no cursor.
pub fn decode_invitation_cursor(value: &str) -> (cursor: Option<InvitationCursor>)
    ensures
        cursor == cursor_value(value@),
{
    let bytes = match decode_base64url(value) {
        Some(bytes) => bytes,
        None => {
            return None;
        },
    };
    proof {
        base64url_round_trip(bytes@);
    }
    match read_pair(bytes.as_slice()) {
        Some((timestamp, invitation_id)) => match parse_nanoseconds(timestamp.as_str()) {
            Some(created_at) => Some(InvitationCursor { created_at, invitation_id }),
            None => None,
        },
        None => None,
    }
}

/// A page of the list, and the cursor of the next one, if there is more.
#[derive(Clone, Debug, PartialEq, Eq)]
pub struct Page {
    pub items: Vec<InvitationView<String>>,
    pub next_cursor: Option<String>,
}

/// How many invitations a page holds at most.
pub open spec fn page_size(limit: i64) -> int {
    if 0 <= limit <= usize::MAX {
        limit as int
    } else {
        0
    }
}

/// Makes a page of the invitations that were found. One more than the page holds is asked for, so
/// that it is seen whether there is more; the cursor is then that of the last invitation on the
/// page.
pub fn make_page(found: Vec<InvitationView<String>>, limit: i64) -> (page: Result<
    Page,
    StorageError,
>)
    ensures
        ({
            let size = page_size(limit);
            let more = found@.len() > size;
            match page {
                Ok(page) => {
                    &&& page.items@ == shown(found@, size)
                    &&& page.next_cursor is Some <==> more && size > 0
                    &&& page.next_cursor matches Some(cursor) ==> cursor_value(cursor@) == Some(
                        place(found@[size - 1]@),
                    )
                },
                Err(StorageError::CursorNotFormattable { error }) => {
                    &&& more
                    &&& size > 0
                    &&& !has_rfc3339_text((found@[size - 1].created_at * 1000) as i128)
                    &&& instant_text(found@[size - 1].created_at) == Err::<Seq<char>, Seq<char>>(
                        error@,
                    )
                },
                Err(_) => false,
            }
        }),
{
    let size: usize = if 0 <= limit && limit as u128 <= usize::MAX as u128 {
        limit as usize
    } else {
        0
    };
    let mut items = found;
    if items.len() <= size {
        return Ok(Page { items, next_cursor: None });
    }
    items.truncate(size);
    assert(items@ =~= found@.take(size as int));
    if size == 0 {
        return Ok(Page { items, next_cursor: None });
    }
    match encode_invitation_cursor(&items[size - 1]) {
        Ok(cursor) => Ok(Page { items, next_cursor: Some(cursor) }),
        Err(error) => Err(error),
    }
}

/// The list runs from the newest invitation to the oldest, and among those of one instant from the
/// highest identifier to the lowest.
pub open spec fn precedes(left: InvitationCursor, right: InvitationCursor) -> bool {
    left.created_at > right.created_at || left.created_at == right.created_at
        && left.invitation_id > right.invitation_id
}

pub open spec fn place(invitation: InvitationView<Seq<char>>) -> InvitationCursor {
    place_of(invitation.created_at, invitation.invitation_id)
}

/// A list of invitations in order, each once.
pub open spec fn is_listing(all: Seq<InvitationView<Seq<char>>>) -> bool {
    forall|i: int, j: int| 0 <= i < j < all.len() ==> precedes(place(all[i]), place(all[j]))
}

/// An instant as the store compares it: in whole microseconds, counted from the start of the year
/// 2000. What is finer is cut off towards that start.
pub open spec fn stored_instant(nanoseconds: i128) -> i128 {
    let since = nanoseconds - 946_684_800_000_000_000;
    if since >= 0 {
        (nanoseconds - since % 1000) as i128
    } else {
        (nanoseconds + (-since) % 1000) as i128
    }
}

/// A place as the store compares it.
pub open spec fn stored_place(cursor: InvitationCursor) -> InvitationCursor {
    InvitationCursor { created_at: stored_instant(cursor.created_at), ..cursor }
}

/// The places of invitations are compared as they are.
pub proof fn places_are_stored_whole(invitation: InvitationView<Seq<char>>)
    ensures
        stored_place(place(invitation)) == place(invitation),
{
    let nanoseconds = place(invitation).created_at;
    assert(nanoseconds == invitation.created_at * 1000);
    let since = nanoseconds - 946_684_800_000_000_000;
    assert(since == (invitation.created_at - 946_684_800_000_000) * 1000);
    assert(since % 1000 == 0);
    assert((-since) % 1000 == 0);
}

/// What is listed for a cursor: everything, or what comes behind the place of the cursor.
pub open spec fn is_listed(
    invitation: InvitationView<Seq<char>>,
    cursor: Option<InvitationCursor>,
) -> bool {
    cursor matches Some(cursor) ==> precedes(stored_place(cursor), place(invitation))
}

/// A cursor cuts a list in two: nothing before `cut` is listed for it, and all that follows is.
pub open spec fn cuts_at(
    all: Seq<InvitationView<Seq<char>>>,
    cursor: Option<InvitationCursor>,
    cut: int,
) -> bool {
    &&& 0 <= cut <= all.len()
    &&& forall|i: int| 0 <= i < cut ==> !is_listed(#[trigger] all[i], cursor)
    &&& forall|i: int| cut <= i < all.len() ==> is_listed(#[trigger] all[i], cursor)
}

/// Pages follow each other without gaps and without repetitions: where the list for one cursor
/// starts at `cut`, the list for the cursor of a page of `size` invitations starts right behind
/// that page.
pub proof fn pages_follow_each_other(
    all: Seq<InvitationView<Seq<char>>>,
    cursor: Option<InvitationCursor>,
    cut: int,
    size: int,
)
    requires
        is_listing(all),
        cuts_at(all, cursor, cut),
        0 < size,
        cut + size <= all.len(),
    ensures
        cuts_at(all, Some(place(all[cut + size - 1])), cut + size),
{
    let last = cut + size - 1;
    places_are_stored_whole(all[last]);
    assert forall|i: int| 0 <= i < cut + size implies !is_listed(
        #[trigger] all[i],
        Some(place(all[last])),
    ) by {
        if i < last {
            assert(precedes(place(all[i]), place(all[last])));
        }
    }
    assert forall|i: int| cut + size <= i < all.len() implies is_listed(
        #[trigger] all[i],
        Some(place(all[last])),
    ) by {
        assert(precedes(place(all[last]), place(all[i])));
    }
}

/// The first page starts at the head of the list.
pub proof fn lists_start_at_their_head(all: Seq<InvitationView<Seq<char>>>)
    ensures
        cuts_at(all, None, 0),
{
}

/// Every cursor cuts a list, and at one place only.
#[verifier::rlimit(30)]
pub proof fn cursors_cut_lists_once(
    all: Seq<InvitationView<Seq<char>>>,
    cursor: Option<InvitationCursor>,
) -> (cut: int)
    requires
        is_listing(all),
    ensures
        cuts_at(all, cursor, cut),
        forall|other: int| #[trigger] cuts_at(all, cursor, other) ==> other == cut,
    decreases all.len(),
{
    if all.len() == 0 {
        0
    } else {
        let rest = all.drop_last();
        let last = all.len() - 1;
        assert(is_listing(rest));
        let cut = cursors_cut_lists_once(rest, cursor);
        assert forall|i: int| 0 <= i < last implies all[i] == rest[i] by {}
        if cut < last {
            assert(is_listed(rest[cut], cursor));
            assert(precedes(place(all[cut]), place(all[last])));
        }
        let found = if cut == last && !is_listed(all[last], cursor) {
            last + 1
        } else {
            cut
        };
        assert(cuts_at(all, cursor, found)) by {
            assert forall|i: int| 0 <= i < found implies !is_listed(#[trigger] all[i], cursor) by {
                if i < last {
                    assert(!is_listed(rest[i], cursor));
                }
            }
            assert forall|i: int| found <= i < all.len() implies is_listed(
                #[trigger] all[i],
                cursor,
            ) by {
                if i < last {
                    assert(is_listed(rest[i], cursor));
                }
            }
        }
        assert forall|other: int| #[trigger] cuts_at(all, cursor, other) implies other
            == found by {
            lemma_cut_is_unique(all, cursor, found, other);
        }
        found
    }
}

proof fn lemma_cut_is_unique(
    all: Seq<InvitationView<Seq<char>>>,
    cursor: Option<InvitationCursor>,
    left: int,
    right: int,
)
    requires
        cuts_at(all, cursor, left),
        cuts_at(all, cursor, right),
    ensures
        left == right,
{
    if left < right {
        assert(is_listed(all[left], cursor));
    }
    if right < left {
        assert(is_listed(all[right], cursor));
    }
}

/// What is fetched for a page: the first invitations that are listed for the cursor, one more than
/// the page holds, as far as there are so many.
pub open spec fn is_fetched(
    all: Seq<InvitationView<Seq<char>>>,
    cursor: Option<InvitationCursor>,
    limit: int,
    found: Seq<InvitationView<Seq<char>>>,
) -> bool {
    exists|cut: int| #[trigger]
        cuts_at(all, cursor, cut) && found == all.subrange(
            cut,
            if cut + limit + 1 <= all.len() {
                cut + limit + 1
            } else {
                all.len() as int
            },
        )
}

/// The head of a list by what it is made of: invitations of the list in order, at most `limit`, of
/// which only such are left out that come behind a full head.
pub open spec fn is_head(
    list: Seq<InvitationView<Seq<char>>>,
    limit: int,
    found: Seq<InvitationView<Seq<char>>>,
) -> bool {
    &&& is_listing(found)
    &&& forall|i: int| 0 <= i < found.len() ==> list.contains(#[trigger] found[i])
    &&& found.len() <= limit
    &&& forall|k: int|
        0 <= k < list.len() && !found.contains(#[trigger] list[k]) ==> {
            &&& found.len() == limit
            &&& forall|i: int|
                0 <= i < found.len() ==> precedes(place(#[trigger] found[i]), place(list[k]))
        }
}

proof fn lemma_head_agrees(
    list: Seq<InvitationView<Seq<char>>>,
    limit: int,
    found: Seq<InvitationView<Seq<char>>>,
    count: int,
)
    requires
        is_listing(list),
        is_head(list, limit, found),
        0 <= count <= found.len(),
    ensures
        count <= list.len(),
        forall|i: int| 0 <= i < count ==> #[trigger] found[i] == list[i],
    decreases count,
{
    if count > 0 {
        let i = count - 1;
        lemma_head_agrees(list, limit, found, i);
        assert(list.contains(found[i]));
        let j = choose|j: int| 0 <= j < list.len() && list[j] == found[i];
        if j < i {
            assert(found[j] == list[j]);
            assert(precedes(place(found[j]), place(found[i])));
        }
        if i < j {
            assert(precedes(place(list[i]), place(list[j])));
            if found.contains(list[i]) {
                let m = choose|m: int| 0 <= m < found.len() && found[m] == list[i];
                if m < i {
                    assert(found[m] == list[m]);
                    assert(precedes(place(list[m]), place(list[i])));
                } else if i < m {
                    assert(precedes(place(found[i]), place(found[m])));
                }
            } else {
                assert(precedes(place(found[i]), place(list[i])));
            }
        }
    }
}

/// The head of a list is its first invitations: as many as the limit allows, or all there are.
pub proof fn heads_are_the_first(
    list: Seq<InvitationView<Seq<char>>>,
    limit: int,
    found: Seq<InvitationView<Seq<char>>>,
)
    requires
        is_listing(list),
        limit >= 0,
        is_head(list, limit, found),
    ensures
        found == list.take(
            if limit <= list.len() {
                limit
            } else {
                list.len() as int
            },
        ),
{
    let count = found.len() as int;
    lemma_head_agrees(list, limit, found, count);
    if count < limit && count < list.len() {
        assert(found.contains(list[count]));
        let m = choose|m: int| 0 <= m < found.len() && found[m] == list[count];
        assert(found[m] == list[m]);
        assert(precedes(place(list[m]), place(list[count])));
    }
    assert(found =~= list.take(count));
}

/// What a page shows of what was fetched for it.
pub open spec fn shown<T>(found: Seq<T>, limit: int) -> Seq<T> {
    if found.len() > limit {
        found.take(limit)
    } else {
        found
    }
}

/// The place that the cursor of the next page stands for, where there is one.
pub open spec fn next_place(
    found: Seq<InvitationView<Seq<char>>>,
    limit: int,
) -> Option<InvitationCursor> {
    if found.len() > limit {
        Some(place(found[limit - 1]))
    } else {
        None
    }
}

/// The cursor that page `i` is asked for with: none for the first page, and the one that the page
/// before it gave for any other.
pub open spec fn place_before(
    fetches: Seq<Seq<InvitationView<Seq<char>>>>,
    limit: int,
    i: int,
) -> Option<InvitationCursor> {
    if i == 0 {
        None
    } else {
        next_place(fetches[i - 1], limit)
    }
}

/// What pages show one behind the other.
pub open spec fn joined(
    fetches: Seq<Seq<InvitationView<Seq<char>>>>,
    limit: int,
) -> Seq<InvitationView<Seq<char>>>
    decreases fetches.len(),
{
    if fetches.len() == 0 {
        Seq::empty()
    } else {
        joined(fetches.drop_last(), limit) + shown(fetches.last(), limit)
    }
}

/// Pages that are asked for one behind the other, each with the cursor of the one before it.
pub open spec fn are_successive(
    all: Seq<InvitationView<Seq<char>>>,
    limit: int,
    fetches: Seq<Seq<InvitationView<Seq<char>>>>,
) -> bool {
    &&& forall|i: int|
        0 <= i < fetches.len() ==> is_fetched(
            all,
            place_before(fetches, limit, i),
            limit,
            #[trigger] fetches[i],
        )
    &&& forall|i: int| 0 <= i < fetches.len() - 1 ==> (#[trigger] fetches[i]).len() > limit
}

/// The first page shows the head of the list: as many invitations as it holds, or all there are.
pub proof fn first_pages_show_the_head(
    all: Seq<InvitationView<Seq<char>>>,
    limit: int,
    found: Seq<InvitationView<Seq<char>>>,
)
    requires
        is_listing(all),
        limit >= 0,
        is_fetched(all, None, limit, found),
    ensures
        shown(found, limit) == all.take(
            if limit <= all.len() {
                limit
            } else {
                all.len() as int
            },
        ),
        found.len() > limit <==> all.len() > limit,
{
    lists_start_at_their_head(all);
    let cut = choose|cut: int| #[trigger]
        cuts_at(all, None, cut) && found == all.subrange(
            cut,
            if cut + limit + 1 <= all.len() {
                cut + limit + 1
            } else {
                all.len() as int
            },
        );
    lemma_cut_is_unique(all, None, 0, cut);
    assert(shown(found, limit) =~= all.take(
        if limit <= all.len() {
            limit
        } else {
            all.len() as int
        },
    ));
}

/// A page that starts behind the head of the list makes the head longer.
proof fn lemma_next_page(
    all: Seq<InvitationView<Seq<char>>>,
    cursor: Option<InvitationCursor>,
    limit: int,
    before: Seq<InvitationView<Seq<char>>>,
    found: Seq<InvitationView<Seq<char>>>,
)
    requires
        is_listing(all),
        limit > 0,
        before.is_prefix_of(all),
        cuts_at(all, cursor, before.len() as int),
        is_fetched(all, cursor, limit, found),
    ensures
        (before + shown(found, limit)).is_prefix_of(all),
        found.len() > limit ==> cuts_at(
            all,
            next_place(found, limit),
            (before + shown(found, limit)).len() as int,
        ),
        found.len() <= limit ==> before + shown(found, limit) == all,
{
    let start = before.len() as int;
    let cut = choose|cut: int| #[trigger]
        cuts_at(all, cursor, cut) && found == all.subrange(
            cut,
            if cut + limit + 1 <= all.len() {
                cut + limit + 1
            } else {
                all.len() as int
            },
        );
    lemma_cut_is_unique(all, cursor, start, cut);
    assert(before =~= all.take(start));
    if found.len() > limit {
        assert(before + shown(found, limit) =~= all.take(start + limit));
        pages_follow_each_other(all, cursor, start, limit);
        assert(found[limit - 1] == all[start + limit - 1]);
    } else {
        assert(before + shown(found, limit) =~= all);
    }
}

/// Successive pages show the head of the list, in its order, and the next one starts where they
/// end.
#[verifier::rlimit(30)]
pub proof fn successive_pages_show_the_head(
    all: Seq<InvitationView<Seq<char>>>,
    limit: int,
    fetches: Seq<Seq<InvitationView<Seq<char>>>>,
)
    requires
        is_listing(all),
        limit > 0,
        are_successive(all, limit, fetches),
    ensures
        joined(fetches, limit).is_prefix_of(all),
        fetches.len() > 0 && fetches.last().len() > limit ==> cuts_at(
            all,
            next_place(fetches.last(), limit),
            joined(fetches, limit).len() as int,
        ),
        fetches.len() > 0 && fetches.last().len() <= limit ==> joined(fetches, limit) == all,
    decreases fetches.len(),
{
    if fetches.len() > 0 {
        let earlier = fetches.drop_last();
        let last = fetches.len() - 1;
        let found = fetches[last];
        assert forall|i: int| 0 <= i < earlier.len() implies is_fetched(
            all,
            place_before(earlier, limit, i),
            limit,
            #[trigger] earlier[i],
        ) by {
            assert(earlier[i] == fetches[i]);
            assert(place_before(earlier, limit, i) == place_before(fetches, limit, i));
        }
        assert forall|i: int| 0 <= i < earlier.len() - 1 implies (#[trigger] earlier[i]).len()
            > limit by {
            assert(earlier[i] == fetches[i]);
        }
        successive_pages_show_the_head(all, limit, earlier);
        let before = joined(earlier, limit);
        let start = before.len() as int;
        let cursor = place_before(fetches, limit, last);
        assert(cuts_at(all, cursor, start)) by {
            if last == 0 {
                lists_start_at_their_head(all);
            } else {
                assert(fetches[last - 1].len() > limit);
                assert(earlier.last() == fetches[last - 1]);
            }
        }
        lemma_next_page(all, cursor, limit, before, found);
    }
}

/// Paging through a list shows everything once: once a page gives no cursor, the pages together
/// are the list.
pub proof fn pages_show_everything_once(
    all: Seq<InvitationView<Seq<char>>>,
    limit: int,
    fetches: Seq<Seq<InvitationView<Seq<char>>>>,
)
    requires
        is_listing(all),
        limit > 0,
        are_successive(all, limit, fetches),
        fetches.len() > 0,
        next_place(fetches.last(), limit) is None,
    ensures
        joined(fetches, limit) == all,
        joined(fetches, limit).no_duplicates(),
{
    successive_pages_show_the_head(all, limit, fetches);
    assert forall|i: int, j: int| 0 <= i < j < all.len() implies all[i] != all[j] by {
        assert(precedes(place(all[i]), place(all[j])));
    }
}

} // verus!
