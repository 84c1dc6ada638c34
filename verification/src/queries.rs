//! What is read from the store: single invitations, and lists of them.

use crate::cursor::{
    are_successive, cursors_cut_lists_once, heads_are_the_first, is_fetched, is_head, is_listed,
    is_listing, joined, next_place, pages_show_everything_once, place, place_before,
    places_are_stored_whole, precedes, InvitationCursor,
};
use crate::lifecycle::{invitation_label, labels_differ};
use crate::operations::labels_are_not_identifiers;
use crate::records::{seen, InvitationRecord, InvitationState, InvitationView};
use crate::tables::Tables;
use crate::uuids::{uuid_round_trip, uuid_text, uuid_value};
use crate::validation::is_invitation_label;
use vstd::prelude::*;

verus! {

/// A reference names an invitation: by its identifier, or by its label.
pub open spec fn names(reference: Seq<char>, record: InvitationRecord<Seq<char>>) -> bool {
    uuid_value(reference) == Some(record.invitation_id) || record.identifier == reference
}

proof fn lemma_labels_are_labels(tables: Tables, id: u128)
    requires
        tables.is_consistent(),
        tables.invitations.contains_key(id),
    ensures
        is_invitation_label(tables.invitations[id].identifier),
        uuid_value(tables.invitations[id].identifier) is None,
{
    let record = tables.invitations[id];
    let number = choose|number: i64|
        0 < number < tables.next_number(record.organization_id) && record.identifier
            == #[trigger] invitation_label(number);
    labels_differ(number, number);
    labels_are_not_identifiers(record.identifier);
}

/// An invitation is found in its organization by the text of its identifier and by its label.
pub proof fn invitations_are_found_by_identifier_and_label(tables: Tables, id: u128)
    requires
        tables.is_consistent(),
        tables.invitations.contains_key(id),
    ensures
        ({
            let record = tables.invitations[id];
            let organization = record.organization_id;
            &&& tables.find(organization, id) == Some(record)
            &&& tables.find_by_label(organization, record.identifier) == Some(record)
            &&& tables.find_by_reference(organization, uuid_text(id)) == Some(record)
            &&& tables.find_by_reference(organization, record.identifier) == Some(record)
        }),
{
    let record = tables.invitations[id];
    uuid_round_trip(id);
    lemma_labels_are_labels(tables, id);
    assert(tables.is_labelled(id, record.organization_id, record.identifier));
    let found = choose|found: u128|
        tables.is_labelled(found, record.organization_id, record.identifier);
    assert(tables.is_labelled(found, record.organization_id, record.identifier));
    assert(found == id);
}

/// A reference finds exactly the invitation of the organization that it names. One that names
/// nothing there finds nothing, whatever it names in another organization.
pub proof fn references_find_what_they_name(
    tables: Tables,
    organization_id: Seq<char>,
    reference: Seq<char>,
    id: u128,
)
    requires
        tables.is_consistent(),
        tables.invitations.contains_key(id),
    ensures
        tables.find_by_reference(organization_id, reference) == Some(tables.invitations[id])
            <==> tables.invitations[id].organization_id == organization_id && names(
            reference,
            tables.invitations[id],
        ),
{
    let record = tables.invitations[id];
    lemma_labels_are_labels(tables, id);
    if record.organization_id == organization_id && names(reference, record) {
        invitations_are_found_by_identifier_and_label(tables, id);
    }
    if tables.find_by_reference(organization_id, reference) == Some(record) && uuid_value(
        reference,
    ) is None {
        let found = choose|found: u128| tables.is_labelled(found, organization_id, reference);
        assert(tables.is_labelled(found, organization_id, reference));
    }
}

/// What a reference finds is stored, is of the organization that was asked, and is named by the
/// reference.
pub proof fn organizations_see_their_own_invitations(
    tables: Tables,
    organization_id: Seq<char>,
    reference: Seq<char>,
)
    requires
        tables.is_consistent(),
    ensures
        tables.find_by_reference(organization_id, reference) matches Some(record) ==> {
            &&& tables.invitations.contains_key(record.invitation_id)
            &&& tables.invitations[record.invitation_id] == record
            &&& record.organization_id == organization_id
            &&& names(reference, record)
        },
{
    if uuid_value(reference) is None && tables.find_by_reference(
        organization_id,
        reference,
    ) is Some {
        let found = choose|found: u128| tables.is_labelled(found, organization_id, reference);
        assert(tables.is_labelled(found, organization_id, reference));
    }
}

/// What a list is asked for: the invitations of an organization, of one state or of any, and for
/// one address or for any.
#[verifier::ext_equal]
pub struct Filter {
    pub organization_id: Seq<char>,
    pub state: Option<InvitationState>,
    pub email_normalized: Option<Seq<char>>,
}

impl Filter {
    pub open spec fn admits(self, record: InvitationRecord<Seq<char>>) -> bool {
        &&& record.organization_id == self.organization_id
        &&& self.state matches Some(state) ==> record.state == state
        &&& self.email_normalized matches Some(email) ==> record.email_normalized == email
    }
}

impl Tables {
    /// The list of what a filter admits: in order, with each invitation as it is seen.
    pub open spec fn is_list_of(
        self,
        filter: Filter,
        all: Seq<InvitationView<Seq<char>>>,
    ) -> bool {
        &&& is_listing(all)
        &&& forall|i: int|
            0 <= i < all.len() ==> {
                let id = (#[trigger] all[i]).invitation_id;
                &&& self.invitations.contains_key(id)
                &&& filter.admits(self.invitations[id])
                &&& all[i] == seen(self.invitations[id])
            }
        &&& forall|id: u128| #[trigger]
            self.invitations.contains_key(id) && filter.admits(self.invitations[id])
                ==> all.contains(seen(self.invitations[id]))
    }
}

/// Paging through a list shows every invitation that the filter admits exactly once, and nothing
/// else: two places of the pages never show the same invitation.
pub proof fn pages_show_what_the_filter_admits(
    tables: Tables,
    filter: Filter,
    all: Seq<InvitationView<Seq<char>>>,
    limit: int,
    fetches: Seq<Seq<InvitationView<Seq<char>>>>,
)
    requires
        tables.is_consistent(),
        tables.is_list_of(filter, all),
        limit > 0,
        are_successive(all, limit, fetches),
        fetches.len() > 0,
        next_place(fetches.last(), limit) is None,
    ensures
        forall|id: u128| #[trigger]
            tables.invitations.contains_key(id) && filter.admits(tables.invitations[id])
                ==> joined(fetches, limit).contains(seen(tables.invitations[id])),
        forall|i: int|
            0 <= i < joined(fetches, limit).len() ==> {
                let id = (#[trigger] joined(fetches, limit)[i]).invitation_id;
                &&& tables.invitations.contains_key(id)
                &&& filter.admits(tables.invitations[id])
                &&& joined(fetches, limit)[i] == seen(tables.invitations[id])
            },
        forall|i: int, j: int|
            0 <= i < j < joined(fetches, limit).len() ==> (#[trigger] joined(
                fetches,
                limit,
            )[i]).invitation_id != (#[trigger] joined(fetches, limit)[j]).invitation_id,
{
    pages_show_everything_once(all, limit, fetches);
    assert forall|i: int, j: int| 0 <= i < j < all.len() implies (
    #[trigger] all[i]).invitation_id != (#[trigger] all[j]).invitation_id by {
        assert(precedes(place(all[i]), place(all[j])));
        assert(tables.invitations.contains_key(all[i].invitation_id));
        assert(tables.invitations.contains_key(all[j].invitation_id));
    }
}

/// What the query for a page gives: of the invitations that the filter admits and that are listed
/// for the cursor the first ones, in order, at most `limit`.
pub open spec fn is_query_result(
    tables: Tables,
    filter: Filter,
    cursor: Option<InvitationCursor>,
    limit: int,
    found: Seq<InvitationView<Seq<char>>>,
) -> bool {
    &&& is_listing(found)
    &&& forall|i: int|
        0 <= i < found.len() ==> {
            let id = (#[trigger] found[i]).invitation_id;
            &&& tables.invitations.contains_key(id)
            &&& filter.admits(tables.invitations[id])
            &&& found[i] == seen(tables.invitations[id])
            &&& is_listed(found[i], cursor)
        }
    &&& found.len() <= limit
    &&& forall|id: u128| #[trigger]
        tables.invitations.contains_key(id) && filter.admits(tables.invitations[id]) && is_listed(
            seen(tables.invitations[id]),
            cursor,
        ) && !found.contains(seen(tables.invitations[id])) ==> {
            &&& found.len() == limit
            &&& forall|i: int|
                0 <= i < found.len() ==> precedes(
                    place(#[trigger] found[i]),
                    place(seen(tables.invitations[id])),
                )
        }
}

/// What the query for a page gives, one more than the page holds, is what is fetched of the list.
#[verifier::rlimit(30)]
pub proof fn query_results_are_fetched(
    tables: Tables,
    filter: Filter,
    all: Seq<InvitationView<Seq<char>>>,
    cursor: Option<InvitationCursor>,
    limit: int,
    found: Seq<InvitationView<Seq<char>>>,
)
    requires
        tables.is_consistent(),
        tables.is_list_of(filter, all),
        limit >= 0,
        is_query_result(tables, filter, cursor, limit + 1, found),
    ensures
        is_fetched(all, cursor, limit, found),
{
    let cut = cursors_cut_lists_once(all, cursor);
    let rest = all.skip(cut);
    assert(is_listing(rest)) by {
        assert forall|i: int, j: int| 0 <= i < j < rest.len() implies precedes(
            place(rest[i]),
            place(rest[j]),
        ) by {
            assert(precedes(place(all[cut + i]), place(all[cut + j])));
        }
    }
    assert forall|i: int| 0 <= i < found.len() implies rest.contains(#[trigger] found[i]) by {
        let id = found[i].invitation_id;
        assert(tables.invitations.contains_key(id));
        assert(all.contains(seen(tables.invitations[id])));
        let k = choose|k: int| 0 <= k < all.len() && all[k] == found[i];
        if k < cut {
            assert(!is_listed(all[k], cursor));
        }
        assert(rest[k - cut] == found[i]);
    }
    assert forall|k: int| 0 <= k < rest.len() && !found.contains(#[trigger] rest[k]) implies {
        &&& found.len() == limit + 1
        &&& forall|i: int|
            0 <= i < found.len() ==> precedes(place(#[trigger] found[i]), place(rest[k]))
    } by {
        let view = all[cut + k];
        assert(is_listed(view, cursor));
        assert(tables.invitations.contains_key(view.invitation_id));
    }
    assert(is_head(rest, limit + 1, found));
    heads_are_the_first(rest, limit + 1, found);
    assert(found =~= all.subrange(
        cut,
        if cut + limit + 1 <= all.len() {
            cut + limit + 1
        } else {
            all.len() as int
        },
    ));
}

/// Of the invitations with given identifiers there is a list.
#[verifier::rlimit(30)]
proof fn lemma_list_of(tables: Tables, ids: Set<u128>) -> (all: Seq<InvitationView<Seq<char>>>)
    requires
        tables.is_consistent(),
        ids.finite(),
        ids.subset_of(tables.invitations.dom()),
    ensures
        is_listing(all),
        forall|i: int|
            0 <= i < all.len() ==> ids.contains((#[trigger] all[i]).invitation_id) && all[i] == seen(
                tables.invitations[all[i].invitation_id],
            ),
        forall|id: u128| #[trigger] ids.contains(id) ==> all.contains(seen(tables.invitations[id])),
    decreases ids.len(),
{
    if ids.len() == 0 {
        assert(ids =~= Set::empty());
        Seq::empty()
    } else {
        let id = ids.choose();
        let fewer = ids.remove(id);
        let rest = lemma_list_of(tables, fewer);
        assert(tables.invitations.contains_key(id));
        let view = seen(tables.invitations[id]);
        places_are_stored_whole(view);
        let cut = cursors_cut_lists_once(rest, Some(place(view)));
        let all = rest.take(cut).push(view) + rest.skip(cut);
        assert forall|i: int| 0 <= i < all.len() implies #[trigger] all[i] == if i < cut {
            rest[i]
        } else if i == cut {
            view
        } else {
            rest[i - 1]
        } by {}
        assert forall|i: int| 0 <= i < rest.len() implies if i < cut {
            precedes(place(#[trigger] rest[i]), place(view))
        } else {
            precedes(place(view), place(rest[i]))
        } by {
            assert(fewer.contains(rest[i].invitation_id));
            assert(tables.invitations.contains_key(rest[i].invitation_id));
            if i < cut {
                assert(!is_listed(rest[i], Some(place(view))));
            } else {
                assert(is_listed(rest[i], Some(place(view))));
            }
        }
        assert forall|i: int, j: int| 0 <= i < j < all.len() implies precedes(
            place(all[i]),
            place(all[j]),
        ) by {
            let left = if i < cut {
                i
            } else {
                i - 1
            };
            let right = if j < cut {
                j
            } else {
                j - 1
            };
            if i != cut && j != cut {
                assert(precedes(place(rest[left]), place(rest[right])));
            }
        }
        assert forall|i: int| 0 <= i < all.len() implies ids.contains(
            (#[trigger] all[i]).invitation_id,
        ) && all[i] == seen(tables.invitations[all[i].invitation_id]) by {
            if i < cut {
                assert(fewer.contains(rest[i].invitation_id));
            } else if i > cut {
                assert(fewer.contains(rest[i - 1].invitation_id));
            }
        }
        assert forall|other: u128| #[trigger] ids.contains(other) implies all.contains(
            seen(tables.invitations[other]),
        ) by {
            if other == id {
                assert(all[cut] == view);
            } else {
                assert(fewer.contains(other));
                let k = choose|k: int|
                    0 <= k < rest.len() && rest[k] == seen(tables.invitations[other]);
                if k < cut {
                    assert(all[k] == rest[k]);
                } else {
                    assert(all[k + 1] == rest[k]);
                }
            }
        }
        all
    }
}

/// Every filter has a list in a store of finitely many invitations.
pub proof fn filters_have_lists(tables: Tables, filter: Filter) -> (all: Seq<
    InvitationView<Seq<char>>,
>)
    requires
        tables.is_consistent(),
        tables.invitations.dom().finite(),
    ensures
        tables.is_list_of(filter, all),
{
    let ids = tables.invitations.dom().filter(|id: u128| filter.admits(tables.invitations[id]));
    tables.invitations.dom().lemma_len_filter(
        |id: u128| filter.admits(tables.invitations[id]),
    );
    let all = lemma_list_of(tables, ids);
    assert forall|i: int| 0 <= i < all.len() implies {
        let id = (#[trigger] all[i]).invitation_id;
        &&& tables.invitations.contains_key(id)
        &&& filter.admits(tables.invitations[id])
        &&& all[i] == seen(tables.invitations[id])
    } by {
        assert(ids.contains(all[i].invitation_id));
    }
    assert forall|id: u128| #[trigger]
        tables.invitations.contains_key(id) && filter.admits(
            tables.invitations[id],
        ) implies all.contains(seen(tables.invitations[id])) by {
        assert(ids.contains(id));
    }
    all
}

/// Queries that are made one behind the other, each with the cursor of the page before it, until a
/// page gives none, page through the list of the filter: together the pages are that list, with
/// every invitation that the filter admits once.
pub proof fn queries_page_through_the_list(
    tables: Tables,
    filter: Filter,
    limit: int,
    fetches: Seq<Seq<InvitationView<Seq<char>>>>,
)
    requires
        tables.is_consistent(),
        tables.invitations.dom().finite(),
        limit > 0,
        fetches.len() > 0,
        forall|i: int|
            0 <= i < fetches.len() ==> is_query_result(
                tables,
                filter,
                place_before(fetches, limit, i),
                limit + 1,
                #[trigger] fetches[i],
            ),
        forall|i: int|
            0 <= i < fetches.len() - 1 ==> next_place(#[trigger] fetches[i], limit) is Some,
        next_place(fetches.last(), limit) is None,
    ensures
        tables.is_list_of(filter, joined(fetches, limit)),
        joined(fetches, limit).no_duplicates(),
{
    let all = filters_have_lists(tables, filter);
    assert forall|i: int| 0 <= i < fetches.len() implies is_fetched(
        all,
        place_before(fetches, limit, i),
        limit,
        #[trigger] fetches[i],
    ) by {
        query_results_are_fetched(
            tables,
            filter,
            all,
            place_before(fetches, limit, i),
            limit,
            fetches[i],
        );
    }
    pages_show_everything_once(all, limit, fetches);
}

} // verus!
