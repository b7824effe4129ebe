use vstd::prelude::*;

use crate::query::ListQuery;

verus! {

/// A managed policy attached to a role, as the service describes it.
#[derive(Clone, Debug, PartialEq, Eq)]
pub struct AttachedPolicy {
    pub policy_name: Option<String>,
    pub policy_arn: Option<String>,
}

/// What the service answered to one request.
///
/// The list of policies may be absent from the answer: that is read as a role
/// with no attached policies.
#[derive(Clone, Debug, PartialEq, Eq)]
pub struct ListResponse {
    pub attached_policies: Option<Vec<AttachedPolicy>>,
    pub is_truncated: bool,
    pub marker: Option<String>,
}

/// A page of attached policies, as handed to the caller.
#[derive(Clone, Debug, PartialEq, Eq)]
pub struct Page {
    pub attached_policies: Vec<AttachedPolicy>,
    pub is_truncated: bool,
    pub marker: Option<String>,
}

/// Why an answer of the service does not have the expected shape.
#[derive(Debug, PartialEq, Eq, Structural)]
pub enum ResponseError {
    /// The page holds more entries than the query's cap allows.
    TooManyEntries,
    /// The entry at `index` lacks its name or its ARN, or has an empty one.
    IncompleteEntry { index: usize },
    /// The truncation flag and the presence of a marker disagree.
    InconsistentMarker,
    /// The entry at `index` has an ARN that an earlier page already listed.
    RepeatedEntry { index: usize },
}

/// The failure of one step of a walk over pages: the service's own error,
/// handed on unchanged, or an answer of the wrong shape.
#[derive(Debug)]
pub enum ListError<E> {
    Service(E),
    Malformed(ResponseError),
}

/// A field that is present and not empty.
pub open spec fn is_filled(field: Option<String>) -> bool {
    field matches Some(s) && s@.len() > 0
}

/// An entry with both a name and an ARN.
pub open spec fn is_complete(entry: AttachedPolicy) -> bool {
    is_filled(entry.policy_name) && is_filled(entry.policy_arn)
}

/// The entries of an answer; an absent list stands for no entries.
pub open spec fn listed(response: ListResponse) -> Seq<AttachedPolicy> {
    match response.attached_policies {
        Some(v) => v@,
        None => Seq::empty(),
    }
}

/// `n` entries respect the cap `max_items`, if there is one.
pub open spec fn within_cap(n: nat, max_items: Option<i32>) -> bool {
    match max_items {
        Some(m) => n <= m,
        None => true,
    }
}

/// More pages follow exactly when the page carries a marker.
pub open spec fn marker_agrees(is_truncated: bool, marker: Option<String>) -> bool {
    is_truncated <==> marker is Some
}

/// The answer has the shape that the query asks for.
pub open spec fn is_well_formed(query: ListQuery, response: ListResponse) -> bool {
    let s = listed(response);
    &&& within_cap(s.len(), query.max_items)
    &&& forall|i: int| 0 <= i < s.len() ==> #[trigger] is_complete(s[i])
    &&& marker_agrees(response.is_truncated, response.marker)
}

/// `error` is the first fault of the answer, the checks taken in the order:
/// the cap, each entry from the first, the marker.
pub open spec fn is_first_fault(
    query: ListQuery,
    response: ListResponse,
    error: ResponseError,
) -> bool {
    let s = listed(response);
    match error {
        ResponseError::TooManyEntries => !within_cap(s.len(), query.max_items),
        ResponseError::IncompleteEntry { index } => {
            &&& within_cap(s.len(), query.max_items)
            &&& index < s.len()
            &&& !is_complete(s[index as int])
            &&& forall|j: int| 0 <= j < index ==> #[trigger] is_complete(s[j])
        },
        ResponseError::InconsistentMarker => {
            &&& within_cap(s.len(), query.max_items)
            &&& forall|i: int| 0 <= i < s.len() ==> #[trigger] is_complete(s[i])
            &&& !marker_agrees(response.is_truncated, response.marker)
        },
        ResponseError::RepeatedEntry { .. } => false,
    }
}

/// `page` is the answer handed on unmodified.
pub open spec fn is_page_of(page: Page, response: ListResponse) -> bool {
    &&& page.attached_policies@ == listed(response)
    &&& page.is_truncated == response.is_truncated
    &&& page.marker == response.marker
}

fn is_filled_field(field: &Option<String>) -> (r: bool)
    ensures
        r == is_filled(*field),
{
    match field {
        Some(s) => s.as_str().unicode_len() > 0,
        None => false,
    }
}

/// Checks an answer of the service against the query that asked for it, for
/// a caller that wants to rely on its shape, and hands it on unmodified where
/// it has that shape: at most `max_items` entries, each with a name and an
/// ARN, and a marker exactly when the page is truncated. An absent list gives
/// an empty page. A cap below zero is met by no page.
pub fn accept_response(query: &ListQuery, response: ListResponse) -> (r: Result<
    Page,
    ResponseError,
>)
    ensures
        r is Ok <==> is_well_formed(*query, response),
        r matches Ok(page) ==> is_page_of(page, response),
        r matches Err(e) ==> is_first_fault(*query, response, e),
{
    let ghost resp = response;
    let ListResponse { attached_policies, is_truncated, marker } = response;
    let entries = match attached_policies {
        Some(v) => v,
        None => Vec::new(),
    };
    assert(entries@ == listed(resp));
    let n = entries.len();
    match query.max_items {
        Some(m) => {
            if m < 0 || n > m as usize {
                return Err(ResponseError::TooManyEntries);
            }
        },
        None => {},
    }
    assert(within_cap(n as nat, query.max_items));
    let mut i: usize = 0;
    while i < n
        invariant
            n == entries@.len(),
            entries@ == listed(resp),
            resp == response,
            within_cap(n as nat, query.max_items),
            i <= n,
            forall|j: int| 0 <= j < i ==> #[trigger] is_complete(entries@[j]),
        decreases n - i,
    {
        let entry = &entries[i];
        if !is_filled_field(&entry.policy_name) || !is_filled_field(&entry.policy_arn) {
            assert(!is_complete(listed(resp)[i as int]));
            return Err(ResponseError::IncompleteEntry { index: i });
        }
        i = i + 1;
    }
    let has_marker = marker.is_some();
    if is_truncated != has_marker {
        return Err(ResponseError::InconsistentMarker);
    }
    Ok(Page { attached_policies: entries, is_truncated, marker })
}

/// The page that hands `response` on unmodified; an absent list of policies
/// gives an empty one.
pub fn page_of(response: ListResponse) -> (r: Page)
    ensures
        is_page_of(r, response),
{
    let ListResponse { attached_policies, is_truncated, marker } = response;
    let entries = match attached_policies {
        Some(v) => v,
        None => Vec::new(),
    };
    Page { attached_policies: entries, is_truncated, marker }
}

/// Completes one listing from the outcome of the service call. An answer is
/// handed on unmodified as a page, whatever it holds; a failure of the call is
/// handed on unchanged and never carries a partial list. Checking the shape
/// of the answer is left to the caller, through `accept_response`.
pub fn complete_listing<E>(outcome: Result<ListResponse, E>) -> (r: Result<Page, E>)
    ensures
        outcome matches Err(e) ==> r == Err::<Page, E>(e),
        outcome matches Ok(response) ==> (r matches Ok(page) && is_page_of(page, response)),
{
    match outcome {
        Err(e) => Err(e),
        Ok(response) => Ok(page_of(response)),
    }
}

/// A page that `accept_response` hands on never holds more entries than the
/// query's cap, each of its entries has a non-empty name and ARN, and it is
/// truncated exactly when it carries a marker for the next page.
pub proof fn lemma_accepted_page_respects_query(
    query: ListQuery,
    response: ListResponse,
    page: Page,
)
    requires
        is_well_formed(query, response),
        is_page_of(page, response),
    ensures
        query.max_items matches Some(m) ==> page.attached_policies@.len() <= m,
        forall|i: int|
            0 <= i < page.attached_policies@.len() ==> {
                &&& is_filled(#[trigger] page.attached_policies@[i].policy_name)
                &&& is_filled(page.attached_policies@[i].policy_arn)
            },
        page.is_truncated <==> page.marker is Some,
{
    assert forall|i: int| 0 <= i < page.attached_policies@.len() implies {
        &&& is_filled(#[trigger] page.attached_policies@[i].policy_name)
        &&& is_filled(page.attached_policies@[i].policy_arn)
    } by {
        assert(is_complete(listed(response)[i]));
    }
}

/// A role with no attached policies, whether the answer lists none or leaves
/// the list out, yields a page with an empty list, not a failure, and the
/// page keeps the answer's truncation flag and marker.
pub proof fn lemma_no_policies_gives_empty_page(response: ListResponse, page: Page)
    requires
        listed(response).len() == 0,
        is_page_of(page, response),
    ensures
        page.attached_policies@.len() == 0,
        page.is_truncated == response.is_truncated,
        page.marker == response.marker,
{
}

} // verus!
