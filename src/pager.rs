use vstd::prelude::*;

use crate::page::{
    accept_response, is_complete, is_first_fault, is_page_of, is_well_formed, listed,
    AttachedPolicy, ListError, ListResponse, Page, ResponseError,
};
use crate::query::ListQuery;

verus! {

/// The ARN of an entry, or the empty text where it has none.
pub open spec fn arn_of(entry: AttachedPolicy) -> Seq<char> {
    match entry.policy_arn {
        Some(a) => a@,
        None => Seq::empty(),
    }
}

/// The ARNs of a run of entries, in order.
pub open spec fn arns_of(entries: Seq<AttachedPolicy>) -> Seq<Seq<char>> {
    entries.map_values(|e: AttachedPolicy| arn_of(e))
}

/// The texts of a run of strings, in order.
pub open spec fn texts_of(v: Seq<String>) -> Seq<Seq<char>> {
    v.map_values(|s: String| s@)
}

/// `arn` is among `seen`.
pub open spec fn is_seen(seen: Seq<String>, arn: Seq<char>) -> bool {
    exists|j: int| 0 <= j < seen.len() && (#[trigger] seen[j])@ == arn
}

/// No entry of `entries` has an ARN among `seen`.
pub open spec fn is_fresh(seen: Seq<String>, entries: Seq<AttachedPolicy>) -> bool {
    forall|i: int| 0 <= i < entries.len() ==> !is_seen(seen, arn_of(#[trigger] entries[i]))
}

/// Walks the pages of one listing: each request after the first resumes at
/// the marker of the page before, and a page that lists an ARN of an earlier
/// page is refused.
#[derive(Debug)]
pub struct Pager {
    /// The query for the next page, or `None` once the last page came.
    pub next: Option<ListQuery>,
    /// The ARNs of the pages accepted so far, in order.
    pub seen: Vec<String>,
}

fn holds_arn(seen: &Vec<String>, arn: &String) -> (r: bool)
    ensures
        r == is_seen(seen@, arn@),
{
    let mut j: usize = 0;
    while j < seen.len()
        invariant
            j <= seen@.len(),
            forall|k: int| 0 <= k < j ==> (#[trigger] seen@[k])@ != arn@,
        decreases seen@.len() - j,
    {
        if seen[j] == *arn {
            return true;
        }
        j = j + 1;
    }
    false
}

impl Pager {
    /// A walk that starts with `query`, with nothing seen yet.
    pub fn new(query: ListQuery) -> (r: Pager)
        ensures
            r.next == Some(query),
            r.seen@.len() == 0,
    {
        Pager { next: Some(query), seen: Vec::new() }
    }

    /// Whether the last page has come.
    pub fn is_done(&self) -> (r: bool)
        ensures
            r == (self.next is None),
    {
        self.next.is_none()
    }

    /// Takes the outcome of the request for `next`. A walk relies on the shape
    /// of each page, so an answer goes through `accept_response` first. A
    /// failure or a malformed page leaves the walk as it was, so that the same request can be made
    /// again. An accepted page is handed on unmodified, its ARNs are added to
    /// `seen`, and `next` moves on to the page's marker, or to `None` after
    /// the last page.
    pub fn receive<E>(&mut self, outcome: Result<ListResponse, E>) -> (r: Result<
        Page,
        ListError<E>,
    >)
        requires
            old(self).next is Some,
        ensures
            r is Err ==> *final(self) == *old(self),
            outcome matches Err(e) ==> r == Err::<Page, ListError<E>>(ListError::Service(e)),
            outcome matches Ok(response) ==> {
                let query = old(self).next->0;
                let s = listed(response);
                &&& !(r matches Err(ListError::Service(_)))
                &&& !is_well_formed(query, response) ==> (r matches Err(ListError::Malformed(e))
                    && is_first_fault(query, response, e))
                &&& is_well_formed(query, response) ==> {
                    &&& r is Ok <==> is_fresh(old(self).seen@, s)
                    &&& r matches Err(ListError::Malformed(e)) ==> (e matches ResponseError::RepeatedEntry { index }
                        && index < s.len() && is_seen(old(self).seen@, arn_of(s[index as int]))
                        && is_fresh(old(self).seen@, s.take(index as int)))
                }
                &&& r matches Ok(page) ==> {
                    &&& is_page_of(page, response)
                    &&& texts_of(final(self).seen@) == texts_of(old(self).seen@) + arns_of(s)
                    &&& final(self).next is Some <==> response.is_truncated
                    &&& final(self).next matches Some(q) ==> {
                        &&& q.role_name == query.role_name
                        &&& q.path_prefix == query.path_prefix
                        &&& q.marker == response.marker
                        &&& q.max_items == query.max_items
                    }
                }
            },
    {
        let ghost out = outcome;
        let result = match &self.next {
            Some(query) => match outcome {
                Err(e) => Err(ListError::Service(e)),
                Ok(response) => match accept_response(query, response) {
                    Ok(page) => Ok(page),
                    Err(e) => Err(ListError::Malformed(e)),
                },
            },
            None => {
                return Err(ListError::Malformed(ResponseError::InconsistentMarker));
            },
        };
        let page = match result {
            Ok(page) => page,
            Err(e) => {
                return Err(e);
            },
        };
        let ghost query = old(self).next->0;
        let ghost s = listed(out->Ok_0);
        assert(page.attached_policies@ == s);
        let n = page.attached_policies.len();
        let mut i: usize = 0;
        while i < n
            invariant
                *self == *old(self),
                out is Ok,
                out == outcome,
                query == old(self).next->0,
                is_well_formed(query, out->Ok_0),
                is_page_of(page, out->Ok_0),
                s == listed(out->Ok_0),
                n == s.len(),
                i <= n,
                is_fresh(self.seen@, s.take(i as int)),
            decreases n - i,
        {
            assert(is_complete(s[i as int]));
            let fresh = match &page.attached_policies[i].policy_arn {
                Some(a) => !holds_arn(&self.seen, a),
                None => true,
            };
            if !fresh {
                assert(is_seen(self.seen@, arn_of(s[i as int])));
                assert(!is_fresh(self.seen@, s));
                return Err(ListError::Malformed(ResponseError::RepeatedEntry { index: i }));
            }
            assert(s.take(i + 1) == s.take(i as int).push(s[i as int]));
            i = i + 1;
        }
        assert(s.take(n as int) == s);
        let next = match &self.next {
            Some(query) => query.next_page(&page),
            None => None,
        };
        let mut k: usize = 0;
        while k < n
            invariant
                self.next == old(self).next,
                out is Ok,
                out == outcome,
                query == old(self).next->0,
                is_well_formed(query, out->Ok_0),
                is_page_of(page, out->Ok_0),
                s == listed(out->Ok_0),
                n == s.len(),
                k <= n,
                texts_of(self.seen@) == texts_of(old(self).seen@) + arns_of(s.take(k as int)),
            decreases n - k,
        {
            assert(is_complete(s[k as int]));
            let ghost before = self.seen@;
            match &page.attached_policies[k].policy_arn {
                Some(a) => self.seen.push(a.clone()),
                None => {},
            }
            assert(texts_of(self.seen@) == texts_of(before).push(arn_of(s[k as int])));
            assert(arns_of(s.take(k + 1)) == arns_of(s.take(k as int)).push(arn_of(s[k as int])));
            k = k + 1;
        }
        self.next = next;
        Ok(page)
    }
}

/// Two pages accepted one after the other by a `Pager` share no ARN: where
/// `seen` is what the walk held after the first page, whose entries are
/// `first`, and the second page, `second`, was accepted against `seen`, no
/// entry of `second` has the ARN of an entry of `first`.
pub proof fn lemma_consecutive_pages_are_disjoint(
    earlier: Seq<String>,
    seen: Seq<String>,
    first: Seq<AttachedPolicy>,
    second: Seq<AttachedPolicy>,
)
    requires
        texts_of(seen) == texts_of(earlier) + arns_of(first),
        is_fresh(seen, second),
    ensures
        forall|i: int, j: int|
            0 <= i < first.len() && 0 <= j < second.len() ==> arn_of(#[trigger] first[i])
                != arn_of(#[trigger] second[j]),
{
    assert forall|i: int, j: int|
        0 <= i < first.len() && 0 <= j < second.len() implies arn_of(#[trigger] first[i])
        != arn_of(#[trigger] second[j]) by {
        let k = earlier.len() + i;
        assert(texts_of(seen).len() == seen.len());
        assert(texts_of(earlier).len() == earlier.len());
        assert(arns_of(first).len() == first.len());
        assert(texts_of(seen)[k] == seen[k]@);
        assert(texts_of(seen)[k] == arns_of(first)[i]);
        assert(seen[k]@ == arn_of(first[i]));
        assert(!is_seen(seen, arn_of(second[j])));
    }
}

} // verus!
