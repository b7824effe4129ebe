use vstd::prelude::*;

use crate::page::Page;

verus! {

/// The parameters of one request for the managed policies attached to a role.
///
/// An optional parameter left as `None` is omitted from the request; it is
/// never sent as an empty string or a zero.
#[derive(Clone, Debug, PartialEq, Eq)]
pub struct ListQuery {
    /// The role whose attached policies are listed.
    pub role_name: String,
    /// Only policies whose path starts with this prefix are listed.
    pub path_prefix: Option<String>,
    /// The cursor that a previous, truncated page handed out.
    pub marker: Option<String>,
    /// The largest number of entries that one page may hold.
    pub max_items: Option<i32>,
}

impl ListQuery {
    /// A query for the first page of the role's policies, with every optional
    /// parameter omitted.
    pub fn new(role_name: String) -> (r: ListQuery)
        ensures
            r.role_name == role_name,
            r.path_prefix is None,
            r.marker is None,
            r.max_items is None,
    {
        ListQuery { role_name, path_prefix: None, marker: None, max_items: None }
    }

    /// The same query, restricted to policies under `prefix`.
    pub fn with_path_prefix(self, prefix: String) -> (r: ListQuery)
        ensures
            r.role_name == self.role_name,
            r.path_prefix == Some(prefix),
            r.marker == self.marker,
            r.max_items == self.max_items,
    {
        ListQuery { path_prefix: Some(prefix), ..self }
    }

    /// The same query, resumed at `marker`.
    pub fn with_marker(self, marker: String) -> (r: ListQuery)
        ensures
            r.role_name == self.role_name,
            r.path_prefix == self.path_prefix,
            r.marker == Some(marker),
            r.max_items == self.max_items,
    {
        ListQuery { marker: Some(marker), ..self }
    }

    /// The same query, with pages capped at `max_items` entries.
    pub fn with_max_items(self, max_items: i32) -> (r: ListQuery)
        ensures
            r.role_name == self.role_name,
            r.path_prefix == self.path_prefix,
            r.marker == self.marker,
            r.max_items == Some(max_items),
    {
        ListQuery { max_items: Some(max_items), ..self }
    }

    /// The query for the page that follows `page`: the same parameters with
    /// the page's marker, or `None` where `page` is the last one.
    pub fn next_page(&self, page: &Page) -> (r: Option<ListQuery>)
        ensures
            r is Some <==> (page.is_truncated && page.marker is Some),
            r matches Some(q) ==> {
                &&& q.role_name == self.role_name
                &&& q.path_prefix == self.path_prefix
                &&& q.marker == page.marker
                &&& q.max_items == self.max_items
            },
    {
        if !page.is_truncated {
            return None;
        }
        match &page.marker {
            Some(m) => {
                let path_prefix = match &self.path_prefix {
                    Some(p) => Some(p.clone()),
                    None => None,
                };
                Some(
                    ListQuery {
                        role_name: self.role_name.clone(),
                        path_prefix,
                        marker: Some(m.clone()),
                        max_items: self.max_items,
                    },
                )
            },
            None => None,
        }
    }
}

} // verus!
