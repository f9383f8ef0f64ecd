//! A request's header pairs, looked up by exact name, the pair
//! inserted last winning.

use vstd::prelude::*;
use crate::url_utils::lookup_pairs;
use crate::url_utils::pair_views;
use crate::url_utils::pairs_map;

verus! {

pub struct HttpHeaders {
    data: Vec<(String, String)>,
}

impl HttpHeaders {
    /// The name-to-value map these headers hold, later pairs
    /// overwriting earlier ones.
    pub closed spec fn map_view(&self) -> Map<Seq<char>, Seq<char>> {
        pairs_map(pair_views(self.data@))
    }

    pub fn new(data: Vec<(String, String)>) -> (r: Self)
        ensures
            r.map_view() == pairs_map(pair_views(data@)),
    {
        Self { data }
    }

    pub fn get(&self, header_name: &str) -> (r: Option<&String>)
        ensures
            match r {
                Some(v) => self.map_view().contains_key(header_name@) && v@ == self.map_view()[
                    header_name@
                ],
                None => !self.map_view().contains_key(header_name@),
            },
    {
        lookup_pairs(&self.data, header_name)
    }
}

} // verus!
