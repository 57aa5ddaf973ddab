//! The record of a point of interest that callers see.

use crate::tags::{find_first, first_value, lemma_lookup_keeps_first, lemma_mapping_of_push, mapping_of, option_text, pair_views, KvPair, TagMap};
use crate::text::text_pairs;
use vstd::prelude::*;

verus! {

/// A point of interest: where it is, and its tags as they were given.
///
/// `N` is the type of a latitude or longitude. The tags keep their order, and
/// a key may occur more than once among them.
#[derive(Debug, Clone)]
pub struct PointOfInterest<N> {
    pub lat: N,
    pub lng: N,
    pub tags: Vec<KvPair>,
}

impl<N> PointOfInterest<N> {
    /// A point of interest at `lat` and `lng` with the given tags, in their
    /// order.
    pub fn new(lat: N, lng: N, tags: Vec<(String, String)>) -> (poi: Self)
        ensures
            poi.lat == lat,
            poi.lng == lng,
            pair_views(poi.tags@) == text_pairs(tags@),
    {
        let mut pairs: Vec<KvPair> = Vec::new();
        let mut i: usize = 0;
        while i < tags.len()
            invariant
                i <= tags.len(),
                pair_views(pairs@) == text_pairs(tags@.take(i as int)),
            decreases tags.len() - i,
        {
            let key = tags[i].0.clone();
            let value = tags[i].1.clone();
            proof {
                assert(tags@.take(i + 1) =~= tags@.take(i as int).push(tags[i as int]));
                assert(text_pairs(tags@.take(i + 1)) =~= text_pairs(tags@.take(i as int)).push(
                    (key@, value@),
                ));
                assert(pair_views(pairs@.push(KvPair { key, value })) =~= pair_views(pairs@).push(
                    (key@, value@),
                ));
            }
            pairs.push(KvPair { key, value });
            i += 1;
        }
        assert(tags@.take(i as int) =~= tags@);
        PointOfInterest { lat, lng, tags: pairs }
    }

    /// The tags as a mapping. Of several tags with one key, the last gives
    /// the key's value.
    pub fn tags(&self) -> (map: TagMap)
        ensures
            map@ == mapping_of(pair_views(self.tags@)),
    {
        let mut map = TagMap::new();
        let mut i: usize = 0;
        assert(mapping_of(pair_views(self.tags@).take(0)) =~= Map::empty());
        while i < self.tags.len()
            invariant
                i <= self.tags.len(),
                map@ == mapping_of(pair_views(self.tags@).take(i as int)),
            decreases self.tags.len() - i,
        {
            let key = self.tags[i].key.clone();
            let value = self.tags[i].value.clone();
            proof {
                let pairs = pair_views(self.tags@);
                assert(pairs.take(i + 1) =~= pairs.take(i as int).push((key@, value@)));
                lemma_mapping_of_push(pairs.take(i as int), key@, value@);
            }
            map = map.with_tag(key, value);
            i += 1;
        }
        assert(pair_views(self.tags@).take(i as int) =~= pair_views(self.tags@));
        map
    }

    /// The value of the first tag with the key `key`, if there is one.
    pub fn tag(&self, key: &str) -> (value: Option<String>)
        ensures
            option_text(value) == first_value(pair_views(self.tags@), key@),
    {
        match find_first(&self.tags, key) {
            Some(at) => {
                proof {
                    lemma_lookup_keeps_first(pair_views(self.tags@), at as int);
                }
                Some(self.tags[at].value.clone())
            },
            None => None,
        }
    }
}

} // verus!
