//! From a tile feature to a point of interest that is worth indexing.

use crate::geometry::{geometry_projected, transform_tile_geometry, Geometry};
use crate::tags::{first_value, has_key, option_text, pair_views, KvPair, TagMap};
use crate::text::{contains_run, contains_text, same_text, text_pairs, texts};
use vstd::prelude::*;

verus! {

/// A point of interest taken from one tile feature.
#[derive(Debug, Clone)]
pub struct InputPoi {
    pub names: Vec<String>,
    pub house_number: Option<String>,
    pub road: Option<String>,
    pub unit: Option<String>,
    /// Administrative areas. Nothing fills them yet.
    pub admins: Vec<String>,
    /// The leaf cell of the feature's centroid.
    pub s2cell: u64,
    /// The feature's tags as they were.
    pub tags: Vec<(String, String)>,
    pub languages: Vec<String>,
}

/// What an `InputPoi` holds, as sequences of characters.
pub struct InputPoiView {
    pub names: Seq<Seq<char>>,
    pub house_number: Option<Seq<char>>,
    pub road: Option<Seq<char>>,
    pub unit: Option<Seq<char>>,
    pub admins: Seq<Seq<char>>,
    pub s2cell: u64,
    pub tags: Seq<(Seq<char>, Seq<char>)>,
    pub languages: Seq<Seq<char>>,
}

impl View for InputPoi {
    type V = InputPoiView;

    open spec fn view(&self) -> InputPoiView {
        InputPoiView {
            names: texts(self.names@),
            house_number: option_text(self.house_number),
            road: option_text(self.road),
            unit: option_text(self.unit),
            admins: texts(self.admins@),
            s2cell: self.s2cell,
            tags: text_pairs(self.tags@),
            languages: texts(self.languages@),
        }
    }
}

/// Whether a tag with this key names the feature: the key is `name`, or
/// `name:` stands somewhere in it, as it does in `name:en` and in
/// `official_name:en`.
pub open spec fn is_name_key(key: Seq<char>) -> bool {
    key == "name"@ || contains_run(key, "name:"@)
}

/// The values of the entries whose key names the feature, in their order.
pub open spec fn names_in(entries: Seq<(Seq<char>, Seq<char>)>) -> Seq<Seq<char>>
    decreases entries.len(),
{
    if entries.len() == 0 {
        Seq::empty()
    } else {
        let before = names_in(entries.drop_last());
        if is_name_key(entries.last().0) {
            before.push(entries.last().1)
        } else {
            before
        }
    }
}

/// Whether a feature with these tags is indexed at all: it has a house
/// number and a street, or it has a name.
pub open spec fn is_admitted(entries: Seq<(Seq<char>, Seq<char>)>) -> bool {
    ||| has_key(entries, "addr:housenumber"@) && has_key(entries, "addr:street"@)
    ||| names_in(entries).len() > 0
}

/// The point of interest that a feature with these tags yields, once the
/// cell of its centroid is known.
pub open spec fn extracted(
    lang: Seq<char>,
    entries: Seq<(Seq<char>, Seq<char>)>,
    cell: u64,
) -> InputPoiView {
    InputPoiView {
        names: names_in(entries),
        house_number: first_value(entries, "addr:housenumber"@),
        road: first_value(entries, "addr:street"@),
        unit: first_value(entries, "addr:unit"@),
        admins: Seq::empty(),
        s2cell: cell,
        tags: entries,
        languages: seq![lang],
    }
}

/// Whether a tag with this key names the feature.
pub fn names_feature(key: &str) -> (r: bool)
    ensures
        r == is_name_key(key@),
{
    contains_text(key, "name:") || same_text(key, "name")
}

/// The values of the tags that name the feature, in the order of the tags.
pub fn collect_names(pairs: &Vec<KvPair>) -> (names: Vec<String>)
    ensures
        texts(names@) == names_in(pair_views(pairs@)),
{
    let ghost entries = pair_views(pairs@);
    let mut names: Vec<String> = Vec::new();
    let mut i: usize = 0;
    assert(texts(names@) =~= names_in(entries.take(0)));
    while i < pairs.len()
        invariant
            i <= pairs.len(),
            entries == pair_views(pairs@),
            texts(names@) == names_in(entries.take(i as int)),
        decreases pairs.len() - i,
    {
        assert(entries.take(i + 1).drop_last() =~= entries.take(i as int));
        if names_feature(pairs[i].key.as_str()) {
            let name = pairs[i].value.clone();
            assert(texts(names@.push(name)) =~= texts(names@).push(name@));
            names.push(name);
        }
        i += 1;
    }
    assert(entries.take(i as int) =~= entries);
    names
}

/// The tags as owned pairs, in their order.
pub fn owned_pairs(pairs: &Vec<KvPair>) -> (owned: Vec<(String, String)>)
    ensures
        text_pairs(owned@) == pair_views(pairs@),
{
    let mut owned: Vec<(String, String)> = Vec::new();
    let mut i: usize = 0;
    while i < pairs.len()
        invariant
            i <= pairs.len(),
            text_pairs(owned@) == pair_views(pairs@).take(i as int),
        decreases pairs.len() - i,
    {
        let key = pairs[i].key.clone();
        let value = pairs[i].value.clone();
        proof {
            let views = pair_views(pairs@);
            assert(text_pairs(owned@.push((key, value))) =~= text_pairs(owned@).push(
                (key@, value@),
            ));
            assert(views.take(i + 1) =~= views.take(i as int).push((key@, value@)));
        }
        owned.push((key, value));
        i += 1;
    }
    assert(pair_views(pairs@).take(i as int) =~= pair_views(pairs@));
    owned
}

/// An owned copy of an optional value of the mapping.
fn owned_value(value: Option<&String>) -> (owned: Option<String>)
    ensures
        option_text(owned) == (match value {
            Some(v) => Some(v@),
            None => None,
        }),
{
    match value {
        Some(v) => Some(v.clone()),
        None => None,
    }
}

impl InputPoi {
    /// Takes a point of interest from one tile feature, or drops the feature.
    ///
    /// A feature is dropped unless it has a house number and a street, or a
    /// name. One that is kept has its geometry projected with
    /// `transform_coord`, coordinate by coordinate, and located with
    /// `locate`, which gives the leaf cell of the centroid of the projected
    /// geometry, or nothing where that geometry has no centroid: then too the
    /// feature is dropped.
    pub fn from_tags_with_transform<C: Copy, F, L>(
        lang: &str,
        geometry: &Geometry<C>,
        tags: &TagMap,
        tile_x: u32,
        tile_y: u32,
        tile_z: u8,
        extent: u32,
        transform_coord: &F,
        locate: &L,
    ) -> (r: Option<InputPoi>) where
        F: Fn(C, u32, u32, u8, u32) -> C,
        L: Fn(&Geometry<C>) -> Option<u64>,

        requires
            forall|c: C| call_requires(*transform_coord, (c, tile_x, tile_y, tile_z, extent)),
            forall|projected: Geometry<C>|
                geometry_projected(
                    *transform_coord,
                    tile_x,
                    tile_y,
                    tile_z,
                    extent,
                    *geometry,
                    projected,
                ) ==> call_requires(*locate, (&projected,)),
        ensures
            !is_admitted(tags.entries()) ==> r is None,
            is_admitted(tags.entries()) ==> exists|projected: Geometry<C>, cell: Option<u64>|
                {
                    &&& geometry_projected(
                        *transform_coord,
                        tile_x,
                        tile_y,
                        tile_z,
                        extent,
                        *geometry,
                        projected,
                    )
                    &&& #[trigger] call_ensures(*locate, (&projected,), cell)
                    &&& match cell {
                        Some(id) => r matches Some(poi) && poi@ == extracted(
                            lang@,
                            tags.entries(),
                            id,
                        ),
                        None => r is None,
                    }
                },
    {
        let house_number = owned_value(tags.get("addr:housenumber"));
        let road = owned_value(tags.get("addr:street"));
        let unit = owned_value(tags.get("addr:unit"));
        let names = collect_names(tags.pairs());

        if (house_number.is_none() || road.is_none()) && names.len() == 0 {
            return None;
        }
        let tag_pairs = owned_pairs(tags.pairs());

        let projected = match transform_tile_geometry(
            geometry,
            tile_x,
            tile_y,
            tile_z,
            extent,
            transform_coord,
        ) {
            Some(projected) => projected,
            None => { return None; },
        };
        let cell = locate(&projected);
        let s2cell: u64 = match cell {
            Some(id) => id,
            None => { return None; },
        };
        let mut languages: Vec<String> = Vec::new();
        let language = lang.to_owned();
        assert(texts(languages@.push(language)) =~= seq![lang@]);
        languages.push(language);
        let admins: Vec<String> = Vec::new();
        assert(texts(admins@) =~= Seq::empty());
        Some(InputPoi { names, house_number, road, unit, admins, s2cell, tags: tag_pairs, languages })
    }
}

} // verus!
