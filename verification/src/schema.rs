//! From a point of interest to what the index stores of it: searchable
//! tokens, the cell with its ancestors, and the tags.

use crate::cell::{ancestor_at, ancestor_chain, has_level, level_of};
use crate::extract::{InputPoi, InputPoiView};
use crate::tags::option_text;
use crate::text::{split, split_on, text_pairs, texts};
use vstd::prelude::*;
use vstd::string::*;

verus! {

/// A point of interest as the index takes it.
#[derive(Debug)]
pub struct SchemafiedPoi {
    /// The tokens by which the point of interest is found.
    pub content: Vec<String>,
    pub s2cell: u64,
    /// The ancestors of `s2cell`, from level 0 to the level above its own.
    pub s2cell_parents: Vec<u64>,
    pub tags: Vec<(String, String)>,
}

/// What a `SchemafiedPoi` holds, as sequences of characters.
pub struct SchemafiedPoiView {
    pub content: Seq<Seq<char>>,
    pub s2cell: u64,
    pub s2cell_parents: Seq<u64>,
    pub tags: Seq<(Seq<char>, Seq<char>)>,
}

impl View for SchemafiedPoi {
    type V = SchemafiedPoiView;

    open spec fn view(&self) -> SchemafiedPoiView {
        SchemafiedPoiView {
            content: texts(self.content@),
            s2cell: self.s2cell,
            s2cell_parents: self.s2cell_parents@,
            tags: text_pairs(self.tags@),
        }
    }
}

/// The token of one value: the prefix, an equals sign, and the value.
pub open spec fn prefixed(prefix: Seq<char>, value: Seq<char>) -> Seq<char> {
    prefix + seq!['='] + value
}

/// The tokens of several values under one prefix, in the order of the values.
pub open spec fn prefixed_all(prefix: Seq<char>, values: Seq<Seq<char>>) -> Seq<Seq<char>> {
    values.map_values(|value: Seq<char>| prefixed(prefix, value))
}

/// No value, or the one that is there.
pub open spec fn zero_or_one(value: Option<Seq<char>>) -> Seq<Seq<char>> {
    match value {
        Some(v) => seq![v],
        None => Seq::empty(),
    }
}

/// The tokens of one tag: its value is split at every semicolon, and each
/// piece gets the tag's key as its prefix.
pub open spec fn tag_tokens(tag: (Seq<char>, Seq<char>)) -> Seq<Seq<char>> {
    prefixed_all(tag.0, split_on(tag.1, ';'))
}

/// The tokens of all tags, tag after tag.
pub open spec fn all_tag_tokens(tags: Seq<(Seq<char>, Seq<char>)>) -> Seq<Seq<char>> {
    tags.map_values(|tag: (Seq<char>, Seq<char>)| tag_tokens(tag)).flatten()
}

/// The tokens of the road: one for every variant of every language, in the
/// order of the languages and, within a language, of its variants. Without a
/// road there is none.
pub open spec fn road_tokens(road: Option<Seq<char>>, variants: Seq<Seq<Seq<char>>>) -> Seq<
    Seq<char>,
> {
    if road is Some {
        prefixed_all(Seq::empty(), variants.flatten())
    } else {
        Seq::empty()
    }
}

/// All tokens of a point of interest, given the variants of its road for
/// each of its languages: names, house number, road variants, unit,
/// administrative areas, all under the empty prefix, and then the tokens of
/// the tags.
pub open spec fn content_of(poi: InputPoiView, variants: Seq<Seq<Seq<char>>>) -> Seq<Seq<char>> {
    prefixed_all(Seq::empty(), poi.names) + prefixed_all(
        Seq::empty(),
        zero_or_one(poi.house_number),
    ) + road_tokens(poi.road, variants) + prefixed_all(Seq::empty(), zero_or_one(poi.unit))
        + prefixed_all(Seq::empty(), poi.admins) + all_tag_tokens(poi.tags)
}

/// The ancestors of a cell, coarsest first.
pub open spec fn ancestors_of(cell_id: u64) -> Seq<u64> {
    Seq::new(level_of(cell_id) as nat, |level: int| ancestor_at(cell_id, level as u64))
}

/// What the index takes of a point of interest, given the variants of its
/// road for each of its languages.
pub open spec fn schemified(poi: InputPoiView, variants: Seq<Seq<Seq<char>>>) -> SchemafiedPoiView {
    SchemafiedPoiView {
        content: content_of(poi, variants),
        s2cell: poi.s2cell,
        s2cell_parents: ancestors_of(poi.s2cell),
        tags: poi.tags,
    }
}

/// The views of the variants of each language.
pub open spec fn variant_texts(variants: Seq<Vec<String>>) -> Seq<Seq<Seq<char>>> {
    variants.map_values(|of_language: Vec<String>| texts(of_language@))
}

/// Whether `variants` holds, for a road and each language in turn, a result
/// of `permute_road` for that road and language. Without a road it is empty.
pub open spec fn fanned_out<P: Fn(&String, &String) -> Vec<String>>(
    permute_road: P,
    road: Option<String>,
    languages: Seq<String>,
    variants: Seq<Vec<String>>,
) -> bool {
    match road {
        Some(name) => {
            &&& variants.len() == languages.len()
            &&& forall|i: int|
                0 <= i < languages.len() ==> call_ensures(
                    permute_road,
                    (&name, &languages[i]),
                    #[trigger] variants[i],
                )
        },
        None => variants.len() == 0,
    }
}

/// The views of two lists put end to end are the views of each, put end to
/// end.
proof fn lemma_texts_add(a: Seq<String>, b: Seq<String>)
    ensures
        texts(a + b) == texts(a) + texts(b),
{
    assert(texts(a + b) =~= texts(a) + texts(b));
}

/// The tokens of two lists put end to end are the tokens of each, put end to
/// end.
proof fn lemma_prefixed_all_add(prefix: Seq<char>, a: Seq<Seq<char>>, b: Seq<Seq<char>>)
    ensures
        prefixed_all(prefix, a + b) == prefixed_all(prefix, a) + prefixed_all(prefix, b),
{
    assert(prefixed_all(prefix, a + b) =~= prefixed_all(prefix, a) + prefixed_all(prefix, b));
}

/// The lists up to index `k`, put end to end, are the beginning of all lists
/// put end to end.
proof fn lemma_flatten_starts_with(lists: Seq<Seq<Seq<char>>>, k: int)
    requires
        0 <= k <= lists.len(),
    ensures
        lists.take(k).flatten().len() <= lists.flatten().len(),
        lists.flatten().take(lists.take(k).flatten().len() as int) == lists.take(k).flatten(),
    decreases lists.len() - k,
{
    if k == lists.len() {
        assert(lists.take(k) =~= lists);
        assert(lists.flatten().take(lists.flatten().len() as int) =~= lists.flatten());
    } else {
        lemma_flatten_starts_with(lists, k + 1);
        let shorter = lists.take(k);
        assert(lists.take(k + 1) =~= shorter.push(lists[k]));
        shorter.lemma_flatten_push(lists[k]);
        assert(lists.flatten().take(shorter.flatten().len() as int) =~= lists.take(
            k + 1,
        ).flatten().take(shorter.flatten().len() as int));
        assert((shorter.flatten() + lists[k]).take(shorter.flatten().len() as int)
            =~= shorter.flatten());
    }
}

/// Every variant of every language has a token of its own among the tokens
/// of the road, where the variants of the languages before it and the
/// variants before it in its own language put it. Nothing is left out and
/// nothing is merged, so that there are as many road tokens as variants.
pub proof fn lemma_road_fan_out(
    road: Option<Seq<char>>,
    variants: Seq<Seq<Seq<char>>>,
    language: int,
    variant: int,
)
    requires
        road is Some,
        0 <= language < variants.len(),
        0 <= variant < variants[language].len(),
    ensures
        road_tokens(road, variants).len() == variants.flatten().len(),
        variants.take(language).flatten().len() + variant < road_tokens(road, variants).len(),
        road_tokens(road, variants)[variants.take(language).flatten().len() + variant]
            == prefixed(Seq::empty(), variants[language][variant]),
{
    let before = variants.take(language);
    lemma_flatten_starts_with(variants, language + 1);
    assert(variants.take(language + 1) =~= before.push(variants[language]));
    before.lemma_flatten_push(variants[language]);
    let upto = variants.take(language + 1).flatten();
    let at = before.flatten().len() + variant;
    assert(upto[at] == variants[language][variant]);
    assert(variants.flatten().take(upto.len() as int)[at] == variants.flatten()[at]);
}

/// The tokens of the road stand in the content after the names and the house
/// number, in their order.
pub proof fn lemma_road_tokens_in_content(
    poi: InputPoiView,
    variants: Seq<Seq<Seq<char>>>,
    at: int,
)
    requires
        0 <= at < road_tokens(poi.road, variants).len(),
    ensures
        poi.names.len() + zero_or_one(poi.house_number).len() + at < content_of(
            poi,
            variants,
        ).len(),
        content_of(poi, variants)[poi.names.len() + zero_or_one(poi.house_number).len() + at]
            == road_tokens(poi.road, variants)[at],
{
}

/// One token for each string, as `prefix_strings` gives them.
fn prefix_each(prefix: &str, strings: &Vec<String>) -> (tokens: Vec<String>)
    ensures
        texts(tokens@) == prefixed_all(prefix@, texts(strings@)),
{
    let mut tokens: Vec<String> = Vec::new();
    let mut i: usize = 0;
    while i < strings.len()
        invariant
            i <= strings.len(),
            texts(tokens@) == prefixed_all(prefix@, texts(strings@).take(i as int)),
        decreases strings.len() - i,
    {
        let mut token = String::from_str(prefix);
        token.append("=");
        token.append(strings[i].as_str());
        proof {
            reveal_strlit("=");
            assert("="@ =~= seq!['=']);
            assert(texts(tokens@.push(token)) =~= texts(tokens@).push(token@));
            assert(prefixed_all(prefix@, texts(strings@).take(i + 1)) =~= prefixed_all(
                prefix@,
                texts(strings@).take(i as int),
            ).push(prefixed(prefix@, strings[i as int]@)));
        }
        tokens.push(token);
        i += 1;
    }
    assert(texts(strings@).take(i as int) =~= texts(strings@));
    tokens
}

/// One token for each string: the prefix, an equals sign, and the string.
pub fn prefix_strings(prefix: &str, strings: Vec<String>) -> (tokens: Vec<String>)
    ensures
        texts(tokens@) == prefixed_all(prefix@, texts(strings@)),
{
    prefix_each(prefix, &strings)
}

/// The value that is there, as a list of one, or an empty list.
fn one_or_none(value: &Option<String>) -> (list: Vec<String>)
    ensures
        texts(list@) == zero_or_one(option_text(*value)),
{
    let mut list: Vec<String> = Vec::new();
    match value {
        Some(v) => {
            let owned = v.clone();
            assert(texts(list@.push(owned)) =~= seq![v@]);
            list.push(owned);
        },
        None => {
            assert(texts(list@) =~= Seq::empty());
        },
    }
    list
}

/// Moves `tokens` to the end of `content`.
fn append_tokens(content: &mut Vec<String>, tokens: Vec<String>)
    ensures
        texts(final(content)@) == texts(old(content)@) + texts(tokens@),
{
    let mut tokens = tokens;
    proof {
        lemma_texts_add(content@, tokens@);
    }
    content.append(&mut tokens);
}

/// Asks `permute_road` for the variants of the road in each language, in the
/// order of the languages. Without a road nothing is asked.
pub fn road_variants<P: Fn(&String, &String) -> Vec<String>>(
    road: &Option<String>,
    languages: &Vec<String>,
    permute_road: &P,
) -> (variants: Vec<Vec<String>>)
    requires
        road matches Some(name) ==> forall|i: int|
            0 <= i < languages.len() ==> call_requires(
                *permute_road,
                (&name, &#[trigger] languages[i]),
            ),
    ensures
        fanned_out(*permute_road, *road, languages@, variants@),
{
    let mut variants: Vec<Vec<String>> = Vec::new();
    match road {
        Some(name) => {
            let mut i: usize = 0;
            while i < languages.len()
                invariant
                    i <= languages.len(),
                    variants.len() == i,
                    *road == Some(*name),
                    forall|k: int|
                        0 <= k < languages.len() ==> call_requires(
                            *permute_road,
                            (name, &#[trigger] languages[k]),
                        ),
                    forall|k: int|
                        0 <= k < i ==> call_ensures(
                            *permute_road,
                            (name, &languages[k]),
                            #[trigger] variants[k],
                        ),
                decreases languages.len() - i,
            {
                variants.push(permute_road(name, &languages[i]));
                i += 1;
            }
        },
        None => {},
    }
    variants
}

impl SchemafiedPoi {
    /// What the index takes of `poi`, given the variants of its road for
    /// each of its languages.
    ///
    /// The cell of `poi` must have a level.
    pub fn with_road_variants(poi: InputPoi, road_variants: &Vec<Vec<String>>) -> (r:
        SchemafiedPoi)
        requires
            has_level(poi.s2cell),
        ensures
            r@ == schemified(poi@, variant_texts(road_variants@)),
    {
        let ghost all_variants = variant_texts(road_variants@);
        let mut content: Vec<String> = Vec::new();
        assert(texts(content@) =~= Seq::empty());
        append_tokens(&mut content, prefix_each("", &poi.names));
        append_tokens(&mut content, prefix_each("", &one_or_none(&poi.house_number)));
        proof {
            reveal_strlit("");
            assert(""@ =~= Seq::empty());
        }
        let ghost before_road = texts(content@);
        assert(before_road =~= prefixed_all(Seq::empty(), poi@.names) + prefixed_all(
            Seq::empty(),
            zero_or_one(poi@.house_number),
        ));
        if poi.road.is_some() {
            let mut i: usize = 0;
            assert(all_variants.take(0).flatten() =~= Seq::empty());
            assert(prefixed_all(Seq::empty(), Seq::<Seq<char>>::empty()) =~= Seq::empty());
            assert(texts(content@) =~= before_road + Seq::empty());
            while i < road_variants.len()
                invariant
                    i <= road_variants.len(),
                    all_variants == variant_texts(road_variants@),
                    ""@ == Seq::<char>::empty(),
                    texts(content@) == before_road + prefixed_all(
                        Seq::empty(),
                        all_variants.take(i as int).flatten(),
                    ),
                decreases road_variants.len() - i,
            {
                proof {
                    let done = all_variants.take(i as int);
                    let next = texts(road_variants[i as int]@);
                    assert(all_variants.take(i + 1) =~= done.push(next));
                    done.lemma_flatten_push(next);
                    lemma_prefixed_all_add(Seq::empty(), done.flatten(), next);
                }
                append_tokens(&mut content, prefix_each("", &road_variants[i]));
                i += 1;
            }
            assert(all_variants.take(i as int) =~= all_variants);
        } else {
            assert(texts(content@) =~= before_road + Seq::empty());
        }
        assert(texts(content@) == before_road + road_tokens(poi@.road, all_variants));
        append_tokens(&mut content, prefix_each("", &one_or_none(&poi.unit)));
        append_tokens(&mut content, prefix_each("", &poi.admins));
        let ghost before_tags = texts(content@);
        assert(before_tags == prefixed_all(Seq::empty(), poi@.names) + prefixed_all(
            Seq::empty(),
            zero_or_one(poi@.house_number),
        ) + road_tokens(poi@.road, all_variants) + prefixed_all(
            Seq::empty(),
            zero_or_one(poi@.unit),
        ) + prefixed_all(Seq::empty(), poi@.admins));

        let ghost tags = text_pairs(poi.tags@);
        let ghost per_tag = tags.map_values(|tag: (Seq<char>, Seq<char>)| tag_tokens(tag));
        let mut i: usize = 0;
        assert(per_tag.take(0).flatten() =~= Seq::empty());
        assert(texts(content@) =~= before_tags + Seq::empty());
        while i < poi.tags.len()
            invariant
                i <= poi.tags.len(),
                tags == text_pairs(poi.tags@),
                per_tag == tags.map_values(|tag: (Seq<char>, Seq<char>)| tag_tokens(tag)),
                texts(content@) == before_tags + per_tag.take(i as int).flatten(),
            decreases poi.tags.len() - i,
        {
            let pieces = split(poi.tags[i].1.as_str(), ';');
            let tokens = prefix_each(poi.tags[i].0.as_str(), &pieces);
            proof {
                let done = per_tag.take(i as int);
                assert(texts(tokens@) == tag_tokens(tags[i as int]));
                assert(per_tag.take(i + 1) =~= done.push(texts(tokens@)));
                done.lemma_flatten_push(texts(tokens@));
            }
            append_tokens(&mut content, tokens);
            i += 1;
        }
        assert(per_tag.take(i as int) =~= per_tag);
        assert(texts(content@) == content_of(poi@, all_variants));

        let s2cell_parents = ancestor_chain(poi.s2cell);
        assert(s2cell_parents@ =~= ancestors_of(poi.s2cell));
        SchemafiedPoi { content, s2cell: poi.s2cell, s2cell_parents, tags: poi.tags }
    }

    /// What the index takes of `poi`. The variants of its road, for each of
    /// its languages in turn, are whatever `permute_road` gives; every one of
    /// them becomes a token, in the order in which they came.
    ///
    /// The cell of `poi` must have a level.
    pub fn from_input_poi<P: Fn(&String, &String) -> Vec<String>>(
        poi: InputPoi,
        permute_road: &P,
    ) -> (r: SchemafiedPoi)
        requires
            has_level(poi.s2cell),
            poi.road matches Some(name) ==> forall|i: int|
                0 <= i < poi.languages.len() ==> call_requires(
                    *permute_road,
                    (&name, &#[trigger] poi.languages[i]),
                ),
        ensures
            exists|variants: Seq<Vec<String>>|
                {
                    &&& #[trigger] fanned_out(*permute_road, poi.road, poi.languages@, variants)
                    &&& r@ == schemified(poi@, variant_texts(variants))
                },
    {
        let variants = road_variants(&poi.road, &poi.languages, permute_road);
        Self::with_road_variants(poi, &variants)
    }
}

} // verus!
