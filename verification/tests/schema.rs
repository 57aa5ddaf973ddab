use cardinal_geocoder::extract::InputPoi;
use cardinal_geocoder::schema::{prefix_strings, road_variants, SchemafiedPoi};

fn strings(items: &[&str]) -> Vec<String> {
    items.iter().map(|s| s.to_string()).collect()
}

fn leaf() -> u64 {
    s2::cellid::CellID::from(s2::latlng::LatLng::from_degrees(52.52, 13.405)).0
}

fn poi() -> InputPoi {
    InputPoi {
        names: strings(&["Cafe X"]),
        house_number: None,
        road: None,
        unit: None,
        admins: Vec::new(),
        s2cell: leaf(),
        tags: Vec::new(),
        languages: strings(&["en"]),
    }
}

fn permute(road: &String, lang: &String) -> Vec<String> {
    vec![format!("{} [{}]", road, lang), format!("{} St [{}]", road, lang)]
}

#[test]
fn prefix_strings_puts_an_equals_sign_between() {
    assert_eq!(prefix_strings("", strings(&["a", "b"])), strings(&["=a", "=b"]));
    assert_eq!(prefix_strings("k", strings(&["", "v=w"])), strings(&["k=", "k=v=w"]));
    assert_eq!(prefix_strings("k", Vec::new()), Vec::<String>::new());
}

#[test]
fn multi_valued_tag_is_split_into_tokens() {
    let mut input = poi();
    input.names = Vec::new();
    input.tags = vec![("cuisine".to_string(), "italian;pizza".to_string())];
    let out = SchemafiedPoi::from_input_poi(input, &permute);
    assert_eq!(out.content, strings(&["cuisine=italian", "cuisine=pizza"]));
    assert_eq!(out.tags, vec![("cuisine".to_string(), "italian;pizza".to_string())]);
}

#[test]
fn road_variants_fan_out_over_languages() {
    let mut input = poi();
    input.names = Vec::new();
    input.road = Some("Main".to_string());
    input.languages = strings(&["en", "de"]);
    let out = SchemafiedPoi::from_input_poi(input, &permute);
    assert_eq!(
        out.content,
        strings(&["=Main [en]", "=Main St [en]", "=Main [de]", "=Main St [de]"])
    );
}

#[test]
fn equal_variants_are_not_merged() {
    let mut input = poi();
    input.names = Vec::new();
    input.road = Some("Main".to_string());
    input.languages = strings(&["en", "en"]);
    let out = SchemafiedPoi::from_input_poi(input, &|road: &String, _lang: &String| {
        vec![road.clone(), road.clone()]
    });
    assert_eq!(out.content, strings(&["=Main", "=Main", "=Main", "=Main"]));
}

#[test]
fn no_road_asks_for_no_variants() {
    let out = SchemafiedPoi::from_input_poi(poi(), &|_road: &String, _lang: &String| {
        panic!("no road to permute")
    });
    assert_eq!(out.content, strings(&["=Cafe X"]));
    assert!(road_variants(&None, &strings(&["en", "de"]), &permute).is_empty());
}

#[test]
fn content_keeps_the_order_of_the_categories() {
    let input = InputPoi {
        names: strings(&["Cafe X", "Kaffee X"]),
        house_number: Some("12".to_string()),
        road: Some("Main".to_string()),
        unit: Some("4b".to_string()),
        admins: strings(&["Berlin"]),
        s2cell: leaf(),
        tags: vec![
            ("name".to_string(), "Cafe X".to_string()),
            ("cuisine".to_string(), "italian;pizza;".to_string()),
            ("empty".to_string(), "".to_string()),
        ],
        languages: strings(&["en"]),
    };
    let out = SchemafiedPoi::from_input_poi(input, &permute);
    assert_eq!(
        out.content,
        strings(&[
            "=Cafe X",
            "=Kaffee X",
            "=12",
            "=Main [en]",
            "=Main St [en]",
            "=4b",
            "=Berlin",
            "name=Cafe X",
            "cuisine=italian",
            "cuisine=pizza",
            "cuisine=",
            "empty=",
        ])
    );
    assert_eq!(out.tags.len(), 3);
    assert_eq!(out.s2cell, leaf());
}

#[test]
fn parents_are_the_ancestors_of_the_cell() {
    let out = SchemafiedPoi::from_input_poi(poi(), &permute);
    let cell = s2::cellid::CellID(leaf());
    assert_eq!(out.s2cell, cell.0);
    assert_eq!(out.s2cell_parents.len(), 30);
    for (level, id) in out.s2cell_parents.iter().enumerate() {
        assert_eq!(*id, cell.parent(level as u64).0);
    }
}

#[test]
fn given_variants_are_used_as_they_are() {
    let mut input = poi();
    input.road = Some("Main".to_string());
    let variants = vec![strings(&["a", "b"]), Vec::new(), strings(&["c"])];
    let out = SchemafiedPoi::with_road_variants(input, &variants);
    assert_eq!(out.content, strings(&["=Cafe X", "=a", "=b", "=c"]));

    let out = SchemafiedPoi::with_road_variants(poi(), &variants);
    assert_eq!(out.content, strings(&["=Cafe X"]));
}

#[test]
fn road_variants_asks_once_for_each_language() {
    let got = road_variants(&Some("Main".to_string()), &strings(&["en", "de"]), &permute);
    assert_eq!(
        got,
        vec![strings(&["Main [en]", "Main St [en]"]), strings(&["Main [de]", "Main St [de]"])]
    );
}
