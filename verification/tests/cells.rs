use cardinal_geocoder::cell::{ancestor_chain, cell_has_level};

#[test]
fn leaf_cell_has_thirty_ancestors() {
    let leaf = s2::cellid::CellID::from(s2::latlng::LatLng::from_degrees(48.2082, 16.3738));
    let chain = ancestor_chain(leaf.0);
    assert_eq!(chain.len(), 30);
    for (level, id) in chain.iter().enumerate() {
        let ancestor = s2::cellid::CellID(*id);
        assert_eq!(ancestor.level(), level as u64);
        assert!(ancestor.contains(&leaf));
        assert_eq!(ancestor, leaf.parent(level as u64));
    }
}

#[test]
fn chain_length_is_the_level_of_the_cell() {
    let leaf = s2::cellid::CellID::from(s2::latlng::LatLng::from_degrees(-33.9, 151.2));
    for level in [0u64, 1, 7, 15, 29, 30] {
        let cell = leaf.parent(level);
        let chain = ancestor_chain(cell.0);
        assert_eq!(chain.len() as u64, level);
        for (k, id) in chain.iter().enumerate() {
            assert_eq!(s2::cellid::CellID(*id).level(), k as u64);
            assert!(s2::cellid::CellID(*id).contains(&cell));
        }
    }
}

#[test]
fn chain_of_a_known_cell() {
    // Face 0, level 2: 0b000_01_10_1 followed by zeros.
    let id: u64 = 0x0d00_0000_0000_0000;
    let chain = ancestor_chain(id);
    assert_eq!(chain, vec![0x1000_0000_0000_0000u64, 0x0c00_0000_0000_0000u64]);
}

#[test]
fn chain_entries_nest() {
    let leaf = s2::cellid::CellID::from(s2::latlng::LatLng::from_degrees(10.0, 20.0));
    let chain = ancestor_chain(leaf.0);
    for k in 1..chain.len() {
        assert!(s2::cellid::CellID(chain[k - 1]).contains(&s2::cellid::CellID(chain[k])));
    }
}

#[test]
fn cells_without_a_level_are_told_apart() {
    assert!(!cell_has_level(0));
    assert!(!cell_has_level(0x4000_0000_0000_0000));
    assert!(!cell_has_level(0xc000_0000_0000_0000));
    assert!(cell_has_level(1));
    assert!(cell_has_level(0x2000_0000_0000_0000));
    assert!(cell_has_level(0x1000_0000_0000_0000));
}
