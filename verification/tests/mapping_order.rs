use atlas_extract::mapping::AtlasMapping;
use atlas_extract::pos::AtlasPos;

#[test]
fn insert_keeps_coordinate_order() {
    let mut m = AtlasMapping::new();
    m.insert(AtlasPos::from_pos(15, 15), "corner".to_string());
    m.insert(AtlasPos::from_pos(0, 0), "origin".to_string());
    m.insert(AtlasPos::from_pos(5, 2), "middle".to_string());
    assert_eq!(m.len(), 3);
    assert_eq!(m.entries[0], (AtlasPos::from_pos(0, 0), "origin".to_string()));
    assert_eq!(m.entries[1], (AtlasPos::from_pos(5, 2), "middle".to_string()));
    assert_eq!(m.entries[2], (AtlasPos::from_pos(15, 15), "corner".to_string()));
}

#[test]
fn insert_replaces_an_existing_key() {
    let mut m = AtlasMapping::new();
    m.insert(AtlasPos::from_pos(1, 1), "old".to_string());
    m.insert(AtlasPos::from_pos(1, 1), "new".to_string());
    assert_eq!(m.len(), 1);
    assert_eq!(m.entries[0], (AtlasPos::from_pos(1, 1), "new".to_string()));
}
