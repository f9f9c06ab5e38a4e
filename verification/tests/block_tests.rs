use voxel_forge::block::Block;

#[test]
fn block_id_roundtrip() {
    for id in 0..=17 {
        let block = Block::from_id(id).unwrap();
        assert_eq!(block.id(), id);
    }
}

#[test]
fn invalid_block_id() {
    assert!(Block::from_id(255).is_none());
    assert!(Block::from_id(1000).is_none());
}

#[test]
fn air_is_transparent() {
    assert!(Block::Air.is_transparent());
    assert!(!Block::Air.is_solid());
    assert!(Block::Air.is_air());
}

#[test]
fn stone_is_solid() {
    assert!(Block::Stone.is_solid());
    assert!(!Block::Stone.is_transparent());
    assert!(!Block::Stone.is_air());
}

#[test]
fn glass_is_transparent_but_solid() {
    assert!(Block::Glass.is_solid());
    assert!(Block::Glass.is_transparent());
}

#[test]
fn water_is_liquid() {
    assert!(Block::Water.properties().is_liquid);
    assert!(!Block::Water.is_solid());
    assert!(Block::Water.is_transparent());
}

#[test]
fn bedrock_is_unbreakable() {
    assert!(!Block::Bedrock.properties().is_breakable);
    assert!(Block::Bedrock.is_solid());
}

#[test]
fn block_colors_are_valid() {
    // Colors are given in hundredths of full intensity.
    for id in 0..=17 {
        let block = Block::from_id(id).unwrap();
        let color = block.color();
        for component in color {
            assert!(component <= 100);
        }
    }
}

#[test]
fn default_block_is_air() {
    assert_eq!(Block::default(), Block::Air);
}

#[test]
fn with_light_sets_emission() {
    let props = Block::Stone.properties().with_light(7);
    assert_eq!(props.light_emission, 7);
    assert!(props.is_solid);
}

#[test]
fn stone_color_exact() {
    assert_eq!(Block::Stone.color(), [50, 50, 50]);
    assert_eq!(Block::Dirt.color(), [55, 35, 20]);
}
