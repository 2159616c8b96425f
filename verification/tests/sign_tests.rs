use pumpkin_protocol::sign::BlockFace;
use pumpkin_protocol::sign::SignBlock;
use pumpkin_protocol::sign::SignPlacement;

#[test]
fn sign_namespace_is_default() {
    assert_eq!(SignBlock.namespace(), "minecraft");
}

#[test]
fn wall_variant_name_replaces_last_segment() {
    assert_eq!(SignBlock::wall_sign_name("oak_sign").unwrap(), "oak_wall_sign");
    assert_eq!(
        SignBlock::wall_sign_name("dark_oak_sign").unwrap(),
        "dark_oak_wall_sign"
    );
    assert_eq!(SignBlock::wall_sign_name("warped_sign").unwrap(), "warped_wall_sign");
}

#[test]
fn wall_variant_name_needs_an_underscore() {
    assert!(SignBlock::wall_sign_name("sign").is_none());
    assert!(SignBlock::wall_sign_name("").is_none());
}

#[test]
fn placement_against_horizontal_face_uses_wall_variant() {
    match SignBlock.placement("oak_sign", BlockFace::North) {
        SignPlacement::Wall { wall_block_name, facing } => {
            assert_eq!(wall_block_name.unwrap(), "oak_wall_sign");
            assert_eq!(facing, BlockFace::South);
        },
        SignPlacement::Standing => panic!("expected the wall variant"),
    }
}

#[test]
fn placement_without_wall_variant_reports_no_name() {
    match SignBlock.placement("sign", BlockFace::East) {
        SignPlacement::Wall { wall_block_name, facing } => {
            assert!(wall_block_name.is_none());
            assert_eq!(facing, BlockFace::West);
        },
        SignPlacement::Standing => panic!("expected the wall variant"),
    }
}

#[test]
fn placement_on_top_or_bottom_stands_free() {
    assert!(matches!(
        SignBlock.placement("oak_sign", BlockFace::Top),
        SignPlacement::Standing
    ));
    assert!(matches!(
        SignBlock.placement("oak_sign", BlockFace::Bottom),
        SignPlacement::Standing
    ));
}
