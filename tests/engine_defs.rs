use chroma::{
    AliasFrameTypeT, AliasSkinTypeT, CActiveT, Contents, DAliasFrameTypeT, LinkT, LumpType,
    QBoolean, SpriteFrameTypeT, SyncTypeT,
};

#[test]
fn defaults() {
    assert_eq!(QBoolean::default(), QBoolean::False);
    assert_eq!(CActiveT::default(), CActiveT::Dedicated);
    assert_eq!(SyncTypeT::default(), SyncTypeT::Sync);
    assert_eq!(AliasFrameTypeT::default(), AliasFrameTypeT::Single);
    assert_eq!(AliasSkinTypeT::default(), AliasSkinTypeT::Single);
    assert_eq!(SpriteFrameTypeT::default(), SpriteFrameTypeT::Single);
    let l = LinkT::default();
    assert_eq!(l.prev, None);
    assert_eq!(l.next, None);
    assert_eq!(DAliasFrameTypeT::default().kind, AliasFrameTypeT::Single);
}

#[test]
fn content_codes() {
    assert_eq!(Contents::from_code(-1), Some(Contents::Empty));
    assert_eq!(Contents::from_code(-2), Some(Contents::Solid));
    assert_eq!(Contents::from_code(-14), Some(Contents::CurrentDown));
    assert_eq!(Contents::from_code(0), None);
    assert_eq!(Contents::from_code(-15), None);
    assert_eq!(Contents::from_code(3), None);
    assert_eq!(Contents::Lava.code(), -5);
    assert_eq!(Contents::Clip.code(), -8);
}

#[test]
fn lump_positions() {
    assert_eq!(LumpType::Entities.index(), 0);
    assert_eq!(LumpType::Visibility.index(), 4);
    assert_eq!(LumpType::Models.index(), 14);
}
