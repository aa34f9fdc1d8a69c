use messoria::controls::{Handling, Perspective, handling};
use messoria::{ItemKind, Material, Tool};

#[test]
fn held_items_act_by_their_kind() {
    assert_eq!(handling(&ItemKind::Tool(Tool::Shovel)), Some(Handling::Shovel));
    assert_eq!(handling(&ItemKind::Tool(Tool::Hoe)), Some(Handling::FieldTool));
    assert_eq!(handling(&ItemKind::Tool(Tool::WateringCan)), Some(Handling::FieldTool));
    assert_eq!(handling(&ItemKind::Tool(Tool::Axe)), Some(Handling::Gatherer));
    assert_eq!(handling(&ItemKind::Tool(Tool::Pickaxe)), Some(Handling::Gatherer));
    assert_eq!(handling(&ItemKind::Seed), Some(Handling::FieldSupply));
    assert_eq!(handling(&ItemKind::Fertilizer), Some(Handling::FieldSupply));
    assert_eq!(handling(&ItemKind::Structure), Some(Handling::Builder));
    assert_eq!(handling(&ItemKind::Food { energy: 3 }), Some(Handling::Consumable));
    assert_eq!(
        handling(&ItemKind::Terrain { materials: vec![Material::Soil] }),
        None
    );
    assert_eq!(handling(&ItemKind::Goods), None);
}

#[test]
fn only_the_axe_and_the_pickaxe_gather() {
    for tool in [Tool::Shovel, Tool::Hoe, Tool::WateringCan, Tool::Axe, Tool::Pickaxe] {
        assert_eq!(
            handling(&ItemKind::Tool(tool)) == Some(Handling::Gatherer),
            tool.gathers()
        );
    }
}

#[test]
fn the_view_cycles_through_three_perspectives() {
    let first = Perspective::default();
    assert_eq!(first, Perspective::FirstPerson);
    assert_eq!(first.next(), Perspective::Behind);
    assert_eq!(first.next().next(), Perspective::Front);
    assert_eq!(first.next().next().next(), first);
}
