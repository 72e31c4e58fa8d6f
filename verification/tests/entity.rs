use ggl::entity::{Entity, Scene};

#[test]
fn entity_from_id() {
    let e: Entity = Entity::from(7usize);
    assert_eq!(e.id, 7);
}

#[test]
fn scene_component_is_replaced() {
    let mut scene: Scene<&str> = Scene::new();
    assert_eq!(scene.add_entity(), 0);
    assert_eq!(scene.add_entity(), 1);
    scene.add_comp_to_entity(1, 5, "first");
    scene.add_comp_to_entity(1, 5, "second");
    assert_eq!(scene.borrow_comp_vecs(5).unwrap(), &vec![None, Some("second")]);
    assert!(scene.borrow_comp_vecs(6).is_none());
    assert_eq!(scene.entity_count(), 2);
}
