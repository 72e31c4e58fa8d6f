use ggl::ecs::{AddableComponent, Ecs, ADDABLE_COMPONENTS};

const TRANSFORM: u64 = 0;
const LIGHT: u64 = 1;
const MODEL: u64 = 2;

#[test]
fn new_store_is_empty() {
    let ecs: Ecs<u32> = Ecs::new();
    assert_eq!(ecs.num_entities(), 0);
    assert!(ecs.borrow_comp_vec(TRANSFORM).is_none());
    assert_eq!(ecs.component_to_add(), AddableComponent::Transform);
}

#[test]
fn add_entity_returns_dense_ids() {
    let mut ecs: Ecs<u32> = Ecs::new();
    assert_eq!(ecs.add_entity().entity_id, 0);
    assert_eq!(ecs.add_entity().entity_id, 1);
    assert_eq!(ecs.add_entity().entity_id, 2);
    assert_eq!(ecs.num_entities(), 3);
}

#[test]
fn builder_adds_components_and_grows_columns() {
    let mut ecs: Ecs<u32> = Ecs::new();
    ecs.add_entity().with(TRANSFORM, 10).with(LIGHT, 20);
    ecs.add_entity().with(TRANSFORM, 11);
    assert_eq!(ecs.borrow_comp_vec(TRANSFORM).unwrap(), &vec![Some(10), Some(11)]);
    assert_eq!(ecs.borrow_comp_vec(LIGHT).unwrap(), &vec![Some(20), None]);
    ecs.add_entity();
    assert_eq!(ecs.borrow_comp_vec(LIGHT).unwrap(), &vec![Some(20), None, None]);
}

#[test]
fn added_component_is_read_back() {
    let mut ecs: Ecs<u32> = Ecs::new();
    ecs.add_entity();
    ecs.add_entity();
    ecs.add_comp_to_entity(1, MODEL, 7);
    assert!(ecs.has_component(1, MODEL));
    assert!(!ecs.has_component(0, MODEL));
    assert_eq!(ecs.borrow_comp_vec(MODEL).unwrap(), &vec![None, Some(7)]);
}

#[test]
fn first_component_of_a_kind_stays() {
    let mut ecs: Ecs<u32> = Ecs::new();
    ecs.add_entity().with(TRANSFORM, 1);
    ecs.add_comp_to_entity(0, TRANSFORM, 2);
    assert_eq!(ecs.borrow_comp_vec(TRANSFORM).unwrap(), &vec![Some(1)]);
}

fn sample() -> Ecs<u32> {
    let mut ecs: Ecs<u32> = Ecs::new();
    ecs.add_entity().with(TRANSFORM, 1).with(LIGHT, 100);
    ecs.add_entity().with(TRANSFORM, 2);
    ecs.add_entity().with(LIGHT, 300);
    ecs.add_entity().with(TRANSFORM, 4).with(LIGHT, 400);
    ecs.add_entity().with(TRANSFORM, 5).with(LIGHT, 500);
    ecs
}

#[test]
fn do_n_visits_first_n_entities_with_both() {
    let ecs = sample();
    let r = ecs.do_n(TRANSFORM, LIGHT, |t: &u32, l: &u32| Some(t + l), 2);
    assert_eq!(r, vec![Some(101), Some(404)]);
    let all = ecs.do_all(TRANSFORM, LIGHT, |t: &u32, l: &u32| Some(t + l));
    assert_eq!(all, vec![Some(101), Some(404), Some(505)]);
    let none = ecs.do_all(TRANSFORM, MODEL, |t: &u32, l: &u32| Some(t + l));
    assert!(none.is_empty());
}

#[test]
fn do_n_mut_changes_only_visited_entities() {
    let mut ecs = sample();
    let r = ecs.do_n_mut(TRANSFORM, LIGHT, |t: &mut u32, l: &mut u32| {
        *t += 1000;
        *l += 1;
        None::<u8>
    }, 2);
    assert_eq!(r.len(), 2);
    assert_eq!(
        ecs.borrow_comp_vec(TRANSFORM).unwrap(),
        &vec![Some(1001), Some(2), None, Some(1004), Some(5)]
    );
    assert_eq!(
        ecs.borrow_comp_vec(LIGHT).unwrap(),
        &vec![Some(101), None, Some(300), Some(401), Some(500)]
    );
}

#[test]
fn do_all_mut_and_do_one() {
    let mut ecs = sample();
    let r = ecs.do_all_mut(TRANSFORM, LIGHT, |t: &mut u32, _l: &mut u32| Some(*t));
    assert_eq!(r, vec![Some(1), Some(4), Some(5)]);
    let first = ecs.do_one(TRANSFORM, LIGHT, |t: &mut u32, l: &mut u32| Some(*t * 1000 + *l));
    assert_eq!(first, Some(1100));
    let missing = ecs.do_one(TRANSFORM, MODEL, |t: &mut u32, _l: &mut u32| Some(*t));
    assert_eq!(missing, None);
}

#[test]
fn do_entity_changes_one_component() {
    let mut ecs = sample();
    let old = ecs.do_entity(3, TRANSFORM, |t: &mut u32| {
        let old = *t;
        *t = 40;
        old
    });
    assert_eq!(old, 4);
    assert_eq!(
        ecs.borrow_comp_vec(TRANSFORM).unwrap(),
        &vec![Some(1), Some(2), None, Some(40), Some(5)]
    );
}

#[test]
fn do_all_enumerate_keeps_some_results() {
    let mut ecs = sample();
    let ids = ecs.do_all_enumerate(LIGHT, |(id, l): (usize, &mut u32)| {
        if *l >= 400 {
            Some(id)
        } else {
            None
        }
    });
    assert_eq!(ids, vec![3, 4]);
}

#[test]
fn add_empty_entity_names_it_by_id() {
    let mut ecs: Ecs<String> = Ecs::new();
    ecs.add_entity();
    ecs.add_entity();
    ecs.add_empty_entity(TRANSFORM, |name: String| name);
    assert_eq!(ecs.num_entities(), 3);
    assert_eq!(
        ecs.borrow_comp_vec(TRANSFORM).unwrap(),
        &vec![None, None, Some("Entity 2".to_string())]
    );
}

#[test]
fn queries_pair_slots_by_entity() {
    let ecs = sample();
    let q = ecs.query2(TRANSFORM, LIGHT);
    let rows = q.iter();
    assert_eq!(rows.len(), 5);
    assert_eq!(rows[2], (&None, &Some(300)));
    let q1 = ecs.query1(LIGHT);
    assert_eq!(q1.iter()[0], (&Some(100),));
    let mut ecs3 = sample();
    ecs3.add_comp_to_entity(2, MODEL, 9);
    let q3 = ecs3.query3(TRANSFORM, LIGHT, MODEL);
    assert_eq!(q3.iter()[2], (&None, &Some(300), &Some(9)));
}

#[test]
fn builder_with_default_and_clone() {
    let mut ecs: Ecs<u32> = Ecs::new();
    ecs.add_entity().with_default(TRANSFORM).with_clone(LIGHT, &8);
    assert_eq!(ecs.borrow_comp_vec(TRANSFORM).unwrap(), &vec![Some(0)]);
    assert_eq!(ecs.borrow_comp_vec(LIGHT).unwrap(), &vec![Some(8)]);
}

#[test]
fn addable_components_are_listed_with_names() {
    let names: Vec<&str> = ADDABLE_COMPONENTS.iter().map(|c| c.name()).collect();
    assert_eq!(names, vec!["Transform", "PointLight", "SpotLight", "DirectionalLight"]);
    let mut ecs: Ecs<u32> = Ecs::new();
    ecs.set_component_to_add(AddableComponent::SpotLight);
    assert_eq!(ecs.component_to_add(), AddableComponent::SpotLight);
}

#[test]
fn entities_with_both_kinds_in_order() {
    let ecs = sample();
    assert_eq!(ecs.entities_with(TRANSFORM, LIGHT), vec![0, 3, 4]);
    assert_eq!(ecs.entities_with(LIGHT, TRANSFORM), vec![0, 3, 4]);
    assert_eq!(ecs.entities_with(TRANSFORM, TRANSFORM), vec![0, 1, 3, 4]);
    assert!(ecs.entities_with(TRANSFORM, MODEL).is_empty());
}
