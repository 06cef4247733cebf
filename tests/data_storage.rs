use gcs::component_data::ComponentData;
use gcs::component_data_storage::GCSComponentDataStorage;
use gcs::component_value::ComponentValue;
use gcs::entity::EntityId;
use gcs::errors::{GetComponentOfEntityError, HasEntityComponentResult};

fn data_of(entity: EntityId) -> ComponentData {
    ComponentData::new(entity)
}

#[test]
fn does_entity_have_component_returns_entity_not_found_if_the_entity_does_have_the_component() {
    let storage = GCSComponentDataStorage::new();
    let result = storage.does_entity_have_component(&EntityId { id: 1 }, "Test1");
    assert!(matches!(result, HasEntityComponentResult::EntityNotFound));
}

#[test]
fn does_entity_have_component_returns_has_component_if_the_entity_does_have_the_component() {
    let mut storage = GCSComponentDataStorage::new();
    let e = EntityId { id: 1 };
    storage.set_component_of_entity(&e, "Test1", &ComponentData::new(EntityId { id: 0 }));
    let result = storage.does_entity_have_component(&e, "Test1");
    assert!(matches!(result, HasEntityComponentResult::EntityHasComponent));
}

#[test]
fn does_entity_have_component_tells_a_missing_component_apart() {
    let mut storage = GCSComponentDataStorage::new();
    let e = EntityId { id: 1 };
    storage.set_component_of_entity(&e, "Test1", &data_of(e));
    let result = storage.does_entity_have_component(&e, "Test2");
    assert!(matches!(
        result,
        HasEntityComponentResult::EntityDoesNotHaveComponent
    ));
}

#[test]
fn does_entity_have_component_returns_does_not_have_component_if_the_entity_does_have_the_component(
) {
    let mut storage = GCSComponentDataStorage::new();
    let test_entity_id_1 = EntityId { id: 1 };
    storage.set_component_of_entity(&test_entity_id_1, "Other", &data_of(test_entity_id_1));
    let result = storage.does_entity_have_component(&test_entity_id_1, "Test1");
    assert!(matches!(
        result,
        HasEntityComponentResult::EntityDoesNotHaveComponent
    ));
}

#[test]
fn has_entity_returns_true_if_the_entity_exists() {
    let mut storage = GCSComponentDataStorage::new();
    let test_entity_id_1 = EntityId { id: 1 };
    storage.set_component_of_entity(&test_entity_id_1, "Other", &data_of(test_entity_id_1));
    assert!(storage.has_entity(&test_entity_id_1), "Should have returned true");
}

#[test]
fn has_entity_returns_false_if_the_entity_does_not_exist() {
    let storage = GCSComponentDataStorage::new();
    assert!(!storage.has_entity(&EntityId { id: 1 }));
}

#[test]
fn set_component_of_entity_does_not_panic_when_passing_a_new_entity() {
    let mut storage = GCSComponentDataStorage::new();
    let e = EntityId { id: 1 };
    storage.set_component_of_entity(&e, "Test1", &data_of(e));
    assert!(storage.has_entity(&e));
}

#[test]
fn set_component_of_entity_adds_new_component_to_existing_entity() {
    let mut storage = GCSComponentDataStorage::new();
    let e = EntityId { id: 1 };
    storage.set_component_of_entity(&e, "Test1", &data_of(e));

    let expected_value = ComponentValue::Int(9);
    let mut data = data_of(e);
    data.set_field("Field1".to_string(), &expected_value);
    storage.set_component_of_entity(&e, "Test2", &data);

    let stored = storage.get_of_entity(&e, "Test2");
    assert!(stored.is_ok(), "Should have stored a component with that name");
    assert_eq!(expected_value, stored.unwrap().get_field("Field1".to_string()));
}

fn two_entity_storage() -> GCSComponentDataStorage {
    let mut storage = GCSComponentDataStorage::new();
    let e1 = EntityId { id: 1 };
    let e2 = EntityId { id: 2 };
    storage.set_component_of_entity(&e1, "Test1", &data_of(e1));
    storage.set_component_of_entity(&e1, "Test2", &data_of(e1));
    storage.set_component_of_entity(&e2, "Test1", &data_of(e2));
    storage.set_component_of_entity(&e2, "Test2", &data_of(e2));
    storage.set_component_of_entity(&e2, "Test3", &data_of(e2));
    storage
}

#[test]
fn get_of_entity_returns_entity_not_found_if_the_entity_does_not_exist() {
    let mut storage = GCSComponentDataStorage::new();
    let e1 = EntityId { id: 1 };
    storage.set_component_of_entity(&e1, "Test1", &data_of(e1));
    let result = storage.get_of_entity(&EntityId { id: 2 }, "Test1");
    assert!(matches!(result, Err(GetComponentOfEntityError::EntityNotFound)));
}

#[test]
fn get_of_entity_returns_component_not_in_entity_if_the_entity_does_not_have_that_component() {
    let mut storage = GCSComponentDataStorage::new();
    let e1 = EntityId { id: 1 };
    storage.set_component_of_entity(&e1, "Test1", &data_of(e1));
    let result = storage.get_of_entity(&e1, "Test2");
    assert!(matches!(
        result,
        Err(GetComponentOfEntityError::ComponentNotInEntity)
    ));
}

#[test]
fn get_of_entity_returns_an_existing_component_of_an_entity() {
    let mut storage = GCSComponentDataStorage::new();
    let e1 = EntityId { id: 1 };
    let component_data = data_of(e1);
    storage.set_component_of_entity(&e1, "Test1", &component_data);
    let stored = storage.get_of_entity(&e1, "Test1");
    assert!(stored.is_ok(), "Should have returned Ok");
    assert_eq!(component_data, *stored.unwrap());
}

#[test]
fn get_all_of_entity_returns_none_if_the_entity_does_not_exist() {
    let mut storage = GCSComponentDataStorage::new();
    let e1 = EntityId { id: 1 };
    storage.set_component_of_entity(&e1, "Test1", &data_of(e1));
    assert_eq!(None, storage.get_all_of_entity(&EntityId { id: 2 }));
}

#[test]
fn get_all_components_of_entity_returns_components_of_that_entity() {
    let storage = two_entity_storage();
    let expected = vec!["Test1".to_string(), "Test2".to_string(), "Test3".to_string()];
    let returned = storage.get_components_of_entity(&EntityId { id: 2 });
    assert!(returned.is_some(), "Should have returned Some");
    let returned = returned.unwrap();
    assert!(!returned.is_empty());
    assert!(returned.iter().all(|c| expected.contains(c)));
    assert_eq!(3, returned.len());
}

#[test]
fn get_all_of_entity_returns_all_data_of_that_entity() {
    let storage = two_entity_storage();
    let e2 = EntityId { id: 2 };
    let expected = vec![data_of(e2), data_of(e2), data_of(e2)];
    let returned = storage.get_all_of_entity(&e2);
    assert!(returned.is_some(), "Should have returned Some");
    let returned = returned.unwrap();
    assert!(!returned.is_empty());
    assert!(returned.iter().all(|c| expected.contains(*c)));
    assert_eq!(3, returned.len());
}

#[test]
fn get_all_of_component_returns_none_if_the_component_does_not_exists() {
    let mut storage = GCSComponentDataStorage::new();
    let e1 = EntityId { id: 1 };
    storage.set_component_of_entity(&e1, "Test1", &data_of(e1));
    storage.set_component_of_entity(&e1, "Test2", &data_of(e1));
    assert!(storage.get_all_of_component("Test3").is_none());
}

#[test]
fn get_all_of_component_returns_all_of_a_component() {
    let mut storage = GCSComponentDataStorage::new();
    let e1 = EntityId { id: 1 };
    let e2 = EntityId { id: 2 };
    storage.set_component_of_entity(&e1, "Test1", &data_of(e1));
    storage.set_component_of_entity(&e1, "Test2", &data_of(e1));
    storage.set_component_of_entity(&e2, "Test2", &data_of(e2));
    storage.set_component_of_entity(&e2, "Test3", &data_of(e2));
    let expected = vec![data_of(e1)];
    let returned = storage.get_all_of_component("Test1").unwrap();
    assert!(!returned.is_empty());
    assert!(returned.iter().all(|c| expected.contains(*c)));
    assert_eq!(1, returned.len());
}

#[test]
fn get_all_returns_all_components() {
    let storage = two_entity_storage();
    let e1 = EntityId { id: 1 };
    let e2 = EntityId { id: 2 };
    let expected = vec![data_of(e1), data_of(e2)];
    let returned = storage.get_all();
    assert!(!returned.is_empty());
    assert!(returned.iter().all(|c| expected.contains(*c)));
    assert_eq!(5, returned.len());
}

#[test]
fn set_component_of_entity_replaces_the_stored_data() {
    let mut storage = GCSComponentDataStorage::new();
    let e = EntityId { id: 1 };
    let mut data = data_of(e);
    data.set_field("a".to_string(), &ComponentValue::Int(1));
    storage.set_component_of_entity(&e, "C", &data);
    let mut data = data_of(e);
    data.set_field("a".to_string(), &ComponentValue::Int(2));
    storage.set_component_of_entity(&e, "C", &data);
    assert_eq!(1, storage.get_all().len());
    assert_eq!(
        ComponentValue::Int(2),
        storage.get_of_entity(&e, "C").unwrap().get_field("a".to_string())
    );
}
