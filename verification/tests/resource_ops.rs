//! The overriding support resource paths: address deduplication, the
//! appended image identifier list, and the update that keeps what its
//! column list does not carry.

use entity_repo::handles::Repo;
use entity_repo::models::{
    DBAddress, DBAddressParams, DBImage, DBImageParams, DBResource, DBResourceParams, RepoError,
};
use entity_repo::resource::{find_address, insert_resource, update_resource};

fn address_params(city: &str) -> DBAddressParams {
    DBAddressParams {
        city: city.to_string(),
        state: "CA".to_string(),
        zip: "90001".to_string(),
        line_1: "456 Elm St".to_string(),
        line_2: None,
    }
}

fn resource_params(name: &str, address: Option<DBAddressParams>) -> DBResourceParams {
    DBResourceParams {
        name: name.to_string(),
        img_params: vec![DBImageParams {
            path: format!("logo-{}", name),
            alt: String::new(),
            subtitle: None,
        }],
        description: "a description".to_string(),
        missions: vec!["Mission 1".to_string(), "Mission 2".to_string()],
        phone: Some("555-1234".to_string()),
        email: Some("resource@example.com".to_string()),
        website_url: Some("https://example.com".to_string()),
        address,
        twitter: None,
        facebook: None,
        youtube: None,
        linkedin: None,
        threads: None,
        instagram: None,
    }
}

#[test]
fn insert_creates_address_once_and_reuses_it() {
    let mut resources: Repo<DBResource> = Repo::new();
    let mut addresses: Repo<DBAddress> = Repo::new();
    let mut images: Repo<DBImage> = Repo::new();

    let first = insert_resource(
        &mut resources,
        &mut addresses,
        &mut images,
        resource_params("one", Some(address_params("Carson"))),
    )
    .unwrap();
    let second = insert_resource(
        &mut resources,
        &mut addresses,
        &mut images,
        resource_params("two", Some(address_params("Carson"))),
    )
    .unwrap();

    let stored_addresses = addresses.get_multiple();
    assert_eq!(stored_addresses.len(), 1);
    assert_eq!(stored_addresses[0].city, "Carson");
    assert_eq!(first.address_id, Some(stored_addresses[0].id));
    assert_eq!(second.address_id, Some(stored_addresses[0].id));
}

#[test]
fn insert_with_distinct_address_creates_another_row() {
    let mut resources: Repo<DBResource> = Repo::new();
    let mut addresses: Repo<DBAddress> = Repo::new();
    let mut images: Repo<DBImage> = Repo::new();

    insert_resource(
        &mut resources,
        &mut addresses,
        &mut images,
        resource_params("one", Some(address_params("Carson"))),
    )
    .unwrap();
    insert_resource(
        &mut resources,
        &mut addresses,
        &mut images,
        resource_params("two", Some(address_params("Los Angeles"))),
    )
    .unwrap();
    assert_eq!(addresses.get_multiple().len(), 2);
}

#[test]
fn insert_without_address_references_none() {
    let mut resources: Repo<DBResource> = Repo::new();
    let mut addresses: Repo<DBAddress> = Repo::new();
    let mut images: Repo<DBImage> = Repo::new();

    let created = insert_resource(
        &mut resources,
        &mut addresses,
        &mut images,
        resource_params("solo", None),
    )
    .unwrap();
    assert_eq!(created.address_id, None);
    assert!(addresses.get_multiple().is_empty());
}

#[test]
fn insert_links_images_and_drops_website() {
    let mut resources: Repo<DBResource> = Repo::new();
    let mut addresses: Repo<DBAddress> = Repo::new();
    let mut images: Repo<DBImage> = Repo::new();

    let created = insert_resource(
        &mut resources,
        &mut addresses,
        &mut images,
        resource_params("logoed", None),
    )
    .unwrap();
    let stored_images = images.get_multiple();
    assert_eq!(stored_images.len(), 1);
    assert_eq!(stored_images[0].path, "logo-logoed");
    assert_eq!(created.img_ids, vec![stored_images[0].id]);
    // the declared column list carries no website address, so none is stored
    assert_eq!(created.website_url, None);
    assert_eq!(created.name, "logoed");
    assert_eq!(created.missions, vec!["Mission 1".to_string(), "Mission 2".to_string()]);
}

#[test]
fn find_address_matches_on_every_field() {
    let mut addresses: Repo<DBAddress> = Repo::new();
    let created = addresses.insert_one(address_params("Carson")).unwrap();
    assert_eq!(find_address(&addresses, &address_params("Carson")), Some(created.id));
    assert_eq!(find_address(&addresses, &address_params("Los Angeles")), None);
    let mut near_miss = address_params("Carson");
    near_miss.line_2 = Some("Apt 2".to_string());
    assert_eq!(find_address(&addresses, &near_miss), None);
}

#[test]
fn update_sets_fields_and_keeps_images() {
    let mut resources: Repo<DBResource> = Repo::new();
    let mut addresses: Repo<DBAddress> = Repo::new();
    let mut images: Repo<DBImage> = Repo::new();

    let created = insert_resource(
        &mut resources,
        &mut addresses,
        &mut images,
        resource_params("before", None),
    )
    .unwrap();
    update_resource(
        &mut resources,
        &mut addresses,
        resource_params("after", Some(address_params("Carson"))),
        created.id,
    )
    .unwrap();

    let updated = resources.get_single_by(created.id).unwrap();
    assert_eq!(updated.name, "after");
    assert_eq!(updated.img_ids, created.img_ids);
    let stored_addresses = addresses.get_multiple();
    assert_eq!(stored_addresses.len(), 1);
    assert_eq!(updated.address_id, Some(stored_addresses[0].id));
}

#[test]
fn update_with_unused_id_fails_storage() {
    let mut resources: Repo<DBResource> = Repo::new();
    let mut addresses: Repo<DBAddress> = Repo::new();
    let err = update_resource(
        &mut resources,
        &mut addresses,
        resource_params("ghost", Some(address_params("Carson"))),
        777,
    )
    .unwrap_err();
    assert_eq!(err, RepoError::Storage);
    // nothing was stored on the failed path
    assert!(addresses.get_multiple().is_empty());
}
