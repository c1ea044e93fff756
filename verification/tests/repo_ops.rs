//! The generic repository operations on concrete record kinds.

use entity_repo::handles::Repo;
use entity_repo::models::{
    DBAddress, DBAddressParams, DBImage, DBImageParams, DBTestimonial, DBTestimonialParams,
    RepoError,
};

fn testimonial_params(first: &str, last: &str) -> DBTestimonialParams {
    DBTestimonialParams {
        firstname: first.to_string(),
        lastname: last.to_string(),
        bio: Some("a bio".to_string()),
        content: "content".to_string(),
    }
}

#[test]
fn insert_then_get_returns_equal_fields() {
    let mut repo: Repo<DBTestimonial> = Repo::new();
    let created = repo.insert_one(testimonial_params("Jane", "Smith")).unwrap();
    let fetched = repo.get_single_by(created.id).unwrap();
    assert_eq!(fetched, created);
    assert_eq!(fetched.firstname, "Jane");
    assert_eq!(fetched.lastname, "Smith");
    assert_eq!(fetched.bio, Some("a bio".to_string()));
    assert_eq!(fetched.content, "content");
}

#[test]
fn insert_then_get_round_trip_image() {
    let mut repo: Repo<DBImage> = Repo::new();
    let created = repo
        .insert_one(DBImageParams {
            path: "path1".to_string(),
            alt: "alt1".to_string(),
            subtitle: None,
        })
        .unwrap();
    let fetched = repo.get_single_by(created.id).unwrap();
    assert_eq!(fetched.path, "path1");
    assert_eq!(fetched.alt, "alt1");
    assert_eq!(fetched.subtitle, None);
}

#[test]
fn insert_then_get_round_trip_address() {
    let mut repo: Repo<DBAddress> = Repo::new();
    let created = repo
        .insert_one(DBAddressParams {
            city: "Los Angeles".to_string(),
            state: "CA".to_string(),
            zip: "90001".to_string(),
            line_1: "456 Elm St".to_string(),
            line_2: Some("Apt 2".to_string()),
        })
        .unwrap();
    let fetched = repo.get_single_by(created.id).unwrap();
    assert_eq!(fetched.city, "Los Angeles");
    assert_eq!(fetched.state, "CA");
    assert_eq!(fetched.zip, "90001");
    assert_eq!(fetched.line_1, "456 Elm St");
    assert_eq!(fetched.line_2, Some("Apt 2".to_string()));
}

#[test]
fn get_single_by_unknown_id_is_absent() {
    let mut repo: Repo<DBTestimonial> = Repo::new();
    repo.insert_one(testimonial_params("Jane", "Smith")).unwrap();
    assert!(repo.get_single_by(987654).is_none());
}

#[test]
fn delete_one_with_unused_id_fails_not_found() {
    let mut repo: Repo<DBTestimonial> = Repo::new();
    repo.insert_one(testimonial_params("Jane", "Smith")).unwrap();
    let err = repo.delete_one_with_id(424242).unwrap_err();
    assert_eq!(err, RepoError::NotFound);
    assert_eq!(repo.get_multiple().len(), 1);
}

#[test]
fn delete_one_with_id_returns_removed_row() {
    let mut repo: Repo<DBTestimonial> = Repo::new();
    let a = repo.insert_one(testimonial_params("Jane", "Smith")).unwrap();
    let b = repo.insert_one(testimonial_params("Jose", "Garcia")).unwrap();
    let removed = repo.delete_one_with_id(a.id).unwrap();
    assert_eq!(removed, a);
    let rest = repo.get_multiple();
    assert_eq!(rest.len(), 1);
    assert_eq!(rest[0], b);
}

#[test]
fn delete_one_by_record_removes_it() {
    let mut repo: Repo<DBTestimonial> = Repo::new();
    let a = repo.insert_one(testimonial_params("Jane", "Smith")).unwrap();
    let removed = repo.delete_one(&a).unwrap();
    assert_eq!(removed, a);
    assert!(repo.get_multiple().is_empty());
}

#[test]
fn delete_many_twice_is_idempotent() {
    let mut repo: Repo<DBTestimonial> = Repo::new();
    repo.insert_one(testimonial_params("Jane", "Smith")).unwrap();
    repo.insert_one(testimonial_params("Jose", "Garcia")).unwrap();
    let first = repo.delete_many();
    assert_eq!(first.len(), 2);
    let second = repo.delete_many();
    assert_eq!(second.len(), 0);
    assert!(repo.get_multiple().is_empty());
}

#[test]
fn identifiers_are_fresh_and_increasing() {
    let mut repo: Repo<DBTestimonial> = Repo::new();
    let a = repo.insert_one(testimonial_params("A", "A")).unwrap();
    let b = repo.insert_one(testimonial_params("B", "B")).unwrap();
    repo.delete_one_with_id(b.id).unwrap();
    let c = repo.insert_one(testimonial_params("C", "C")).unwrap();
    assert!(a.id < b.id);
    assert!(b.id < c.id);
}

#[test]
fn update_one_sets_fields_and_keeps_id() {
    let mut repo: Repo<DBTestimonial> = Repo::new();
    let a = repo.insert_one(testimonial_params("Jane", "Smith")).unwrap();
    repo.update_one(testimonial_params("Janet", "Smithe"), a.id).unwrap();
    let fetched = repo.get_single_by(a.id).unwrap();
    assert_eq!(fetched.id, a.id);
    assert_eq!(fetched.firstname, "Janet");
    assert_eq!(fetched.lastname, "Smithe");
}

#[test]
fn update_one_with_unused_id_fails_storage() {
    let mut repo: Repo<DBTestimonial> = Repo::new();
    repo.insert_one(testimonial_params("Jane", "Smith")).unwrap();
    let err = repo.update_one(testimonial_params("X", "Y"), 31337).unwrap_err();
    assert_eq!(err, RepoError::Storage);
    let all = repo.get_multiple();
    assert_eq!(all.len(), 1);
    assert_eq!(all[0].firstname, "Jane");
}

#[test]
fn delete_many_by_ids_splits_listed_rows() {
    let mut repo: Repo<DBImage> = Repo::new();
    let mut created = Vec::new();
    for i in 0..4 {
        created.push(
            repo.insert_one(DBImageParams {
                path: format!("p{}", i),
                alt: String::new(),
                subtitle: None,
            })
            .unwrap(),
        );
    }
    let listed = vec![created[0].id, created[2].id];
    let removed = repo.delete_many_by_ids(&listed);
    assert_eq!(removed.len(), 2);
    assert_eq!(removed[0].path, "p0");
    assert_eq!(removed[1].path, "p2");
    let rest = repo.get_multiple();
    assert_eq!(rest.len(), 2);
    assert_eq!(rest[0].path, "p1");
    assert_eq!(rest[1].path, "p3");
}
