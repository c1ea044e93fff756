//! The attachment coordinator: batch insert with owned images, and grouped
//! retrieval through the flattened join.

use entity_repo::attach::{get_multiple_with_images, insert_multiple_with_images, regroup, JoinRow};
use entity_repo::handles::Repo;
use entity_repo::models::{
    DBDedication, DBDedicationParams, DBImage, DBImageParams, DBPatrolLog, DBPatrolLogParams,
    DBTestimonial, DBTestimonialParams, Date, RepoError,
};

fn image_params(tag: &str) -> DBImageParams {
    DBImageParams {
        path: format!("path-{}", tag),
        alt: format!("alt-{}", tag),
        subtitle: None,
    }
}

fn dedication_params(name: &str, images: Vec<DBImageParams>) -> DBDedicationParams {
    DBDedicationParams {
        names: vec![name.to_string()],
        bio: "a bio".to_string(),
        birth: Date { year: 1980, month: 5, day: 15 },
        death: Date { year: 2050, month: 12, day: 31 },
        img_params: images,
    }
}

fn log_params(heading: &str, images: Vec<DBImageParams>) -> DBPatrolLogParams {
    DBPatrolLogParams {
        heading: heading.to_string(),
        description: "a description".to_string(),
        date: Date { year: 2023, month: 4, day: 1 },
        img_params: images,
    }
}

#[test]
fn insert_with_images_links_ids_in_submission_order() {
    let mut parents: Repo<DBDedication> = Repo::new();
    let mut images: Repo<DBImage> = Repo::new();
    let batch = vec![dedication_params(
        "John Doe",
        vec![image_params("one"), image_params("two"), image_params("three")],
    )];
    insert_multiple_with_images(&mut parents, &mut images, batch).unwrap();

    let stored_parents = parents.get_multiple();
    assert_eq!(stored_parents.len(), 1);
    let parent = &stored_parents[0];
    assert_eq!(parent.img_ids.len(), 3);

    let stored_images = images.get_multiple();
    assert_eq!(stored_images.len(), 3);
    assert_eq!(stored_images[0].path, "path-one");
    assert_eq!(stored_images[1].path, "path-two");
    assert_eq!(stored_images[2].path, "path-three");
    assert_eq!(parent.img_ids[0], stored_images[0].id);
    assert_eq!(parent.img_ids[1], stored_images[1].id);
    assert_eq!(parent.img_ids[2], stored_images[2].id);
}

#[test]
fn insert_with_images_cardinality_per_batch_item() {
    let mut parents: Repo<DBPatrolLog> = Repo::new();
    let mut images: Repo<DBImage> = Repo::new();
    let batch = vec![
        log_params("first", vec![image_params("a"), image_params("b")]),
        log_params("second", vec![]),
        log_params("third", vec![image_params("c")]),
    ];
    insert_multiple_with_images(&mut parents, &mut images, batch).unwrap();
    let stored = parents.get_multiple();
    assert_eq!(stored.len(), 3);
    assert_eq!(stored[0].img_ids.len(), 2);
    assert_eq!(stored[1].img_ids.len(), 0);
    assert_eq!(stored[2].img_ids.len(), 1);
    assert_eq!(images.get_multiple().len(), 3);
}

#[test]
fn insert_without_image_list_is_a_policy_violation() {
    let mut parents: Repo<DBTestimonial> = Repo::new();
    let mut images: Repo<DBImage> = Repo::new();
    let batch = vec![DBTestimonialParams {
        firstname: "Jane".to_string(),
        lastname: "Smith".to_string(),
        bio: None,
        content: "text".to_string(),
    }];
    let err = insert_multiple_with_images(&mut parents, &mut images, batch).unwrap_err();
    assert_eq!(err, RepoError::ImagePolicyViolation);
    assert!(parents.get_multiple().is_empty());
    assert!(images.get_multiple().is_empty());
}

#[test]
fn empty_batch_succeeds_and_stores_nothing() {
    let mut parents: Repo<DBDedication> = Repo::new();
    let mut images: Repo<DBImage> = Repo::new();
    insert_multiple_with_images(&mut parents, &mut images, Vec::new()).unwrap();
    assert!(parents.get_multiple().is_empty());
    assert!(images.get_multiple().is_empty());
}

#[test]
fn grouped_retrieval_three_and_zero_images() {
    let mut parents: Repo<DBDedication> = Repo::new();
    let mut images: Repo<DBImage> = Repo::new();
    let batch = vec![
        dedication_params(
            "A",
            vec![image_params("a1"), image_params("a2"), image_params("a3")],
        ),
        dedication_params("B", vec![]),
    ];
    insert_multiple_with_images(&mut parents, &mut images, batch).unwrap();

    let grouped = get_multiple_with_images(&parents, &images);
    assert_eq!(grouped.len(), 2);

    let (a, a_imgs) = &grouped[0];
    assert_eq!(a.names, vec!["A".to_string()]);
    assert_eq!(a_imgs.len(), 3);
    assert_eq!(a_imgs[0].path, "path-a1");
    assert_eq!(a_imgs[1].path, "path-a2");
    assert_eq!(a_imgs[2].path, "path-a3");

    let (b, b_imgs) = &grouped[1];
    assert_eq!(b.names, vec!["B".to_string()]);
    assert!(b_imgs.is_empty());
}

#[test]
fn grouped_retrieval_matches_declared_counts() {
    let mut parents: Repo<DBPatrolLog> = Repo::new();
    let mut images: Repo<DBImage> = Repo::new();
    let batch = vec![
        log_params("one", vec![image_params("x")]),
        log_params("two", vec![image_params("y"), image_params("z")]),
        log_params("three", vec![]),
    ];
    insert_multiple_with_images(&mut parents, &mut images, batch).unwrap();
    let grouped = get_multiple_with_images(&parents, &images);
    assert_eq!(grouped.len(), 3);
    for (parent, imgs) in &grouped {
        assert_eq!(imgs.len(), parent.img_ids.len());
        for (k, img) in imgs.iter().enumerate() {
            assert_eq!(img.id, parent.img_ids[k]);
        }
    }
}

#[test]
fn bulk_delete_then_retrieval_is_empty() {
    let mut parents: Repo<DBDedication> = Repo::new();
    let mut images: Repo<DBImage> = Repo::new();
    let batch = vec![
        dedication_params("p1", vec![]),
        dedication_params("p2", vec![]),
        dedication_params("p3", vec![]),
        dedication_params("p4", vec![]),
        dedication_params("p5", vec![]),
    ];
    insert_multiple_with_images(&mut parents, &mut images, batch).unwrap();
    assert_eq!(parents.get_multiple().len(), 5);
    let removed = parents.delete_many();
    assert_eq!(removed.len(), 5);
    assert!(parents.get_multiple().is_empty());
    assert!(get_multiple_with_images(&parents, &images).is_empty());
}

#[test]
fn regroup_flushes_a_part_filled_accumulator_at_stream_end() {
    // a parent declaring two images, but one row without image columns:
    // the missing image is dropped, and the group is flushed at stream end
    let parent = DBDedication {
        id: 10,
        names: vec!["A".to_string()],
        bio: String::new(),
        birth: Date { year: 1980, month: 1, day: 1 },
        death: Date { year: 2000, month: 1, day: 1 },
        img_ids: vec![31, 32],
    };
    let img = DBImage {
        id: 31,
        path: "p31".to_string(),
        alt: String::new(),
        subtitle: None,
    };
    let rows = vec![
        JoinRow { parent: parent.clone(), image: Some(img) },
        JoinRow { parent: parent.clone(), image: None },
    ];
    let grouped = regroup(rows);
    assert_eq!(grouped.len(), 1);
    assert_eq!(grouped[0].0.id, 10);
    assert_eq!(grouped[0].1.len(), 1);
    assert_eq!(grouped[0].1[0].id, 31);
}

#[test]
fn regroup_flushes_each_parent_as_soon_as_it_fills() {
    let parent_a = DBDedication {
        id: 1,
        names: vec!["A".to_string()],
        bio: String::new(),
        birth: Date { year: 1980, month: 1, day: 1 },
        death: Date { year: 2000, month: 1, day: 1 },
        img_ids: vec![41],
    };
    let parent_b = DBDedication {
        id: 2,
        names: vec!["B".to_string()],
        bio: String::new(),
        birth: Date { year: 1981, month: 1, day: 1 },
        death: Date { year: 2001, month: 1, day: 1 },
        img_ids: Vec::new(),
    };
    let img = DBImage {
        id: 41,
        path: "p41".to_string(),
        alt: String::new(),
        subtitle: None,
    };
    let rows = vec![
        JoinRow { parent: parent_a, image: Some(img) },
        JoinRow { parent: parent_b, image: None },
    ];
    let grouped = regroup(rows);
    assert_eq!(grouped.len(), 2);
    assert_eq!(grouped[0].0.id, 1);
    assert_eq!(grouped[0].1.len(), 1);
    assert_eq!(grouped[1].0.id, 2);
    assert!(grouped[1].1.is_empty());
}
