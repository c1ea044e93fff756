//! The synthesized statement text, checked letter for letter.

use entity_repo::handles::descriptor_consistent;
use entity_repo::models::{
    DBAddress, DBAddressParams, DBDedication, DBDedicationParams, DBImage, DBImageParams,
    DBPatrolLog, DBPatrolLogParams, DBResource, DBResourceParams, DBTestimonial,
    DBTestimonialParams,
};
use entity_repo::query::{
    delete_all_query, delete_one_query, insert_query, join_fields, join_query, placeholders,
    select_all_query, select_one_query, u64_to_string, update_query,
};

#[test]
fn decimal_strings() {
    assert_eq!(u64_to_string(0), "0");
    assert_eq!(u64_to_string(7), "7");
    assert_eq!(u64_to_string(10), "10");
    assert_eq!(u64_to_string(907), "907");
    assert_eq!(u64_to_string(18446744073709551615), "18446744073709551615");
}

#[test]
fn placeholder_lists() {
    assert_eq!(placeholders(0), "");
    assert_eq!(placeholders(1), "$1");
    assert_eq!(placeholders(3), "$1,$2,$3");
    assert_eq!(placeholders(12), "$1,$2,$3,$4,$5,$6,$7,$8,$9,$10,$11,$12");
}

#[test]
fn joined_fields() {
    assert_eq!(join_fields(&Vec::new()), "");
    assert_eq!(join_fields(&vec!["path".to_string()]), "path");
    assert_eq!(
        join_fields(&vec!["path".to_string(), "alt".to_string(), "subtitle".to_string()]),
        "path,alt,subtitle"
    );
}

#[test]
fn image_statements() {
    assert_eq!(
        insert_query::<DBImage>(),
        "INSERT INTO images (path,alt,subtitle) VALUES ($1,$2,$3) RETURNING *;"
    );
    assert_eq!(select_all_query::<DBImage>(), "SELECT * FROM images;");
    assert_eq!(select_one_query::<DBImage>(), "SELECT * FROM images WHERE id = $1;");
    assert_eq!(
        delete_one_query::<DBImage>(),
        "DELETE FROM images WHERE id = $1 RETURNING *;"
    );
    assert_eq!(delete_all_query::<DBImage>(), "DELETE FROM images;");
    assert_eq!(
        update_query::<DBImage>(),
        "UPDATE images SET path = $1, alt = $2, subtitle = $3 WHERE id = $4;"
    );
}

#[test]
fn dedication_statements() {
    assert_eq!(
        insert_query::<DBDedication>(),
        "INSERT INTO dedications (names,bio,birth,death,img_ids) VALUES ($1,$2,$3,$4,$5) RETURNING *;"
    );
    assert_eq!(
        join_query::<DBDedication>(),
        "SELECT d.*, i.* FROM dedications d LEFT JOIN LATERAL unnest(d.img_ids) AS img_id ON true \
         LEFT JOIN images i ON i.id = img_id ORDER BY d.id, i.id;"
    );
}

#[test]
fn patrol_log_statements() {
    assert_eq!(
        insert_query::<DBPatrolLog>(),
        "INSERT INTO patrol_logs (heading,description,date,img_ids) VALUES ($1,$2,$3,$4) RETURNING *;"
    );
    assert_eq!(select_all_query::<DBPatrolLog>(), "SELECT * FROM patrol_logs;");
}

#[test]
fn testimonial_statements() {
    assert_eq!(
        insert_query::<DBTestimonial>(),
        "INSERT INTO testimonials (firstname,lastname,bio,content) VALUES ($1,$2,$3,$4) RETURNING *;"
    );
}

#[test]
fn address_statements() {
    assert_eq!(
        insert_query::<DBAddress>(),
        "INSERT INTO addresses (city,state,zip,line_1,line_2) VALUES ($1,$2,$3,$4,$5) RETURNING *;"
    );
}

#[test]
fn resource_statements() {
    assert_eq!(
        insert_query::<DBResource>(),
        "INSERT INTO support_resources \
         (name,description,missions,phone,email,twitter,facebook,youtube,linkedin,threads,instagram) \
         VALUES ($1,$2,$3,$4,$5,$6,$7,$8,$9,$10,$11) RETURNING *;"
    );
}

#[test]
fn descriptor_registration_checks() {
    // the generic-path kinds cover every column
    assert!(descriptor_consistent::<DBImage, DBImageParams>());
    assert!(descriptor_consistent::<DBAddress, DBAddressParams>());
    assert!(descriptor_consistent::<DBTestimonial, DBTestimonialParams>());
    // the coordinator-path kinds leave exactly the appended identifier list
    assert!(descriptor_consistent::<DBDedication, DBDedicationParams>());
    assert!(descriptor_consistent::<DBPatrolLog, DBPatrolLogParams>());
    // the resource kind fits neither template and overrides its write paths
    assert!(!descriptor_consistent::<DBResource, DBResourceParams>());
}
