//! The upload-side and page-side value types.

use entity_repo::models::{DBImage, DBImageParams};
use entity_repo::pages::{
    AdminCredentials, CarouselTemplate, DataResponse, Gear, Image, PatrolGearTemplate,
};
use entity_repo::upload::{
    FileAttachment, UploadFormItemType, UploadMultipartItemType, DEBRIEFS, DEDICATIONS,
    PATROL_LOG, SUPPORT,
};

#[test]
fn form_item_parsing() {
    assert_eq!(UploadFormItemType::try_from_str(DEBRIEFS), Some(UploadFormItemType::Debriefs));
    assert_eq!(UploadFormItemType::try_from_str("debriefs"), Some(UploadFormItemType::Debriefs));
    assert_eq!(UploadFormItemType::try_from_str("support"), None);
    assert_eq!(UploadFormItemType::try_from_str(""), None);
}

#[test]
fn multipart_item_parsing() {
    assert_eq!(
        UploadMultipartItemType::try_from_str(PATROL_LOG),
        Some(UploadMultipartItemType::PatrolLog)
    );
    assert_eq!(
        UploadMultipartItemType::try_from_str(DEDICATIONS),
        Some(UploadMultipartItemType::Dedications)
    );
    assert_eq!(
        UploadMultipartItemType::try_from_str(SUPPORT),
        Some(UploadMultipartItemType::Support)
    );
    assert_eq!(UploadMultipartItemType::try_from_str("debriefs"), None);
    assert_eq!(UploadMultipartItemType::try_from_str("patrol_logs"), None);
}

#[test]
fn attachment_becomes_image_params() {
    let mut attachment = FileAttachment::new("photo.jpg", &[1, 2, 3]);
    assert_eq!(attachment.name(), "photo.jpg");
    assert_eq!(attachment.bytes(), &[1, 2, 3]);
    attachment.alt = Some("a soldier".to_string());
    attachment.subtitle = Some("1997".to_string());
    let params = attachment.into_db_image_params("public/assets/photo.webp");
    assert_eq!(
        params,
        DBImageParams {
            path: "public/assets/photo.webp".to_string(),
            alt: "a soldier".to_string(),
            subtitle: Some("1997".to_string()),
        }
    );
}

#[test]
fn attachment_without_alt_gets_empty_alt() {
    let attachment = FileAttachment::new("photo.jpg", &[]);
    let params = attachment.into_db_image_params("p.webp");
    assert_eq!(params.alt, "");
    assert_eq!(params.subtitle, None);
}

#[test]
fn carousel_image_from_record() {
    let with_subtitle = Image::from_record(DBImage {
        id: 1,
        path: "p1".to_string(),
        alt: "a1".to_string(),
        subtitle: Some("s1".to_string()),
    });
    assert_eq!(with_subtitle.src, "p1");
    assert_eq!(with_subtitle.alt, "a1");
    assert_eq!(with_subtitle.subtitle, "s1");

    let without_subtitle = Image::from_record(DBImage {
        id: 2,
        path: "p2".to_string(),
        alt: "a2".to_string(),
        subtitle: None,
    });
    assert_eq!(without_subtitle.subtitle, "");
}

#[test]
fn data_responses() {
    let (code, body) = DataResponse::error("broken".to_string(), None);
    assert_eq!(code, 500);
    assert!(!body.is_success());
    assert_eq!(body.message(), "broken");

    let (code, body) = DataResponse::error("missing".to_string(), Some(404));
    assert_eq!(code, 404);
    assert!(!body.is_success());

    let (code, body) = DataResponse::success("stored".to_string());
    assert_eq!(code, 200);
    assert!(body.is_success());
    assert_eq!(body.message(), "stored");
}

#[test]
fn admin_credentials_accept_exact_password() {
    let creds = AdminCredentials::new("SECRET-REDACTED".to_string());
    assert!(creds.accepts("SECRET-REDACTED"));
    assert!(!creds.accepts("guess"));
    assert!(!creds.accepts(""));
}

fn gear(id: u32, price: u32) -> Gear {
    Gear {
        id,
        price,
        carousel: CarouselTemplate {
            images: Vec::new(),
            auto_scroll: false,
            show_subtitles: false,
        },
    }
}

#[test]
fn gear_template_sections() {
    let template = PatrolGearTemplate::new(
        vec![gear(1, 60), gear(2, 40)],
        vec![gear(1, 40)],
        Vec::new(),
    );
    assert_eq!(template.tops().len(), 2);
    assert_eq!(template.tops()[0].price, 60);
    assert_eq!(template.hats().len(), 1);
    assert!(template.misc().is_empty());
}
