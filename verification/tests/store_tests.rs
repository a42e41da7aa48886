use realtor_listings::errors::Error;
use realtor_listings::store::{RealtorObjectPayload, Store};

fn png_bytes(w: u32, h: u32) -> Vec<u8> {
    let img = image::DynamicImage::ImageRgba8(image::ImageBuffer::new(w, h));
    let mut buf = std::io::Cursor::new(Vec::new());
    img.write_to(&mut buf, image::ImageFormat::Png).unwrap();
    buf.into_inner()
}

fn payload_with(images: Vec<String>) -> RealtorObjectPayload {
    RealtorObjectPayload {
        name: "Flat A".to_string(),
        phone: "+1".to_string(),
        full_name: "Jane Doe".to_string(),
        metro_station: "Central".to_string(),
        metro_distance_bits: 0.5f32.to_bits(),
        images,
    }
}

#[test]
fn empty_store_lists_nothing() {
    let store = Store::new();
    assert!(store.list_summaries().is_empty());
}

#[test]
fn get_detail_on_missing_id_is_not_found() {
    let store = Store::new();
    let err = store.get_detail(42).unwrap_err();
    assert_eq!(err, Error::NotFound);
    assert_ne!(err, Error::StorageFailure);
}

#[test]
fn get_detail_str_rejects_malformed_identifier() {
    let store = Store::new();
    let err = store.get_detail_str("not-an-identifier").unwrap_err();
    assert_eq!(err, Error::InvalidIdentifierFormat);
}

#[test]
fn get_detail_str_on_well_formed_missing_identifier_is_not_found() {
    let store = Store::new();
    let err = store.get_detail_str("00000000-0000-4000-8000-000000000000").unwrap_err();
    assert_eq!(err, Error::NotFound);
}

#[test]
fn create_with_undecodable_image_leaves_no_trace() {
    let mut store = Store::new();
    let good = base64::encode(png_bytes(64, 64));
    let bad = base64::encode(b"this is not an image");
    let err = store.create_listing(&payload_with(vec![good, bad])).unwrap_err();
    assert_eq!(err, Error::InvalidImageData);
    assert!(store.listings.is_empty());
    assert!(store.pictures.is_empty());
    assert!(store.list_summaries().is_empty());
}

#[test]
fn create_with_malformed_encoding_leaves_no_trace() {
    let mut store = Store::new();
    let err = store.create_listing(&payload_with(vec!["%%%".to_string()])).unwrap_err();
    assert_eq!(err, Error::MalformedEncoding);
    assert!(store.listings.is_empty());
    assert!(store.pictures.is_empty());
}

#[test]
fn create_without_images_succeeds() {
    let mut store = Store::new();
    let created = store.create_listing(&payload_with(Vec::new())).unwrap();
    let detail = store.get_detail(created.id).unwrap();
    assert_eq!(detail.id, created.id);
    assert_eq!(detail.name, "Flat A");
    assert_eq!(detail.phone, "+1");
    assert_eq!(detail.full_name, "Jane Doe");
    assert_eq!(detail.metro_station, "Central");
    assert_eq!(f32::from_bits(detail.metro_distance_bits), 0.5);
    assert!(detail.images.is_empty());
}

#[test]
fn create_listing_decoded_rejects_taken_listing_id() {
    let mut store = Store::new();
    let originals: Vec<Vec<u8>> = Vec::new();
    let ids: Vec<u128> = Vec::new();
    store
        .create_listing_decoded(&payload_with(Vec::new()), &originals, 7, &ids)
        .unwrap();
    let err = store
        .create_listing_decoded(&payload_with(Vec::new()), &originals, 7, &ids)
        .unwrap_err();
    assert_eq!(err, Error::StorageFailure);
    assert_eq!(store.listings.len(), 1);
}

#[test]
fn create_listing_decoded_rejects_duplicate_picture_ids() {
    let mut store = Store::new();
    let originals = vec![png_bytes(8, 8), png_bytes(8, 8)];
    let ids = vec![5u128, 5u128];
    let err = store
        .create_listing_decoded(&payload_with(Vec::new()), &originals, 1, &ids)
        .unwrap_err();
    assert_eq!(err, Error::StorageFailure);
    assert!(store.listings.is_empty());
    assert!(store.pictures.is_empty());
}

#[test]
fn pictures_reference_their_listing() {
    let mut store = Store::new();
    let originals = vec![png_bytes(8, 8), png_bytes(16, 16)];
    let ids = vec![100u128, 101u128];
    let created = store
        .create_listing_decoded(&payload_with(Vec::new()), &originals, 1, &ids)
        .unwrap();
    assert_eq!(created.id, 1);
    assert_eq!(store.pictures.len(), 2);
    for pic in &store.pictures {
        assert_eq!(pic.listing_id, created.id);
    }
    assert_eq!(store.pictures[0].id, 100);
    assert_eq!(store.pictures[1].id, 101);
    assert_eq!(store.pictures[0].original, originals[0]);
    assert_eq!(store.pictures[1].original, originals[1]);
}

#[test]
fn error_codes_are_stable() {
    assert_eq!(Error::InvalidIdentifierFormat.code(), "E_INVALID_UUID");
    assert_eq!(Error::InvalidImageData.code(), "E_INVALID_IMAGE");
    assert_eq!(Error::MalformedEncoding.code(), "E_MALFORMED_ENCODING");
    assert_eq!(Error::NotFound.code(), "E_NOT_FOUND");
    assert_eq!(Error::StorageFailure.code(), "E_INTERNAL");
}

#[test]
fn error_statuses_distinguish_fault_classes() {
    assert_eq!(Error::InvalidIdentifierFormat.http_status(), 400);
    assert_eq!(Error::InvalidImageData.http_status(), 400);
    assert_eq!(Error::MalformedEncoding.http_status(), 400);
    assert_eq!(Error::NotFound.http_status(), 404);
    assert_eq!(Error::StorageFailure.http_status(), 500);
}
