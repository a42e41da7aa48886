use realtor_listings::ids::parse_listing_id;
use realtor_listings::store::{RealtorObjectPayload, Store};

fn png_bytes(w: u32, h: u32) -> Vec<u8> {
    let img = image::DynamicImage::ImageRgba8(image::ImageBuffer::new(w, h));
    let mut buf = std::io::Cursor::new(Vec::new());
    img.write_to(&mut buf, image::ImageFormat::Png).unwrap();
    buf.into_inner()
}

#[test]
fn create_then_list_then_fetch_detail() {
    let mut store = Store::new();
    let first = png_bytes(800, 600);
    let second = png_bytes(100, 50);
    let payload = RealtorObjectPayload {
        name: "Flat A".to_string(),
        phone: "+1".to_string(),
        full_name: "Jane Doe".to_string(),
        metro_station: "Central".to_string(),
        metro_distance_bits: 0.5f32.to_bits(),
        images: vec![base64::encode(&first), base64::encode(&second)],
    };
    let created = store.create_listing(&payload).unwrap();

    let summaries = store.list_summaries();
    assert_eq!(summaries.len(), 1);
    let summary = &summaries[0];
    assert_eq!(summary.id, created.id);
    assert_eq!(summary.name, "Flat A");
    assert_eq!(summary.metro_station, "Central");
    assert_eq!(f32::from_bits(summary.metro_distance_bits), 0.5);
    assert_eq!(summary.thumbnails.len(), 2);
    for thumb in &summary.thumbnails {
        let bytes = base64::decode(thumb).unwrap();
        let img = image::load_from_memory(&bytes).unwrap();
        assert!(img.width() <= 200);
        assert!(img.height() <= 200);
    }

    let detail = store.get_detail(created.id).unwrap();
    assert_eq!(detail.id, created.id);
    assert_eq!(detail.phone, "+1");
    assert_eq!(detail.full_name, "Jane Doe");
    assert_eq!(detail.images.len(), 2);
    assert_eq!(base64::decode(&detail.images[0]).unwrap(), first);
    assert_eq!(base64::decode(&detail.images[1]).unwrap(), second);
}

#[test]
fn detail_reachable_through_textual_identifier() {
    let mut store = Store::new();
    let payload = RealtorObjectPayload {
        name: "Flat B".to_string(),
        phone: "+2".to_string(),
        full_name: "John Roe".to_string(),
        metro_station: "North".to_string(),
        metro_distance_bits: 1.25f32.to_bits(),
        images: Vec::new(),
    };
    let created = store.create_listing(&payload).unwrap();
    let text = uuid::Uuid::from_u128(created.id).to_string();
    let detail = store.get_detail_str(&text).unwrap();
    assert_eq!(detail.id, created.id);
    assert_eq!(detail.name, "Flat B");
}

#[test]
fn parse_listing_id_accepts_canonical_text() {
    let id = parse_listing_id("00000000-0000-0000-0000-0000000000ff").unwrap();
    assert_eq!(id, 255u128);
}

#[test]
fn parse_listing_id_rejects_bad_text() {
    assert!(parse_listing_id("zz").is_err());
}
