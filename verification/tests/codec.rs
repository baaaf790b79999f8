use palmrs::DatabaseError;
use palmrs::bytes::{push_be_u16, push_be_u24, push_be_u32, read_be_u16, read_be_u24, read_be_u32};
use palmrs::header::DatabaseHeader;
use palmrs::record::RecordIter;
use palmrs::record::pdb_record::{PdbRecordHeader, RecordAttributes};
use palmrs::{PalmDatabase, PdbDatabase, PdbWithCategoriesDatabase, PrcDatabase};

fn be16(out: &mut Vec<u8>, x: u16) {
    out.extend_from_slice(&x.to_be_bytes());
}

fn be32(out: &mut Vec<u8>, x: u32) {
    out.extend_from_slice(&x.to_be_bytes());
}

fn padded(s: &str, len: usize) -> Vec<u8> {
    let mut v = s.as_bytes().to_vec();
    v.resize(len, 0);
    v
}

fn header_bytes(
    name: &str,
    attributes: u16,
    type_code: &str,
    creator: &str,
    record_count: u16,
    app_info_id: u32,
) -> Vec<u8> {
    let mut h = padded(name, 32);
    be16(&mut h, attributes);
    be16(&mut h, 1);
    be32(&mut h, 0);
    be32(&mut h, 0);
    be32(&mut h, 0);
    be32(&mut h, 0);
    be32(&mut h, app_info_id);
    be32(&mut h, 0);
    h.append(&mut padded(type_code, 4));
    h.append(&mut padded(creator, 4));
    be32(&mut h, 0);
    be32(&mut h, 0);
    be16(&mut h, record_count);
    h
}

/// A minimal PRC image: two resources laid out back to back.
#[allow(dead_code)]
fn example_prc() -> Vec<u8> {
    let mut b = header_bytes("Hello, World", 0x0001, "appl", "helo", 2, 0);
    b.append(&mut padded("tAIB", 4));
    be16(&mut b, 1000);
    be32(&mut b, 98);
    b.append(&mut padded("tver", 4));
    be16(&mut b, 1);
    be32(&mut b, 103);
    b.extend_from_slice("hello".as_bytes());
    b.extend_from_slice(&[0, 0, 0, 0, 0, 0, 7]);
    b
}

/// A minimal plain PDB image: two dirty records laid out back to back.
#[allow(dead_code)]
fn example_manual_pdb() -> Vec<u8> {
    let mut b = header_bytes("tWmanual", 0x0008, "TEXt", "REAd", 2, 0);
    be32(&mut b, 94);
    b.push(0x40);
    b.extend_from_slice(&[0, 0, 0]);
    be32(&mut b, 97);
    b.push(0x40);
    b.extend_from_slice(&[0, 0, 1]);
    b.extend_from_slice(&[0, 0, 0]);
    b.extend_from_slice(&[1, 2, 3, 4]);
    b
}

/// A minimal category-bearing PDB image: a task database with two
/// categories and two task records.
#[allow(dead_code)]
fn example_tododb() -> Vec<u8> {
    let mut b = header_bytes("ToDoDB", 0x0008, "DATA", "todo", 2, 96);
    be32(&mut b, 372);
    b.push(0x41);
    b.extend_from_slice(&[0, 0, 0]);
    be32(&mut b, 384);
    b.push(0x40);
    b.extend_from_slice(&[0, 0, 1]);
    b.extend_from_slice(&[0, 0]);
    be16(&mut b, 0);
    b.append(&mut padded("Unfiled", 16));
    b.append(&mut padded("Business", 16));
    for _ in 2..16 {
        b.extend_from_slice(&[0u8; 16]);
    }
    for i in 0..16u8 {
        b.push(i);
    }
    b.push(15);
    b.push(0);
    b.extend_from_slice(&[0xFF, 0xFF, 0x01]);
    b.extend_from_slice("Buy milk\0".as_bytes());
    b.extend_from_slice(&[0xF4, 0x2F, 0x82]);
    b.extend_from_slice("Ship\0".as_bytes());
    b.extend_from_slice("soon\0".as_bytes());
    b
}


#[test]
fn header_round_trip_any_78_bytes() {
    // Every 78-byte slice decodes, and re-encoding the decoded header
    // yields the input bytes exactly.
    let b: Vec<u8> = (0..78u8).map(|x| x.wrapping_mul(37).wrapping_add(11)).collect();
    let header = DatabaseHeader::from_bytes(&b).unwrap();
    assert_eq!(header.to_bytes().unwrap(), b);
}

#[test]
fn truncated_buffers_are_rejected() {
    assert_eq!(DatabaseHeader::from_bytes(&[0u8; 10]), Err(DatabaseError::Truncated));
    assert_eq!(
        PalmDatabase::<PdbDatabase>::from_bytes(&[0u8; 40]).err().unwrap(),
        DatabaseError::Truncated
    );
}

#[test]
fn format_mismatch_is_rejected() {
    assert_eq!(
        PalmDatabase::<PdbDatabase>::from_bytes(&example_prc()).err().unwrap(),
        DatabaseError::FormatMismatch
    );
    assert_eq!(
        PalmDatabase::<PrcDatabase>::from_bytes(&example_manual_pdb()).err().unwrap(),
        DatabaseError::FormatMismatch
    );
}

#[test]
fn out_of_bounds_offset_is_rejected() {
    // One record whose stored offset lies far past the end of the buffer.
    let mut b = header_bytes("Broken", 0x0008, "TEXt", "REAd", 1, 0);
    be32(&mut b, 0xFFFF);
    b.push(0x40);
    b.extend_from_slice(&[0, 0, 0]);
    assert_eq!(
        PalmDatabase::<PdbDatabase>::from_bytes(&b).err().unwrap(),
        DatabaseError::OutOfBounds
    );
}

#[test]
fn record_attributes_byte_round_trip() {
    let a = RecordAttributes::from_byte(0xCA);
    assert!(a.delete);
    assert!(a.dirty);
    assert!(!a.busy);
    assert!(!a.secret);
    assert_eq!(a.category, 0x0A);
    assert_eq!(a.to_byte(), 0xCA);

    let b = RecordAttributes { delete: false, dirty: true, busy: true, secret: false, category: 3 };
    assert_eq!(b.to_byte(), 0x63);
    assert_eq!(RecordAttributes::from_byte(0x63), b);
}

#[test]
fn identifier_allocation_is_minimal() {
    // Existing unique ids are {0, 2}: the next allocated id is 1.
    let mut b = header_bytes("Gappy", 0x0008, "TEXt", "REAd", 2, 0);
    be32(&mut b, 94);
    b.push(0x40);
    b.extend_from_slice(&[0, 0, 0]);
    be32(&mut b, 97);
    b.push(0x40);
    b.extend_from_slice(&[0, 0, 2]);
    b.extend_from_slice(&[0, 0, 0]);
    b.extend_from_slice(&[1, 2, 3, 4]);
    let mut database = PalmDatabase::<PdbDatabase>::from_bytes(&b).unwrap();
    let id = database.insert_record(RecordAttributes::default(), &[9, 9]);
    assert_eq!(id, 1);
}

#[test]
fn insertion_keeps_stored_record_count() {
    // An empty database accepts a record; the header's stored record
    // count deliberately stays untouched.
    let b = header_bytes("Empty", 0x0008, "TEXt", "REAd", 0, 0);
    let mut database = PalmDatabase::<PdbDatabase>::from_bytes(&b).unwrap();
    let id = database.insert_record(RecordAttributes::default(), "hi".as_bytes());
    assert_eq!(id, 0);
    assert_eq!(database.header.record_count, 0);
    assert_eq!(database.list_records_resources().len(), 1);
    let (hdr, data) = &database.list_records_resources()[0];
    // The offset is the 78-byte serialization plus the new entry's own
    // 8-byte directory slot.
    assert_eq!(hdr.data_offset(), 86);
    assert_eq!(data.as_slice(), "hi".as_bytes());
}

#[test]
fn category_list_stops_at_first_empty_slot() {
    // A blank interior name slot ends the category list: the slot after
    // it is not produced, even though its name is nonzero.
    let mut b = header_bytes("Choppy", 0x0008, "DATA", "todo", 0, 0);
    b.extend_from_slice(&[0, 0]);
    be16(&mut b, 0);
    b.append(&mut padded("Unfiled", 16));
    b.extend_from_slice(&[0u8; 16]);
    b.append(&mut padded("Late", 16));
    for _ in 3..16 {
        b.extend_from_slice(&[0u8; 16]);
    }
    b.extend_from_slice(&[0u8; 16]);
    b.push(0);
    b.push(0);
    let database = PalmDatabase::<PdbWithCategoriesDatabase>::from_bytes(&b).unwrap();
    let cats = database.app_info.data_item_categories().unwrap();
    assert_eq!(cats.len(), 1);
    assert_eq!(cats[0].name_try_str().unwrap(), "Unfiled");
}

#[test]
fn reserved_region_round_trips() {
    // Bytes between the end of the app-info block and the first record's
    // data are preserved verbatim.
    let mut b = header_bytes("Gap", 0x0008, "TEXt", "REAd", 2, 0);
    be32(&mut b, 100);
    b.push(0x40);
    b.extend_from_slice(&[0, 0, 0]);
    be32(&mut b, 103);
    b.push(0x40);
    b.extend_from_slice(&[0, 0, 1]);
    b.extend_from_slice(&[0, 0, 0, 0, 0, 9]);
    b.extend_from_slice(&[7, 7, 7]);
    b.extend_from_slice(&[8, 8, 8, 8]);
    let database = PalmDatabase::<PdbDatabase>::from_bytes(&b).unwrap();
    assert_eq!(database.list_records_resources().len(), 2);
    assert_eq!(database.to_bytes().unwrap(), b);
}

#[test]
fn invalid_text_fields_fail_conversion() {
    let mut b: Vec<u8> = (0..78u8).map(|x| x.wrapping_mul(37).wrapping_add(11)).collect();
    b[0] = 0xC3;
    b[1] = 0x28;
    b[2] = 0;
    let header = DatabaseHeader::from_bytes(&b).unwrap();
    assert!(header.name_try_str().is_err());
    assert_eq!(header.name_trimmed(), &[0xC3, 0x28]);
}

#[test]
fn category_database_encode_round_trips() {
    let mut b = example_tododb();
    // Mark category 1 as renamed in the stored bitmask; encoding rebuilds
    // the mask from the decoded flags, so the file round-trips exactly.
    b[96] = 0x00;
    b[97] = 0x02;
    let database = PalmDatabase::<PdbWithCategoriesDatabase>::from_bytes(&b).unwrap();
    let cats = database.app_info.data_item_categories().unwrap();
    assert_eq!(cats.len(), 2);
    assert!(!cats[0].renamed);
    assert!(cats[1].renamed);
    assert_eq!(database.to_bytes().unwrap(), b);
}

#[test]
fn big_endian_helpers_round_trip() {
    let mut out = Vec::new();
    push_be_u16(&mut out, 0x0102);
    push_be_u24(&mut out, 0x030405);
    push_be_u32(&mut out, 0x06070809);
    assert_eq!(out, vec![1, 2, 3, 4, 5, 6, 7, 8, 9]);
    assert_eq!(read_be_u16(&out, 0), 0x0102);
    assert_eq!(read_be_u24(&out, 2), 0x030405);
    assert_eq!(read_be_u32(&out, 5), 0x06070809);
}

#[test]
fn record_iter_walks_directory() {
    let b = example_manual_pdb();
    let mut it = RecordIter::from_bytes(&b).unwrap();
    let first = it.next().unwrap();
    assert_eq!(first.data_offset(), 94);
    assert_eq!(first.data_len(), Some(3));
    let second = it.next().unwrap();
    assert_eq!(second.data_offset(), 97);
    assert_eq!(second.data_len(), Some(4));
    assert_eq!(it.next(), None);

    let database = PalmDatabase::<PdbDatabase>::from_bytes(&b).unwrap();
    let mut it2 = RecordIter::from_database(&database);
    assert_eq!(it2.next().unwrap(), first);
    assert_eq!(it2.next().unwrap(), second);
    assert_eq!(it2.next(), None);
}

#[test]
fn resource_headers_encode_their_fixed_fields() {
    let b = example_prc();
    let database = PalmDatabase::<PrcDatabase>::from_bytes(&b).unwrap();
    let (hdr, _) = &database.list_records_resources()[0];
    assert_eq!(hdr.name_str(), Some("tAIB"));
    assert_eq!(hdr.resource_id(), Some(1000));
    assert_eq!(hdr.struct_len(), 10);
    let enc = hdr.to_bytes().unwrap();
    assert_eq!(&enc[..], &b[78..88]);

    let constructed = PdbRecordHeader::construct_resource(&[116, 101, 115, 116], 7, 90, None);
    assert_eq!(constructed.data_offset(), 100);
    assert_eq!(constructed.resource_id(), Some(7));
}
