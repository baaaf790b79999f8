use palmrs::record::pdb_record::RecordAttributes;
use palmrs::{DatabaseFormat, PalmDatabase, PdbDatabase, PdbWithCategoriesDatabase, PrcDatabase};

fn be16(out: &mut Vec<u8>, x: u16) {
    out.extend_from_slice(&x.to_be_bytes());
}

fn be32(out: &mut Vec<u8>, x: u32) {
    out.extend_from_slice(&x.to_be_bytes());
}

fn padded(s: &str, len: usize) -> Vec<u8> {
    let mut v = s.as_bytes().to_vec();
    v.resize(len, 0);
    v
}

fn header_bytes(
    name: &str,
    attributes: u16,
    type_code: &str,
    creator: &str,
    record_count: u16,
    app_info_id: u32,
) -> Vec<u8> {
    let mut h = padded(name, 32);
    be16(&mut h, attributes);
    be16(&mut h, 1);
    be32(&mut h, 0);
    be32(&mut h, 0);
    be32(&mut h, 0);
    be32(&mut h, 0);
    be32(&mut h, app_info_id);
    be32(&mut h, 0);
    h.append(&mut padded(type_code, 4));
    h.append(&mut padded(creator, 4));
    be32(&mut h, 0);
    be32(&mut h, 0);
    be16(&mut h, record_count);
    h
}

/// A minimal PRC image: two resources laid out back to back.
#[allow(dead_code)]
fn example_prc() -> Vec<u8> {
    let mut b = header_bytes("Hello, World", 0x0001, "appl", "helo", 2, 0);
    b.append(&mut padded("tAIB", 4));
    be16(&mut b, 1000);
    be32(&mut b, 98);
    b.append(&mut padded("tver", 4));
    be16(&mut b, 1);
    be32(&mut b, 103);
    b.extend_from_slice("hello".as_bytes());
    b.extend_from_slice(&[0, 0, 0, 0, 0, 0, 7]);
    b
}

/// A minimal plain PDB image: two dirty records laid out back to back.
#[allow(dead_code)]
fn example_manual_pdb() -> Vec<u8> {
    let mut b = header_bytes("tWmanual", 0x0008, "TEXt", "REAd", 2, 0);
    be32(&mut b, 94);
    b.push(0x40);
    b.extend_from_slice(&[0, 0, 0]);
    be32(&mut b, 97);
    b.push(0x40);
    b.extend_from_slice(&[0, 0, 1]);
    b.extend_from_slice(&[0, 0, 0]);
    b.extend_from_slice(&[1, 2, 3, 4]);
    b
}

/// A minimal category-bearing PDB image: a task database with two
/// categories and two task records.
#[allow(dead_code)]
fn example_tododb() -> Vec<u8> {
    let mut b = header_bytes("ToDoDB", 0x0008, "DATA", "todo", 2, 96);
    be32(&mut b, 372);
    b.push(0x41);
    b.extend_from_slice(&[0, 0, 0]);
    be32(&mut b, 384);
    b.push(0x40);
    b.extend_from_slice(&[0, 0, 1]);
    b.extend_from_slice(&[0, 0]);
    be16(&mut b, 0);
    b.append(&mut padded("Unfiled", 16));
    b.append(&mut padded("Business", 16));
    for _ in 2..16 {
        b.extend_from_slice(&[0u8; 16]);
    }
    for i in 0..16u8 {
        b.push(i);
    }
    b.push(15);
    b.push(0);
    b.extend_from_slice(&[0xFF, 0xFF, 0x01]);
    b.extend_from_slice("Buy milk\0".as_bytes());
    b.extend_from_slice(&[0xF4, 0x2F, 0x82]);
    b.extend_from_slice("Ship\0".as_bytes());
    b.extend_from_slice("soon\0".as_bytes());
    b
}

fn test_db<T: DatabaseFormat>(src_bytes: &[u8]) {
    let mut database = PalmDatabase::<T>::from_bytes(src_bytes).unwrap();

    let test_str = "sphinx of black quartz, judge my vow";

    // Test adding a record.
    let record_id = database.insert_record(RecordAttributes::default(), test_str.as_bytes());
    let (_, recovered_data) = database
        .list_records_resources()
        .iter()
        .find(|(hdr, _)| hdr.unique_id() == Some(record_id))
        .unwrap();
    assert_eq!(String::from_utf8(recovered_data.to_vec()).unwrap(), test_str);

    // Test adding a resource.
    let mut test_name: [u8; 4] = [0_u8; 4];
    test_name[0..4].copy_from_slice("test".as_bytes());
    let resource_id = database.insert_resource(&test_name, test_str.as_bytes());
    let (hdr, recovered_data) = database
        .list_records_resources()
        .iter()
        .find(|(hdr, _)| hdr.resource_id() == Some(resource_id))
        .unwrap();
    assert_eq!(String::from_utf8(recovered_data.to_vec()).unwrap(), test_str);

    assert_eq!(hdr.name_str().map(str::as_bytes).unwrap(), test_name);
}

#[test]
fn add_resources_test_records_all_db_types() {
    test_db::<PrcDatabase>(&example_prc());
    test_db::<PdbDatabase>(&example_manual_pdb());
    test_db::<PdbWithCategoriesDatabase>(&example_tododb());
}
