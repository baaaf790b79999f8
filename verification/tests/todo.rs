use palmrs::todo::{TaskParseError, ToDoTask, parse_device_database, parse_task_record, todotxt_contents};

fn be16(out: &mut Vec<u8>, x: u16) {
    out.extend_from_slice(&x.to_be_bytes());
}

fn be32(out: &mut Vec<u8>, x: u32) {
    out.extend_from_slice(&x.to_be_bytes());
}

fn padded(s: &str, len: usize) -> Vec<u8> {
    let mut v = s.as_bytes().to_vec();
    v.resize(len, 0);
    v
}

fn header_bytes(
    name: &str,
    attributes: u16,
    type_code: &str,
    creator: &str,
    record_count: u16,
    app_info_id: u32,
) -> Vec<u8> {
    let mut h = padded(name, 32);
    be16(&mut h, attributes);
    be16(&mut h, 1);
    be32(&mut h, 0);
    be32(&mut h, 0);
    be32(&mut h, 0);
    be32(&mut h, 0);
    be32(&mut h, app_info_id);
    be32(&mut h, 0);
    h.append(&mut padded(type_code, 4));
    h.append(&mut padded(creator, 4));
    be32(&mut h, 0);
    be32(&mut h, 0);
    be16(&mut h, record_count);
    h
}

/// A minimal PRC image: two resources laid out back to back.
#[allow(dead_code)]
fn example_prc() -> Vec<u8> {
    let mut b = header_bytes("Hello, World", 0x0001, "appl", "helo", 2, 0);
    b.append(&mut padded("tAIB", 4));
    be16(&mut b, 1000);
    be32(&mut b, 98);
    b.append(&mut padded("tver", 4));
    be16(&mut b, 1);
    be32(&mut b, 103);
    b.extend_from_slice("hello".as_bytes());
    b.extend_from_slice(&[0, 0, 0, 0, 0, 0, 7]);
    b
}

/// A minimal plain PDB image: two dirty records laid out back to back.
#[allow(dead_code)]
fn example_manual_pdb() -> Vec<u8> {
    let mut b = header_bytes("tWmanual", 0x0008, "TEXt", "REAd", 2, 0);
    be32(&mut b, 94);
    b.push(0x40);
    b.extend_from_slice(&[0, 0, 0]);
    be32(&mut b, 97);
    b.push(0x40);
    b.extend_from_slice(&[0, 0, 1]);
    b.extend_from_slice(&[0, 0, 0]);
    b.extend_from_slice(&[1, 2, 3, 4]);
    b
}

/// A minimal category-bearing PDB image: a task database with two
/// categories and two task records.
#[allow(dead_code)]
fn example_tododb() -> Vec<u8> {
    let mut b = header_bytes("ToDoDB", 0x0008, "DATA", "todo", 2, 96);
    be32(&mut b, 372);
    b.push(0x41);
    b.extend_from_slice(&[0, 0, 0]);
    be32(&mut b, 384);
    b.push(0x40);
    b.extend_from_slice(&[0, 0, 1]);
    b.extend_from_slice(&[0, 0]);
    be16(&mut b, 0);
    b.append(&mut padded("Unfiled", 16));
    b.append(&mut padded("Business", 16));
    for _ in 2..16 {
        b.extend_from_slice(&[0u8; 16]);
    }
    for i in 0..16u8 {
        b.push(i);
    }
    b.push(15);
    b.push(0);
    b.extend_from_slice(&[0xFF, 0xFF, 0x01]);
    b.extend_from_slice("Buy milk\0".as_bytes());
    b.extend_from_slice(&[0xF4, 0x2F, 0x82]);
    b.extend_from_slice("Ship\0".as_bytes());
    b.extend_from_slice("soon\0".as_bytes());
    b
}


#[test]
fn todotxt_entry_formats_every_field() {
    let task = ToDoTask {
        task_text: String::from("Buy milk\nand eggs"),
        note_text: Some(String::from("2% \"skim\"")),
        category: Some(String::from("errand list")),
        priority: 1,
        completed: false,
        due_date: Some((2026, 1, 5)),
    };
    assert_eq!(
        task.as_todotxt_entry(),
        "(A) 2026-01-05 Buy milk and eggs @errand_list note=\"2% \\\"skim\\\"\""
    );

    let done = ToDoTask {
        task_text: String::from("Ship"),
        note_text: None,
        category: None,
        priority: 2,
        completed: true,
        due_date: None,
    };
    assert_eq!(done.as_todotxt_entry(), "x (B) Ship");
}

#[test]
fn task_record_parses_its_fields() {
    let mut data: Vec<u8> = vec![0xF4, 0x2F, 0x82];
    data.extend_from_slice("Ship\0".as_bytes());
    data.extend_from_slice("soon\0".as_bytes());
    let task = parse_task_record(&data, Some(String::from("Unfiled"))).unwrap();
    assert_eq!(task.due_date, Some((2026, 1, 15)));
    assert!(task.completed);
    assert_eq!(task.priority, 2);
    assert_eq!(task.task_text, "Ship");
    assert_eq!(task.note_text, Some(String::from("soon")));
    assert_eq!(task.category, Some(String::from("Unfiled")));
}

#[test]
fn task_record_rejects_bad_bytes() {
    assert_eq!(parse_task_record(&[0xFF], None), Err(TaskParseError::Truncated));
    // No null terminator after the task text.
    let data = vec![0xFF, 0xFF, 0x01, 65, 66, 67];
    assert_eq!(parse_task_record(&data, None), Err(TaskParseError::Truncated));
    // Task text that is not valid UTF-8.
    let bad = vec![0xFF, 0xFF, 0x01, 0xC3, 0x28, 0x00];
    assert_eq!(parse_task_record(&bad, None), Err(TaskParseError::BadText));
}

#[test]
fn device_database_parses_its_tasks() {
    let tasks = parse_device_database(&example_tododb()).unwrap();
    assert_eq!(tasks.len(), 2);
    assert_eq!(tasks[0].task_text, "Buy milk");
    assert_eq!(tasks[0].category, Some(String::from("Business")));
    assert!(!tasks[0].completed);
    assert_eq!(tasks[0].priority, 1);
    assert_eq!(tasks[0].due_date, None);
    assert_eq!(tasks[1].task_text, "Ship");
    assert_eq!(tasks[1].category, Some(String::from("Unfiled")));
    assert!(tasks[1].completed);
    assert_eq!(tasks[1].note_text, Some(String::from("soon")));
}

#[test]
fn todotxt_contents_split_by_completion() {
    let tasks = parse_device_database(&example_tododb()).unwrap();
    let (todo, done) = todotxt_contents(&tasks, false);
    assert_eq!(todo, "(A) Buy milk @Business");
    assert_eq!(done, Some(String::from("x (B) 2026-01-15 Ship @Unfiled note=\"soon\"")));

    let (single, none) = todotxt_contents(&tasks, true);
    assert_eq!(none, None);
    assert_eq!(
        single,
        "(A) Buy milk @Business\nx (B) 2026-01-15 Ship @Unfiled note=\"soon\""
    );
}
