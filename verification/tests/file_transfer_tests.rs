use file_transfer::{
    create_new_file, delete_file, download_file, invalid_resource, make_file_name,
    upload_new_file, upload_specified_file, BodyAggregator, FileStore, ResponseOutcome,
};

#[test]
fn absent_name_get_and_delete_yield_not_found() {
    let mut store = FileStore::new();
    let name = "missing.txt".to_string();
    assert!(matches!(
        download_file(&store, &name),
        ResponseOutcome::NotFound
    ));
    assert!(matches!(
        delete_file(&mut store, &name),
        ResponseOutcome::NotFound
    ));
}

#[test]
fn upload_then_download_round_trips() {
    let mut store = FileStore::new();
    let name = "datafile.txt".to_string();
    let body: Vec<u8> = b"File contents.".to_vec();
    assert!(matches!(
        upload_specified_file(&mut store, &name, &body),
        ResponseOutcome::OkEmpty
    ));
    match download_file(&store, &name) {
        ResponseOutcome::OkBytes(contents) => assert_eq!(contents, body),
        _ => panic!("expected the uploaded bytes back"),
    }
}

#[test]
fn second_upload_overwrites_whole() {
    let mut store = FileStore::new();
    let name = "datafile.txt".to_string();
    let first: Vec<u8> = b"first body".to_vec();
    let second: Vec<u8> = b"2nd".to_vec();
    upload_specified_file(&mut store, &name, &first);
    upload_specified_file(&mut store, &name, &second);
    match download_file(&store, &name) {
        ResponseOutcome::OkBytes(contents) => assert_eq!(contents, second),
        _ => panic!("expected the second body back"),
    }
}

#[test]
fn racing_uploads_leave_one_body_whole() {
    // Whatever order the store serialized two uploads to one name, the entry
    // holds one body in full, never a byte-level mix of the two.
    let first: Vec<u8> = b"aaaaaaaa".to_vec();
    let second: Vec<u8> = b"bb".to_vec();
    for (x, y) in [(&first, &second), (&second, &first)] {
        let mut store = FileStore::new();
        let name = "shared.txt".to_string();
        upload_specified_file(&mut store, &name, x);
        upload_specified_file(&mut store, &name, y);
        match download_file(&store, &name) {
            ResponseOutcome::OkBytes(contents) => {
                assert!(contents == first || contents == second)
            }
            _ => panic!("the entry must exist"),
        }
    }
}

#[test]
fn delete_after_upload_succeeds_then_reads_not_found() {
    let mut store = FileStore::new();
    let name = "datafile.txt".to_string();
    let body: Vec<u8> = b"File contents.".to_vec();
    upload_specified_file(&mut store, &name, &body);
    assert!(matches!(
        delete_file(&mut store, &name),
        ResponseOutcome::OkEmpty
    ));
    assert!(matches!(
        download_file(&store, &name),
        ResponseOutcome::NotFound
    ));
}

#[test]
fn uploads_to_distinct_names_do_not_disturb_each_other() {
    let mut store = FileStore::new();
    let one = "one.txt".to_string();
    let two = "two.txt".to_string();
    upload_specified_file(&mut store, &one, &b"alpha".to_vec());
    upload_specified_file(&mut store, &two, &b"beta".to_vec());
    delete_file(&mut store, &one);
    match download_file(&store, &two) {
        ResponseOutcome::OkBytes(contents) => assert_eq!(contents, b"beta".to_vec()),
        _ => panic!("the other entry must be untouched"),
    }
}

#[test]
fn make_file_name_zero_pads_to_three_digits() {
    assert_eq!(make_file_name("data", 7), "data007.txt");
    assert_eq!(make_file_name("data", 42), "data042.txt");
    assert_eq!(make_file_name("data", 999), "data999.txt");
    assert_eq!(make_file_name("", 0), "000.txt");
}

#[test]
fn generated_upload_yields_well_formed_name_and_round_trips() {
    let mut store = FileStore::new();
    let prefix = "data".to_string();
    let body: Vec<u8> = b"File contents.".to_vec();
    let name = match upload_new_file(&mut store, &prefix, &body) {
        ResponseOutcome::OkText(name) => name,
        _ => panic!("an empty store must accept a generated upload"),
    };
    assert_eq!(name.len(), prefix.len() + 7);
    assert!(name.starts_with("data"));
    assert!(name.ends_with(".txt"));
    let digits = &name[prefix.len()..prefix.len() + 3];
    assert!(digits.chars().all(|c| c.is_ascii_digit()));
    match download_file(&store, &name) {
        ResponseOutcome::OkBytes(contents) => assert_eq!(contents, body),
        _ => panic!("the generated name must hold the uploaded bytes"),
    }
}

#[test]
fn exclusive_create_returns_fresh_empty_entry() {
    let mut store = FileStore::new();
    let name = match create_new_file(&mut store, "data") {
        Ok(name) => name,
        Err(_) => panic!("an empty store must have a free name"),
    };
    match download_file(&store, &name) {
        ResponseOutcome::OkBytes(contents) => assert_eq!(contents, Vec::<u8>::new()),
        _ => panic!("a created entry starts empty"),
    }
}

#[test]
fn exhausted_suffixes_fail_after_exactly_the_attempt_bound() {
    let mut store = FileStore::new();
    let body: Vec<u8> = b"x".to_vec();
    for n in 0..1000u64 {
        let name = make_file_name("data", n);
        upload_specified_file(&mut store, &name, &body);
    }
    match create_new_file(&mut store, "data") {
        Err(attempts) => assert_eq!(attempts, 100),
        Ok(_) => panic!("every suffix is occupied"),
    }
    assert!(matches!(
        upload_new_file(&mut store, &"data".to_string(), &body),
        ResponseOutcome::NotFound
    ));
    // A different prefix still has free names.
    assert!(matches!(
        upload_new_file(&mut store, &"other".to_string(), &body),
        ResponseOutcome::OkText(_)
    ));
}

#[test]
fn unmatched_route_is_always_not_found() {
    assert!(matches!(invalid_resource(), ResponseOutcome::NotFound));
    let mut store = FileStore::new();
    upload_specified_file(&mut store, &"a.txt".to_string(), &b"x".to_vec());
    assert!(matches!(invalid_resource(), ResponseOutcome::NotFound));
}

#[test]
fn aggregator_concatenates_chunks_in_order() {
    let mut agg = BodyAggregator::new();
    agg.push_chunk(b"File ");
    agg.push_chunk(b"");
    agg.push_chunk(b"contents.");
    assert_eq!(agg.into_contents(), b"File contents.".to_vec());
}

#[test]
fn aggregator_of_no_chunks_is_empty() {
    let agg = BodyAggregator::new();
    assert_eq!(agg.into_contents(), Vec::<u8>::new());
}
