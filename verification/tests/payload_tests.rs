use orchestrator::payload::{InputFile, Payload, PayloadRow};
use orchestrator::status::Status;

#[test]
fn test_add_input() {
    let mut p = Payload::new();
    assert_eq!(p.input.len(), 0);
    let data = b"Hello, world!".to_vec();
    let filename = "filename.txt".to_string();
    p.add_input(filename.clone(), data.clone());
    assert_eq!(p.input.len(), 1);
    assert_eq!(p.input[0].name, filename);
    assert_eq!(p.input[0].data, data);
}

#[test]
fn test_prepare() {
    let mut p = Payload::new();
    p.id = 1;
    p.add_input("test.txt".to_string(), b"Test data".to_vec());

    let data_path = "/tmp/data";
    let paths = p.prepare(data_path);

    assert_eq!(p.loc, "/tmp/data/1");
    assert_eq!(paths, vec!["/tmp/data/1/test.txt".to_string()]);
    assert_eq!(p.input[0].data, b"Test data".to_vec());
}

#[test]
fn new_payload_is_empty() {
    let p = Payload::new();
    assert_eq!(p.id, 0);
    assert!(p.input.is_empty());
    assert_eq!(p.status, Status::Unknown);
    assert_eq!(p.loc, "");
}

#[test]
fn setters_set_one_field() {
    let mut p = Payload::new();
    p.add_input("a".to_string(), vec![1]);
    p.set_id(9);
    p.set_status(Status::Prepared);
    p.set_loc("/data/9".to_string());
    assert_eq!(p.id, 9);
    assert_eq!(p.status, Status::Prepared);
    assert_eq!(p.loc, "/data/9");
    assert_eq!(p.input.len(), 1);
}

#[test]
fn input_of_the_same_name_is_replaced() {
    let mut p = Payload::new();
    p.add_input("a".to_string(), vec![1]);
    p.add_input("b".to_string(), vec![2]);
    p.add_input("a".to_string(), vec![3, 3]);
    p.add_input("c".to_string(), vec![]);
    let names: Vec<&str> = p.input.iter().map(|f| f.name.as_str()).collect();
    assert_eq!(names, vec!["a", "b", "c"]);
    assert_eq!(p.input[0].data, vec![3, 3]);
    assert_eq!(p.input[1].data, vec![2]);
}

#[test]
fn prepare_names_every_file() {
    let mut p = Payload::new();
    p.set_id(4294967295);
    p.add_input("run.sh".to_string(), b"exit 1".to_vec());
    p.add_input("in.dat".to_string(), vec![0, 1, 2, 3]);
    let paths = p.prepare("data/");
    assert_eq!(p.loc, "data/4294967295");
    assert_eq!(paths, vec!["data/4294967295/run.sh", "data/4294967295/in.dat"]);
    assert!(Payload::new().prepare("/d").is_empty());
}

#[test]
fn payload_of_an_upload() {
    let files = vec![
        InputFile { name: "test01.txt".to_string(), data: b"hello this is a test file".to_vec() },
        InputFile { name: "../../etc/test.dat".to_string(), data: vec![0, 1, 2, 3] },
        InputFile { name: "dir/test01.txt".to_string(), data: vec![9] },
        InputFile { name: "..".to_string(), data: vec![7] },
    ];
    let p = Payload::from_upload(files);
    assert_eq!(p.id, 0);
    assert_eq!(p.status, Status::Unknown);
    assert_eq!(p.loc, "");
    let names: Vec<&str> = p.input.iter().map(|f| f.name.as_str()).collect();
    assert_eq!(names, vec!["test01.txt", "test.dat", "file"]);
    assert_eq!(p.input[0].data, vec![9]);
    assert_eq!(p.input[1].data, vec![0, 1, 2, 3]);
    assert_eq!(p.input[2].data, vec![7]);
    assert!(Payload::from_upload(Vec::new()).input.is_empty());
}

#[test]
fn payload_of_a_row() {
    let p = Payload::from_row(
        PayloadRow { id: 3, status: "prepared".to_string(), loc: Some("/x/3".to_string()) },
        "./data",
    );
    assert_eq!(p.id, 3);
    assert_eq!(p.status, Status::Prepared);
    assert_eq!(p.loc, "/x/3");
    assert!(p.input.is_empty());
    let p = Payload::from_row(PayloadRow { id: 3, status: "Completed".to_string(), loc: None }, "./data");
    assert_eq!(p.status, Status::Completed);
    assert_eq!(p.loc, "./data/3");
    let p = Payload::from_row(PayloadRow { id: 0, status: "?".to_string(), loc: None }, "");
    assert_eq!(p.status, Status::Unknown);
    assert_eq!(p.loc, "0");
}

#[test]
fn payload_clone_keeps_everything() {
    let mut p = Payload::new();
    p.set_id(5);
    p.add_input("a".to_string(), vec![1, 2]);
    p.set_status(Status::Failed);
    p.set_loc("l".to_string());
    let q = p.clone();
    assert_eq!(q.id, 5);
    assert_eq!(q.status, Status::Failed);
    assert_eq!(q.loc, "l");
    assert_eq!(q.input.len(), 1);
    assert_eq!(q.input[0].name, "a");
    assert_eq!(q.input[0].data, vec![1, 2]);
}

#[test]
fn test_submit() {
    let files = vec![
        InputFile { name: "test01.txt".to_string(), data: b"hello this is a test file".to_vec() },
        InputFile { name: "test.dat".to_string(), data: vec![0x00, 0x01, 0x02, 0x03] },
    ];
    let mut payload = Payload::from_upload(files);
    assert_eq!(payload.status, Status::Unknown);
    payload.set_id(1);
    let paths = payload.prepare("/srv/data");
    payload.set_status(Status::Prepared);

    assert_eq!(payload.status, Status::Prepared);
    assert_eq!(payload.loc, "/srv/data/1");
    assert_eq!(paths, vec!["/srv/data/1/test01.txt", "/srv/data/1/test.dat"]);
    assert_eq!(payload.input[0].data, b"hello this is a test file".to_vec());
    assert_eq!(payload.input[1].data, vec![0x00, 0x01, 0x02, 0x03]);
}
