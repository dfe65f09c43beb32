use orchestrator::base64::base64_encode;
use orchestrator::jobd::{
    handle_download_response, handle_upload_response, output_of, parse_download_response,
    payload_path, prepare_upload_data, read_response, save_output_file, upload_result,
};
use orchestrator::json::Field;
use orchestrator::transfer::{construct_download_url, DownloadError, UploadError};

fn jobd_response(id: &str, output: &str) -> String {
    let mut fields = serde_json::Map::new();
    fields.insert("ID".to_string(), serde_json::Value::String(id.to_string()));
    fields.insert("Output".to_string(), serde_json::Value::String(output.to_string()));
    serde_json::Value::Object(fields).to_string()
}

#[test]
fn test_construct_download_url() {
    let result = construct_download_url("http://localhost", "endpoint");
    assert_eq!(result, "http://localhost/endpoint")
}

#[test]
fn test_parse_download_response() {
    // Test successful case
    let response_body = jobd_response("test-id", "test-output");
    let result = parse_download_response(&response_body);
    assert!(result.is_ok());
    assert_eq!(result.unwrap(), "test-output");

    // Test malformed JSON response
    let result = parse_download_response("invalid json");
    assert!(matches!(result, Err(DownloadError::DeserializationFailed(_))));
}

#[test]
fn test_save_output_file() {
    let job_location = "/data/jobs/one";

    // Test successful case with valid base64
    // This is a tiny valid ZIP file encoded in base64
    let valid_base64 = "UEsFBgAAAAAAAAAAAAAAAAAAAAAAAA==";
    let result = save_output_file(valid_base64, job_location);
    assert!(result.is_ok());

    // The file to write is output.zip in the job's directory
    let (path, bytes) = result.unwrap();
    assert_eq!(path, "/data/jobs/one/output.zip");
    assert_eq!(bytes.len(), 22);
    assert_eq!(&bytes[..4], &[0x50, 0x4b, 0x05, 0x06]);
    assert!(bytes[4..].iter().all(|b| *b == 0));

    // Test with invalid base64
    let invalid_base64 = "invalid-base64!@#$";
    let result = save_output_file(invalid_base64, job_location);
    assert!(matches!(result, Err(DownloadError::InvalidPath)));
}

#[test]
fn test_handle_upload_response() {
    // Test successfull
    let result = handle_upload_response(201, Ok(jobd_response("test-id", "test-output")));
    assert!(result.is_ok());
    assert_eq!(result.unwrap(), "test-id");

    // Test unexpected status code
    let result = handle_upload_response(400, Ok("".to_string()));
    assert!(matches!(result, Err(UploadError::UnexpectedStatus { status: 400, .. })));

    // Test malformed JSON response
    let result = handle_upload_response(201, Ok("invalid json".to_string()));
    assert!(matches!(result, Err(UploadError::DeserializationFailed(_))));
}

#[test]
fn test_handle_download_response() {
    let body = jobd_response("test-id", "test-output");

    // Test successfull 200
    let result = handle_download_response(200, Ok(body.clone()));
    assert!(result.is_ok());
    assert_eq!(result.unwrap(), body);

    // Test err 202
    let result = handle_download_response(202, Ok(body.clone()));
    assert!(matches!(result, Err(DownloadError::NotReady)));

    // Test err any
    let result = handle_download_response(500, Ok(body));
    assert!(matches!(result, Err(DownloadError::UnexpectedStatus { status: 500, .. })));
}

#[test]
fn upload_response_with_empty_id_is_taken() {
    let result = handle_upload_response(201, Ok(jobd_response("", "")));
    assert_eq!(result.unwrap(), "");
}

#[test]
fn upload_response_without_id_is_refused() {
    let result = handle_upload_response(201, Ok("{\"Output\": \"x\"}".to_string()));
    assert!(matches!(result, Err(UploadError::DeserializationFailed(_))));
    let result = handle_upload_response(201, Ok("{\"ID\": 7, \"Output\": \"x\"}".to_string()));
    assert!(matches!(result, Err(UploadError::DeserializationFailed(_))));
}

#[test]
fn upload_response_that_cannot_be_read() {
    let result = handle_upload_response(201, Err("connection reset".to_string()));
    match result {
        Err(UploadError::ResponseReadFailed(why)) => assert_eq!(why, "connection reset"),
        other => panic!("unexpected: {:?}", other),
    }
    // the status decides before the body does
    let result = handle_upload_response(404, Err("connection reset".to_string()));
    assert!(matches!(result, Err(UploadError::UnexpectedStatus { status: 404, .. })));
}

#[test]
fn upload_result_for_each_finding() {
    let ok = || Ok::<String, String>("{}".to_string());
    let text = |t: &str| Ok::<Option<Field>, String>(Some(Field::Text(t.to_string())));
    assert_eq!(upload_result(201, ok(), text("abc"), text("")).unwrap(), "abc");
    assert!(matches!(
        upload_result(201, ok(), Ok(None), text("")),
        Err(UploadError::DeserializationFailed(_))
    ));
    assert!(matches!(
        upload_result(201, ok(), text("abc"), Ok(None)),
        Err(UploadError::DeserializationFailed(_))
    ));
    assert!(matches!(
        upload_result(201, ok(), Ok(Some(Field::Number(7))), text("")),
        Err(UploadError::DeserializationFailed(_))
    ));
    assert!(matches!(
        upload_result(201, ok(), text("abc"), Ok(Some(Field::Other))),
        Err(UploadError::DeserializationFailed(_))
    ));
    match upload_result(201, ok(), Err("eof".to_string()), Err("eof".to_string())) {
        Err(UploadError::DeserializationFailed(why)) => assert_eq!(why, "eof"),
        other => panic!("unexpected: {:?}", other),
    }
    assert!(matches!(
        upload_result(200, ok(), text("abc"), text("")),
        Err(UploadError::UnexpectedStatus { status: 200, .. })
    ));
}

#[test]
fn response_needs_both_fields() {
    let text = |t: &str| Ok::<Option<Field>, String>(Some(Field::Text(t.to_string())));
    let response = read_response(text("id-1"), text("QQ==")).unwrap();
    assert_eq!(response.id, "id-1");
    assert_eq!(response.output, "QQ==");
    assert_eq!(read_response(Ok(None), text("x")).unwrap_err(), "missing field `ID`");
    assert_eq!(read_response(text("x"), Ok(None)).unwrap_err(), "missing field `Output`");
    assert_eq!(
        read_response(Ok(Some(Field::Number(1))), text("x")).unwrap_err(),
        "invalid type for field `ID`"
    );
    assert_eq!(
        read_response(text("x"), Ok(Some(Field::Other))).unwrap_err(),
        "invalid type for field `Output`"
    );
    assert_eq!(read_response(Err("a".to_string()), Err("b".to_string())).unwrap_err(), "a");
    assert_eq!(read_response(text("x"), Err("b".to_string())).unwrap_err(), "b");
}

#[test]
fn upload_response_without_output_is_refused() {
    let result = handle_upload_response(201, Ok("{\"ID\": \"abc\"}".to_string()));
    assert!(matches!(result, Err(UploadError::DeserializationFailed(_))));
    let result = handle_upload_response(201, Ok("{\"ID\": \"abc\", \"Output\": null}".to_string()));
    assert!(matches!(result, Err(UploadError::DeserializationFailed(_))));
    let result = handle_upload_response(201, Ok("{\"ID\": \"abc\", \"Output\": \"\"}".to_string()));
    assert_eq!(result.unwrap(), "abc");
}

#[test]
fn download_response_without_id_is_refused() {
    let result = parse_download_response("{\"Output\": \"QQ==\"}");
    assert!(matches!(result, Err(DownloadError::DeserializationFailed(_))));
    let result = parse_download_response("{\"ID\": 3, \"Output\": \"QQ==\"}");
    assert!(matches!(result, Err(DownloadError::DeserializationFailed(_))));
    let result = parse_download_response("{\"ID\": \"\", \"Output\": \"QQ==\", \"Path\": \"/x\"}");
    assert_eq!(result.unwrap(), "QQ==");
}

#[test]
fn upload_with_another_status_keeps_the_status() {
    for status in [200u16, 202, 400, 404, 500] {
        match handle_upload_response(status, Ok(jobd_response("id", "out"))) {
            Err(UploadError::UnexpectedStatus { status: s, body }) => {
                assert_eq!(s, status);
                assert_eq!(body, "");
            }
            other => panic!("unexpected: {:?}", other),
        }
    }
}

#[test]
fn download_response_that_cannot_be_read() {
    let result = handle_download_response(200, Err("timed out".to_string()));
    match result {
        Err(DownloadError::ResponseReadFailed(why)) => assert_eq!(why, "timed out"),
        other => panic!("unexpected: {:?}", other),
    }
}

#[test]
fn output_of_each_finding() {
    let text = |t: &str| Ok::<Option<Field>, String>(Some(Field::Text(t.to_string())));
    assert_eq!(output_of(text("id"), text("QQ==")).unwrap(), "QQ==");
    assert!(matches!(output_of(text("id"), Ok(None)), Err(DownloadError::DeserializationFailed(_))));
    assert!(matches!(output_of(Ok(None), text("QQ==")), Err(DownloadError::DeserializationFailed(_))));
    assert!(matches!(
        output_of(text("id"), Ok(Some(Field::Number(1)))),
        Err(DownloadError::DeserializationFailed(_))
    ));
    assert!(matches!(
        output_of(Ok(Some(Field::Other)), text("QQ==")),
        Err(DownloadError::DeserializationFailed(_))
    ));
    match output_of(Err("bad".to_string()), Err("bad".to_string())) {
        Err(DownloadError::DeserializationFailed(why)) => assert_eq!(why, "bad"),
        other => panic!("unexpected: {:?}", other),
    }
}

#[test]
fn download_response_with_output_of_another_type() {
    let result = parse_download_response("{\"ID\": \"a\", \"Output\": 12}");
    assert!(matches!(result, Err(DownloadError::DeserializationFailed(_))));
    let result = parse_download_response("[\"a\", \"b\"]");
    assert!(matches!(result, Err(DownloadError::DeserializationFailed(_))));
}

#[test]
fn download_response_with_escapes() {
    let body = jobd_response("id", "line\n\"quoted\" \u{e9}");
    assert_eq!(parse_download_response(&body).unwrap(), "line\n\"quoted\" \u{e9}");
}

#[test]
fn upload_data_holds_the_archive() {
    let archive = b"test\n".to_vec();
    let request = prepare_upload_data(&archive);
    assert_eq!(request.input, "dGVzdAo=");
    assert_eq!(request.input, base64_encode(&archive));
    assert!(!request.slurml);
    assert_eq!(request.id.len(), 36);
    let other = prepare_upload_data(&archive);
    assert_ne!(request.id, other.id);
}

#[test]
fn payload_is_read_from_the_job_directory() {
    assert_eq!(payload_path("/data/abc"), "/data/abc/payload.zip");
    assert_eq!(payload_path(""), "payload.zip");
}

#[test]
fn output_is_saved_round_trip() {
    let bytes: Vec<u8> = (0..=255u8).collect();
    let text = base64_encode(&bytes);
    let (path, back) = save_output_file(&text, "loc").unwrap();
    assert_eq!(path, "loc/output.zip");
    assert_eq!(back, bytes);
}

#[test]
fn test_prepare_upload_data() {
    // the archive of a job as it was read from payload.zip
    let archive = b"test\n".to_vec();
    let request = prepare_upload_data(&archive);
    assert_eq!(request.input, "dGVzdAo=");
    assert!(!request.slurml);
    assert_eq!(payload_path("/tmp/job"), "/tmp/job/payload.zip");
}

#[test]
fn test_jobd_upload() {
    // what is posted for the job
    let request = prepare_upload_data(&b"test\n".to_vec());
    assert_eq!(request.input, "dGVzdAo=");

    // what the service answers
    let result = handle_upload_response(201, Ok(jobd_response("test-id", "test-output")));
    assert!(result.is_ok());
    assert_eq!(result.unwrap(), "test-id");
}

#[test]
fn test_jobd_download() {
    let dest_id = "test-123".to_string();
    let url = construct_download_url("http://127.0.0.1:1234", &dest_id);
    assert_eq!(url, "http://127.0.0.1:1234/test-123");

    // what the service answers
    let body = jobd_response(&dest_id, "UEsFBgAAAAAAAAAAAAAAAAAAAAAAAA==");
    let text = handle_download_response(200, Ok(body)).unwrap();
    let output = parse_download_response(&text).unwrap();
    let result = save_output_file(&output, "/tmp/job");
    assert!(result.is_ok());

    // the file to write
    let (path, bytes) = result.unwrap();
    assert_eq!(path, "/tmp/job/output.zip");
    assert_eq!(bytes.len(), 22);
}
