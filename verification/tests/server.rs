use kosh::api::{
    check_segment_name, decode_hash, failure_message, frame_delta, missing_blob, parse_u64, register_identity,
    register_outcome, register_start, unowned_asset, upload_status, validate_upload, AppendReceipt, RegisterAction,
    AppendResponse, FileStatus, RegisterRequest, MAX_UPLOAD_BYTES,
};
use kosh::color::Color;
use kosh::config::{
    default_config_text, default_host, default_socket_path, default_vault_path, join_path, Config, DEFAULT_PORT,
};
use kosh::logger::{
    self, day_index, decode_entry, encode_entry, format_date_time, level_from_index, level_to_index,
    module_from_index, module_to_index, DailyLog, Level, Module, DAY_MILLIS,
};
use kosh::api::Error as ApiError;
use kosh::error::internal::Error as InternalError;
use kosh::model::Error as ModelError;
use kosh::model::{AssetTag, DbFailure};
use kosh::Error as AppError;
use kosh::Loggable;

fn bad_request(msg: &str) -> ApiError {
    ApiError::BadRequest(msg.to_string())
}

#[test]
fn entry_wire_bytes() {
    let e = logger::Entry { module: Module::Server, level: Level::Info, timestamp_ms: 100, message: "Valid".into() };
    let bytes = encode_entry(&e);
    assert_eq!(bytes, vec![0, 0, 200, 5, b'V', b'a', b'l', b'i', b'd']);

    let api = logger::Entry { module: Module::Api, level: Level::Shutdown, timestamp_ms: -1, message: String::new() };
    assert_eq!(encode_entry(&api), vec![4, 4, 1, 0]);

    let mut stream = bytes.clone();
    stream.extend([9u8, 9, 9]);
    let (back, n) = decode_entry(&stream, 0).expect("decodes");
    assert_eq!(n, bytes.len());
    assert_eq!((back.module, back.level, back.timestamp_ms), (Module::Server, Level::Info, 100));
    assert_eq!(back.message, "Valid");
    assert!(decode_entry(&stream, n).is_none());
    assert!(decode_entry(&bytes[..bytes.len() - 1], 0).is_none());
}

#[test]
fn variant_positions() {
    assert_eq!(level_to_index(Level::Shutdown), 4);
    assert_eq!(module_to_index(Module::Api), 4);
    assert_eq!(module_to_index(Module::Logger), 6);
    assert_eq!(level_from_index(2), Some(Level::Error));
    assert_eq!(level_from_index(5), None);
    assert_eq!(module_from_index(5), Some(Module::Ledger));
    assert_eq!(module_from_index(7), None);
}

#[test]
fn daily_file_names() {
    assert_eq!(format_date_time(0), "log_1970-1-1.bin");
    assert_eq!(format_date_time(1_700_000_000_000), "log_2023-11-14.bin");
    assert_eq!(format_date_time(-1), "log_1969-12-31.bin");
    assert_eq!(format_date_time(i64::MAX), "log_1970-1-1.bin", "out of range falls back to the epoch");
}

#[test]
fn day_numbers_truncate() {
    assert_eq!(DAY_MILLIS, 86_400_000);
    assert_eq!(day_index(0), 0);
    assert_eq!(day_index(86_399_999), 0);
    assert_eq!(day_index(86_400_000), 1);
    assert_eq!(day_index(-1), 0);
    assert_eq!(day_index(-86_400_001), -1);
    assert_eq!(day_index(i64::MIN), i64::MIN / 86_400_000);
}

#[test]
fn file_rotation_plan() {
    let (mut state, first) = DailyLog::start(1_000);
    assert_eq!(first, "log_1970-1-1.bin");
    assert_eq!(state.today, 0);

    let same_day = logger::Entry { module: Module::Logger, level: Level::Info, timestamp_ms: 5_000, message: "a".into() };
    let plan = state.plan(&same_day);
    assert!(plan.new_file.is_none());
    assert!(!plan.stop);
    assert_eq!(plan.disk_bytes, encode_entry(&same_day));

    let next_day = logger::Entry {
        module: Module::Logger,
        level: Level::Shutdown,
        timestamp_ms: DAY_MILLIS + 5,
        message: "bye".into(),
    };
    let plan = state.plan(&next_day);
    assert_eq!(plan.new_file, Some(("log_1970-1-2.bin".to_string(), 1)));
    assert!(plan.stop);
    state.rotated(1);
    assert!(state.plan(&next_day).new_file.is_none());
}

#[test]
fn hash_decoding() {
    assert_eq!(decode_hash("00fFA9"), Ok(vec![0, 255, 169]));
    assert_eq!(decode_hash(""), Ok(vec![]));
    assert_eq!(decode_hash("abc"), Err(bad_request("Invalid Hash Format")));
    assert_eq!(decode_hash("0g"), Err(bad_request("Invalid Hash Format")));
    let req = RegisterRequest { identity_hash: "zz".into(), auth_verifier: "v".into() };
    assert_eq!(register_identity(&req), Err(bad_request("identity_hash failed to decode")));
    let req = RegisterRequest { identity_hash: "0102".into(), auth_verifier: "v".into() };
    assert_eq!(register_identity(&req), Ok(vec![1, 2]));
}

#[test]
fn registration_outcomes() {
    assert_eq!(register_outcome(Ok(())), Ok(201));
    let dup = ModelError::Database(DbFailure { message: "UNIQUE".into(), unique_violation: true });
    assert_eq!(register_outcome(Err(dup)), Err(AppError::Conflict("User already exists".into())));
    let other = ModelError::Database(DbFailure { message: "locked".into(), unique_violation: false });
    assert_eq!(
        register_outcome(Err(other)),
        Err(AppError::ModelError(ModelError::Database(DbFailure { message: "locked".into(), unique_violation: false })))
    );
    assert_eq!(register_outcome(Err(ModelError::AssetNotFound)), Err(AppError::ModelError(ModelError::AssetNotFound)));
}

#[test]
fn asset_answers() {
    assert_eq!(unowned_asset(), AppError::ApiError(ApiError::NotFound("Asset not found or Unauthorized".into())));
    assert_eq!(missing_blob(), ApiError::NotFound("File Missing".into()));
}

#[test]
fn number_parsing() {
    assert_eq!(parse_u64("42"), Some(42));
    assert_eq!(parse_u64("+7"), Some(7));
    assert_eq!(parse_u64("007"), Some(7));
    assert_eq!(parse_u64(""), None);
    assert_eq!(parse_u64("+"), None);
    assert_eq!(parse_u64("-1"), None);
    assert_eq!(parse_u64(" 1"), None);
    assert_eq!(parse_u64("18446744073709551615"), Some(u64::MAX));
    assert_eq!(parse_u64("18446744073709551616"), None);
}

#[test]
fn upload_validation() {
    assert_eq!(MAX_UPLOAD_BYTES, 10_000_000_000);
    assert_eq!(validate_upload("4", Some("a"), Some("1")).unwrap_err(), bad_request("Invalid Tag"));
    assert_eq!(validate_upload("1", None, Some("1")).unwrap_err(), bad_request("Missing X-File-Name header"));
    assert_eq!(validate_upload("1", Some("a"), None).unwrap_err(), bad_request("Missing content length in header"));
    assert_eq!(
        validate_upload("1", Some("a"), Some("ten")).unwrap_err(),
        bad_request("Missing content length in header")
    );
    assert_eq!(validate_upload("1", Some("a"), Some("10000000001")).unwrap_err(), bad_request("Payload too Large"));
    let ok = validate_upload("2", Some("a.txt"), Some("10000000000")).expect("valid");
    assert_eq!(ok.tag, AssetTag::DriveMeta);
    assert_eq!(ok.file_name, "a.txt");
    assert_eq!(ok.expected_size, 10_000_000_000);
}

#[test]
fn asset_tags() {
    assert_eq!(AssetTag::try_from("0"), Ok(AssetTag::GalleryMeta));
    assert_eq!(AssetTag::try_from("3"), Ok(AssetTag::DriveItem));
    assert_eq!(AssetTag::try_from("03"), Err(()));
    assert_eq!(AssetTag::try_from(""), Err(()));
    assert_eq!(AssetTag::GalleryItem.code(), 1);
    assert_eq!(AssetTag::DriveItem.code(), 3);
}

#[test]
fn upload_statuses() {
    assert_eq!(
        upload_status("f", Ok("h".into()), Ok(())),
        FileStatus::Success { file_name: "f".into(), hash: "h".into() }
    );
    assert_eq!(
        upload_status("f", Ok("h".into()), Err("db down".into())),
        FileStatus::Failure { file_name: "f".into(), error: "db down".into() }
    );
    assert_eq!(
        upload_status("f", Err("disk full".into()), Ok(())),
        FileStatus::Failure { file_name: "f".into(), error: "disk full".into() }
    );
    let r = AppendResponse::from(AppendReceipt { file_name: "delta_0000001".into(), offset: 500 });
    assert_eq!((r.file_name.as_str(), r.offset), ("delta_0000001", 500));
}

#[test]
fn segment_names() {
    assert_eq!(check_segment_name("../../../etc/passwd"), Err(bad_request("Invalid file name")));
    assert_eq!(check_segment_name("delta_0000001"), Ok(()));
    assert_eq!(check_segment_name("delta_00000099"), Ok(()));
    assert_eq!(check_segment_name("delta_/x"), Err(bad_request("Invalid file name")));
    assert_eq!(check_segment_name("delta_\\x"), Err(bad_request("Invalid file name")));
    assert_eq!(check_segment_name("delta"), Err(bad_request("Invalid file name")));
    assert_eq!(check_segment_name("xdelta_1"), Err(bad_request("Invalid file name")));
}

#[test]
fn delta_framing() {
    assert_eq!(frame_delta(b"PAYLOAD"), b"\x07\x00\x00\x00PAYLOAD".to_vec());
    assert_eq!(frame_delta(b""), vec![0, 0, 0, 0]);
    let big = vec![1u8; 300];
    let framed = frame_delta(&big);
    assert_eq!(&framed[..4], &[44, 1, 0, 0]);
    assert_eq!(framed.len(), 304);
}

#[test]
fn failure_log_message() {
    assert_eq!(failure_message("1.2.3.4:80", "GET", "/sync", "boom"), "[1.2.3.4:80] GET /sync FAILED:\nboom");
}

#[test]
fn api_error_responses() {
    let cases = [
        (bad_request("no"), 400, "no", Level::Warning),
        (ApiError::Unauthorized("who".into()), 401, "who", Level::Warning),
        (ApiError::NotFound("gone".into()), 404, "gone", Level::Info),
        (ApiError::MalformedMultipart, 400, "Malformed Multipart Payload", Level::Error),
        (ApiError::MissingField, 400, "Missing required field", Level::Warning),
        (ApiError::InvalidHeader("x".into()), 400, "Invalid Header Value", Level::Error),
        (ApiError::StreamReadError, 500, "Internal Server Error", Level::Error),
        (ApiError::IoError("disk".into()), 500, "Internal Server Error", Level::Error),
        (ApiError::Internal(InternalError::Message("m".into())), 500, "Internal Server Error", Level::Error),
    ];
    for (err, status, body, level) in cases {
        let r = err.into_response();
        assert_eq!(r.status, status);
        assert_eq!(r.body, body);
        assert_eq!(err.log_level(), level);
        assert_eq!(err.log_module(), Module::Api);
    }
}

#[test]
fn model_error_responses() {
    assert_eq!(ModelError::AssetNotFound.into_response(), (404, "Asset not found in database"));
    let db = ModelError::Database(DbFailure { message: "x".into(), unique_violation: false });
    assert_eq!(db.into_response(), (500, "Internal Server Error"));
    assert_eq!(db.log_level(), Level::Error);
    assert_eq!(ModelError::AssetNotFound.log_level(), Level::Info);
    let internal = ModelError::Internal(InternalError::TimerError("clock".into()));
    assert_eq!(internal.log_level(), Level::Fatal);
    assert_eq!(internal.log_module(), Module::Database);
}

#[test]
fn configuration_paths() {
    assert_eq!(DEFAULT_PORT, 6969);
    assert_eq!(default_vault_path(), "./vault");
    assert_eq!(default_host(), "0.0.0.0");
    assert_eq!(default_socket_path(), "/tmp/kosh.sock");
    assert!(default_config_text().contains("port 6969"));
    assert_eq!(join_path("./vault", "state"), "./vault/state");
    assert_eq!(join_path("/v/", "tls"), "/v/tls");
    assert_eq!(join_path("", "logs"), "logs");
    let cfg = Config {
        vault_path: "/srv/kosh".into(),
        port: 1,
        host: "h".into(),
        enable_tls: true,
        socket_path: "/tmp/s".into(),
    };
    assert_eq!(cfg.log_path(), "/srv/kosh/state/logs");
    assert_eq!(cfg.tls_identity_path(), "/srv/kosh/tls");
}

#[test]
fn ansi_colours() {
    assert_eq!("hi".bold(), "\x1b[1mhi\x1b[0m");
    assert_eq!("hi".italic(), "\x1b[2mhi\x1b[0m");
    assert_eq!(String::from("x").warn(), "\x1b[33mx\x1b[0m");
    assert_eq!(42u64.error(), "\x1b[31m42\x1b[0m");
    assert_eq!((-5i64).info(), "\x1b[36m-5\x1b[0m");
    assert_eq!(0u64.debug(), "\x1b[90m0\x1b[0m");
}

#[test]
fn registration_first_step() {
    let bad = RegisterRequest { identity_hash: "xyz".into(), auth_verifier: "v".into() };
    assert_eq!(
        register_start(bad),
        RegisterAction::Answer(Err(AppError::ApiError(bad_request("identity_hash failed to decode"))))
    );
    let good = RegisterRequest { identity_hash: "ab01".into(), auth_verifier: "ver".into() };
    assert_eq!(
        register_start(good),
        RegisterAction::Insert { identity_hash: vec![0xab, 0x01], auth_verifier: "ver".into() }
    );
}

#[test]
fn oversized_length_prefix_is_refused() {
    let mut huge = vec![0u8, 0, 0, 0xFD];
    huge.extend([0xFFu8; 8]);
    assert!(decode_entry(&huge, 0).is_none());
    let mut big = vec![0u8, 0, 0, 0xFD];
    big.extend(20_000_000u64.to_le_bytes());
    big.extend([b'x'; 16]);
    assert!(decode_entry(&big, 0).is_none());
    let mut app = kosh::app::App::default();
    assert!(app.try_append(&huge));
    assert!(app.entries.logs.is_empty());
    assert!(kosh::list::EntryList::try_init_or_default(&huge).expect("decodes to nothing").logs.is_empty());
}
