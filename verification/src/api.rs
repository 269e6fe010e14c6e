//! The HTTP layer's decisions: request validation, framing, and how errors are answered and logged.
use vstd::prelude::*;
use vstd::utf8::encode_utf8;

use crate::logger::{Level, Module};
use crate::error::Error as AppError;
use crate::model::{spec_tag_of, AssetTag, Error as ModelError};
use crate::text::{push_str, str_has_char, str_starts_with};
use crate::Loggable;

verus! {

/// Errors raised while processing an HTTP request.
#[derive(Debug, PartialEq, Eq)]
pub enum Error {
    /// The multipart body could not be parsed.
    MalformedMultipart,
    /// The request violates the API contract; the text is safe to send back.
    BadRequest(String),
    /// Reading the request body failed mid-transfer.
    StreamReadError,
    /// A required field was absent.
    MissingField,
    /// An I/O failure, with its description.
    IoError(String),
    /// The request could not be authenticated; the text is safe to send back.
    Unauthorized(String),
    /// A low-level internal failure.
    Internal(crate::error::internal::Error),
    /// The resource does not exist or is not the caller's; the text is safe to send back.
    NotFound(String),
    /// A header value could not be built, with its description.
    InvalidHeader(String),
}

/// The HTTP status and body an API error is answered with. Client errors carry their message;
/// internal failures are reduced to a generic message.
pub open spec fn spec_api_response(e: &Error) -> (u16, Seq<char>) {
    match e {
        Error::BadRequest(m) => (400, m@),
        Error::Unauthorized(m) => (401, m@),
        Error::NotFound(m) => (404, m@),
        Error::MalformedMultipart => (400, "Malformed Multipart Payload"@),
        Error::MissingField => (400, "Missing required field"@),
        Error::InvalidHeader(_) => (400, "Invalid Header Value"@),
        _ => (500, "Internal Server Error"@),
    }
}

/// A response to send: status code and body text.
#[derive(Debug, PartialEq, Eq)]
pub struct Response {
    /// The HTTP status code.
    pub status: u16,
    /// The body text.
    pub body: String,
}

impl Error {
    /// The response this error is answered with.
    pub fn into_response(&self) -> (r: Response)
        ensures
            (r.status, r.body@) == spec_api_response(self),
    {
        match self {
            Error::BadRequest(msg) => Response { status: 400, body: msg.clone() },
            Error::Unauthorized(msg) => Response { status: 401, body: msg.clone() },
            Error::NotFound(msg) => Response { status: 404, body: msg.clone() },
            Error::MalformedMultipart => Response {
                status: 400,
                body: String::from_str("Malformed Multipart Payload"),
            },
            Error::MissingField => Response { status: 400, body: String::from_str("Missing required field") },
            Error::InvalidHeader(_) => Response { status: 400, body: String::from_str("Invalid Header Value") },
            _ => Response { status: 500, body: String::from_str("Internal Server Error") },
        }
    }
}

impl Loggable for Error {
    /// Client mistakes are warnings, missing resources routine, everything else an error.
    fn log_level(&self) -> (r: Level)
        ensures
            r == match self {
                Error::BadRequest(_) | Error::Unauthorized(_) | Error::MissingField => Level::Warning,
                Error::NotFound(_) => Level::Info,
                _ => Level::Error,
            },
    {
        match self {
            Error::BadRequest(_) | Error::Unauthorized(_) | Error::MissingField => Level::Warning,
            Error::NotFound(_) => Level::Info,
            _ => Level::Error,
        }
    }

    /// API errors come from the HTTP layer.
    fn log_module(&self) -> (r: Module)
        ensures
            r == Module::Api,
    {
        Module::Api
    }
}

/// `e` is a bad request with message `msg`.
pub open spec fn is_bad_request(e: Error, msg: Seq<char>) -> bool {
    match e {
        Error::BadRequest(m) => m@ == msg,
        _ => false,
    }
}

/// `r` failed as a bad request with message `msg`.
pub open spec fn fails_bad_request<T>(r: Result<T, Error>, msg: Seq<char>) -> bool {
    match r {
        Err(e) => is_bad_request(e, msg),
        Ok(_) => false,
    }
}

/// `e` is a not-found error with message `msg`.
pub open spec fn is_not_found(e: Error, msg: Seq<char>) -> bool {
    match e {
        Error::NotFound(m) => m@ == msg,
        _ => false,
    }
}

/// The value of an ASCII hex digit, either case.
pub open spec fn hex_val(b: u8) -> Option<u8> {
    if 65 <= b <= 70 {
        Some((b - 55) as u8)
    } else if 97 <= b <= 102 {
        Some((b - 87) as u8)
    } else if 48 <= b <= 57 {
        Some((b - 48) as u8)
    } else {
        None
    }
}

/// The bytes a hex text denotes: two digits per byte, high digit first; `None` for an odd length
/// or a character that is no hex digit.
pub open spec fn hex_decode_spec(b: Seq<u8>) -> Option<Seq<u8>> {
    if b.len() % 2 != 0 {
        None
    } else if exists|i: int| 0 <= i < b.len() && (#[trigger] hex_val(b[i])) is None {
        None
    } else {
        Some(Seq::new((b.len() / 2) as nat, |i: int| (hex_val(b[2 * i])->0 * 16 + hex_val(b[2 * i + 1])->0) as u8))
    }
}

/// Calls `hex::decode` on the UTF-8 bytes of `s`. As its source shows, it fails on an odd length
/// or a byte outside `0-9`, `a-f`, `A-F`, and otherwise turns each pair of digits into one byte,
/// high digit first.
#[verifier::external_body]
fn hex_decode(s: &str) -> (r: Option<Vec<u8>>)
    ensures
        r is Some <==> hex_decode_spec(encode_utf8(s@)) is Some,
        r matches Some(v) ==> hex_decode_spec(encode_utf8(s@)) == Some(v@),
{
    hex::decode(s).ok()
}

/// Decodes a hex content hash from a request path; an undecodable hash is a bad request.
pub fn decode_hash(hash_str: &str) -> (r: Result<Vec<u8>, Error>)
    ensures
        r matches Ok(v) ==> hex_decode_spec(encode_utf8(hash_str@)) == Some(v@),
        r is Err ==> hex_decode_spec(encode_utf8(hash_str@)) is None && fails_bad_request(r, "Invalid Hash Format"@),
{
    match hex_decode(hash_str) {
        Some(v) => Ok(v),
        None => Err(Error::BadRequest(String::from_str("Invalid Hash Format"))),
    }
}

/// The body of a registration request.
#[derive(Debug)]
pub struct RegisterRequest {
    /// The hex-encoded identity hash.
    pub identity_hash: String,
    /// The authentication verifier.
    pub auth_verifier: String,
}

/// Decodes the identity hash of a registration; an undecodable hash is a bad request.
pub fn register_identity(req: &RegisterRequest) -> (r: Result<Vec<u8>, Error>)
    ensures
        r matches Ok(v) ==> hex_decode_spec(encode_utf8(req.identity_hash@)) == Some(v@),
        r is Err ==> hex_decode_spec(encode_utf8(req.identity_hash@)) is None && fails_bad_request(r,
            "identity_hash failed to decode"@),
{
    match hex_decode(req.identity_hash.as_str()) {
        Some(v) => Ok(v),
        None => Err(Error::BadRequest(String::from_str("identity_hash failed to decode"))),
    }
}

/// What a registration does next: insert the decoded identity, or answer without touching the
/// database.
#[derive(Debug, PartialEq, Eq)]
pub enum RegisterAction {
    /// Insert a user with this identity hash and verifier.
    Insert {
        /// The decoded identity hash.
        identity_hash: Vec<u8>,
        /// The verifier as sent.
        auth_verifier: String,
    },
    /// Answer the request now.
    Answer(Result<u16, AppError>),
}

/// The first step of a registration: a hash that decodes leads to an insert of that hash with the
/// request's verifier; one that does not is answered as a bad request before any database work.
pub fn register_start(req: RegisterRequest) -> (r: RegisterAction)
    ensures
        hex_decode_spec(encode_utf8(req.identity_hash@)) matches Some(h) ==> (match r {
            RegisterAction::Insert { identity_hash, auth_verifier } => identity_hash@ == h && auth_verifier
                == req.auth_verifier,
            _ => false,
        }),
        hex_decode_spec(encode_utf8(req.identity_hash@)) is None ==> (match r {
            RegisterAction::Answer(Err(AppError::ApiError(e))) => is_bad_request(e,
                "identity_hash failed to decode"@),
            _ => false,
        }),
{
    match register_identity(&req) {
        Ok(identity_hash) => RegisterAction::Insert { identity_hash, auth_verifier: req.auth_verifier },
        Err(e) => RegisterAction::Answer(Err(AppError::ApiError(e))),
    }
}

/// The database refused a row because it would duplicate a unique value.
pub open spec fn is_unique_violation(db: Result<(), ModelError>) -> bool {
    match db {
        Err(ModelError::Database(f)) => f.unique_violation,
        _ => false,
    }
}

/// The answer to a registration given what the database said: `201 Created` on success, a
/// conflict when the identity is already registered, and the model error otherwise.
pub fn register_outcome(db: Result<(), ModelError>) -> (r: Result<u16, AppError>)
    ensures
        db is Ok ==> r == Ok::<u16, AppError>(201),
        is_unique_violation(db) ==> (match r {
            Err(AppError::Conflict(m)) => m@ == "User already exists"@,
            _ => false,
        }),
        db is Err && !is_unique_violation(db) ==> r == Err::<u16, AppError>(AppError::ModelError(db->Err_0)),
{
    match db {
        Ok(()) => Ok(201),
        Err(ModelError::Database(f)) => {
            if f.unique_violation {
                Err(AppError::Conflict(String::from_str("User already exists")))
            } else {
                Err(AppError::ModelError(ModelError::Database(f)))
            }
        },
        Err(e) => Err(AppError::ModelError(e)),
    }
}

/// The answer to a download when the user does not own the asset.
pub fn unowned_asset() -> (r: AppError)
    ensures
        (match r {
            AppError::ApiError(e) => is_not_found(e, "Asset not found or Unauthorized"@),
            _ => false,
        }),
{
    AppError::ApiError(Error::NotFound(String::from_str("Asset not found or Unauthorized")))
}

/// The answer to a download when the owned blob is missing from the vault.
pub fn missing_blob() -> (r: Error)
    ensures
        is_not_found(r, "File Missing"@),
{
    Error::NotFound(String::from_str("File Missing"))
}

/// Whether a character is an ASCII decimal digit.
pub open spec fn is_digit(c: char) -> bool {
    '0' <= c && c <= '9'
}

/// The number a run of decimal digits denotes.
pub open spec fn digits_value(d: Seq<char>) -> nat
    decreases d.len(),
{
    if d.len() == 0 {
        0
    } else {
        digits_value(d.drop_last()) * 10 + ((d.last() as u32) - 48) as nat
    }
}

/// The digits of a number text after an optional leading `+`.
pub open spec fn unsigned_digits(s: Seq<char>) -> Seq<char> {
    if s.len() > 0 && s[0] == '+' {
        s.skip(1)
    } else {
        s
    }
}

/// What `u64::from_str` gives: an optional `+`, then at least one decimal digit, denoting a
/// number that fits in a `u64`; anything else is no number.
pub open spec fn spec_parse_u64(s: Seq<char>) -> Option<u64> {
    let d = unsigned_digits(s);
    if d.len() > 0 && (forall|i: int| 0 <= i < d.len() ==> is_digit(#[trigger] d[i])) && digits_value(d)
        <= u64::MAX {
        Some(digits_value(d) as u64)
    } else {
        None
    }
}

/// Parses a decimal `u64` the way `u64::from_str` does.
pub fn parse_u64(s: &str) -> (r: Option<u64>)
    ensures
        r == spec_parse_u64(s@),
{
    let cs = crate::text::chars_of(s);
    let start: usize = if cs.len() > 0 && cs[0] == '+' {
        1
    } else {
        0
    };
    let ghost d = unsigned_digits(s@);
    proof {
        assert(d =~= s@.skip(start as int));
    }
    if start == cs.len() {
        return None;
    }
    let mut acc: u128 = 0;
    let mut over = false;
    let mut i: usize = start;
    while i < cs.len()
        invariant
            cs@ == s@,
            d == unsigned_digits(s@),
            d == s@.skip(start as int),
            start <= i <= cs@.len(),
            forall|j: int| 0 <= j < i - start ==> is_digit(#[trigger] d[j]),
            !over ==> acc == digits_value(d.take(i - start)) && acc <= u64::MAX,
            over ==> digits_value(d.take(i - start)) > u64::MAX,
        decreases cs.len() - i,
    {
        let c = cs[i];
        proof {
            assert(d[i - start] == c);
        }
        if !('0' <= c && c <= '9') {
            assert(!is_digit(d[i - start]));
            assert(d.len() == s@.len() - start);
            assert(!(forall|j: int| 0 <= j < d.len() ==> is_digit(#[trigger] d[j])));
            assert(spec_parse_u64(s@) is None);
            return None;
        }
        let dig: u128 = ((c as u32) - 48) as u128;
        proof {
            let t = d.take(i - start + 1);
            assert(t.drop_last() =~= d.take(i - start));
            assert(t.last() == c);
            assert(digits_value(t) == digits_value(d.take(i - start)) * 10 + dig);
        }
        if !over {
            acc = acc * 10 + dig;
            if acc > 18446744073709551615u128 {
                over = true;
            }
        }
        i += 1;
    }
    proof {
        assert(d.take(i - start) =~= d);
    }
    if over {
        None
    } else {
        Some(acc as u64)
    }
}

/// The largest upload accepted, in bytes.
pub const MAX_UPLOAD_BYTES: u64 = 10_000_000_000;

/// A validated upload request.
#[derive(Debug)]
pub struct UploadRequest {
    /// The section the asset belongs to.
    pub tag: AssetTag,
    /// The file name the client sent.
    pub file_name: String,
    /// The size the client announced.
    pub expected_size: u64,
}

/// The content length header is present and holds a number.
pub open spec fn length_given(c: Option<&str>) -> bool {
    match c {
        Some(t) => spec_parse_u64(t@) is Some,
        None => false,
    }
}

/// The number the content length header holds.
pub open spec fn given_length(c: Option<&str>) -> u64 {
    spec_parse_u64(c->0@)->0
}

/// Checks an upload's path tag and headers, in order: the tag must be `0`-`3`, the file name header
/// must be present, the content length must be present and a number, and at most ten gigabytes.
pub fn validate_upload(tag_str: &str, file_name: Option<&str>, content_length: Option<&str>) -> (r: Result<
    UploadRequest,
    Error,
>)
    ensures
        spec_tag_of(tag_str@) is None ==> fails_bad_request(r, "Invalid Tag"@),
        spec_tag_of(tag_str@) is Some && file_name is None ==> fails_bad_request(r, "Missing X-File-Name header"@),
        spec_tag_of(tag_str@) is Some && file_name is Some && !length_given(content_length) ==> fails_bad_request(r,
            "Missing content length in header"@),
        spec_tag_of(tag_str@) is Some && file_name is Some && length_given(content_length) && given_length(content_length)
            > MAX_UPLOAD_BYTES ==> fails_bad_request(r, "Payload too Large"@),
        spec_tag_of(tag_str@) is Some && file_name is Some && length_given(content_length) && given_length(content_length)
            <= MAX_UPLOAD_BYTES ==> (match r {
            Ok(u) => spec_tag_of(tag_str@) == Some(u.tag) && u.file_name@ == file_name->0@ && u.expected_size
                == given_length(content_length),
            Err(_) => false,
        }),
{
    let tag = match AssetTag::try_from(tag_str) {
        Ok(t) => t,
        Err(()) => {
            return Err(Error::BadRequest(String::from_str("Invalid Tag")));
        },
    };
    let name = match file_name {
        Some(f) => f,
        None => {
            return Err(Error::BadRequest(String::from_str("Missing X-File-Name header")));
        },
    };
    let size = match content_length {
        Some(c) => match parse_u64(c) {
            Some(n) => n,
            None => {
                return Err(Error::BadRequest(String::from_str("Missing content length in header")));
            },
        },
        None => {
            return Err(Error::BadRequest(String::from_str("Missing content length in header")));
        },
    };
    if size > MAX_UPLOAD_BYTES {
        return Err(Error::BadRequest(String::from_str("Payload too Large")));
    }
    Ok(UploadRequest { tag, file_name: String::from_str(name), expected_size: size })
}

/// The per-file result of an upload.
#[derive(Debug, PartialEq, Eq)]
pub enum FileStatus {
    /// The file was stored and registered under its content hash.
    Success {
        /// The file name the client sent.
        file_name: String,
        /// The content hash.
        hash: String,
    },
    /// The file could not be stored or registered.
    Failure {
        /// The file name the client sent.
        file_name: String,
        /// The description of the failure.
        error: String,
    },
}

impl FileStatus {
    /// A stored file.
    pub fn success(file_name: String, hash: String) -> (r: Self)
        ensures
            r == (FileStatus::Success { file_name, hash }),
    {
        FileStatus::Success { file_name, hash }
    }

    /// A failed file, with the description of the failure.
    pub fn failure(file_name: String, error: &str) -> (r: Self)
        ensures
            r is Failure && r->Failure_file_name == file_name && r->Failure_error@ == error@,
    {
        FileStatus::Failure { file_name, error: String::from_str(error) }
    }
}

/// What happened to an uploaded file: stored then registered (with its hash), or the first
/// failure's description.
pub fn upload_status(file_name: &str, stored: Result<String, String>, registered: Result<(), String>) -> (r: FileStatus)
    ensures
        r == match stored {
            Ok(h) => match registered {
                Ok(()) => FileStatus::Success { file_name: r->Success_file_name, hash: h },
                Err(e) => FileStatus::Failure { file_name: r->Failure_file_name, error: r->Failure_error },
            },
            Err(e) => FileStatus::Failure { file_name: r->Failure_file_name, error: r->Failure_error },
        },
        stored is Ok && registered is Ok ==> r is Success && r->Success_file_name@ == file_name@,
        stored is Ok && registered is Err ==> r is Failure && r->Failure_file_name@ == file_name@
            && r->Failure_error@ == registered->Err_0@,
        stored is Err ==> r is Failure && r->Failure_file_name@ == file_name@ && r->Failure_error@ == stored->Err_0@,
{
    match stored {
        Ok(hash) => match registered {
            Ok(()) => FileStatus::success(String::from_str(file_name), hash),
            Err(e) => FileStatus::failure(String::from_str(file_name), e.as_str()),
        },
        Err(e) => FileStatus::failure(String::from_str(file_name), e.as_str()),
    }
}

/// Where a ledger append landed.
#[derive(Debug)]
pub struct AppendReceipt {
    /// The segment file written to.
    pub file_name: String,
    /// The byte offset just after the written payload.
    pub offset: u64,
}

/// The answer to a ledger append: the cursor the client resumes from.
#[derive(Debug)]
pub struct AppendResponse {
    /// The segment file written to.
    pub file_name: String,
    /// The byte offset just after the written payload.
    pub offset: u64,
}

impl AppendResponse {
    /// The response for a receipt: the same segment and offset.
    pub fn from(reciept: AppendReceipt) -> (r: Self)
        ensures
            r.file_name == reciept.file_name,
            r.offset == reciept.offset,
    {
        AppendResponse { file_name: reciept.file_name, offset: reciept.offset }
    }
}

/// The query of a ledger read.
#[derive(Debug)]
pub struct SyncRequest {
    /// The segment file to read.
    pub file: String,
    /// The byte offset to start at.
    pub offset: u64,
}

/// The query of a ledger prune.
#[derive(Debug)]
pub struct PruneRequest {
    /// Segments with a smaller id are deleted.
    pub before: u32,
}

/// A segment name is acceptable when it holds no path separator and starts with `delta_`.
pub open spec fn valid_segment_name(f: Seq<char>) -> bool {
    &&& !f.contains('\\')
    &&& !f.contains('/')
    &&& 6 <= f.len() && f.subrange(0, 6) == "delta_"@
}

/// Rejects segment names that could leave the ledger directory or name something else.
pub fn check_segment_name(file: &str) -> (r: Result<(), Error>)
    ensures
        r is Ok <==> valid_segment_name(file@),
        r is Err ==> fails_bad_request(r, "Invalid file name"@),
{
    proof {
        reveal_strlit("delta_");
    }
    if str_has_char(file, '\\') || str_has_char(file, '/') || !str_starts_with(file, "delta_") {
        Err(Error::BadRequest(String::from_str("Invalid file name")))
    } else {
        Ok(())
    }
}

/// The four little-endian bytes of a `u32`.
pub open spec fn le_bytes(n: u32) -> Seq<u8> {
    seq![(n % 256) as u8, ((n / 256) % 256) as u8, ((n / 65536) % 256) as u8, ((n / 16777216) % 256) as u8]
}

/// A ledger payload framed for storage: its length as a little-endian `u32` (wrapping), then the
/// payload bytes.
pub fn frame_delta(body: &[u8]) -> (r: Vec<u8>)
    ensures
        r@ == le_bytes((body@.len() % 4294967296) as u32) + body@,
{
    let len: u32 = ((body.len() as u64) % 4294967296u64) as u32;
    let mut payload: Vec<u8> = Vec::new();
    payload.push((len % 256) as u8);
    payload.push(((len / 256) % 256) as u8);
    payload.push(((len / 65536) % 256) as u8);
    payload.push(((len / 16777216) % 256) as u8);
    let mut i: usize = 0;
    while i < body.len()
        invariant
            i <= body@.len(),
            payload@ == le_bytes(len) + body@.take(i as int),
        decreases body@.len() - i,
    {
        payload.push(body[i]);
        i += 1;
        assert(payload@ =~= le_bytes(len) + body@.take(i as int));
    }
    assert(body@.take(i as int) =~= body@);
    payload
}

/// The log message of a failed request: `[addr] METHOD path FAILED:` then a newline and the error.
pub open spec fn spec_failure_message(addr: Seq<char>, method: Seq<char>, path: Seq<char>, msg: Seq<char>) -> Seq<char> {
    seq!['['] + addr + "] "@ + method + seq![' '] + path + " FAILED:\n"@ + msg
}

/// Builds the log message of a failed request.
pub fn failure_message(addr: &str, method: &str, path: &str, msg: &str) -> (r: String)
    ensures
        r@ == spec_failure_message(addr@, method@, path@, msg@),
{
    let mut r = String::new();
    r.push('[');
    push_str(&mut r, addr);
    push_str(&mut r, "] ");
    push_str(&mut r, method);
    r.push(' ');
    push_str(&mut r, path);
    push_str(&mut r, " FAILED:\n");
    push_str(&mut r, msg);
    r
}

} // verus!
