use hmac::digest::InvalidLength;
use s3rs::canonical::{canonicalize, SigningRequest};
use s3rs::sign::{
    authorization_header, authorize, check_well_formed, code_or_failure, derive_signing_key,
    keyed_hash, scope, sign, sign_request, string_to_sign, Credential, SignError,
};

const IAM_SECRET: &str = "wJalrXUtnFEMI/K7MDENG+bPxRfiCYEXAMPLEKEY";
const S3_SECRET: &str = "wJalrXUtnFEMI/K7MDENG/bPxRfiCYEXAMPLEKEY";

fn hex(bytes: &[u8]) -> String {
    let mut out = String::new();
    for b in bytes {
        out.push_str(&format!("{:02x}", b));
    }
    out
}

fn iam_canonical_request() -> String {
    let params = [("Version", "2010-05-08"), ("Action", "ListUsers")];
    let headers = [
        ("Host", "iam.amazonaws.com"),
        ("Content-Type", "application/x-www-form-urlencoded; charset=utf-8"),
        ("X-Amz-Date", "20150830T123600Z"),
    ];
    canonicalize("GET", "/", &params, &headers, b"")
}

#[test]
fn keyed_hash_is_hmac_sha256() {
    let code = keyed_hash(b"key", b"The quick brown fox jumps over the lazy dog").unwrap();
    assert_eq!(hex(&code), "f7bc83f430538424b13298e6aa6fb143ef4d59a14946175997479dbc2d1a3cd8");
    assert_eq!(code.len(), 32);
}

#[test]
fn keyed_hash_takes_keys_of_any_length() {
    assert!(keyed_hash(b"", b"").is_ok());
    assert!(keyed_hash(&[7u8; 200], b"data").is_ok());
}

#[test]
fn a_failing_mac_becomes_hash_failure() {
    assert_eq!(code_or_failure(Err(InvalidLength)), Err(SignError::HashFailure));
    assert_eq!(code_or_failure(Ok(vec![1, 2, 3])), Ok(vec![1, 2, 3]));
}

#[test]
fn scope_joins_date_region_service_and_terminator() {
    assert_eq!(scope("20150830", "us-east-1", "iam"), "20150830/us-east-1/iam/aws4_request");
}

#[test]
fn string_to_sign_of_the_published_iam_example() {
    let text = string_to_sign(
        &iam_canonical_request(),
        "20150830T123600Z",
        "20150830",
        "us-east-1",
        "iam",
    );
    assert_eq!(
        text,
        "AWS4-HMAC-SHA256\n\
         20150830T123600Z\n\
         20150830/us-east-1/iam/aws4_request\n\
         f536975d06c0309214f805bb90ccff089219ecd68b2577efef23edd43b7e1a59"
    );
}

#[test]
fn signing_key_of_the_published_iam_example() {
    let key = derive_signing_key(IAM_SECRET, "20150830", "us-east-1", "iam").unwrap();
    assert_eq!(hex(&key), "c4afb1cc5771d871763a393e44b703571b55cc28424d1a5e86da6ed3c154a4b9");
}

#[test]
fn signature_of_the_published_iam_example() {
    let signed = sign(
        IAM_SECRET,
        &iam_canonical_request(),
        "20150830T123600Z",
        "20150830",
        "us-east-1",
        "iam",
    )
    .unwrap();
    assert_eq!(
        signed.signature,
        "5d672d79c15b13162d9279b0855cfba6789a8edb4c82c400e06b5924a6f2b5d7"
    );
    assert_eq!(
        signed.string_to_sign,
        "AWS4-HMAC-SHA256\n20150830T123600Z\n20150830/us-east-1/iam/aws4_request\n\
         f536975d06c0309214f805bb90ccff089219ecd68b2577efef23edd43b7e1a59"
    );
}

#[test]
fn signature_of_the_plain_get_of_the_protocol_test_suite() {
    let headers = [("Host", "example.amazonaws.com"), ("X-Amz-Date", "20150830T123600Z")];
    let canonical = canonicalize("GET", "/", &[], &headers, b"");
    let signed =
        sign(IAM_SECRET, &canonical, "20150830T123600Z", "20150830", "us-east-1", "service")
            .unwrap();
    assert_eq!(
        signed.string_to_sign,
        "AWS4-HMAC-SHA256\n20150830T123600Z\n20150830/us-east-1/service/aws4_request\n\
         bb579772317eb040ac9ed261061d46c1f17a8133879d6129b6e1c25292927e63"
    );
    assert_eq!(
        signed.signature,
        "5fa00fa31553b73ebf1942676e86291e8372ff2a2260956d9b8aae1d763fbf31"
    );
    let credential = Credential::new("AKIDEXAMPLE", IAM_SECRET, "us-east-1", "service");
    let value = sign_request(
        &credential,
        "GET",
        "/",
        &[],
        &headers,
        b"",
        "20150830T123600Z",
        "20150830",
    )
    .unwrap();
    assert_eq!(
        value,
        "AWS4-HMAC-SHA256 Credential=AKIDEXAMPLE/20150830/us-east-1/service/aws4_request, \
         SignedHeaders=host;x-amz-date, \
         Signature=5fa00fa31553b73ebf1942676e86291e8372ff2a2260956d9b8aae1d763fbf31"
    );
}

#[test]
fn end_to_end_get_of_a_storage_object() {
    let headers = [("host", "examplebucket.s3.amazonaws.com")];
    let canonical = canonicalize("GET", "/test.txt", &[], &headers, b"");
    assert_eq!(
        canonical,
        "GET\n/test.txt\n\nhost:examplebucket.s3.amazonaws.com\n\nhost\n\
         e3b0c44298fc1c149afbf4c8996fb92427ae41e4649b934ca495991b7852b855"
    );
    let key = derive_signing_key(S3_SECRET, "20130524", "us-east-1", "s3").unwrap();
    assert_eq!(hex(&key), "dbb893acc010964918f1fd433add87c70e8b0db6be30c1fbeafefa5ec6ba8378");
    let signed =
        sign(S3_SECRET, &canonical, "20130524T000000Z", "20130524", "us-east-1", "s3").unwrap();
    assert_eq!(
        signed.string_to_sign,
        "AWS4-HMAC-SHA256\n20130524T000000Z\n20130524/us-east-1/s3/aws4_request\n\
         00c9544d814e6ef52f53c8f03605366fd7c5820a117536e03752ca58cb3406e8"
    );
    assert_eq!(
        signed.signature,
        "d7d5fbc17b734426b9e94967538ed09bab64509c7f782ab70306492da0d340e3"
    );
    let credential = Credential::for_storage("SECRET-REDACTED", S3_SECRET);
    let value = sign_request(
        &credential,
        "GET",
        "/test.txt",
        &[],
        &headers,
        b"",
        "20130524T000000Z",
        "20130524",
    )
    .unwrap();
    assert_eq!(
        value,
        "AWS4-HMAC-SHA256 Credential=SECRET-REDACTED/20130524/us-east-1/s3/aws4_request, \
         SignedHeaders=host, \
         Signature=d7d5fbc17b734426b9e94967538ed09bab64509c7f782ab70306492da0d340e3"
    );
}

#[test]
fn another_date_gives_other_keys_and_another_signature() {
    let day_one = keyed_hash(format!("AWS4{}", S3_SECRET).as_bytes(), b"20130524").unwrap();
    let day_two = keyed_hash(format!("AWS4{}", S3_SECRET).as_bytes(), b"20130525").unwrap();
    assert_eq!(hex(&day_one), "68896419206d6240ad4cd7dc8ba658efbf3b43b53041950083a10833824fcfbb");
    assert_eq!(hex(&day_two), "e0819e0de123dc5ee2e86e06c94c87ad4f2ae2d3428901bc3df9a894dcf405ad");
    let key_one = derive_signing_key(S3_SECRET, "20130524", "us-east-1", "s3").unwrap();
    let key_two = derive_signing_key(S3_SECRET, "20130525", "us-east-1", "s3").unwrap();
    assert_ne!(key_one, key_two);
    assert_eq!(hex(&key_two), "bb2913bf8600601117af1bd57f271bbec7d1d9b149b4fce564a76130d8dee699");
}

#[test]
fn signing_key_depends_on_region_and_service() {
    let base = derive_signing_key(S3_SECRET, "20130524", "us-east-1", "s3").unwrap();
    assert_ne!(base, derive_signing_key(S3_SECRET, "20130524", "eu-west-1", "s3").unwrap());
    assert_ne!(base, derive_signing_key(S3_SECRET, "20130524", "us-east-1", "iam").unwrap());
    assert_ne!(base, derive_signing_key("other", "20130524", "us-east-1", "s3").unwrap());
}

#[test]
fn sign_gives_the_same_result_twice() {
    let first = sign(S3_SECRET, "request", "20130524T000000Z", "20130524", "r", "s").unwrap();
    let second = sign(S3_SECRET, "request", "20130524T000000Z", "20130524", "r", "s").unwrap();
    assert_eq!(first.signature, second.signature);
    assert_eq!(first.string_to_sign, second.string_to_sign);
    assert_eq!(first.signature.len(), 64);
}

#[test]
fn signature_does_not_depend_on_the_order_of_headers_and_parameters() {
    let credential = Credential::new("AKID", "topsecret", "eu-west-1", "s3");
    let one = sign_request(
        &credential,
        "PUT",
        "/my%20file.txt",
        &[("b c", "d/e"), ("a", "2"), ("a", "1")],
        &[
            ("X-Amz-Meta-Note", "  a   b\tc "),
            ("HOST", "bucket.example.com"),
            ("Content-Type", "text/plain; charset=utf-8"),
        ],
        b"hello world",
        "20240102T030405Z",
        "20240102",
    )
    .unwrap();
    let other = sign_request(
        &credential,
        "PUT",
        "/my%20file.txt",
        &[("a", "1"), ("b c", "d/e"), ("a", "2")],
        &[
            ("Content-Type", "text/plain; charset=utf-8"),
            ("X-Amz-Meta-Note", "  a   b\tc "),
            ("HOST", "bucket.example.com"),
        ],
        b"hello world",
        "20240102T030405Z",
        "20240102",
    )
    .unwrap();
    assert_eq!(one, other);
    assert_eq!(
        one,
        "AWS4-HMAC-SHA256 Credential=AKID/20240102/eu-west-1/s3/aws4_request, \
         SignedHeaders=content-type;host;x-amz-meta-note, \
         Signature=734e71296bfbadd92aeaba3a4d3a44c4877f83afdc9ac6fd71c14b18bf7aa05a"
    );
}

#[test]
fn an_empty_secret_is_signed_like_any_other() {
    let params = [("b c", "d/e"), ("a", "2"), ("a", "1")];
    let headers = [
        ("X-Amz-Meta-Note", "a b c"),
        ("Host", "bucket.example.com"),
        ("Content-Type", "text/plain; charset=utf-8"),
    ];
    let canonical = canonicalize("PUT", "/my%20file.txt", &params, &headers, b"hello world");
    let signed = sign("", &canonical, "20240102T030405Z", "20240102", "eu-west-1", "s3").unwrap();
    assert_eq!(
        signed.signature,
        "12ad5df4a6b961a32a19d8b02e15bb49a26b2f74be73cec75aa1bf2057de0e0b"
    );
}

#[test]
fn authorization_value_has_the_fixed_shape() {
    assert_eq!(
        authorization_header("AK", "d/r/s/aws4_request", "host;x-amz-date", "abc"),
        "AWS4-HMAC-SHA256 Credential=AK/d/r/s/aws4_request, SignedHeaders=host;x-amz-date, \
         Signature=abc"
    );
}

#[test]
fn empty_method_is_malformed() {
    let credential = Credential::for_storage("AK", "SK");
    let r = sign_request(&credential, "", "/", &[], &[("host", "h")], b"", "t", "d");
    assert_eq!(r, Err(SignError::MalformedInput));
}

#[test]
fn empty_path_is_malformed() {
    let credential = Credential::for_storage("AK", "SK");
    let r = sign_request(&credential, "GET", "", &[], &[("host", "h")], b"", "t", "d");
    assert_eq!(r, Err(SignError::MalformedInput));
}

#[test]
fn header_name_outside_ascii_is_malformed() {
    let credential = Credential::for_storage("AK", "SK");
    let headers = [("host", "h"), ("x-é", "v")];
    let r = sign_request(&credential, "GET", "/", &[], &headers, b"", "t", "d");
    assert_eq!(r, Err(SignError::MalformedInput));
    assert!(!check_well_formed("GET", "/", &headers));
}

#[test]
fn header_value_outside_ascii_is_signed() {
    let credential = Credential::for_storage("AK", "SK");
    let headers = [("host", "h"), ("x-note", "é")];
    assert!(check_well_formed("GET", "/", &headers));
    assert!(sign_request(&credential, "GET", "/", &[], &headers, b"", "t", "d").is_ok());
}

#[test]
fn storage_credential_signs_for_us_east_1_and_s3() {
    let credential = Credential::for_storage("AK", "SK");
    assert_eq!(credential.access_key, "AK");
    assert_eq!(credential.secret_key, "SK");
    assert_eq!(credential.region, "us-east-1");
    assert_eq!(credential.service, "s3");
}

const EMPTY_HASH: &str = "e3b0c44298fc1c149afbf4c8996fb92427ae41e4649b934ca495991b7852b855";

#[test]
fn published_get_of_a_storage_object_with_a_range() {
    let headers = [
        ("Host", "examplebucket.s3.amazonaws.com"),
        ("Range", "bytes=0-9"),
        ("x-amz-content-sha256", EMPTY_HASH),
        ("x-amz-date", "20130524T000000Z"),
    ];
    let canonical = canonicalize("GET", "/test.txt", &[], &headers, b"");
    let signed =
        sign(S3_SECRET, &canonical, "20130524T000000Z", "20130524", "us-east-1", "s3").unwrap();
    assert_eq!(
        signed.string_to_sign,
        "AWS4-HMAC-SHA256\n20130524T000000Z\n20130524/us-east-1/s3/aws4_request\n\
         7344ae5b7ee6c3e7e6b0fe0640412a37625d1fbfff95c48bbb2dc43964946972"
    );
    assert_eq!(
        signed.signature,
        "f0e8bdb87c964420e857bd35b5d6ed310bd44f0170aba48dd91039c6036bdb41"
    );
    let credential = Credential::for_storage("SECRET-REDACTED", S3_SECRET);
    let value = sign_request(
        &credential,
        "GET",
        "/test.txt",
        &[],
        &headers,
        b"",
        "20130524T000000Z",
        "20130524",
    )
    .unwrap();
    assert_eq!(
        value,
        "AWS4-HMAC-SHA256 Credential=SECRET-REDACTED/20130524/us-east-1/s3/aws4_request, \
         SignedHeaders=host;range;x-amz-content-sha256;x-amz-date, \
         Signature=f0e8bdb87c964420e857bd35b5d6ed310bd44f0170aba48dd91039c6036bdb41"
    );
}

#[test]
fn published_listing_of_a_bucket_with_parameters() {
    let headers = [
        ("x-amz-date", "20130524T000000Z"),
        ("x-amz-content-sha256", EMPTY_HASH),
        ("Host", "examplebucket.s3.amazonaws.com"),
    ];
    let credential = Credential::for_storage("SECRET-REDACTED", S3_SECRET);
    let value = sign_request(
        &credential,
        "GET",
        "/",
        &[("prefix", "J"), ("max-keys", "2")],
        &headers,
        b"",
        "20130524T000000Z",
        "20130524",
    )
    .unwrap();
    assert_eq!(
        value,
        "AWS4-HMAC-SHA256 Credential=SECRET-REDACTED/20130524/us-east-1/s3/aws4_request, \
         SignedHeaders=host;x-amz-content-sha256;x-amz-date, \
         Signature=34b48302e7b5fa45bde8084f4b7868a86f0a534bc59db6670ed5711ef69dc6f7"
    );
    let value = sign_request(
        &credential,
        "GET",
        "/",
        &[("lifecycle", "")],
        &headers,
        b"",
        "20130524T000000Z",
        "20130524",
    )
    .unwrap();
    assert_eq!(
        value,
        "AWS4-HMAC-SHA256 Credential=SECRET-REDACTED/20130524/us-east-1/s3/aws4_request, \
         SignedHeaders=host;x-amz-content-sha256;x-amz-date, \
         Signature=fea454ca298b7da1c68078a5d1bdbfbbe0d65c699e0f91ac7a200a0136783543"
    );
}

#[test]
fn authorize_signs_a_request_that_is_in_order() {
    let credential = Credential::new("AKIDEXAMPLE", IAM_SECRET, "us-east-1", "service");
    let request = SigningRequest::new(
        "GET",
        "/",
        &[],
        &[("X-Amz-Date", "20150830T123600Z"), ("Host", "example.amazonaws.com")],
        b"",
        "20150830T123600Z",
        "20150830",
    );
    assert_eq!(
        authorize(&credential, &request).unwrap(),
        "AWS4-HMAC-SHA256 Credential=AKIDEXAMPLE/20150830/us-east-1/service/aws4_request, \
         SignedHeaders=host;x-amz-date, \
         Signature=5fa00fa31553b73ebf1942676e86291e8372ff2a2260956d9b8aae1d763fbf31"
    );
}
