//! The signer: string to sign, key derivation, signature and the value of the
//! `Authorization` header.

use hmac::digest::InvalidLength;
use vstd::prelude::*;
use vstd::string::StringExecFns;
use vstd::utf8::{encode_utf8, is_ascii_chars};
use crate::canonical::{
    canonical_request_text, joined_names, signed_headers_text, SigningRequest,
};
use crate::hex::{hex, to_hex};
use crate::order::Pair;
use crate::primitives::{hmac_sha256, hmac_sha256_code, sha256, sha256_digest};

verus! {

/// Why the engine refused to sign.
#[derive(Debug, Clone, Copy, PartialEq, Eq, Structural)]
pub enum SignError {
    /// The method or the path is empty, or a header name holds a character
    /// outside ASCII, for which no case folding is defined here.
    MalformedInput,
    /// The cryptographic primitive reported an error.
    HashFailure,
}

/// What a request is signed with, and for which region and service.
pub struct Credential {
    pub access_key: String,
    pub secret_key: String,
    pub region: String,
    pub service: String,
}

/// A credential as contracts speak of it.
pub struct CredentialModel {
    pub access_key: Seq<char>,
    pub secret_key: Seq<char>,
    pub region: Seq<char>,
    pub service: Seq<char>,
}

impl View for Credential {
    type V = CredentialModel;

    open spec fn view(&self) -> CredentialModel {
        CredentialModel {
            access_key: self.access_key@,
            secret_key: self.secret_key@,
            region: self.region@,
            service: self.service@,
        }
    }
}

/// The outcome of `sign`.
pub struct Signed {
    /// The signature, in hexadecimal.
    pub signature: String,
    /// The text that was signed.
    pub string_to_sign: String,
}

/// The scope of a signing key: `date/region/service/aws4_request`.
pub open spec fn scope_text(date: Seq<char>, region: Seq<char>, service: Seq<char>) -> Seq<char> {
    date + seq!['/'] + region + seq!['/'] + service + "/aws4_request"@
}

/// The string to sign: algorithm, full timestamp, scope, and the SHA-256
/// digest of the canonical request in hexadecimal, one per line.
pub open spec fn string_to_sign_text(
    canonical_request: Seq<char>,
    timestamp_full: Seq<char>,
    date: Seq<char>,
    region: Seq<char>,
    service: Seq<char>,
) -> Seq<char> {
    "AWS4-HMAC-SHA256"@ + seq!['\n'] + timestamp_full + seq!['\n'] + scope_text(
        date,
        region,
        service,
    ) + seq!['\n'] + hex(sha256(encode_utf8(canonical_request)))
}

/// The first key of the chain: the date, keyed by `AWS4` and the secret.
pub open spec fn date_key(secret_key: Seq<char>, date: Seq<char>) -> Seq<u8> {
    hmac_sha256(encode_utf8("AWS4"@ + secret_key), encode_utf8(date))
}

/// The second key: the region, keyed by the date key.
pub open spec fn region_key(secret_key: Seq<char>, date: Seq<char>, region: Seq<char>) -> Seq<u8> {
    hmac_sha256(date_key(secret_key, date), encode_utf8(region))
}

/// The third key: the service, keyed by the region key.
pub open spec fn service_key(
    secret_key: Seq<char>,
    date: Seq<char>,
    region: Seq<char>,
    service: Seq<char>,
) -> Seq<u8> {
    hmac_sha256(region_key(secret_key, date, region), encode_utf8(service))
}

/// The signing key: the fixed terminator, keyed by the service key. Each
/// step takes the raw bytes of the step before as its key.
pub open spec fn signing_key(
    secret_key: Seq<char>,
    date: Seq<char>,
    region: Seq<char>,
    service: Seq<char>,
) -> Seq<u8> {
    hmac_sha256(service_key(secret_key, date, region, service), encode_utf8("aws4_request"@))
}

/// The signature of `string_to_sign`: its authentication code under the
/// signing key, in hexadecimal.
pub open spec fn signature_text(
    secret_key: Seq<char>,
    string_to_sign: Seq<char>,
    date: Seq<char>,
    region: Seq<char>,
    service: Seq<char>,
) -> Seq<char> {
    hex(hmac_sha256(signing_key(secret_key, date, region, service), encode_utf8(string_to_sign)))
}

/// The value of the `Authorization` header.
pub open spec fn authorization_text(
    access_key: Seq<char>,
    scope: Seq<char>,
    signed_headers: Seq<char>,
    signature: Seq<char>,
) -> Seq<char> {
    "AWS4-HMAC-SHA256 Credential="@ + access_key + seq!['/'] + scope + ", SignedHeaders="@
        + signed_headers + ", Signature="@ + signature
}

/// What the engine asks of a request before it signs: a method, a path, and
/// header names in ASCII.
pub open spec fn well_formed(method: Seq<char>, uri_path: Seq<char>, headers: Seq<Pair>) -> bool {
    &&& method.len() > 0
    &&& uri_path.len() > 0
    &&& forall|i: int| 0 <= i < headers.len() ==> is_ascii_chars(#[trigger] headers[i].0)
}

/// The authorization value of a whole request under a credential.
pub open spec fn request_authorization_text(
    credential: CredentialModel,
    method: Seq<char>,
    uri_path: Seq<char>,
    params: Seq<Pair>,
    headers: Seq<Pair>,
    payload: Seq<u8>,
    timestamp_full: Seq<char>,
    timestamp_date: Seq<char>,
) -> Seq<char> {
    let canonical = canonical_request_text(method, uri_path, params, headers, payload);
    let to_sign = string_to_sign_text(
        canonical,
        timestamp_full,
        timestamp_date,
        credential.region,
        credential.service,
    );
    authorization_text(
        credential.access_key,
        scope_text(timestamp_date, credential.region, credential.service),
        signed_headers_text(headers),
        signature_text(
            credential.secret_key,
            to_sign,
            timestamp_date,
            credential.region,
            credential.service,
        ),
    )
}

impl Credential {
    /// A credential for the given region and service.
    pub fn new(access_key: &str, secret_key: &str, region: &str, service: &str) -> (c: Credential)
        ensures
            c@ == (CredentialModel {
                access_key: access_key@,
                secret_key: secret_key@,
                region: region@,
                service: service@,
            }),
    {
        Credential {
            access_key: String::from_str(access_key),
            secret_key: String::from_str(secret_key),
            region: String::from_str(region),
            service: String::from_str(service),
        }
    }

    /// A credential for a storage endpoint: region `us-east-1`, service `s3`.
    pub fn for_storage(access_key: &str, secret_key: &str) -> (c: Credential)
        ensures
            c@ == (CredentialModel {
                access_key: access_key@,
                secret_key: secret_key@,
                region: "us-east-1"@,
                service: "s3"@,
            }),
    {
        Credential::new(access_key, secret_key, "us-east-1", "s3")
    }
}

/// Turns the outcome of the MAC into the engine's own: the code as it came,
/// or `HashFailure` for any error.
pub fn code_or_failure(outcome: Result<Vec<u8>, InvalidLength>) -> (r: Result<Vec<u8>, SignError>)
    ensures
        outcome matches Ok(code) ==> r == Ok::<Vec<u8>, SignError>(code),
        outcome is Err ==> r == Err::<Vec<u8>, SignError>(SignError::HashFailure),
{
    match outcome {
        Ok(code) => Ok(code),
        Err(_) => Err(SignError::HashFailure),
    }
}

/// The HMAC-SHA256 code of `data` under `key`.
pub fn keyed_hash(key: &[u8], data: &[u8]) -> (r: Result<Vec<u8>, SignError>)
    ensures
        r matches Ok(code) && code@ == hmac_sha256(key@, data@) && code@.len() == 32,
{
    code_or_failure(hmac_sha256_code(key, data))
}

/// The scope for a date, a region and a service.
pub fn scope(date: &str, region: &str, service: &str) -> (out: String)
    ensures
        out@ == scope_text(date@, region@, service@),
{
    let mut out = String::from_str(date);
    out.push('/');
    out.append(region);
    out.push('/');
    out.append(service);
    out.append("/aws4_request");
    assert(out@ =~= scope_text(date@, region@, service@));
    out
}

/// Wraps a canonical request into the string to sign.
pub fn string_to_sign(
    canonical_request: &str,
    timestamp_full: &str,
    timestamp_date: &str,
    region: &str,
    service: &str,
) -> (out: String)
    ensures
        out@ == string_to_sign_text(
            canonical_request@,
            timestamp_full@,
            timestamp_date@,
            region@,
            service@,
        ),
{
    let digest = sha256_digest(canonical_request.as_bytes());
    let digest_hex = to_hex(digest.as_slice());
    let scope_value = scope(timestamp_date, region, service);
    let mut out = String::from_str("AWS4-HMAC-SHA256");
    out.push('\n');
    out.append(timestamp_full);
    out.push('\n');
    out.append(scope_value.as_str());
    out.push('\n');
    out.append(digest_hex.as_str());
    assert(out@ =~= string_to_sign_text(
        canonical_request@,
        timestamp_full@,
        timestamp_date@,
        region@,
        service@,
    ));
    out
}

/// Derives the signing key from the secret by four chained MACs.
pub fn derive_signing_key(secret_key: &str, date: &str, region: &str, service: &str) -> (r: Result<
    Vec<u8>,
    SignError,
>)
    ensures
        r matches Ok(key) && key@ == signing_key(secret_key@, date@, region@, service@),
{
    let mut seed = String::from_str("AWS4");
    seed.append(secret_key);
    let k_date = match keyed_hash(seed.as_str().as_bytes(), date.as_bytes()) {
        Ok(code) => code,
        Err(e) => { return Err(e); },
    };
    let k_region = match keyed_hash(k_date.as_slice(), region.as_bytes()) {
        Ok(code) => code,
        Err(e) => { return Err(e); },
    };
    let k_service = match keyed_hash(k_region.as_slice(), service.as_bytes()) {
        Ok(code) => code,
        Err(e) => { return Err(e); },
    };
    keyed_hash(k_service.as_slice(), "aws4_request".as_bytes())
}

/// Signs a canonical request.
pub fn sign(
    secret_key: &str,
    canonical_request: &str,
    timestamp_full: &str,
    timestamp_date: &str,
    region: &str,
    service: &str,
) -> (r: Result<Signed, SignError>)
    ensures
        r matches Ok(signed) && signed.string_to_sign@ == string_to_sign_text(
            canonical_request@,
            timestamp_full@,
            timestamp_date@,
            region@,
            service@,
        ) && signed.signature@ == signature_text(
            secret_key@,
            signed.string_to_sign@,
            timestamp_date@,
            region@,
            service@,
        ) && signed.signature@.len() == 64,
{
    let to_sign = string_to_sign(
        canonical_request,
        timestamp_full,
        timestamp_date,
        region,
        service,
    );
    let key = match derive_signing_key(secret_key, timestamp_date, region, service) {
        Ok(key) => key,
        Err(e) => { return Err(e); },
    };
    let code = match keyed_hash(key.as_slice(), to_sign.as_str().as_bytes()) {
        Ok(code) => code,
        Err(e) => { return Err(e); },
    };
    let signature = to_hex(code.as_slice());
    Ok(Signed { signature, string_to_sign: to_sign })
}

/// Assembles the value of the `Authorization` header.
pub fn authorization_header(
    access_key: &str,
    scope: &str,
    signed_headers: &str,
    signature: &str,
) -> (out: String)
    ensures
        out@ == authorization_text(access_key@, scope@, signed_headers@, signature@),
{
    let mut out = String::from_str("AWS4-HMAC-SHA256 Credential=");
    out.append(access_key);
    out.push('/');
    out.append(scope);
    out.append(", SignedHeaders=");
    out.append(signed_headers);
    out.append(", Signature=");
    out.append(signature);
    assert(out@ =~= authorization_text(access_key@, scope@, signed_headers@, signature@));
    out
}

/// Tells whether the engine signs a request with these parts.
pub fn check_well_formed(method: &str, uri_path: &str, headers: &[(&str, &str)]) -> (ok: bool)
    ensures
        ok == well_formed(method@, uri_path@, headers.deep_view()),
{
    if method.unicode_len() == 0 || uri_path.unicode_len() == 0 {
        return false;
    }
    let mut i: usize = 0;
    while i < headers.len()
        invariant
            i <= headers.len(),
            forall|k: int| 0 <= k < i ==> is_ascii_chars(#[trigger] headers.deep_view()[k].0),
        decreases headers.len() - i,
    {
        let (name, _) = headers[i];
        assert(headers.deep_view()[i as int].0 == name@);
        if !name.is_ascii() {
            return false;
        }
        i += 1;
    }
    true
}

/// Signs a request that is in order already, and returns the value of its
/// `Authorization` header.
pub fn authorize(credential: &Credential, request: &SigningRequest) -> (r: Result<
    String,
    SignError,
>)
    ensures
        r matches Ok(value) && value@ == authorization_text(
            credential@.access_key,
            scope_text(request.timestamp_date@, credential@.region, credential@.service),
            joined_names(request.headers_to_sign.deep_view()),
            signature_text(
                credential@.secret_key,
                string_to_sign_text(
                    request.canonical_text(),
                    request.timestamp_full@,
                    request.timestamp_date@,
                    credential@.region,
                    credential@.service,
                ),
                request.timestamp_date@,
                credential@.region,
                credential@.service,
            ),
        ),
{
    let canonical = request.canonical_request();
    let region = credential.region.as_str();
    let service = credential.service.as_str();
    let date = request.timestamp_date.as_str();
    let signed = match sign(
        credential.secret_key.as_str(),
        canonical.as_str(),
        request.timestamp_full.as_str(),
        date,
        region,
        service,
    ) {
        Ok(signed) => signed,
        Err(e) => { return Err(e); },
    };
    let names = request.signed_headers();
    let scope_value = scope(date, region, service);
    Ok(
        authorization_header(
            credential.access_key.as_str(),
            scope_value.as_str(),
            names.as_str(),
            signed.signature.as_str(),
        ),
    )
}

/// Signs a request and returns the value of its `Authorization` header.
///
/// The timestamps are taken as given, so that the caller sends the very
/// strings that were signed.
pub fn sign_request(
    credential: &Credential,
    method: &str,
    uri_path: &str,
    query_params: &[(&str, &str)],
    headers_to_sign: &[(&str, &str)],
    payload: &[u8],
    timestamp_full: &str,
    timestamp_date: &str,
) -> (r: Result<String, SignError>)
    ensures
        well_formed(method@, uri_path@, headers_to_sign.deep_view()) ==> (r matches Ok(value)
            && value@ == request_authorization_text(
            credential@,
            method@,
            uri_path@,
            query_params.deep_view(),
            headers_to_sign.deep_view(),
            payload@,
            timestamp_full@,
            timestamp_date@,
        )),
        !well_formed(method@, uri_path@, headers_to_sign.deep_view()) ==> r == Err::<
            String,
            SignError,
        >(SignError::MalformedInput),
{
    if !check_well_formed(method, uri_path, headers_to_sign) {
        return Err(SignError::MalformedInput);
    }
    let request = SigningRequest::new(
        method,
        uri_path,
        query_params,
        headers_to_sign,
        payload,
        timestamp_full,
        timestamp_date,
    );
    authorize(credential, &request)
}

} // verus!
