//! Signing the STS request with AWS Signature Version 4.

use std::time::SystemTime;

use aws_credential_types::Credentials;
use aws_sigv4::http_request::{
    sign, SignableBody, SignableRequest, SignatureLocation, SigningInstructions, SigningParams,
    SigningSettings,
};
use aws_sigv4::sign::v4;
use aws_smithy_runtime_api::client::identity::Identity;
use vstd::prelude::*;
use vstd::utf8::encode_utf8;

use crate::credentials::StsCredentials;
use crate::sts::StsClient;
use crate::text::{has_prefix, strip_prefix};

verus! {

/// Declares `aws_credential_types::Credentials`, opaque here.
#[verifier::external_type_specification]
#[verifier::external_body]
pub struct ExCredentials(Credentials);

/// Declares the smithy runtime's signing `Identity`, opaque here.
#[verifier::external_type_specification]
#[verifier::external_body]
pub struct ExIdentity(Identity);

/// Declares aws-sigv4's `SigningParams`, opaque here.
#[verifier::external_type_specification]
#[verifier::external_body]
pub struct ExSigningParams<'a>(SigningParams<'a>);

/// Declares aws-sigv4's `SignableRequest`, opaque here.
#[verifier::external_type_specification]
#[verifier::external_body]
pub struct ExSignableRequest<'a>(SignableRequest<'a>);

/// Declares aws-sigv4's `SigningInstructions`, opaque here.
#[verifier::external_type_specification]
#[verifier::external_body]
pub struct ExSigningInstructions(SigningInstructions);

/// Declares the `http` crate's `Request`, opaque here.
#[verifier::external_type_specification]
#[verifier::external_body]
#[verifier::reject_recursive_types(B)]
pub struct ExHttpRequest<B>(http::Request<B>);

/// Whether a text can stand in an HTTP header value (`http`'s
/// `HeaderValue::from_str`): no control character other than tab, and no
/// DEL.
pub open spec fn header_safe(s: Seq<char>) -> bool {
    forall|i: int|
        0 <= i < s.len() ==> (#[trigger] s[i] == '\t' || (s[i] as u32 >= 32 && s[i] as u32 != 127))
}

/// Checks that a text can stand in an HTTP header value (see
/// `header_safe`).
pub fn header_safe_text(s: &str) -> (r: bool)
    ensures
        r == header_safe(s@),
{
    let chars = crate::text::chars_of(s);
    let mut i: usize = 0;
    while i < chars.len()
        invariant
            chars@ == s@,
            i <= chars.len(),
            forall|j: int| 0 <= j < i ==> (#[trigger] s@[j] == '\t' || (s@[j] as u32 >= 32 && s@[j] as u32 != 127)),
        decreases chars.len() - i,
    {
        let c = chars[i];
        if !(c == '\t' || (c as u32 >= 32 && c as u32 != 127)) {
            return false;
        }
        i += 1;
    }
    true
}

/// Whether a text consists of visible ASCII characters and tabs only, the
/// characters that `http`'s `HeaderValue::to_str` gives back as text.
pub open spec fn visible_ascii(s: Seq<char>) -> bool {
    forall|i: int|
        0 <= i < s.len() ==> (#[trigger] s[i] == '\t' || (32 <= s[i] as u32 && (s[i] as u32) < 127))
}

/// What reading back a header value made from `v` gives
/// (`HeaderValue::to_str`): the text itself when it is visible ASCII,
/// otherwise the text of `ToStrError`.
pub open spec fn header_text(v: Seq<char>) -> Result<Seq<char>, Seq<char>> {
    if visible_ascii(v) {
        Ok(v)
    } else {
        Err("failed to convert header to a str"@)
    }
}

/// A lowercase header name as `http` accepts it: letters, digits and
/// hyphens, at least one.
pub open spec fn lowercase_token(n: Seq<char>) -> bool {
    n.len() > 0 && forall|i: int|
        0 <= i < n.len() ==> (('a' <= #[trigger] n[i] && n[i] <= 'z') || ('0' <= n[i] && n[i] <= '9')
            || n[i] == '-')
}

/// The content type of the signed request.
pub open spec fn form_content_type() -> Seq<char> {
    "application/x-www-form-urlencoded"@
}

/// The earliest second that can be signed, -9999-01-01T00:00:00Z, in
/// seconds since the epoch (aws-sigv4 formats the time through the `time`
/// crate, which panics outside the years -9999 to 9999).
pub open spec fn earliest_signing_second() -> i64 {
    -377705116800i64
}

/// The latest second that can be signed, 9999-12-31T23:59:59Z, in seconds
/// since the epoch.
pub open spec fn latest_signing_second() -> i64 {
    253402300799
}

/// AWS credentials as plain values: access key id, secret key, session
/// token.
pub type CredentialParts = (Seq<char>, Seq<char>, Option<Seq<char>>);

/// Names what `Credentials` hold: `access_key_id()`,
/// `secret_access_key()` and `session_token()`.
pub uninterp spec fn credentials_view(c: Credentials) -> CredentialParts;

/// Makes AWS credentials (`aws_credential_types::Credentials::new`) from
/// the key id, the secret key and the session token, with no expiry and
/// the given provider name. Trusted: they hold exactly those three texts.
#[verifier::external_body]
fn aws_credentials(
    access_key_id: &str,
    secret_access_key: &str,
    session_token: &str,
    provider: &'static str,
) -> (c: Credentials)
    ensures
        credentials_view(c) == (access_key_id@, secret_access_key@, Some(session_token@)),
{
    Credentials::new(access_key_id, secret_access_key, Some(session_token.to_string()), None, provider)
}

/// Names the credentials a signing `Identity` carries (what
/// `Identity::data::<Credentials>()` finds), or `None`.
pub uninterp spec fn identity_view(i: Identity) -> Option<CredentialParts>;

/// Turns AWS credentials into a signing identity (`Identity::from`).
/// Trusted: the identity carries those credentials.
#[verifier::external_body]
fn signing_identity(credentials: &Credentials) -> (i: Identity)
    ensures
        identity_view(i) == Some(credentials_view(*credentials)),
{
    Identity::from(credentials.clone())
}

/// Names what SigV4 signing parameters hold: the identity's credentials,
/// the region, the service name, the signing time (as
/// `system_time_instant` gives it), and whether the settings are the
/// default ones with the signature placed in headers.
pub uninterp spec fn signing_params_view(p: SigningParams<'_>) -> (
    Option<CredentialParts>,
    Seq<char>,
    Seq<char>,
    (int, u32),
    bool,
);

/// Builds SigV4 signing parameters (`v4::SigningParams::builder()` with
/// the identity, region, service name and time, and default settings with
/// the signature placed in headers), or the text of the builder's error.
/// Trusted: the builder only fails for a missing field, and every field is
/// given, so it succeeds and holds what it was given.
#[verifier::external_body]
fn v4_signing_params<'a>(
    identity: &'a Identity,
    region: &'a str,
    service: &'a str,
    time: SystemTime,
) -> (r: Result<SigningParams<'a>, String>)
    ensures
        r is Ok,
        r matches Ok(p) ==> signing_params_view(p) == (
            identity_view(*identity),
            region@,
            service@,
            crate::clock::system_time_instant(time),
            true,
        ),
{
    let mut settings = SigningSettings::default();
    settings.signature_location = SignatureLocation::Headers;
    match v4::SigningParams::builder().identity(identity).region(region).name(service).time(
        time,
    ).settings(settings).build() {
        Ok(params) => Ok(SigningParams::V4(params)),
        Err(e) => Err(e.to_string()),
    }
}

/// The text of aws-sigv4's `SigningError` for a canonical request that
/// cannot be made (an unparsable URI, an invalid header value).
pub open spec fn canonical_request_error() -> Seq<char> {
    "failed to create canonical request"@
}

/// Names whether `http::Uri` parses a text (its `FromStr`, which both
/// `SignableRequest::new` and `http::request::Builder::uri` use).
pub uninterp spec fn uri_parses(text: Seq<char>) -> bool;

/// Names what a request description for signing holds: the method, the
/// URI text, the headers, the body's bytes, and whether the parsed URI has
/// an authority.
pub uninterp spec fn signable_view(r: SignableRequest<'_>) -> (
    Seq<char>,
    Seq<char>,
    Seq<(Seq<char>, Seq<char>)>,
    Seq<u8>,
    bool,
);

/// Describes a POST request to `uri` with one `content-type` header and the
/// given body, for signing (`SignableRequest::new`), or the text of its
/// error. Trusted: it fails exactly when the URI does not parse, with the
/// canonical-request error, and
/// otherwise holds what it was given. A URI that starts with `https://`
/// parses only with a nonempty authority (`http`'s `parse_full`).
#[verifier::external_body]
fn signable_post<'a>(uri: &'a str, content_type: &'a str, body: &'a str) -> (r: Result<
    SignableRequest<'a>,
    String,
>)
    ensures
        r is Ok <==> uri_parses(uri@),
        r matches Err(e) ==> e@ == canonical_request_error(),
        r matches Ok(q) ==> signable_view(q).0 == "POST"@,
        r matches Ok(q) ==> signable_view(q).1 == uri@,
        r matches Ok(q) ==> signable_view(q).2 == seq![("content-type"@, content_type@)],
        r matches Ok(q) ==> signable_view(q).3 == encode_utf8(body@),
        r matches Ok(q) ==> (has_prefix(uri@, "https://"@) ==> signable_view(q).4),
{
    match SignableRequest::new(
        "POST",
        uri,
        std::iter::once(("content-type", content_type)),
        SignableBody::Bytes(body.as_bytes()),
    ) {
        Ok(request) => Ok(request),
        Err(e) => Err(e.to_string()),
    }
}

/// Names what signing instructions hold: the headers to add, in order, and
/// whether there are no query parameters to add.
pub uninterp spec fn instructions_view(i: SigningInstructions) -> (Seq<(Seq<char>, Seq<char>)>, bool);

/// Names the headers that SigV4 signing in headers
/// (`aws_sigv4::http_request::sign`) produces for the given credentials,
/// region, service, time (whole seconds since the epoch and nanoseconds),
/// method, URI, request headers and body bytes.
pub uninterp spec fn sigv4_headers(
    credentials: CredentialParts,
    region: Seq<char>,
    service: Seq<char>,
    time: (int, u32),
    method: Seq<char>,
    uri: Seq<char>,
    headers: Seq<(Seq<char>, Seq<char>)>,
    body: Seq<u8>,
) -> Seq<(Seq<char>, Seq<char>)>;

/// The shape of a SigV4 `authorization` header value: the algorithm, the
/// access key id, a scope of a date, the region, the service and
/// `aws4_request`, then the signed header names and the signature.
pub open spec fn authorization_shape(
    a: Seq<char>,
    access_key_id: Seq<char>,
    region: Seq<char>,
    service: Seq<char>,
) -> bool {
    exists|date: Seq<char>, rest: Seq<char>|
        #![trigger authorization_text(access_key_id, date, region, service, rest)]
        visible_ascii(date) && visible_ascii(rest) && a == authorization_text(
            access_key_id,
            date,
            region,
            service,
            rest,
        )
}

/// An `authorization` header value from its parts.
pub open spec fn authorization_text(
    access_key_id: Seq<char>,
    date: Seq<char>,
    region: Seq<char>,
    service: Seq<char>,
    rest: Seq<char>,
) -> Seq<char> {
    "AWS4-HMAC-SHA256 Credential="@ + access_key_id + "/"@ + date + "/"@ + region + "/"@ + service
        + "/aws4_request, SignedHeaders="@ + rest
}

/// What SigV4 signing in headers adds, as aws-sigv4 builds it: first
/// `x-amz-date` with a timestamp, then `authorization`,
/// then, when there is a session token, `x-amz-security-token` with it.
pub open spec fn signature_headers_shape(
    hs: Seq<(Seq<char>, Seq<char>)>,
    credentials: CredentialParts,
    region: Seq<char>,
    service: Seq<char>,
) -> bool {
    &&& hs.len() == if credentials.2 is Some { 3int } else { 2int }
    &&& hs[0].0 == "x-amz-date"@
    &&& visible_ascii(hs[0].1)
    &&& hs[1].0 == "authorization"@
    &&& authorization_shape(hs[1].1, credentials.0, region, service)
    &&& (credentials.2 matches Some(t) ==> hs[2] == ("x-amz-security-token"@, t))
}

/// Signs a request description (`aws_sigv4::http_request::sign`) and keeps
/// the signing instructions, or the text of the signing error. Trusted:
/// with credentials in the identity, the default settings, a time in the
/// years -9999 to 9999 (the `time` crate panics outside them), a URI with an authority (aws-sigv4 panics
/// without one) and valid request headers, signing fails exactly when the
/// session token cannot be a header value, with the canonical-request
/// error; the instructions hold the named
/// SigV4 headers, of the shape aws-sigv4 builds, and no query parameters.
#[verifier::external_body]
fn sign_v4(request: SignableRequest<'_>, params: &SigningParams<'_>) -> (r: Result<
    SigningInstructions,
    String,
>)
    requires
        signable_view(request).4,
        forall|k: int|
            0 <= k < signable_view(request).2.len() ==> lowercase_token(
                #[trigger] signable_view(request).2[k].0,
            ) && header_safe(signable_view(request).2[k].1),
        signing_params_view(*params).0 is Some,
        earliest_signing_second() <= signing_params_view(*params).3.0 <= latest_signing_second(),
        signing_params_view(*params).3.1 < 1_000_000_000,
        signing_params_view(*params).4,
    ensures
        r is Ok <==> (signing_params_view(*params).0->Some_0.2 matches Some(t) ==> header_safe(t)),
        r matches Err(e) ==> e@ == canonical_request_error(),
        r matches Ok(i) ==> instructions_view(i).1,
        r matches Ok(i) ==> instructions_view(i).0 == sigv4_headers(
            signing_params_view(*params).0->Some_0,
            signing_params_view(*params).1,
            signing_params_view(*params).2,
            signing_params_view(*params).3,
            signable_view(request).0,
            signable_view(request).1,
            signable_view(request).2,
            signable_view(request).3,
        ),
        r matches Ok(i) ==> signature_headers_shape(
            instructions_view(i).0,
            signing_params_view(*params).0->Some_0,
            signing_params_view(*params).1,
            signing_params_view(*params).2,
        ),
{
    match sign(request, params) {
        Ok(output) => Ok(output.into_parts().0),
        Err(e) => Err(e.to_string()),
    }
}

/// Builds an HTTP POST request to `uri` with a `content-type` header and an
/// empty body (`http::Request::builder`), or the text of its error.
/// Trusted: with a valid header value it fails exactly when the URI does
/// not parse, and its one header is the content type.
#[verifier::external_body]
fn post_request(uri: &str, content_type: &str) -> (r: Result<http::Request<()>, String>)
    requires
        header_safe(content_type@),
    ensures
        r is Ok <==> uri_parses(uri@),
        r matches Ok(q) ==> request_headers(q) == seq![
            ("content-type"@, header_text(content_type@)),
        ],
{
    match http::Request::builder().method("POST").uri(uri).header("content-type", content_type).body(
        (),
    ) {
        Ok(request) => Ok(request),
        Err(e) => Err(e.to_string()),
    }
}

/// The header names that SigV4 signing can add.
pub open spec fn signing_header_name(n: Seq<char>) -> bool {
    ||| n == "x-amz-date"@
    ||| n == "authorization"@
    ||| n == "x-amz-security-token"@
    ||| n == "x-amz-content-sha256"@
}

/// Whether one of the headers has the given name.
pub open spec fn names_header(hs: Seq<(Seq<char>, Seq<char>)>, n: Seq<char>) -> bool {
    exists|k: int| 0 <= k < hs.len() && (#[trigger] hs[k]).0 == n
}

/// How many entries of `old` have a name that none of `added` has.
pub open spec fn kept_count(
    old: Seq<(Seq<char>, Result<Seq<char>, Seq<char>>)>,
    added: Seq<(Seq<char>, Seq<char>)>,
) -> nat
    decreases old.len(),
{
    if old.len() == 0 {
        0
    } else {
        kept_count(old.drop_last(), added) + if names_header(added, old.last().0) {
            0nat
        } else {
            1nat
        }
    }
}

/// Adds the signing headers to a request
/// (`SigningInstructions::apply_to_request_http1x`), each by
/// `HeaderMap::insert`, which drops the earlier values of that name.
/// Trusted: aws-sigv4 unwraps `HeaderValue::from_str` on each value, so all
/// must be valid header values (required); afterwards the request holds
/// each signing header once, read back as `header_text` gives, keeps the
/// entries whose names are not signing headers, and holds nothing else.
#[verifier::external_body]
fn apply_signature(instructions: SigningInstructions, request: &mut http::Request<()>)
    requires
        instructions_view(instructions).1,
        forall|k: int|
            0 <= k < instructions_view(instructions).0.len() ==> signing_header_name(
                (#[trigger] instructions_view(instructions).0[k]).0,
            ) && header_safe(instructions_view(instructions).0[k].1),
        forall|j: int, k: int|
            0 <= j < k < instructions_view(instructions).0.len() ==> (
            #[trigger] instructions_view(instructions).0[j]).0 != (
            #[trigger] instructions_view(instructions).0[k]).0,
    ensures
        forall|k: int|
            0 <= k < instructions_view(instructions).0.len() ==> request_headers(
                *final(request),
            ).contains(
                (
                    (#[trigger] instructions_view(instructions).0[k]).0,
                    header_text(instructions_view(instructions).0[k].1),
                ),
            ),
        forall|j: int|
            0 <= j < request_headers(*old(request)).len() && !names_header(
                instructions_view(instructions).0,
                (#[trigger] request_headers(*old(request))[j]).0,
            ) ==> request_headers(*final(request)).contains(request_headers(*old(request))[j]),
        forall|j: int|
            0 <= j < request_headers(*final(request)).len() ==> (exists|k: int|
                0 <= k < instructions_view(instructions).0.len() && #[trigger] request_headers(
                    *final(request),
                )[j] == (
                    instructions_view(instructions).0[k].0,
                    header_text(instructions_view(instructions).0[k].1),
                )) || (request_headers(*old(request)).contains(request_headers(*final(request))[j])
                && !names_header(
                instructions_view(instructions).0,
                request_headers(*final(request))[j].0,
            )),
        request_headers(*final(request)).len() == kept_count(
            request_headers(*old(request)),
            instructions_view(instructions).0,
        ) + instructions_view(instructions).0.len(),
{
    instructions.apply_to_request_http1x(request)
}

/// Names the headers of an HTTP request in the order `HeaderMap::iter`
/// yields them, one entry per value: the name, and the value as text or
/// the text of `HeaderValue::to_str`'s error.
pub uninterp spec fn request_headers(request: http::Request<()>) -> Seq<
    (Seq<char>, Result<Seq<char>, Seq<char>>),
>;

/// Counts the header values of a request (`HeaderMap::len`). Trusted: the
/// count is the length of `request_headers`.
#[verifier::external_body]
fn header_count(request: &http::Request<()>) -> (n: usize)
    ensures
        n == request_headers(*request).len(),
{
    request.headers().len()
}

/// The `index`-th header of a request, as `HeaderMap::iter` yields it, with
/// the value read by `HeaderValue::to_str`. Trusted: it is that entry of
/// `request_headers`.
#[verifier::external_body]
fn header_at(request: &http::Request<()>, index: usize) -> (h: (String, Result<String, String>))
    requires
        index < request_headers(*request).len(),
    ensures
        h.0@ == request_headers(*request)[index as int].0,
        crate::validation::string_result_view(h.1) == request_headers(*request)[index as int].1,
{
    let (name, value) = request.headers().iter().nth(index).unwrap();
    match value.to_str() {
        Ok(v) => (name.as_str().to_string(), Ok(v.to_string())),
        Err(e) => (name.as_str().to_string(), Err(e.to_string())),
    }
}

/// The headers as name/value texts, or the first value that is not text.
pub open spec fn header_texts(raw: Seq<(Seq<char>, Result<Seq<char>, Seq<char>>)>) -> Result<
    Seq<(Seq<char>, Seq<char>)>,
    Seq<char>,
>
    decreases raw.len(),
{
    if raw.len() == 0 {
        Ok(Seq::empty())
    } else {
        match header_texts(raw.drop_last()) {
            Err(e) => Err(e),
            Ok(prev) => match raw.last().1 {
                Err(e) => Err("header encoding error: "@ + e),
                Ok(v) => Ok(prev.push((raw.last().0, v))),
            },
        }
    }
}

/// A header pair list taken as characters.
pub open spec fn pairs_view(v: Seq<(String, String)>) -> Seq<(Seq<char>, Seq<char>)> {
    v.map_values(|p: (String, String)| (p.0@, p.1@))
}

/// Raw header entries taken as characters.
pub open spec fn raw_headers_view(v: Seq<(String, Result<String, String>)>) -> Seq<
    (Seq<char>, Result<Seq<char>, Seq<char>>),
> {
    v.map_values(|p: (String, Result<String, String>)| (p.0@, crate::validation::string_result_view(p.1)))
}

/// Reads the headers as name/value texts, failing at the first value that
/// is not text (see `header_texts`).
pub fn collect_header_texts(raw: &Vec<(String, Result<String, String>)>) -> (r: Result<
    Vec<(String, String)>,
    String,
>)
    ensures
        match r {
            Ok(v) => header_texts(raw_headers_view(raw@)) == Ok::<Seq<(Seq<char>, Seq<char>)>, Seq<char>>(
                pairs_view(v@),
            ),
            Err(m) => header_texts(raw_headers_view(raw@)) == Err::<Seq<(Seq<char>, Seq<char>)>, Seq<char>>(
                m@,
            ),
        },
{
    let ghost rv = raw_headers_view(raw@);
    let mut out: Vec<(String, String)> = Vec::new();
    let mut i: usize = 0;
    assert(rv.take(0) =~= Seq::<(Seq<char>, Result<Seq<char>, Seq<char>>)>::empty());
    assert(pairs_view(out@) =~= Seq::<(Seq<char>, Seq<char>)>::empty());
    while i < raw.len()
        invariant
            rv == raw_headers_view(raw@),
            i <= raw.len(),
            header_texts(rv.take(i as int)) == Ok::<Seq<(Seq<char>, Seq<char>)>, Seq<char>>(
                pairs_view(out@),
            ),
        decreases raw.len() - i,
    {
        assert(rv.take(i + 1).drop_last() =~= rv.take(i as int));
        assert(rv.take(i + 1).last() == rv[i as int]);
        match &raw[i].1 {
            Ok(v) => {
                out.push((raw[i].0.clone(), v.clone()));
                assert(pairs_view(out@) =~= header_texts(rv.take(i as int))->Ok_0.push(
                    (rv[i as int].0, rv[i as int].1->Ok_0),
                ));
                assert(header_texts(rv.take(i + 1)) == Ok::<Seq<(Seq<char>, Seq<char>)>, Seq<char>>(pairs_view(out@)));
            },
            Err(e) => {
                let mut m = "header encoding error: ".to_owned();
                m.append(e.as_str());
                proof {
                    lemma_header_texts_error_persists(rv, i as int + 1);
                }
                return Err(m);
            },
        }
        i += 1;
    }
    assert(rv.take(raw.len() as int) =~= rv);
    Ok(out)
}

proof fn lemma_header_texts_error_persists(raw: Seq<(Seq<char>, Result<Seq<char>, Seq<char>>)>, i: int)
    requires
        0 <= i <= raw.len(),
        header_texts(raw.take(i)) is Err,
    ensures
        header_texts(raw) == header_texts(raw.take(i)),
    decreases raw.len() - i,
{
    if i < raw.len() {
        assert(raw.take(i + 1).drop_last() =~= raw.take(i));
        lemma_header_texts_error_persists(raw, i + 1);
    } else {
        assert(raw.take(i) =~= raw);
    }
}

/// A text whose characters are all visible ASCII can stand in a header.
proof fn lemma_visible_is_header_safe(s: Seq<char>)
    requires
        visible_ascii(s),
    ensures
        header_safe(s),
{
    assert forall|i: int| 0 <= i < s.len() implies (#[trigger] s[i] == '\t' || (s[i] as u32 >= 32
        && s[i] as u32 != 127)) by {
        assert(s[i] == '\t' || (32 <= s[i] as u32 && (s[i] as u32) < 127));
    }
}

/// Both properties of a concatenation are those of its parts.
proof fn lemma_concat_chars(x: Seq<char>, y: Seq<char>)
    ensures
        visible_ascii(x + y) <==> (visible_ascii(x) && visible_ascii(y)),
        header_safe(x + y) <==> (header_safe(x) && header_safe(y)),
{
    let z = x + y;
    if visible_ascii(z) {
        assert forall|i: int| 0 <= i < x.len() implies (#[trigger] x[i] == '\t' || (32 <= x[i] as u32
            && (x[i] as u32) < 127)) by {
            assert(z[i] == x[i]);
        }
        assert forall|i: int| 0 <= i < y.len() implies (#[trigger] y[i] == '\t' || (32 <= y[i] as u32
            && (y[i] as u32) < 127)) by {
            assert(z[i + x.len()] == y[i]);
        }
    }
    if visible_ascii(x) && visible_ascii(y) {
        assert forall|i: int| 0 <= i < z.len() implies (#[trigger] z[i] == '\t' || (32 <= z[i] as u32
            && (z[i] as u32) < 127)) by {
            if i < x.len() {
                assert(z[i] == x[i]);
            } else {
                assert(z[i] == y[i - x.len()]);
            }
        }
    }
    if header_safe(z) {
        assert forall|i: int| 0 <= i < x.len() implies (#[trigger] x[i] == '\t' || (x[i] as u32 >= 32
            && x[i] as u32 != 127)) by {
            assert(z[i] == x[i]);
        }
        assert forall|i: int| 0 <= i < y.len() implies (#[trigger] y[i] == '\t' || (y[i] as u32 >= 32
            && y[i] as u32 != 127)) by {
            assert(z[i + x.len()] == y[i]);
        }
    }
    if header_safe(x) && header_safe(y) {
        assert forall|i: int| 0 <= i < z.len() implies (#[trigger] z[i] == '\t' || (z[i] as u32 >= 32
            && z[i] as u32 != 127)) by {
            if i < x.len() {
                assert(z[i] == x[i]);
            } else {
                assert(z[i] == y[i - x.len()]);
            }
        }
    }
}

/// An `authorization` value is visible ASCII exactly when its key id,
/// region and service are, and can stand in a header when they can.
proof fn lemma_authorization_text(
    access_key_id: Seq<char>,
    date: Seq<char>,
    region: Seq<char>,
    service: Seq<char>,
    rest: Seq<char>,
)
    requires
        visible_ascii(date),
        visible_ascii(rest),
    ensures
        visible_ascii(authorization_text(access_key_id, date, region, service, rest)) <==> (
        visible_ascii(access_key_id) && visible_ascii(region) && visible_ascii(service)),
        (header_safe(access_key_id) && header_safe(region) && header_safe(service)) ==> header_safe(
            authorization_text(access_key_id, date, region, service, rest),
        ),
{
    let p0 = "AWS4-HMAC-SHA256 Credential="@;
    let p1 = "/"@;
    let p2 = "/aws4_request, SignedHeaders="@;
    reveal_strlit("AWS4-HMAC-SHA256 Credential=");
    reveal_strlit("/");
    reveal_strlit("/aws4_request, SignedHeaders=");
    assert(visible_ascii(p0));
    assert(visible_ascii(p1));
    assert(visible_ascii(p2));
    lemma_visible_is_header_safe(p0);
    lemma_visible_is_header_safe(p1);
    lemma_visible_is_header_safe(p2);
    lemma_visible_is_header_safe(date);
    lemma_visible_is_header_safe(rest);
    let a1 = p0 + access_key_id;
    let a2 = a1 + p1;
    let a3 = a2 + date;
    let a4 = a3 + p1;
    let a5 = a4 + region;
    let a6 = a5 + p1;
    let a7 = a6 + service;
    let a8 = a7 + p2;
    let a9 = a8 + rest;
    lemma_concat_chars(p0, access_key_id);
    lemma_concat_chars(a1, p1);
    lemma_concat_chars(a2, date);
    lemma_concat_chars(a3, p1);
    lemma_concat_chars(a4, region);
    lemma_concat_chars(a5, p1);
    lemma_concat_chars(a6, service);
    lemma_concat_chars(a7, p2);
    lemma_concat_chars(a8, rest);
    assert(authorization_text(access_key_id, date, region, service, rest) == a9);
}

/// The headers with every value read as text.
pub open spec fn texts_of(raw: Seq<(Seq<char>, Result<Seq<char>, Seq<char>>)>) -> Seq<
    (Seq<char>, Seq<char>),
> {
    raw.map_values(|e: (Seq<char>, Result<Seq<char>, Seq<char>>)| (e.0, e.1->Ok_0))
}

/// When every value reads as text, `header_texts` gives them all.
proof fn lemma_header_texts_all_ok(raw: Seq<(Seq<char>, Result<Seq<char>, Seq<char>>)>)
    requires
        forall|j: int| 0 <= j < raw.len() ==> (#[trigger] raw[j]).1 is Ok,
    ensures
        header_texts(raw) == Ok::<Seq<(Seq<char>, Seq<char>)>, Seq<char>>(texts_of(raw)),
    decreases raw.len(),
{
    if raw.len() > 0 {
        let d = raw.drop_last();
        assert forall|j: int| 0 <= j < d.len() implies (#[trigger] d[j]).1 is Ok by {
            assert(d[j] == raw[j]);
        }
        lemma_header_texts_all_ok(d);
        assert(raw[raw.len() - 1].1 is Ok);
        assert(texts_of(d).push((raw.last().0, raw.last().1->Ok_0)) =~= texts_of(raw));
    } else {
        assert(texts_of(raw) =~= Seq::<(Seq<char>, Seq<char>)>::empty());
    }
}

/// When some value does not read as text and all such values fail with the
/// same text, `header_texts` fails with that text.
proof fn lemma_header_texts_uniform_error(
    raw: Seq<(Seq<char>, Result<Seq<char>, Seq<char>>)>,
    e: Seq<char>,
)
    requires
        exists|j: int| 0 <= j < raw.len() && (#[trigger] raw[j]).1 is Err,
        forall|j: int| 0 <= j < raw.len() && (#[trigger] raw[j]).1 is Err ==> raw[j].1 == Err::<
            Seq<char>,
            Seq<char>,
        >(e),
    ensures
        header_texts(raw) == Err::<Seq<(Seq<char>, Seq<char>)>, Seq<char>>("header encoding error: "@ + e),
    decreases raw.len(),
{
    let d = raw.drop_last();
    assert forall|j: int| 0 <= j < d.len() && (#[trigger] d[j]).1 is Err implies d[j].1 == Err::<
        Seq<char>,
        Seq<char>,
    >(e) by {
        assert(d[j] == raw[j]);
    }
    if exists|j: int| 0 <= j < d.len() && (#[trigger] d[j]).1 is Err {
        let j = choose|j: int| 0 <= j < d.len() && (#[trigger] d[j]).1 is Err;
        assert(raw[j] == d[j]);
        lemma_header_texts_uniform_error(d, e);
    } else {
        assert forall|j: int| 0 <= j < d.len() implies (#[trigger] d[j]).1 is Ok by {}
        lemma_header_texts_all_ok(d);
        let j = choose|j: int| 0 <= j < raw.len() && (#[trigger] raw[j]).1 is Err;
        if j < d.len() {
            assert(d[j] == raw[j]);
        }
        assert(raw.last().1 == Err::<Seq<char>, Seq<char>>(e));
    }
}

/// The message for an endpoint that does not use TLS.
pub open spec fn https_error(endpoint: Seq<char>) -> Seq<char> {
    "STS endpoint must use https: "@ + endpoint
}

/// The message for a signed header that cannot be read back as text.
pub open spec fn header_error_text() -> Seq<char> {
    "header encoding error: failed to convert header to a str"@
}

/// The message for a clock reading that cannot be signed.
pub open spec fn clock_error_text() -> Seq<char> {
    "system clock is outside the range that can be signed"@
}

/// A signing result taken as characters.
pub open spec fn signed_view(r: Result<(Vec<(String, String)>, String), String>) -> Result<
    (Seq<(Seq<char>, Seq<char>)>, Seq<char>),
    Seq<char>,
> {
    match r {
        Ok(p) => Ok((pairs_view(p.0@), p.1@)),
        Err(m) => Err(m@),
    }
}

/// The SigV4 headers for the STS request: a POST of `body` with the form
/// content type to `endpoint`, signed for `region` and the service `sts`
/// with the given credentials at the given time.
pub open spec fn request_signature(
    endpoint: Seq<char>,
    region: Seq<char>,
    access_key_id: Seq<char>,
    secret_access_key: Seq<char>,
    session_token: Seq<char>,
    body: Seq<char>,
    secs: i64,
    nanos: u32,
) -> Seq<(Seq<char>, Seq<char>)> {
    sigv4_headers(
        (access_key_id, secret_access_key, Some(session_token)),
        region,
        "sts"@,
        (secs as int, nanos),
        "POST"@,
        endpoint,
        seq![("content-type"@, form_content_type())],
        encode_utf8(body),
    )
}

/// The headers of the signed request, in some order: the content type and
/// each signature header, once each.
pub open spec fn signed_headers_are(
    h: Seq<(Seq<char>, Seq<char>)>,
    signature: Seq<(Seq<char>, Seq<char>)>,
) -> bool {
    &&& h.len() == signature.len() + 1
    &&& h.contains(("content-type"@, form_content_type()))
    &&& forall|k: int| 0 <= k < signature.len() ==> h.contains(#[trigger] signature[k])
    &&& forall|j: int|
        0 <= j < h.len() ==> #[trigger] h[j] == ("content-type"@, form_content_type())
            || signature.contains(h[j])
}

/// What every signed STS request carries: the session token, a timestamp,
/// and an `authorization` header for the key id, the region and `sts`.
pub open spec fn carries_signature(
    h: Seq<(Seq<char>, Seq<char>)>,
    access_key_id: Seq<char>,
    region: Seq<char>,
    session_token: Seq<char>,
) -> bool {
    &&& h.contains(("x-amz-security-token"@, session_token))
    &&& exists|j: int| 0 <= j < h.len() && (#[trigger] h[j]).0 == "x-amz-date"@
    &&& exists|j: int|
        0 <= j < h.len() && (#[trigger] h[j]).0 == "authorization"@ && authorization_shape(
            h[j].1,
            access_key_id,
            region,
            "sts"@,
        )
}

/// The outcome of signing the STS request at a given time: an endpoint
/// that does not start with `https://` is refused before anything else; an
/// endpoint that does not parse as a URI fails at the request description;
/// a session token that cannot be a header value fails the signing; a key
/// id, region or token that is not visible ASCII cannot be read back from
/// the signed request; otherwise the headers are the content type and the
/// SigV4 headers, and the body is returned as it is.
pub open spec fn signing_outcome(
    endpoint: Seq<char>,
    region: Seq<char>,
    access_key_id: Seq<char>,
    secret_access_key: Seq<char>,
    session_token: Seq<char>,
    body: Seq<char>,
    secs: i64,
    nanos: u32,
    out: Result<(Seq<(Seq<char>, Seq<char>)>, Seq<char>), Seq<char>>,
) -> bool {
    if !has_prefix(endpoint, "https://"@) {
        out == Err::<(Seq<(Seq<char>, Seq<char>)>, Seq<char>), Seq<char>>(https_error(endpoint))
    } else if !uri_parses(endpoint) {
        out == Err::<(Seq<(Seq<char>, Seq<char>)>, Seq<char>), Seq<char>>(
            "signable request error: "@ + canonical_request_error(),
        )
    } else if !header_safe(session_token) {
        out == Err::<(Seq<(Seq<char>, Seq<char>)>, Seq<char>), Seq<char>>(
            "SigV4 signing failed: "@ + canonical_request_error(),
        )
    } else if !(visible_ascii(access_key_id) && visible_ascii(region) && visible_ascii(
        session_token,
    )) {
        out == Err::<(Seq<(Seq<char>, Seq<char>)>, Seq<char>), Seq<char>>(header_error_text())
    } else {
        out matches Ok(p) && p.1 == body && signed_headers_are(
            p.0,
            request_signature(
                endpoint,
                region,
                access_key_id,
                secret_access_key,
                session_token,
                body,
                secs,
                nanos,
            ),
        ) && carries_signature(p.0, access_key_id, region, session_token)
    }
}

/// The STS request is only ever signed for an endpoint that uses TLS: a
/// signing outcome that is not an error has an endpoint starting with
/// `https://`.
pub proof fn law_only_tls_endpoints_are_signed(
    endpoint: Seq<char>,
    region: Seq<char>,
    access_key_id: Seq<char>,
    secret_access_key: Seq<char>,
    session_token: Seq<char>,
    body: Seq<char>,
    secs: i64,
    nanos: u32,
    out: Result<(Seq<(Seq<char>, Seq<char>)>, Seq<char>), Seq<char>>,
)
    requires
        signing_outcome(
            endpoint,
            region,
            access_key_id,
            secret_access_key,
            session_token,
            body,
            secs,
            nanos,
            out,
        ),
        out is Ok,
    ensures
        has_prefix(endpoint, "https://"@),
{
}

/// Refuses an endpoint that does not start with `https://`: the STS
/// request is only ever sent over TLS.
pub fn require_https(endpoint: &str) -> (r: Result<(), String>)
    ensures
        r is Ok <==> has_prefix(endpoint@, "https://"@),
        r matches Err(m) ==> m@ == https_error(endpoint@),
{
    match strip_prefix(endpoint, "https://") {
        Some(_) => Ok(()),
        None => {
            let mut m = "STS endpoint must use https: ".to_owned();
            m.append(endpoint);
            Err(m)
        },
    }
}

/// What the signed request's headers read back as: the content type and
/// the SigV4 headers, once each, when the key id, the region and the token
/// are visible ASCII; otherwise the read-back error.
proof fn lemma_signed_request_headers(
    before: Seq<(Seq<char>, Result<Seq<char>, Seq<char>>)>,
    iv: Seq<(Seq<char>, Seq<char>)>,
    after: Seq<(Seq<char>, Result<Seq<char>, Seq<char>>)>,
    akid: Seq<char>,
    region: Seq<char>,
    token: Seq<char>,
)
    requires
        before == seq![("content-type"@, header_text(form_content_type()))],
        iv.len() == 3,
        iv[0].0 == "x-amz-date"@,
        visible_ascii(iv[0].1),
        iv[1].0 == "authorization"@,
        authorization_shape(iv[1].1, akid, region, "sts"@),
        iv[2] == ("x-amz-security-token"@, token),
        forall|k: int|
            0 <= k < iv.len() ==> after.contains(
                ((#[trigger] iv[k]).0, header_text(iv[k].1)),
            ),
        forall|j: int|
            0 <= j < before.len() && !names_header(iv, (#[trigger] before[j]).0) ==> after.contains(
                before[j],
            ),
        forall|j: int|
            0 <= j < after.len() ==> (exists|k: int|
                0 <= k < iv.len() && #[trigger] after[j] == (iv[k].0, header_text(iv[k].1))) || (
            before.contains(after[j]) && !names_header(iv, after[j].0)),
        after.len() == kept_count(before, iv) + iv.len(),
    ensures
        (visible_ascii(akid) && visible_ascii(region) && visible_ascii(token)) ==> {
            &&& header_texts(after) == Ok::<Seq<(Seq<char>, Seq<char>)>, Seq<char>>(texts_of(after))
            &&& signed_headers_are(texts_of(after), iv)
            &&& carries_signature(texts_of(after), akid, region, token)
        },
        !(visible_ascii(akid) && visible_ascii(region) && visible_ascii(token)) ==> header_texts(
            after,
        ) == Err::<Seq<(Seq<char>, Seq<char>)>, Seq<char>>(header_error_text()),
{
    reveal_strlit("content-type");
    reveal_strlit("application/x-www-form-urlencoded");
    reveal_strlit("sts");
    reveal_strlit("x-amz-date");
    reveal_strlit("authorization");
    reveal_strlit("x-amz-security-token");
    let ct = ("content-type"@, form_content_type());
    assert(visible_ascii(form_content_type()));
    assert(visible_ascii("sts"@));
    assert(header_text(form_content_type()) == Ok::<Seq<char>, Seq<char>>(form_content_type()));
    assert(!names_header(iv, "content-type"@)) by {
        if names_header(iv, "content-type"@) {
            let k = choose|k: int| 0 <= k < iv.len() && (#[trigger] iv[k]).0 == "content-type"@;
            assert(iv[k].0.len() != "content-type"@.len());
        }
    }
    reveal_with_fuel(kept_count, 2);
    assert(before.drop_last() =~= Seq::<(Seq<char>, Result<Seq<char>, Seq<char>>)>::empty());
    assert(kept_count(before, iv) == 1);
    assert(after.contains(before[0]));
    let (date, rest) = choose|date: Seq<char>, rest: Seq<char>|
        #![trigger authorization_text(akid, date, region, "sts"@, rest)]
        visible_ascii(date) && visible_ascii(rest) && iv[1].1
            == authorization_text(akid, date, region, "sts"@, rest);
    lemma_authorization_text(akid, date, region, "sts"@, rest);
    let msg = "failed to convert header to a str"@;
    // Every entry read back is the content type or one of the signature
    // headers.
    assert forall|j: int| 0 <= j < after.len() implies #[trigger] after[j] == (
        "content-type"@,
        Ok::<Seq<char>, Seq<char>>(form_content_type()),
    ) || exists|k: int| 0 <= k < iv.len() && after[j] == (iv[k].0, header_text(iv[k].1)) by {
        if !(exists|k: int| 0 <= k < iv.len() && #[trigger] after[j] == (iv[k].0, header_text(iv[k].1))) {
            assert(before.contains(after[j]));
        }
    }
    if visible_ascii(akid) && visible_ascii(region) && visible_ascii(token) {
        assert forall|k: int| 0 <= k < iv.len() implies header_text((#[trigger] iv[k]).1)
            == Ok::<Seq<char>, Seq<char>>(iv[k].1) by {}
        assert forall|j: int| 0 <= j < after.len() implies (#[trigger] after[j]).1 is Ok by {
            if after[j] != ("content-type"@, Ok::<Seq<char>, Seq<char>>(form_content_type())) {
                let k = choose|k: int| 0 <= k < iv.len() && after[j] == (iv[k].0, header_text(iv[k].1));
                assert(header_text(iv[k].1) == Ok::<Seq<char>, Seq<char>>(iv[k].1));
            }
        }
        lemma_header_texts_all_ok(after);
        let t = texts_of(after);
        assert(t.len() == after.len());
        let j0 = choose|j: int| 0 <= j < after.len() && after[j] == before[0];
        assert(t[j0] == ct);
        assert forall|k: int| 0 <= k < iv.len() implies t.contains(#[trigger] iv[k]) by {
            assert(after.contains((iv[k].0, header_text(iv[k].1))));
            let j = choose|j: int| 0 <= j < after.len() && after[j] == (iv[k].0, header_text(iv[k].1));
            assert(header_text(iv[k].1) == Ok::<Seq<char>, Seq<char>>(iv[k].1));
            assert(t[j] == iv[k]);
        }
        assert forall|j: int| 0 <= j < t.len() implies #[trigger] t[j] == ct || iv.contains(t[j]) by {
            assert(after[j] == ("content-type"@, Ok::<Seq<char>, Seq<char>>(form_content_type()))
                || exists|k: int| 0 <= k < iv.len() && after[j] == (iv[k].0, header_text(iv[k].1)));
            if after[j] != ("content-type"@, Ok::<Seq<char>, Seq<char>>(form_content_type())) {
                let k = choose|k: int| 0 <= k < iv.len() && after[j] == (iv[k].0, header_text(iv[k].1));
                assert(header_text(iv[k].1) == Ok::<Seq<char>, Seq<char>>(iv[k].1));
                assert(t[j] == iv[k]);
            }
        }
        assert(t.contains(iv[0]));
        assert(t.contains(iv[1]));
        assert(t.contains(iv[2]));
        let j1 = choose|j: int| 0 <= j < t.len() && t[j] == iv[0];
        assert(t[j1].0 == "x-amz-date"@);
        let j2 = choose|j: int| 0 <= j < t.len() && t[j] == iv[1];
        assert(t[j2].0 == "authorization"@ && authorization_shape(t[j2].1, akid, region, "sts"@));
    } else {
        let k = if !(visible_ascii(akid) && visible_ascii(region)) {
            1int
        } else {
            2int
        };
        assert(header_text(iv[k].1) == Err::<Seq<char>, Seq<char>>(msg));
        assert(after.contains((iv[k].0, header_text(iv[k].1))));
        let j = choose|j: int| 0 <= j < after.len() && after[j] == (iv[k].0, header_text(iv[k].1));
        assert(after[j].1 is Err);
        assert forall|j: int| 0 <= j < after.len() && (#[trigger] after[j]).1 is Err implies after[j].1
            == Err::<Seq<char>, Seq<char>>(msg) by {
            if after[j] != ("content-type"@, Ok::<Seq<char>, Seq<char>>(form_content_type())) {
                let k = choose|k: int| 0 <= k < iv.len() && after[j] == (iv[k].0, header_text(iv[k].1));
            }
        }
        lemma_header_texts_uniform_error(after, msg);
        reveal_strlit("failed to convert header to a str");
        reveal_strlit("header encoding error: ");
        reveal_strlit("header encoding error: failed to convert header to a str");
        assert("header encoding error: "@ + msg =~= header_error_text());
    }
}

impl StsClient {
    /// Signs the STS request at a given time: a POST of `body` with the
    /// form content type to the client's endpoint, with SigV4 for the
    /// client's region and the service `sts`, using the given credentials
    /// (see `signing_outcome`). The access key id and the region go into
    /// the `authorization` header and must be `header_safe` (aws-sigv4
    /// panics otherwise); the time must fit a four-digit year.
    pub fn sign_request_at(
        &self,
        body: &str,
        credentials: &StsCredentials,
        secs: i64,
        nanos: u32,
    ) -> (r: Result<(Vec<(String, String)>, String), String>)
        requires
            header_safe(credentials.access_key_id@),
            header_safe(self.region_text()),
            nanos < 1_000_000_000,
            earliest_signing_second() <= secs <= latest_signing_second(),
        ensures
            signing_outcome(
                self.endpoint_text(),
                self.region_text(),
                credentials.access_key_id@,
                credentials.secret_access_key@,
                credentials.session_token@,
                body@,
                secs,
                nanos,
                signed_view(r),
            ),
    {
        let endpoint = self.endpoint();
        require_https(endpoint)?;
        let ghost akid = credentials.access_key_id@;
        let ghost region = self.region_text();
        let ghost token = credentials.session_token@;
        let aws_creds = aws_credentials(
            credentials.access_key_id.as_str(),
            credentials.secret_access_key.as_str(),
            credentials.session_token.as_str(),
            "pam_aws_sts",
        );
        let identity = signing_identity(&aws_creds);
        let time = if secs >= 0 {
            crate::clock::epoch_plus(secs as u64, nanos)
        } else if nanos == 0 {
            crate::clock::epoch_minus((-(secs as i128)) as u64, 0)
        } else {
            crate::clock::epoch_minus((-(secs as i128) - 1) as u64, 1_000_000_000 - nanos)
        };
        assert(crate::clock::system_time_instant(time) == (secs as int, nanos));
        let params = match v4_signing_params(&identity, self.region(), "sts", time) {
            Ok(p) => p,
            Err(e) => {
                let mut m = "signing params error: ".to_owned();
                m.append(e.as_str());
                return Err(m);
            },
        };
        let content_type = "application/x-www-form-urlencoded";
        let signable = match signable_post(endpoint, content_type, body) {
            Ok(s) => s,
            Err(e) => {
                let mut m = "signable request error: ".to_owned();
                m.append(e.as_str());
                return Err(m);
            },
        };
        proof {
            reveal_strlit("content-type");
            reveal_strlit("application/x-www-form-urlencoded");
            reveal_strlit("sts");
            reveal_strlit("x-amz-date");
            reveal_strlit("authorization");
            reveal_strlit("x-amz-security-token");
            assert(lowercase_token("content-type"@));
            assert(visible_ascii(content_type@));
            lemma_visible_is_header_safe(content_type@);
            assert(visible_ascii("sts"@));
            lemma_visible_is_header_safe("sts"@);
        }
        let ghost sv = signable_view(signable);
        let ghost pv = signing_params_view(params);
        assert(sv.2[0] == ("content-type"@, content_type@));
        let instructions = match sign_v4(signable, &params) {
            Ok(i) => i,
            Err(e) => {
                let mut m = "SigV4 signing failed: ".to_owned();
                m.append(e.as_str());
                return Err(m);
            },
        };
        let ghost iv = instructions_view(instructions).0;
        assert(iv == request_signature(
            self.endpoint_text(),
            region,
            akid,
            credentials.secret_access_key@,
            token,
            body@,
            secs,
            nanos,
        ));
        let mut request = match post_request(endpoint, content_type) {
            Ok(r) => r,
            Err(e) => {
                let mut m = "request build error: ".to_owned();
                m.append(e.as_str());
                return Err(m);
            },
        };
        let ghost before = request_headers(request);
        let ghost (date, rest) = choose|date: Seq<char>, rest: Seq<char>|
            #![trigger authorization_text(akid, date, region, "sts"@, rest)]
            visible_ascii(date) && visible_ascii(rest) && iv[1].1
                == authorization_text(akid, date, region, "sts"@, rest);
        proof {
            lemma_authorization_text(akid, date, region, "sts"@, rest);
            lemma_visible_is_header_safe(iv[0].1);
            assert forall|k: int| 0 <= k < iv.len() implies signing_header_name((#[trigger] iv[k]).0)
                && header_safe(iv[k].1) by {}
            assert forall|j: int, k: int| 0 <= j < k < iv.len() implies (#[trigger] iv[j]).0 != (
            #[trigger] iv[k]).0 by {
                assert(iv[j].0.len() != iv[k].0.len());
            }
        }
        apply_signature(instructions, &mut request);
        let ghost after = request_headers(request);
        let n = header_count(&request);
        let mut raw: Vec<(String, Result<String, String>)> = Vec::new();
        let mut i: usize = 0;
        while i < n
            invariant
                n == request_headers(request).len(),
                i <= n,
                raw@.len() == i,
                raw_headers_view(raw@) =~= request_headers(request).take(i as int),
            decreases n - i,
        {
            let h = header_at(&request, i);
            let ghost prev = raw@;
            raw.push(h);
            proof {
                assert(raw@ == prev.push(h));
                assert(raw@.len() == i + 1);
                assert(raw_headers_view(raw@).len() == i + 1);
                assert(raw@[i as int] == h);
                assert(raw_headers_view(raw@)[i as int] == (h.0@, crate::validation::string_result_view(h.1)));
                assert forall|j: int| 0 <= j < i implies #[trigger] raw_headers_view(raw@)[j]
                    == raw_headers_view(prev)[j] by {
                    assert(raw@[j] == prev[j]);
                }
            }
            assert(raw_headers_view(raw@) =~= request_headers(request).take(i + 1));
            i += 1;
        }
        proof {
            assert(raw_headers_view(raw@) =~= after);
            lemma_signed_request_headers(before, iv, after, akid, region, token);
        }
        match collect_header_texts(&raw) {
            Ok(headers) => Ok((headers, body.to_owned())),
            Err(m) => Err(m),
        }
    }

    /// Signs the STS request at the current time (see `sign_request_at`):
    /// an endpoint that does not start with `https://` is refused first; a
    /// clock reading outside the years -9999 to 9999 gives the clock error; otherwise the outcome is `signing_outcome` at
    /// whatever instant the clock gave.
    pub fn sign_request(&self, body: &str, credentials: &StsCredentials) -> (r: Result<
        (Vec<(String, String)>, String),
        String,
    >)
        requires
            header_safe(credentials.access_key_id@),
            header_safe(self.region_text()),
        ensures
            !has_prefix(self.endpoint_text(), "https://"@) ==> signed_view(r) == Err::<
                (Seq<(Seq<char>, Seq<char>)>, Seq<char>),
                Seq<char>,
            >(https_error(self.endpoint_text())),
            (r matches Err(m) && m@ == clock_error_text()) || exists|secs: i64, nanos: u32|
                nanos < 1_000_000_000 && earliest_signing_second() <= secs <= latest_signing_second()
                    && #[trigger] signing_outcome(
                    self.endpoint_text(),
                    self.region_text(),
                    credentials.access_key_id@,
                    credentials.secret_access_key@,
                    credentials.session_token@,
                    body@,
                    secs,
                    nanos,
                    signed_view(r),
                ),
    {
        if let Err(m) = require_https(self.endpoint()) {
            assert(signing_outcome(
                self.endpoint_text(),
                self.region_text(),
                credentials.access_key_id@,
                credentials.secret_access_key@,
                credentials.session_token@,
                body@,
                0,
                0,
                Err::<(Seq<(Seq<char>, Seq<char>)>, Seq<char>), Seq<char>>(m@),
            ));
            return Err(m);
        }
        let (secs, nanos) = crate::clock::current_instant();
        if -377705116800 <= secs && secs <= 253402300799 {
            self.sign_request_at(body, credentials, secs, nanos)
        } else {
            Err("system clock is outside the range that can be signed".to_owned())
        }
    }
}

} // verus!
