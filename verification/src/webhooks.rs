//! Decisions of the Git webhook endpoint: signature checks, which pipelines
//! a push triggers, and the records stored for a triggered run.
use vstd::prelude::*;
use vstd::string::StringSliceAdditionalSpecFns;
use vstd::utf8::{decode_utf8, encode_utf8, encode_utf8_decode_utf8, is_char_boundary};
use hmac::Mac;
use crate::errors::ApiError;
use crate::git::lower_hex;
use crate::ids::hex_digit;
use crate::json::{as_str_spec, get_spec, json_as_array, json_as_str, json_document, json_get, json_str_at, parse_json, str_at, JsonValue};
use crate::repository::{opt_string_view, strings_in, PushEvent};
use crate::text::{chars_of, ends_with, ends_with_exec, eq_str, owned, slice_chars, split_char, split_on_char, starts_with, starts_with_exec, str_eq, string_of};

verus! {

/// Whether a branch name matches a pattern: a pattern without `*` must be
/// equal to it; with one `*` the branch must start with what precedes it,
/// end with what follows it, and be at least as long as the two together
/// (the `*` stands for a possibly empty middle); with more, a leading `*` asks for the rest as a
/// suffix, a trailing one for the rest as a prefix, and anything else for
/// equality.
pub open spec fn pattern_matches(branch: Seq<char>, p: Seq<char>) -> bool {
    if !p.contains('*') {
        branch == p
    } else {
        let parts = split_char(p, '*');
        if parts.len() == 2 {
            branch.len() >= parts[0].len() + parts[1].len() && starts_with(branch, parts[0])
                && ends_with(branch, parts[1])
        } else if p[0] == '*' {
            ends_with(branch, p.skip(1))
        } else if p.last() == '*' {
            starts_with(branch, p.take(p.len() - 1))
        } else {
            branch == p
        }
    }
}

/// The pattern `*` matches every branch, and a pattern without `*`
/// matches only the branch it spells.
pub proof fn lemma_pattern_basics(branch: Seq<char>, p: Seq<char>)
    ensures
        pattern_matches(branch, "*"@),
        !p.contains('*') ==> (pattern_matches(branch, p) <==> branch == p),
{
    reveal_strlit("*");
    let star = "*"@;
    assert(star.len() == 1 && star[0] == '*');
    assert(star.contains('*'));
    assert(star.drop_last() =~= Seq::<char>::empty());
    let parts = split_char(star, '*');
    assert(split_char(Seq::<char>::empty(), '*') == seq![Seq::<char>::empty()]);
    assert(parts == seq![Seq::<char>::empty()].push(Seq::<char>::empty()));
    assert(parts.len() == 2);
    assert(starts_with(branch, parts[0])) by {
        assert(branch.subrange(0, 0) =~= Seq::<char>::empty());
    }
    assert(ends_with(branch, parts[1])) by {
        assert(branch.subrange(branch.len() as int, branch.len() as int) =~= Seq::<char>::empty());
    }
}

pub open spec fn matches_any(branch: Seq<char>, ps: Seq<Seq<char>>) -> bool {
    exists|i: int| 0 <= i < ps.len() && #[trigger] pattern_matches(branch, ps[i])
}

fn contains_char(s: &[char], c: char) -> (b: bool)
    ensures
        b == s@.contains(c),
{
    let mut i: usize = 0;
    while i < s.len()
        invariant
            i <= s.len(),
            forall|k: int| 0 <= k < i ==> s@[k] != c,
        decreases s.len() - i,
    {
        if s[i] == c {
            return true;
        }
        i = i + 1;
    }
    false
}

fn chars_eq(a: &[char], b: &[char]) -> (r: bool)
    ensures
        r == (a@ == b@),
{
    if a.len() != b.len() {
        return false;
    }
    let r = starts_with_exec(a, b);
    assert(a@.subrange(0, a@.len() as int) =~= a@);
    r
}

fn pattern_matches_exec(branch: &[char], p: &[char]) -> (b: bool)
    ensures
        b == pattern_matches(branch@, p@),
{
    if !contains_char(p, '*') {
        return chars_eq(branch, p);
    }
    let parts = split_on_char(p, '*');
    assert(parts@.len() == split_char(p@, '*').len());
    if parts.len() == 2 {
        assert(parts@.map_values(|v: Vec<char>| v@)[0] == parts@[0]@);
        assert(parts@.map_values(|v: Vec<char>| v@)[1] == parts@[1]@);
        parts[0].len() <= branch.len() && parts[1].len() <= branch.len() - parts[0].len() && starts_with_exec(
            branch,
            parts[0].as_slice(),
        ) && ends_with_exec(branch, parts[1].as_slice())
    } else if p[0] == '*' {
        let rest = slice_chars(p, 1, p.len());
        assert(rest@ =~= p@.skip(1));
        ends_with_exec(branch, rest.as_slice())
    } else if p[p.len() - 1] == '*' {
        let rest = slice_chars(p, 0, p.len() - 1);
        assert(rest@ =~= p@.take(p@.len() - 1));
        starts_with_exec(branch, rest.as_slice())
    } else {
        chars_eq(branch, p)
    }
}

/// Whether a branch name matches any of the patterns (simple globs with `*`).
pub fn matches_branch_pattern(branch: &str, patterns: &[&str]) -> (b: bool)
    ensures
        b == matches_any(branch@, patterns@.map_values(|p: &str| p@)),
{
    let bc = chars_of(branch);
    let ghost ps = patterns@.map_values(|p: &str| p@);
    let mut i: usize = 0;
    while i < patterns.len()
        invariant
            i <= patterns.len(),
            bc@ == branch@,
            ps == patterns@.map_values(|p: &str| p@),
            forall|k: int| 0 <= k < i ==> !pattern_matches(branch@, #[trigger] ps[k]),
        decreases patterns.len() - i,
    {
        let pc = chars_of(patterns[i]);
        if pattern_matches_exec(bc.as_slice(), pc.as_slice()) {
            assert(pattern_matches(branch@, ps[i as int]));
            return true;
        }
        i = i + 1;
    }
    false
}

pub open spec fn is_hex_byte(b: u8) -> bool {
    (48 <= b && b <= 57) || (65 <= b && b <= 70) || (97 <= b && b <= 102)
}

pub open spec fn hex_val(b: u8) -> int {
    if 48 <= b && b <= 57 {
        b - 48
    } else if 65 <= b && b <= 70 {
        b - 55
    } else {
        b - 87
    }
}

/// What `hex::decode` gives for a byte text: pairs of hexadecimal digits
/// (either case) as bytes; nothing for an odd length or another character.
pub open spec fn hex_decoded(s: Seq<u8>) -> Option<Seq<u8>> {
    if s.len() % 2 != 0 {
        None
    } else if forall|i: int| 0 <= i < s.len() ==> is_hex_byte(#[trigger] s[i]) {
        Some(Seq::new(s.len() / 2, |i: int| (hex_val(s[2 * i]) * 16 + hex_val(s[2 * i + 1])) as u8))
    } else {
        None
    }
}

pub open spec fn opt_bytes(o: Option<Vec<u8>>) -> Option<Seq<u8>> {
    match o {
        Some(v) => Some(v@),
        None => None,
    }
}

/// Calls `hex::decode`, which reads pairs of hexadecimal digits of either
/// case and fails on an odd length or any other byte.
#[verifier::external_body]
fn hex_decode(s: &[u8]) -> (r: Option<Vec<u8>>)
    ensures
        opt_bytes(r) == hex_decoded(s@),
{
    hex::decode(s).ok()
}

/// The HMAC-SHA256 tag of a message under a key.
pub uninterp spec fn hmac_sha256(key: Seq<u8>, msg: Seq<u8>) -> Seq<u8>;

/// Computes HMAC-SHA256 of `msg` under `key` with the `hmac` and `sha2`
/// crates and compares it with `tag` in constant time (`Mac::verify_slice`,
/// which also rejects a tag of another length). `new_from_slice` accepts a
/// key of any length for HMAC.
#[verifier::external_body]
fn hmac_sha256_verify(key: &[u8], msg: &[u8], tag: &[u8]) -> (r: bool)
    ensures
        r == (tag@ == hmac_sha256(key@, msg@)),
{
    match hmac::Hmac::<sha2::Sha256>::new_from_slice(key) {
        Ok(mut mac) => {
            mac.update(msg);
            mac.verify_slice(tag).is_ok()
        },
        Err(_) => false,
    }
}

/// The bytes of `sha256=`.
pub open spec fn sig_prefix() -> Seq<u8> {
    seq![115u8, 104u8, 97u8, 50u8, 53u8, 54u8, 61u8]
}

/// A GitHub signature header is valid when it reads `sha256=` followed by
/// the hexadecimal HMAC-SHA256 of the body under the secret.
pub open spec fn signature_valid(secret: Seq<char>, body: Seq<u8>, signature: Option<Seq<char>>) -> bool {
    match signature {
        None => false,
        Some(s) => {
            let b = encode_utf8(s);
            &&& b.len() >= 7
            &&& b.take(7) == sig_prefix()
            &&& match hex_decoded(b.skip(7)) {
                Some(tag) => tag == hmac_sha256(encode_utf8(secret), body),
                None => false,
            }
        },
    }
}

/// The bytes of a text of ASCII characters are the characters' codes.
proof fn lemma_ascii_bytes(s: Seq<char>)
    requires
        forall|i: int| 0 <= i < s.len() ==> (#[trigger] s[i] as u32) < 128,
    ensures
        encode_utf8(s) =~= Seq::new(s.len(), |i: int| (s[i] as u32) as u8),
    decreases s.len(),
{
    if s.len() > 0 {
        let rest = s.drop_first();
        assert forall|i: int| 0 <= i < rest.len() implies (#[trigger] rest[i] as u32) < 128 by {
            assert(rest[i] == s[i + 1]);
        }
        lemma_ascii_bytes(rest);
        let c = s[0] as u32;
        assert(c < 128);
        assert((c & 0x7F) as u8 == c as u8) by (bit_vector)
            requires
                c < 128,
        ;
    }
}

/// Decoding the lower-case hexadecimal text of bytes gives the bytes back.
proof fn lemma_hex_round_trip(tag: Seq<u8>)
    ensures
        hex_decoded(Seq::new(lower_hex(tag).len(), |i: int| (lower_hex(tag)[i] as u32) as u8)) == Some(tag),
{
    let h = lower_hex(tag);
    let b = Seq::new(h.len(), |i: int| (h[i] as u32) as u8);
    assert forall|i: int| 0 <= i < b.len() implies is_hex_byte(#[trigger] b[i]) && hex_val(b[i]) == (if i
        % 2 == 0 {
        tag[i / 2] / 16
    } else {
        tag[i / 2] % 16
    }) by {
        let d: nat = (if i % 2 == 0 {
            tag[i / 2] / 16
        } else {
            tag[i / 2] % 16
        }) as nat;
        assert(d < 16);
        assert(h[i] == hex_digit(d));
    }
    assert(b.len() % 2 == 0);
    let decoded = Seq::new(b.len() / 2, |i: int| (hex_val(b[2 * i]) * 16 + hex_val(b[2 * i + 1])) as u8);
    assert forall|i: int| 0 <= i < tag.len() implies decoded[i] == tag[i] by {
        assert(hex_val(b[2 * i]) == tag[i] / 16);
        assert(hex_val(b[2 * i + 1]) == tag[i] % 16);
    }
    assert(decoded =~= tag);
}

/// The header GitHub sends for a delivery, `sha256=` and the lower-case
/// hexadecimal HMAC-SHA256 of the body under the shared secret, is
/// accepted.
pub proof fn lemma_github_signature_accepted(secret: Seq<char>, body: Seq<u8>)
    ensures
        signature_valid(
            secret,
            body,
            Some("sha256="@ + lower_hex(hmac_sha256(encode_utf8(secret), body))),
        ),
{
    reveal_strlit("sha256=");
    let tag = hmac_sha256(encode_utf8(secret), body);
    let h = lower_hex(tag);
    let s = "sha256="@ + h;
    assert forall|i: int| 0 <= i < s.len() implies (#[trigger] s[i] as u32) < 128 by {
        if i >= 7 {
            let k = i - 7;
            let d: nat = (if k % 2 == 0 {
                tag[k / 2] / 16
            } else {
                tag[k / 2] % 16
            }) as nat;
            assert(s[i] == h[k]);
            assert(h[k] == hex_digit(d));
        }
    }
    lemma_ascii_bytes(s);
    let b = encode_utf8(s);
    assert(b.take(7) =~= sig_prefix());
    lemma_hex_round_trip(tag);
    assert(b.skip(7) =~= Seq::new(h.len(), |i: int| (h[i] as u32) as u8));
}

pub open spec fn opt_str_view(o: Option<&str>) -> Option<Seq<char>> {
    match o {
        Some(s) => Some(s@),
        None => None,
    }
}

/// Verifies a GitHub webhook signature (`X-Hub-Signature-256`).
pub fn verify_github_signature(secret: &str, body: &[u8], signature: Option<&str>) -> (r: bool)
    ensures
        r == signature_valid(secret@, body@, opt_str_view(signature)),
{
    let sig = match signature {
        Some(s) => s,
        None => {
            return false;
        },
    };
    let b = sig.as_bytes();
    if b.len() < 7 || b[0] != 115u8 || b[1] != 104u8 || b[2] != 97u8 || b[3] != 50u8 || b[4] != 53u8
        || b[5] != 54u8 || b[6] != 61u8 {
        proof {
            if b@.len() >= 7 && b@.take(7) == sig_prefix() {
                assert(b@.take(7)[0] == b@[0]);
                assert(b@.take(7)[1] == b@[1]);
                assert(b@.take(7)[2] == b@[2]);
                assert(b@.take(7)[3] == b@[3]);
                assert(b@.take(7)[4] == b@[4]);
                assert(b@.take(7)[5] == b@[5]);
                assert(b@.take(7)[6] == b@[6]);
            }
        }
        return false;
    }
    assert(b@.take(7) =~= sig_prefix());
    let mut hexpart: Vec<u8> = Vec::new();
    let mut i: usize = 7;
    while i < b.len()
        invariant
            7 <= i <= b.len(),
            hexpart@ == b@.subrange(7, i as int),
        decreases b.len() - i,
    {
        hexpart.push(b[i]);
        assert(b@.subrange(7, i + 1) =~= b@.subrange(7, i as int).push(b@[i as int]));
        i = i + 1;
    }
    assert(hexpart@ =~= b@.skip(7));
    let tag = match hex_decode(hexpart.as_slice()) {
        Some(t) => t,
        None => {
            return false;
        },
    };
    hmac_sha256_verify(secret.as_bytes(), body, tag.as_slice())
}

/// A webhook may be processed when the repository has no webhook secret, or
/// when the signature is valid for its secret.
pub fn webhook_authorized(secret: Option<&str>, body: &[u8], signature: Option<&str>) -> (r: bool)
    ensures
        r == match secret {
            None => true,
            Some(s) => signature_valid(s@, body@, opt_str_view(signature)),
        },
{
    match secret {
        None => true,
        Some(s) => verify_github_signature(s, body, signature),
    }
}

/// Reads a webhook body as JSON: the document, or a bad request whose
/// message is "Invalid JSON: " followed by the parser's own account.
pub fn parse_webhook_payload(body: &[u8]) -> (r: Result<JsonValue, ApiError>)
    ensures
        match json_document(body@) {
            Some(v) => r == Ok::<JsonValue, ApiError>(v),
            None => r matches Err(ApiError::BadRequest(m)) && starts_with(m@, "Invalid JSON: "@),
        },
{
    match parse_json(body) {
        Ok(v) => Ok(v),
        Err(e) => {
            let mut out = chars_of("Invalid JSON: ");
            let n = out.len();
            crate::text::append_str(&mut out, e.as_str());
            assert(out@.subrange(0, n as int) =~= "Invalid JSON: "@);
            Err(ApiError::BadRequest(string_of(out.as_slice())))
        },
    }
}

/// The full name of the repository a webhook payload is about
/// (`repository.full_name`), if it has one.
pub fn payload_repository_name(payload: &JsonValue) -> (r: Option<&str>)
    ensures
        match get_spec(*payload, "repository"@) {
            Some(repo) => match r {
                Some(n) => str_at(repo, "full_name"@) == Some(n@),
                None => str_at(repo, "full_name"@) is None,
            },
            None => r is None,
        },
{
    match json_get(payload, "repository") {
        Some(repo) => json_str_at(repo, "full_name"),
        None => None,
    }
}

/// The push event to act on: the payload of a `push` event that reads as
/// one; other events are only recorded.
pub fn push_to_handle(event_type: &str, payload: &JsonValue) -> (r: Option<PushEvent>)
    ensures
        event_type@ != "push"@ ==> r is None,
        event_type@ == "push"@ ==> (r is Some <==> crate::repository::push_readable(*payload)),
        r matches Some(e) ==> crate::repository::push_ok(*payload, e),
{
    if str_eq(event_type, "push") {
        PushEvent::from_github_payload(payload)
    } else {
        None
    }
}

/// Whether one trigger of a pipeline configuration fires for a push to
/// `branch`: it must be a `push` trigger, and its `branches` patterns, if
/// it lists them, must match the branch.
pub open spec fn trigger_fires(t: JsonValue, branch: Option<Seq<char>>) -> bool {
    str_at(t, "type"@) == Some("push"@) && match get_spec(t, "branches"@) {
        Some(JsonValue::Array(bs)) => match branch {
            Some(b) => matches_any(b, strings_in(bs@)),
            None => false,
        },
        _ => true,
    }
}

/// Whether a push triggers a pipeline: by its configured triggers, or,
/// without any, when it is a push to the repository's default branch.
pub open spec fn push_triggers(config: JsonValue, branch: Option<Seq<char>>, default_branch: Seq<char>) -> bool {
    match get_spec(config, "triggers"@) {
        Some(JsonValue::Array(ts)) => exists|i: int|
            0 <= i < ts.len() && #[trigger] trigger_fires(ts@[i], branch),
        _ => branch == Some(default_branch),
    }
}

fn trigger_fires_exec(t: &JsonValue, branch: Option<&str>) -> (r: bool)
    ensures
        r == trigger_fires(*t, opt_str_view(branch)),
{
    proof {
        reveal_strlit("push");
    }
    let ty = json_str_at(t, "type");
    let is_push = match ty {
        Some(s) => str_eq(s, "push"),
        None => false,
    };
    if !is_push {
        return false;
    }
    match json_get(t, "branches") {
        Some(bv) => match json_as_array(bv) {
            Some(bs) => {
                let mut pats: Vec<&str> = Vec::new();
                let mut i: usize = 0;
                while i < bs.len()
                    invariant
                        i <= bs.len(),
                        pats@.map_values(|p: &str| p@) == strings_in(bs@.take(i as int)),
                    decreases bs.len() - i,
                {
                    assert(bs@.take(i + 1).drop_last() =~= bs@.take(i as int));
                    if let Some(s) = json_as_str(&bs[i]) {
                        let ghost before = pats@;
                        pats.push(s);
                        assert(pats@.map_values(|p: &str| p@) =~= before.map_values(|p: &str| p@).push(s@));
                    }
                    i = i + 1;
                }
                assert(bs@.take(i as int) =~= bs@);
                match branch {
                    Some(b) => matches_branch_pattern(b, pats.as_slice()),
                    None => false,
                }
            },
            None => true,
        },
        None => true,
    }
}

/// Whether a push to `branch` triggers the pipeline with this configuration.
pub fn push_should_trigger(config: &JsonValue, branch: Option<&str>, default_branch: &str) -> (r: bool)
    ensures
        r == push_triggers(*config, opt_str_view(branch), default_branch@),
{
    match json_get(config, "triggers") {
        Some(tv) => match json_as_array(tv) {
            Some(ts) => {
                let mut i: usize = 0;
                while i < ts.len()
                    invariant
                        i <= ts.len(),
                        get_spec(*config, "triggers"@) == Some(JsonValue::Array(*ts)),
                        forall|k: int| 0 <= k < i ==> !trigger_fires(#[trigger] ts@[k], opt_str_view(branch)),
                    decreases ts.len() - i,
                {
                    if trigger_fires_exec(&ts[i], branch) {
                        proof {
                            let tv = get_spec(*config, "triggers"@)->0;
                            assert(tv == JsonValue::Array(*ts));
                            let tsv = tv->Array_0;
                            assert(tsv@[i as int] == ts@[i as int]);
                            assert(trigger_fires(tsv@[i as int], opt_str_view(branch)));
                        }
                        return true;
                    }
                    i = i + 1;
                }
                false
            },
            None => match branch {
                Some(b) => str_eq(b, default_branch),
                None => false,
            },
        },
        None => match branch {
            Some(b) => str_eq(b, default_branch),
            None => false,
        },
    }
}


/// A string member of a JSON object.
pub open spec fn str_member(m: (String, JsonValue), key: Seq<char>, val: Seq<char>) -> bool {
    m.0@ == key && (m.1 matches JsonValue::String(x) && x@ == val)
}

/// A member that holds a string or `null`.
pub open spec fn opt_member(m: (String, JsonValue), key: Seq<char>, val: Option<Seq<char>>) -> bool {
    m.0@ == key && match val {
        Some(v) => (m.1 matches JsonValue::String(x) && x@ == v),
        None => m.1 is Null,
    }
}

/// The first seven bytes of the pushed commit's sha (all of it if shorter).
pub open spec fn short_sha(after: Seq<char>) -> Seq<char> {
    let b = encode_utf8(after);
    decode_utf8(b.take(if b.len() < 7 {
        b.len() as int
    } else {
        7
    }))
}

/// The sha can be cut after its seventh byte.
pub open spec fn short_sha_cuttable(after: Seq<char>) -> bool {
    let b = encode_utf8(after);
    is_char_boundary(
        b,
        if b.len() < 7 {
            b.len() as int
        } else {
            7
        },
    )
}

/// The git record stored with a run that a push triggered.
pub open spec fn git_info_ok(e: PushEvent, v: JsonValue) -> bool {
    &&& v is Object
    &&& {
        let ms = v->Object_0;
        ms.len() == 7 && str_member(ms@[0], "sha"@, e.after@)
        && str_member(ms@[1], "short_sha"@, short_sha(e.after@)) && opt_member(
        ms@[2],
        "branch"@,
        opt_string_view(e.branch),
    ) && str_member(ms@[3], "ref"@, e.ref_name@) && opt_member(
        ms@[4],
        "message"@,
        match e.head_commit {
            Some(c) => Some(c.message@),
            None => None,
        },
    ) && opt_member(
        ms@[5],
        "author"@,
        match e.head_commit {
            Some(c) => Some(c.author@),
            None => None,
        },
    ) && str_member(ms@[6], "repository"@, e.repository_full_name@)
    }
}

fn str_json(s: &str) -> (r: JsonValue)
    ensures
        r is String,
        r->String_0@ == s@,
{
    JsonValue::String(owned(s))
}

fn opt_json(o: &Option<String>) -> (r: JsonValue)
    ensures
        match *o {
            Some(v) => (r matches JsonValue::String(x) && x@ == v@),
            None => r is Null,
        },
{
    match o {
        Some(v) => JsonValue::String(v.clone()),
        None => JsonValue::Null,
    }
}

/// The git record for a run triggered by a push: its sha, short sha,
/// branch, ref, head commit message and author, and repository.
pub fn push_git_info(e: &PushEvent) -> (v: JsonValue)
    requires
        short_sha_cuttable(e.after@),
    ensures
        git_info_ok(*e, v),
{
    let after = e.after.as_str();
    let ab = after.as_bytes();
    let n = if ab.len() < 7 {
        ab.len()
    } else {
        7
    };
    assert(after.spec_bytes() == encode_utf8(e.after@));
    assert(n as int == if encode_utf8(e.after@).len() < 7 {
        encode_utf8(e.after@).len() as int
    } else {
        7
    });
    let (head, _) = after.split_at(n);
    proof {
        encode_utf8_decode_utf8(head@);
        assert(head.spec_bytes() =~= after.spec_bytes().take(n as int));
    }
    let mut ms: Vec<(String, JsonValue)> = Vec::new();
    ms.push((owned("sha"), str_json(after)));
    ms.push((owned("short_sha"), str_json(head)));
    ms.push((owned("branch"), opt_json(&e.branch)));
    ms.push((owned("ref"), str_json(e.ref_name.as_str())));
    let (msg, author) = match &e.head_commit {
        Some(c) => (str_json(c.message.as_str()), str_json(c.author.as_str())),
        None => (JsonValue::Null, JsonValue::Null),
    };
    ms.push((owned("message"), msg));
    ms.push((owned("author"), author));
    ms.push((owned("repository"), str_json(e.repository_full_name.as_str())));
    assert(head@ == short_sha(e.after@));
    assert(str_member(ms@[1], "short_sha"@, short_sha(e.after@)));
    assert(str_member(ms@[0], "sha"@, e.after@));
    assert(opt_member(ms@[2], "branch"@, opt_string_view(e.branch)));
    let v = JsonValue::Object(ms);
    assert(v->Object_0.len() == 7);
    v
}

/// The trigger record for a run triggered by a push: kind `push`, the
/// pusher as actor, and the ref.
pub fn push_trigger_info(e: &PushEvent) -> (v: JsonValue)
    ensures
        v is Object,
        v->Object_0.len() == 3,
        str_member(v->Object_0@[0], "kind"@, "push"@),
        str_member(v->Object_0@[1], "actor"@, e.pusher@),
        str_member(v->Object_0@[2], "ref"@, e.ref_name@),
{
    let mut ms: Vec<(String, JsonValue)> = Vec::new();
    ms.push((owned("kind"), str_json("push")));
    ms.push((owned("actor"), str_json(e.pusher.as_str())));
    ms.push((owned("ref"), str_json(e.ref_name.as_str())));
    JsonValue::Object(ms)
}

pub open spec fn text_or_empty(o: Option<&str>) -> Seq<char> {
    match o {
        Some(s) => s@,
        None => Seq::empty(),
    }
}

/// The git record of a run started by hand: the branch and commit asked
/// for (empty where not given), and an empty short hash, message and
/// author.
pub fn manual_git_info(branch: Option<&str>, sha: Option<&str>) -> (v: JsonValue)
    ensures
        v is Object,
        v->Object_0.len() == 5,
        str_member(v->Object_0@[0], "branch"@, text_or_empty(branch)),
        str_member(v->Object_0@[1], "sha"@, text_or_empty(sha)),
        str_member(v->Object_0@[2], "short_sha"@, Seq::<char>::empty()),
        str_member(v->Object_0@[3], "message"@, Seq::<char>::empty()),
        str_member(v->Object_0@[4], "author"@, Seq::<char>::empty()),
{
    proof {
        reveal_strlit("");
        assert(""@ =~= Seq::<char>::empty());
    }
    let b = match branch {
        Some(x) => x,
        None => "",
    };
    let h = match sha {
        Some(x) => x,
        None => "",
    };
    let mut ms: Vec<(String, JsonValue)> = Vec::new();
    ms.push((owned("branch"), str_json(b)));
    ms.push((owned("sha"), str_json(h)));
    ms.push((owned("short_sha"), str_json("")));
    ms.push((owned("message"), str_json("")));
    ms.push((owned("author"), str_json("")));
    JsonValue::Object(ms)
}

/// The trigger record of a run started by hand: kind `manual`.
pub fn manual_trigger_info() -> (v: JsonValue)
    ensures
        v is Object,
        v->Object_0.len() == 1,
        str_member(v->Object_0@[0], "kind"@, "manual"@),
{
    let mut ms: Vec<(String, JsonValue)> = Vec::new();
    ms.push((owned("kind"), str_json("manual")));
    JsonValue::Object(ms)
}

/// Which of a repository's pipelines (given by their configurations) a
/// push starts a run of, in order; none when the repository is unknown.
pub fn pipelines_to_trigger(
    e: &PushEvent,
    repository_known: bool,
    default_branch: &str,
    configs: &Vec<JsonValue>,
) -> (r: Vec<usize>)
    ensures
        !repository_known ==> r.len() == 0,
        repository_known ==> forall|i: int|
            0 <= i < configs.len() ==> (r@.contains(i as usize) <==> push_triggers(
                #[trigger] configs@[i],
                opt_string_view(e.branch),
                default_branch@,
            )),
        forall|k: int, l: int| 0 <= k < l < r.len() ==> r@[k] < r@[l],
        forall|k: int| 0 <= k < r.len() ==> r@[k] < configs.len(),
{
    let mut out: Vec<usize> = Vec::new();
    if !repository_known {
        return out;
    }
    let branch: Option<&str> = match &e.branch {
        Some(b) => Some(b.as_str()),
        None => None,
    };
    assert(opt_str_view(branch) == opt_string_view(e.branch));
    let mut i: usize = 0;
    while i < configs.len()
        invariant
            i <= configs.len(),
            opt_str_view(branch) == opt_string_view(e.branch),
            forall|t: int|
                0 <= t < i ==> (out@.contains(t as usize) <==> push_triggers(
                    #[trigger] configs@[t],
                    opt_string_view(e.branch),
                    default_branch@,
                )),
            forall|k: int, l: int| 0 <= k < l < out.len() ==> out@[k] < out@[l],
            forall|k: int| 0 <= k < out.len() ==> out@[k] < i,
        decreases configs.len() - i,
    {
        let ghost old_out = out@;
        let trig = push_should_trigger(&configs[i], branch, default_branch);
        if trig {
            out.push(i);
        }
        proof {
            assert forall|t: int| 0 <= t < i + 1 implies (out@.contains(t as usize) <==> push_triggers(
                #[trigger] configs@[t],
                opt_string_view(e.branch),
                default_branch@,
            )) by {
                if t < i {
                    if out@.contains(t as usize) {
                        let k = choose|k: int| 0 <= k < out@.len() && out@[k] == t as usize;
                        assert(k < old_out.len());
                        assert(old_out[k] == t as usize);
                    }
                    if old_out.contains(t as usize) {
                        let k = choose|k: int| 0 <= k < old_out.len() && old_out[k] == t as usize;
                        assert(out@[k] == t as usize);
                    }
                } else {
                    if trig {
                        assert(out@[out@.len() - 1] == i);
                    } else {
                        if out@.contains(t as usize) {
                            let k = choose|k: int| 0 <= k < out@.len() && out@[k] == t as usize;
                            assert(old_out[k] < i);
                        }
                    }
                }
            }
        }
        i = i + 1;
    }
    out
}

} // verus!
