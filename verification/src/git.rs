//! Git service decisions: the authenticated clone URL and command, the
//! local directory of a clone, the redaction of clone errors, and how a
//! repository's files are recognised while it is scanned.
use vstd::prelude::*;
use vstd::string::StringSliceAdditionalSpecFns;
use crate::ids::hex_digit;
use crate::order::{sorted_unique, strictly_sorted};
use crate::pipeline::strings_view;
use crate::repository::DetectedConfig;
use crate::text::{
    append_chars, append_str, chars_of, ends_with, ends_with_exec, eq_str, has_sub, occurs_at, occurs_at_exec,
    owned, slice_chars, starts_with, starts_with_exec, str_contains, str_eq, string_of,
};

verus! {

/// The clone URL with the access token put in after `https://`.
pub open spec fn auth_url_text(url: Seq<char>, token: Option<Seq<char>>) -> Seq<char> {
    match token {
        Some(t) => if starts_with(url, "https://"@) {
            "https://"@ + t + "@"@ + url.skip(8)
        } else {
            url
        },
        None => url,
    }
}

pub open spec fn opt_str(o: Option<&str>) -> Option<Seq<char>> {
    match o {
        Some(s) => Some(s@),
        None => None,
    }
}

/// The URL to clone from: `https://<token>@...` where a token is given for
/// an `https://` URL, else the URL itself.
pub fn auth_clone_url(clone_url: &str, access_token: Option<&str>) -> (r: String)
    ensures
        r@ == auth_url_text(clone_url@, opt_str(access_token)),
{
    match access_token {
        Some(t) => {
            let c = chars_of(clone_url);
            let pre = chars_of("https://");
            if starts_with_exec(c.as_slice(), pre.as_slice()) {
                proof {
                    reveal_strlit("https://");
                }
                let mut out = chars_of("https://");
                append_str(&mut out, t);
                append_str(&mut out, "@");
                let rest = slice_chars(c.as_slice(), 8, c.len());
                append_chars(&mut out, rest.as_slice());
                assert(rest@ =~= clone_url@.skip(8));
                string_of(out.as_slice())
            } else {
                owned(clone_url)
            }
        },
        None => owned(clone_url),
    }
}

/// With a token `t`, an `https://` URL gets `t@` put in right after its
/// scheme and is otherwise kept: the result is `t.len() + 1` longer, starts
/// with `https://`, then holds the token, then `@`, then the rest of the URL
/// after its scheme; so it contains the token. Without a token, or for
/// another scheme, the URL is kept as it is.
pub proof fn lemma_auth_url(url: Seq<char>, token: Option<Seq<char>>)
    ensures
        ({
            let r = auth_url_text(url, token);
            match token {
                Some(t) => if starts_with(url, "https://"@) {
                    &&& r.len() == url.len() + t.len() + 1
                    &&& r.take(8) == url.take(8)
                    &&& r.subrange(8, 8 + t.len() as int) == t
                    &&& r[8 + t.len() as int] == '@'
                    &&& r.skip(9 + t.len() as int) == url.skip(8)
                    &&& has_sub(r, t)
                } else {
                    r == url
                },
                None => r == url,
            }
        }),
{
    reveal_strlit("https://");
    reveal_strlit("@");
    if let Some(t) = token {
        if starts_with(url, "https://"@) {
            let r = auth_url_text(url, token);
            assert("https://"@.len() == 8);
            assert(r.take(8) =~= url.take(8));
            assert(r.subrange(8, 8 + t.len() as int) =~= t);
            assert(r.skip(9 + t.len() as int) =~= url.skip(8));
            assert(occurs_at(r, t, 8));
        }
    }
}

/// Arguments of the shallow, single-branch `git clone`.
pub fn clone_args(auth_url: &str, clone_path: &str) -> (r: Vec<String>)
    ensures
        strings_view(r@) == seq!["clone"@, "--depth"@, "1"@, "--single-branch"@, auth_url@, clone_path@],
{
    let mut v: Vec<String> = Vec::new();
    v.push(owned("clone"));
    v.push(owned("--depth"));
    v.push(owned("1"));
    v.push(owned("--single-branch"));
    v.push(owned(auth_url));
    v.push(owned(clone_path));
    assert(strings_view(v@) =~= seq![
        "clone"@,
        "--depth"@,
        "1"@,
        "--single-branch"@,
        auth_url@,
        clone_path@,
    ]);
    v
}

/// `str::replace`: every non-overlapping occurrence of `pat`, from the
/// left, replaced by `rep`; an empty pattern matches before every character
/// and at the end.
pub open spec fn replace_all(s: Seq<char>, pat: Seq<char>, rep: Seq<char>) -> Seq<char>
    decreases s.len(),
{
    if pat.len() == 0 {
        if s.len() == 0 {
            rep
        } else {
            rep + seq![s[0]] + replace_all(s.drop_first(), pat, rep)
        }
    } else if s.len() == 0 {
        Seq::empty()
    } else if occurs_at(s, pat, 0) {
        rep + replace_all(s.skip(pat.len() as int), pat, rep)
    } else {
        seq![s[0]] + replace_all(s.drop_first(), pat, rep)
    }
}

fn replace_all_exec(s: &[char], pat: &[char], rep: &[char]) -> (r: Vec<char>)
    ensures
        r@ == replace_all(s@, pat@, rep@),
{
    let mut out: Vec<char> = Vec::new();
    let mut i: usize = 0;
    assert(s@.skip(0) =~= s@);
    assert(out@ + replace_all(s@, pat@, rep@) =~= replace_all(s@, pat@, rep@));
    while i < s.len()
        invariant
            i <= s.len(),
            out@ + replace_all(s@.skip(i as int), pat@, rep@) == replace_all(s@, pat@, rep@),
        decreases s.len() - i,
    {
        let ghost rest = s@.skip(i as int);
        let ghost old_out = out@;
        assert(rest[0] == s@[i as int]);
        if pat.len() == 0 {
            append_chars(&mut out, rep);
            out.push(s[i]);
            assert(rest.drop_first() =~= s@.skip(i + 1));
            assert(out@ + replace_all(s@.skip(i + 1), pat@, rep@) =~= old_out + (rep@ + seq![rest[0]]
                + replace_all(rest.drop_first(), pat@, rep@)));
            i = i + 1;
        } else if occurs_at_exec(s, pat, i) {
            append_chars(&mut out, rep);
            proof {
                assert(occurs_at(rest, pat@, 0)) by {
                    assert(rest.subrange(0, pat@.len() as int) =~= s@.subrange(i as int, i + pat@.len()));
                }
                assert(rest.skip(pat@.len() as int) =~= s@.skip(i + pat@.len()));
                assert(out@ + replace_all(s@.skip(i + pat@.len()), pat@, rep@) =~= old_out + (rep@
                    + replace_all(rest.skip(pat@.len() as int), pat@, rep@)));
            }
            i = i + pat.len();
        } else {
            proof {
                assert(!occurs_at(rest, pat@, 0)) by {
                    if i + pat@.len() <= s@.len() {
                        assert(rest.subrange(0, pat@.len() as int) =~= s@.subrange(
                            i as int,
                            i + pat@.len(),
                        ));
                    }
                }
                assert(rest.drop_first() =~= s@.skip(i + 1));
            }
            out.push(s[i]);
            assert(out@ + replace_all(s@.skip(i + 1), pat@, rep@) =~= old_out + (seq![rest[0]]
                + replace_all(rest.drop_first(), pat@, rep@)));
            i = i + 1;
        }
    }
    let ghost before = out@;
    assert(s@.skip(i as int).len() == 0);
    if pat.len() == 0 {
        append_chars(&mut out, rep);
    }
    assert(out@ =~= replace_all(s@, pat@, rep@));
    out
}

/// A clone error with the access token (if any) replaced by `[REDACTED]`.
pub fn redact_clone_error(stderr: &str, access_token: Option<&str>) -> (r: String)
    ensures
        r@ == replace_all(
            stderr@,
            match access_token {
                Some(t) => t@,
                None => Seq::empty(),
            },
            "[REDACTED]"@,
        ),
{
    let s = chars_of(stderr);
    let pat: Vec<char> = match access_token {
        Some(t) => chars_of(t),
        None => Vec::new(),
    };
    let rep = chars_of("[REDACTED]");
    let r = replace_all_exec(s.as_slice(), pat.as_slice(), rep.as_slice());
    string_of(r.as_slice())
}

/// Redaction with a non-empty token: a text without the token is kept as
/// it is, and a text that starts with the token has it replaced, the rest
/// being redacted in turn.
pub proof fn lemma_redaction(s: Seq<char>, t: Seq<char>, rep: Seq<char>)
    requires
        t.len() > 0,
    ensures
        !has_sub(s, t) ==> replace_all(s, t, rep) == s,
        replace_all(t + s, t, rep) == rep + replace_all(s, t, rep),
    decreases s.len(),
{
    if s.len() > 0 && !has_sub(s, t) {
        assert(!occurs_at(s, t, 0));
        assert(!has_sub(s.drop_first(), t)) by {
            if has_sub(s.drop_first(), t) {
                let i = choose|i: int| occurs_at(s.drop_first(), t, i);
                assert(s.subrange(i + 1, i + 1 + t.len()) =~= s.drop_first().subrange(i, i + t.len()));
                assert(occurs_at(s, t, i + 1));
            }
        }
        lemma_redaction(s.drop_first(), t, rep);
        assert(seq![s[0]] + s.drop_first() =~= s);
    }
    assert((t + s).subrange(0, t.len() as int) =~= t);
    assert(occurs_at(t + s, t, 0));
    assert((t + s).skip(t.len() as int) =~= s);
}

/// The MD5 digest of some bytes.
pub uninterp spec fn md5_digest(bytes: Seq<u8>) -> Seq<u8>;

/// Calls `md5::compute`; the digest has 16 bytes.
#[verifier::external_body]
fn md5_compute(bytes: &[u8]) -> (r: Vec<u8>)
    ensures
        r@ == md5_digest(bytes@),
        r@.len() == 16,
{
    md5::compute(bytes).0.to_vec()
}

/// Bytes as lower-case hexadecimal, two digits per byte.
pub open spec fn lower_hex(b: Seq<u8>) -> Seq<char> {
    Seq::new(
        2 * b.len(),
        |i: int|
            if i % 2 == 0 {
                hex_digit((b[i / 2] / 16) as nat)
            } else {
                hex_digit((b[i / 2] % 16) as nat)
            },
    )
}

fn hex_digit_of(d: u8) -> (c: char)
    requires
        d < 16,
    ensures
        c == hex_digit(d as nat),
{
    if d < 10 {
        ((48 + d) as u8) as char
    } else {
        ((87 + d) as u8) as char
    }
}

/// The name of a repository's clone directory: the lower-case hexadecimal
/// MD5 digest of its clone URL.
pub fn repo_dir_name(clone_url: &str) -> (r: String)
    ensures
        r@ == lower_hex(md5_digest(clone_url.spec_bytes())),
        r@.len() == 32,
{
    let d = md5_compute(clone_url.as_bytes());
    let mut out: Vec<char> = Vec::new();
    let mut i: usize = 0;
    while i < d.len()
        invariant
            i <= d.len(),
            d@.len() == 16,
            out@ =~= lower_hex(d@.take(i as int)),
        decreases d.len() - i,
    {
        let b = d[i];
        let ghost before = out@;
        out.push(hex_digit_of(b / 16));
        out.push(hex_digit_of(b % 16));
        proof {
            let t = d@.take(i + 1);
            assert forall|k: int| 0 <= k < 2 * t.len() implies out@[k] == lower_hex(t)[k] by {
                if k < 2 * i {
                    assert(t[k / 2] == d@.take(i as int)[k / 2]);
                }
            }
        }
        i = i + 1;
    }
    assert(d@.take(16) =~= d@);
    string_of(out.as_slice())
}

/// `PathBuf::join` of a relative name onto a directory.
pub open spec fn join_path(dir: Seq<char>, name: Seq<char>) -> Seq<char> {
    if dir.len() == 0 {
        name
    } else if dir.last() == '/' {
        dir + name
    } else {
        dir + "/"@ + name
    }
}

fn join_path_exec(dir: &str, name: &str) -> (r: String)
    ensures
        r@ == join_path(dir@, name@),
{
    let mut out = chars_of(dir);
    if out.len() == 0 {
        return owned(name);
    }
    if out[out.len() - 1] != '/' {
        out.push('/');
    }
    append_str(&mut out, name);
    proof {
        reveal_strlit("/");
    }
    string_of(out.as_slice())
}

/// Git operations: clones go under a working directory.
#[derive(Debug)]
pub struct GitService {
    /// Base directory for cloned repositories.
    pub work_dir: String,
}

impl GitService {
    pub fn with_work_dir(work_dir: String) -> (r: Self)
        ensures
            r.work_dir@ == work_dir@,
    {
        GitService { work_dir }
    }

    /// The service for the `BUILDIT_WORK_DIR` setting: that directory, or
    /// `buildit-repos` under the system's temporary directory.
    pub fn from_setting(work_dir: Option<String>, temp_dir: &str) -> (r: Self)
        ensures
            r.work_dir@ == match work_dir {
                Some(d) => d@,
                None => join_path(temp_dir@, "buildit-repos"@),
            },
    {
        match work_dir {
            Some(d) => GitService { work_dir: d },
            None => {
                let mut out = chars_of(temp_dir);
                if out.len() > 0 && out[out.len() - 1] != '/' {
                    out.push('/');
                }
                append_str(&mut out, "buildit-repos");
                proof {
                    reveal_strlit("/");
                }
                GitService { work_dir: string_of(out.as_slice()) }
            },
        }
    }

    /// The local directory of a repository's clone.
    pub fn get_repo_path(&self, clone_url: &str) -> (r: String)
        ensures
            r@ == join_path(self.work_dir@, lower_hex(md5_digest(clone_url.spec_bytes()))),
    {
        let name = repo_dir_name(clone_url);
        let w = chars_of(self.work_dir.as_str());
        if w.len() == 0 {
            return name;
        }
        let mut out = w;
        if out[out.len() - 1] != '/' {
            out.push('/');
        }
        append_str(&mut out, name.as_str());
        proof {
            reveal_strlit("/");
        }
        string_of(out.as_slice())
    }

    /// Whether YAML content looks like a Kubernetes manifest: it has an
    /// `apiVersion:` line and one of the usual resource markers.
    pub fn looks_like_k8s_manifest(content: &str) -> (b: bool)
        ensures
            b == (has_sub(content@, "apiVersion:"@) && exists|i: int|
                0 <= i < k8s_indicators().len() && has_sub(content@, #[trigger] k8s_indicators()[i])),
    {
        let inds = k8s_indicator_list();
        if !str_contains(content, "apiVersion:") {
            return false;
        }
        let mut i: usize = 0;
        while i < inds.len()
            invariant
                i <= inds.len(),
                has_sub(content@, "apiVersion:"@),
                strings_view(inds@) == k8s_indicators(),
                forall|k: int| 0 <= k < i ==> !has_sub(content@, #[trigger] k8s_indicators()[k]),
            decreases inds.len() - i,
        {
            assert(inds@[i as int]@ == k8s_indicators()[i as int]);
            if str_contains(content, inds[i].as_str()) {
                assert(has_sub(content@, k8s_indicators()[i as int]));
                return true;
            }
            i = i + 1;
        }
        false
    }
}

/// The markers of Kubernetes resources that a manifest is recognised by.
pub open spec fn k8s_indicators() -> Seq<Seq<char>> {
    seq![
        "apiVersion:"@,
        "kind: Deployment"@,
        "kind: Service"@,
        "kind: ConfigMap"@,
        "kind: Secret"@,
        "kind: Ingress"@,
        "kind: StatefulSet"@,
        "kind: DaemonSet"@,
        "kind: Job"@,
        "kind: CronJob"@,
        "kind: Pod"@,
        "kind: Namespace"@,
        "kind: ServiceAccount"@,
        "kind: Role"@,
        "kind: RoleBinding"@,
        "kind: ClusterRole"@,
        "kind: ClusterRoleBinding"@,
        "kind: PersistentVolumeClaim"@,
        "kind: PersistentVolume"@,
        "kind: HorizontalPodAutoscaler"@,
        "kind: NetworkPolicy"@,
    ]
}

fn k8s_indicator_list() -> (r: Vec<String>)
    ensures
        strings_view(r@) == k8s_indicators(),
{
    let mut v: Vec<String> = Vec::new();
    v.push(owned("apiVersion:"));
    v.push(owned("kind: Deployment"));
    v.push(owned("kind: Service"));
    v.push(owned("kind: ConfigMap"));
    v.push(owned("kind: Secret"));
    v.push(owned("kind: Ingress"));
    v.push(owned("kind: StatefulSet"));
    v.push(owned("kind: DaemonSet"));
    v.push(owned("kind: Job"));
    v.push(owned("kind: CronJob"));
    v.push(owned("kind: Pod"));
    v.push(owned("kind: Namespace"));
    v.push(owned("kind: ServiceAccount"));
    v.push(owned("kind: Role"));
    v.push(owned("kind: RoleBinding"));
    v.push(owned("kind: ClusterRole"));
    v.push(owned("kind: ClusterRoleBinding"));
    v.push(owned("kind: PersistentVolumeClaim"));
    v.push(owned("kind: PersistentVolume"));
    v.push(owned("kind: HorizontalPodAutoscaler"));
    v.push(owned("kind: NetworkPolicy"));
    assert(strings_view(v@) =~= k8s_indicators());
    v
}

/// A text is recognised as a Kubernetes manifest exactly when it contains
/// `apiVersion:` (the first marker is that text itself).
pub proof fn lemma_manifest_iff_api_version(content: Seq<char>)
    ensures
        (has_sub(content, "apiVersion:"@) && exists|i: int|
            0 <= i < k8s_indicators().len() && has_sub(content, #[trigger] k8s_indicators()[i]))
            <==> has_sub(content, "apiVersion:"@),
{
    if has_sub(content, "apiVersion:"@) {
        assert(has_sub(content, k8s_indicators()[0]));
    }
}

/// Directories that a scan does not enter: hidden ones and build or
/// dependency output.
pub open spec fn skipped_dir(name: Seq<char>) -> bool {
    starts_with(name, "."@) || name == "node_modules"@ || name == "target"@ || name == "vendor"@
        || name == ".terraform"@ || name == "__pycache__"@
}

/// Whether a scan enters a subdirectory with this name.
pub fn should_descend(dir_name: &str) -> (b: bool)
    ensures
        b == !skipped_dir(dir_name@),
{
    let c = chars_of(dir_name);
    let dot = chars_of(".");
    !(starts_with_exec(c.as_slice(), dot.as_slice()) || eq_str(c.as_slice(), "node_modules") || eq_str(
        c.as_slice(),
        "target",
    ) || eq_str(c.as_slice(), "vendor") || eq_str(c.as_slice(), ".terraform") || eq_str(
        c.as_slice(),
        "__pycache__",
    ))
}

/// A visible YAML file, whose content is read to see whether it is a
/// Kubernetes manifest.
pub open spec fn yaml_candidate(name: Seq<char>) -> bool {
    (ends_with(name, ".yaml"@) || ends_with(name, ".yml"@)) && !starts_with(name, "."@)
}

pub fn wants_content(file_name: &str) -> (b: bool)
    ensures
        b == yaml_candidate(file_name@),
{
    let c = chars_of(file_name);
    let y1 = chars_of(".yaml");
    let y2 = chars_of(".yml");
    let dot = chars_of(".");
    (ends_with_exec(c.as_slice(), y1.as_slice()) || ends_with_exec(c.as_slice(), y2.as_slice()))
        && !starts_with_exec(c.as_slice(), dot.as_slice())
}

/// The directory under which a file is recorded (`.` for the root).
pub open spec fn dir_of(parent: Seq<char>) -> Seq<char> {
    if parent.len() == 0 {
        "."@
    } else {
        parent
    }
}

/// The list with `x` added at the end, unless it is already there.
pub open spec fn push_unique(v: Seq<Seq<char>>, x: Seq<char>) -> Seq<Seq<char>> {
    if v.contains(x) {
        v
    } else {
        v.push(x)
    }
}

pub open spec fn push_if(v: Seq<Seq<char>>, c: bool, x: Seq<char>) -> Seq<Seq<char>> {
    if c {
        v.push(x)
    } else {
        v
    }
}

pub open spec fn push_unique_if(v: Seq<Seq<char>>, c: bool, x: Seq<char>) -> Seq<Seq<char>> {
    if c {
        push_unique(v, x)
    } else {
        v
    }
}

/// Other notable files.
pub open spec fn notable_file(name: Seq<char>) -> bool {
    name == "docker-compose.yml"@ || name == "docker-compose.yaml"@ || name == "Makefile"@ || name
        == "Cargo.toml"@ || name == "package.json"@ || name == "go.mod"@ || name
        == "requirements.txt"@ || name == "Gemfile"@ || name == "Kustomization.yaml"@ || name
        == "kustomization.yaml"@
}

pub open spec fn is_manifest(name: Seq<char>, content: Option<&str>) -> bool {
    manifest_text(name, opt_str(content))
}

/// A visible YAML file whose text was read and reads as a Kubernetes
/// manifest.
pub open spec fn manifest_text(name: Seq<char>, content: Option<Seq<char>>) -> bool {
    yaml_candidate(name) && match content {
        Some(c) => has_sub(c, "apiVersion:"@) && exists|i: int|
            0 <= i < k8s_indicators().len() && has_sub(c, #[trigger] k8s_indicators()[i]),
        None => false,
    }
}

/// What recording one file found in a scan does to the detected
/// configuration.
pub open spec fn recorded(
    old: DetectedConfig,
    new: DetectedConfig,
    name: Seq<char>,
    rel: Seq<char>,
    parent: Seq<char>,
    content: Option<&str>,
) -> bool {
    let dir = dir_of(parent);
    let tf = ends_with(name, ".tf"@);
    let manifest = is_manifest(name, content);
    &&& opt_view_str(new.buildit_config) == if name == ".buildit.kdl"@ || name == "buildit.kdl"@ {
        Some(rel)
    } else {
        opt_view_str(old.buildit_config)
    }
    &&& strings_view(new.terraform_files@) == push_if(strings_view(old.terraform_files@), tf, rel)
    &&& strings_view(new.terraform_dirs@) == push_unique_if(strings_view(old.terraform_dirs@), tf, dir)
    &&& strings_view(new.dockerfiles@) == push_if(
        strings_view(old.dockerfiles@),
        name == "Dockerfile"@ || starts_with(name, "Dockerfile."@),
        rel,
    )
    &&& strings_view(new.helm_charts@) == push_unique_if(
        strings_view(old.helm_charts@),
        name == "Chart.yaml"@,
        dir,
    )
    &&& strings_view(new.kubernetes_files@) == push_if(strings_view(old.kubernetes_files@), manifest, rel)
    &&& strings_view(new.kubernetes_dirs@) == push_unique_if(
        strings_view(old.kubernetes_dirs@),
        manifest,
        dir,
    )
    &&& strings_view(new.other_files@) == push_if(strings_view(old.other_files@), notable_file(name), rel)
}

pub open spec fn opt_view_str(o: Option<String>) -> Option<Seq<char>> {
    match o {
        Some(s) => Some(s@),
        None => None,
    }
}

fn push_if_exec(v: &mut Vec<String>, c: bool, x: &str)
    ensures
        strings_view(final(v)@) == push_if(strings_view(old(v)@), c, x@),
{
    if c {
        let ghost before = strings_view(v@);
        v.push(owned(x));
        assert(strings_view(v@) =~= before.push(x@));
    }
}

fn push_unique_exec(v: &mut Vec<String>, c: bool, x: &str)
    ensures
        strings_view(final(v)@) == push_unique_if(strings_view(old(v)@), c, x@),
{
    if !c {
        return;
    }
    let ghost vs = strings_view(v@);
    let mut i: usize = 0;
    while i < v.len()
        invariant
            i <= v.len(),
            vs == strings_view(v@),
            forall|k: int| 0 <= k < i ==> vs[k] != x@,
        decreases v.len() - i,
    {
        if str_eq(v[i].as_str(), x) {
            assert(vs[i as int] == x@);
            return;
        }
        i = i + 1;
    }
    v.push(owned(x));
    assert(strings_view(v@) =~= vs.push(x@));
}

/// Records one file found while scanning a repository. `relative_path` is
/// the file's path below the repository root, `parent_relative` that of its
/// directory (empty at the root), and `content` the file's text where it is
/// a YAML file that could be read.
pub fn record_file(
    config: &mut DetectedConfig,
    file_name: &str,
    relative_path: &str,
    parent_relative: &str,
    content: Option<&str>,
)
    ensures
        recorded(*old(config), *final(config), file_name@, relative_path@, parent_relative@, content),
        scan_view(*final(config)) == record_view(
            scan_view(*old(config)),
            SeenFile {
                name: file_name@,
                rel: relative_path@,
                parent: parent_relative@,
                content: opt_str(content),
            },
        ),
{
    let n = chars_of(file_name);
    proof {
        reveal_strlit(".");
    }
    let dir: String = if parent_relative.is_empty() {
        owned(".")
    } else {
        owned(parent_relative)
    };
    assert(dir@ == dir_of(parent_relative@));
    if eq_str(n.as_slice(), ".buildit.kdl") || eq_str(n.as_slice(), "buildit.kdl") {
        config.buildit_config = Some(owned(relative_path));
    }
    let tf = ends_with_exec(n.as_slice(), chars_of(".tf").as_slice());
    push_if_exec(&mut config.terraform_files, tf, relative_path);
    push_unique_exec(&mut config.terraform_dirs, tf, dir.as_str());
    let docker = eq_str(n.as_slice(), "Dockerfile") || starts_with_exec(
        n.as_slice(),
        chars_of("Dockerfile.").as_slice(),
    );
    push_if_exec(&mut config.dockerfiles, docker, relative_path);
    let chart = eq_str(n.as_slice(), "Chart.yaml");
    push_unique_exec(&mut config.helm_charts, chart, dir.as_str());
    let manifest = wants_content(file_name) && match content {
        Some(c) => GitService::looks_like_k8s_manifest(c),
        None => false,
    };
    push_if_exec(&mut config.kubernetes_files, manifest, relative_path);
    push_unique_exec(&mut config.kubernetes_dirs, manifest, dir.as_str());
    let notable = eq_str(n.as_slice(), "docker-compose.yml") || eq_str(n.as_slice(), "docker-compose.yaml")
        || eq_str(n.as_slice(), "Makefile") || eq_str(n.as_slice(), "Cargo.toml") || eq_str(
        n.as_slice(),
        "package.json",
    ) || eq_str(n.as_slice(), "go.mod") || eq_str(n.as_slice(), "requirements.txt") || eq_str(
        n.as_slice(),
        "Gemfile",
    ) || eq_str(n.as_slice(), "Kustomization.yaml") || eq_str(n.as_slice(), "kustomization.yaml");
    push_if_exec(&mut config.other_files, notable, relative_path);
}

/// Finishes a scan: the Terraform directories are sorted and duplicates
/// dropped; nothing else changes.
pub fn finish_scan(config: &mut DetectedConfig)
    ensures
        strictly_sorted(strings_view(final(config).terraform_dirs@)),
        strings_view(final(config).terraform_dirs@).to_set() == strings_view(
            old(config).terraform_dirs@,
        ).to_set(),
        final(config).buildit_config == old(config).buildit_config,
        final(config).terraform_files == old(config).terraform_files,
        final(config).kubernetes_files == old(config).kubernetes_files,
        final(config).kubernetes_dirs == old(config).kubernetes_dirs,
        final(config).dockerfiles == old(config).dockerfiles,
        final(config).helm_charts == old(config).helm_charts,
        final(config).other_files == old(config).other_files,
{
    let dirs = sorted_unique(&config.terraform_dirs);
    config.terraform_dirs = dirs;
}

/// An entry of a directory listing as a scan reads it: a directory with
/// its own listing, a file with its text where that was read (only YAML
/// files are read), or anything else (which the scan passes over).
#[derive(Debug)]
pub enum FsEntry {
    Dir { name: String, entries: Vec<FsEntry> },
    File { name: String, content: Option<String> },
    Other,
}

/// A file that a scan meets: its name, its path below the root, the path of
/// its directory (empty at the root) and its text where read.
pub struct SeenFile {
    pub name: Seq<char>,
    pub rel: Seq<char>,
    pub parent: Seq<char>,
    pub content: Option<Seq<char>>,
}

/// The files a scan meets in a listing of the directory at `dir`, in
/// listing order, entering every subdirectory where it stands in the
/// listing, except the skipped ones.
pub open spec fn seen_files(dir: Seq<char>, es: Seq<FsEntry>) -> Seq<SeenFile>
    decreases es,
{
    if es.len() == 0 {
        Seq::empty()
    } else {
        let before = seen_files(dir, es.subrange(0, es.len() - 1));
        match es[es.len() - 1] {
            FsEntry::Dir { name, entries } => if skipped_dir(name@) {
                before
            } else {
                before + seen_files(join_path(dir, name@), entries@)
            },
            FsEntry::File { name, content } => before.push(
                SeenFile {
                    name: name@,
                    rel: join_path(dir, name@),
                    parent: dir,
                    content: opt_view_str(content),
                },
            ),
            FsEntry::Other => before,
        }
    }
}

/// What a scan has found so far, as text.
#[verifier::ext_equal]
pub struct ScanView {
    pub buildit_config: Option<Seq<char>>,
    pub terraform_files: Seq<Seq<char>>,
    pub terraform_dirs: Seq<Seq<char>>,
    pub kubernetes_files: Seq<Seq<char>>,
    pub kubernetes_dirs: Seq<Seq<char>>,
    pub dockerfiles: Seq<Seq<char>>,
    pub helm_charts: Seq<Seq<char>>,
    pub other_files: Seq<Seq<char>>,
}

pub open spec fn scan_view(c: DetectedConfig) -> ScanView {
    ScanView {
        buildit_config: opt_view_str(c.buildit_config),
        terraform_files: strings_view(c.terraform_files@),
        terraform_dirs: strings_view(c.terraform_dirs@),
        kubernetes_files: strings_view(c.kubernetes_files@),
        kubernetes_dirs: strings_view(c.kubernetes_dirs@),
        dockerfiles: strings_view(c.dockerfiles@),
        helm_charts: strings_view(c.helm_charts@),
        other_files: strings_view(c.other_files@),
    }
}

/// What recording one file does to what a scan has found.
pub open spec fn record_view(v: ScanView, f: SeenFile) -> ScanView {
    let dir = dir_of(f.parent);
    let tf = ends_with(f.name, ".tf"@);
    let manifest = manifest_text(f.name, f.content);
    ScanView {
        buildit_config: if f.name == ".buildit.kdl"@ || f.name == "buildit.kdl"@ {
            Some(f.rel)
        } else {
            v.buildit_config
        },
        terraform_files: push_if(v.terraform_files, tf, f.rel),
        terraform_dirs: push_unique_if(v.terraform_dirs, tf, dir),
        kubernetes_files: push_if(v.kubernetes_files, manifest, f.rel),
        kubernetes_dirs: push_unique_if(v.kubernetes_dirs, manifest, dir),
        dockerfiles: push_if(
            v.dockerfiles,
            f.name == "Dockerfile"@ || starts_with(f.name, "Dockerfile."@),
            f.rel,
        ),
        helm_charts: push_unique_if(v.helm_charts, f.name == "Chart.yaml"@, dir),
        other_files: push_if(v.other_files, notable_file(f.name), f.rel),
    }
}

/// Recording the files in order.
pub open spec fn record_all(v: ScanView, fs: Seq<SeenFile>) -> ScanView
    decreases fs.len(),
{
    if fs.len() == 0 {
        v
    } else {
        record_view(record_all(v, fs.drop_last()), fs.last())
    }
}

proof fn lemma_record_all_append(v: ScanView, a: Seq<SeenFile>, b: Seq<SeenFile>)
    ensures
        record_all(v, a + b) == record_all(record_all(v, a), b),
    decreases b.len(),
{
    if b.len() == 0 {
        assert(a + b =~= a);
    } else {
        assert((a + b).drop_last() =~= a + b.drop_last());
        lemma_record_all_append(v, a, b.drop_last());
    }
}

/// Scans the listing of the directory at `dir`: each file is recorded and
/// each subdirectory that is not skipped is scanned where it stands in the
/// listing.
pub fn scan_entries(dir: &str, entries: &Vec<FsEntry>, config: &mut DetectedConfig)
    ensures
        scan_view(*final(config)) == record_all(scan_view(*old(config)), seen_files(dir@, entries@)),
    decreases entries@,
{
    let mut i: usize = 0;
    let ghost start = scan_view(*config);
    while i < entries.len()
        invariant
            i <= entries.len(),
            scan_view(*config) == record_all(start, seen_files(dir@, entries@.subrange(0, i as int))),
        decreases entries.len() - i,
    {
        let ghost before = scan_view(*config);
        let ghost prefix = entries@.subrange(0, i as int);
        assert(entries@.subrange(0, i + 1).subrange(0, i as int) =~= prefix);
        assert(entries@.subrange(0, i + 1)[i as int] == entries@[i as int]);
        match &entries[i] {
            FsEntry::Dir { name, entries: inner } => {
                if should_descend(name.as_str()) {
                    let sub = join_path_exec(dir, name.as_str());
                    proof {
                        assert(decreases_to!(entries@ => entries@[i as int]));
                    }
                    scan_entries(sub.as_str(), inner, config);
                    proof {
                        lemma_record_all_append(start, seen_files(dir@, prefix), seen_files(sub@, inner@));
                        assert(seen_files(dir@, entries@.subrange(0, i + 1)) == seen_files(dir@, prefix)
                            + seen_files(sub@, inner@));
                    }
                } else {
                    assert(seen_files(dir@, entries@.subrange(0, i + 1)) == seen_files(dir@, prefix));
                }
            },
            FsEntry::File { name, content } => {
                let c: Option<&str> = match content {
                    Some(t) => Some(t.as_str()),
                    None => None,
                };
                let parent: &str = dir;
                let rel = join_path_exec(dir, name.as_str());
                record_file(config, name.as_str(), rel.as_str(), parent, c);
                assert(opt_str(c) == opt_view_str(*content));
                proof {
                    let f = SeenFile {
                        name: name@,
                        rel: join_path(dir@, name@),
                        parent: dir@,
                        content: opt_view_str(*content),
                    };
                    let sp = seen_files(dir@, prefix);
                    assert(seen_files(dir@, entries@.subrange(0, i + 1)) == sp.push(f));
                    assert(sp.push(f).drop_last() =~= sp);
                }
            },
            FsEntry::Other => {
                assert(seen_files(dir@, entries@.subrange(0, i + 1)) == seen_files(dir@, prefix));
            },
        }
        i = i + 1;
    }
    assert(entries@.subrange(0, i as int) =~= entries@);
}

/// The directories a scan of the listing at `dir` enters, in walk order,
/// each as the path of its parent and its own name.
pub open spec fn entered_dirs(dir: Seq<char>, es: Seq<FsEntry>) -> Seq<(Seq<char>, Seq<char>)>
    decreases es,
{
    if es.len() == 0 {
        Seq::empty()
    } else {
        let before = entered_dirs(dir, es.subrange(0, es.len() - 1));
        match es[es.len() - 1] {
            FsEntry::Dir { name, entries } => if skipped_dir(name@) {
                before
            } else {
                before.push((dir, name@)) + entered_dirs(join_path(dir, name@), entries@)
            },
            _ => before,
        }
    }
}

/// The walk enters no skipped directory, each directory it enters lies in
/// the listed directory itself or in a directory it entered before, and
/// every file it meets lies in the listed directory itself or in a directory
/// it entered, at the path made of that directory's path and the file's name.
#[verifier::spinoff_prover]
#[verifier::rlimit(50)]
pub proof fn lemma_walk(dir: Seq<char>, es: Seq<FsEntry>)
    ensures
        forall|k: int| 0 <= k < entered_dirs(dir, es).len() ==> !skipped_dir(#[trigger] entered_dirs(dir, es)[k].1),
        forall|k: int|
            0 <= k < entered_dirs(dir, es).len() ==> (#[trigger] entered_dirs(dir, es)[k]).0 == dir || exists|e: int|
                0 <= e < k && join_path(entered_dirs(dir, es)[e].0, entered_dirs(dir, es)[e].1)
                    == entered_dirs(dir, es)[k].0,
        forall|k: int|
            0 <= k < seen_files(dir, es).len() ==> {
                let f = #[trigger] seen_files(dir, es)[k];
                &&& f.rel == join_path(f.parent, f.name)
                &&& (f.parent == dir || exists|e: int|
                    0 <= e < entered_dirs(dir, es).len() && join_path(
                        #[trigger] entered_dirs(dir, es)[e].0,
                        entered_dirs(dir, es)[e].1,
                    ) == f.parent)
            },
    decreases es,
{
    if es.len() > 0 {
        let pre = es.subrange(0, es.len() - 1);
        lemma_walk(dir, pre);
        let ed0 = entered_dirs(dir, pre);
        let sf0 = seen_files(dir, pre);
        let ed = entered_dirs(dir, es);
        let sf = seen_files(dir, es);
        match es[es.len() - 1] {
            FsEntry::Dir { name, entries } => {
                if !skipped_dir(name@) {
                    let sub = join_path(dir, name@);
                    assert(decreases_to!(es => es[es.len() - 1]));
                    lemma_walk(sub, entries@);
                    let ed1 = entered_dirs(sub, entries@);
                    let sf1 = seen_files(sub, entries@);
                    assert(ed == ed0.push((dir, name@)) + ed1);
                    assert(sf == sf0 + sf1);
                    assert forall|k: int| 0 <= k < ed.len() implies !skipped_dir(#[trigger] ed[k].1) by {
                        if k < ed0.len() {
                            assert(ed[k] == ed0[k]);
                        } else if k > ed0.len() {
                            assert(ed[k] == ed1[k - ed0.len() - 1]);
                        }
                    }
                    assert forall|k: int| 0 <= k < ed.len() implies (#[trigger] ed[k]).0 == dir || exists|e: int|
                        0 <= e < k && join_path(ed[e].0, ed[e].1) == ed[k].0 by {
                        if k < ed0.len() {
                            assert(ed[k] == ed0[k]);
                            if ed0[k].0 != dir {
                                let e = choose|e: int| 0 <= e < k && join_path(ed0[e].0, ed0[e].1) == ed0[k].0;
                                assert(ed[e] == ed0[e]);
                            }
                        } else if k > ed0.len() {
                            let k1 = k - ed0.len() - 1;
                            assert(ed[k] == ed1[k1]);
                            if ed1[k1].0 == sub {
                                assert(ed[ed0.len() as int] == (dir, name@));
                            } else {
                                let e1 = choose|e: int| 0 <= e < k1 && join_path(ed1[e].0, ed1[e].1) == ed1[k1].0;
                                assert(ed[ed0.len() + 1 + e1] == ed1[e1]);
                            }
                        }
                    }
                    assert forall|k: int| 0 <= k < sf.len() implies {
                        let f = #[trigger] sf[k];
                        &&& f.rel == join_path(f.parent, f.name)
                        &&& (f.parent == dir || exists|e: int|
                            0 <= e < ed.len() && join_path(#[trigger] ed[e].0, ed[e].1) == f.parent)
                    } by {
                        if k < sf0.len() {
                            assert(sf[k] == sf0[k]);
                            let f0 = sf0[k];
                            assert(f0.rel == join_path(f0.parent, f0.name));
                            if f0.parent != dir {
                                let e = choose|e: int|
                                    0 <= e < ed0.len() && join_path(#[trigger] ed0[e].0, ed0[e].1) == f0.parent;
                                assert(ed[e] == ed0[e]);
                                assert(join_path(ed[e].0, ed[e].1) == sf[k].parent);
                            }
                        } else {
                            let k1 = k - sf0.len();
                            assert(sf[k] == sf1[k1]);
                            let f1 = sf1[k1];
                            assert(f1.rel == join_path(f1.parent, f1.name));
                            if f1.parent == sub {
                                let e = ed0.len() as int;
                                assert(ed[e] == (dir, name@));
                                assert(join_path(ed[e].0, ed[e].1) == sf[k].parent);
                            } else {
                                let e1 = choose|e: int|
                                    0 <= e < ed1.len() && join_path(#[trigger] ed1[e].0, ed1[e].1) == f1.parent;
                                let e = ed0.len() + 1 + e1;
                                assert(ed[e] == ed1[e1]);
                                assert(join_path(ed[e].0, ed[e].1) == sf[k].parent);
                            }
                        }
                    }
                }
            },
            FsEntry::File { name, content } => {
                assert(ed == ed0);
                assert forall|k: int| 0 <= k < sf.len() implies {
                    let f = #[trigger] sf[k];
                    &&& f.rel == join_path(f.parent, f.name)
                    &&& (f.parent == dir || exists|e: int|
                        0 <= e < ed.len() && join_path(#[trigger] ed[e].0, ed[e].1) == f.parent)
                } by {
                    if k < sf0.len() {
                        assert(sf[k] == sf0[k]);
                    }
                }
            },
            FsEntry::Other => {},
        }
    }
}

/// Nothing found yet.
pub open spec fn empty_scan() -> ScanView {
    ScanView {
        buildit_config: None,
        terraform_files: Seq::empty(),
        terraform_dirs: Seq::empty(),
        kubernetes_files: Seq::empty(),
        kubernetes_dirs: Seq::empty(),
        dockerfiles: Seq::empty(),
        helm_charts: Seq::empty(),
        other_files: Seq::empty(),
    }
}

/// Scans a repository given as the listing of its root: every file met is
/// recorded in walk order, then the Terraform directories are sorted and
/// duplicates dropped.
pub fn scan_tree(root: &Vec<FsEntry>) -> (r: DetectedConfig)
    ensures
        ({
            let v = record_all(empty_scan(), seen_files(Seq::empty(), root@));
            &&& scan_view(r) == (ScanView { terraform_dirs: scan_view(r).terraform_dirs, ..v })
            &&& strictly_sorted(scan_view(r).terraform_dirs)
            &&& scan_view(r).terraform_dirs.to_set() == v.terraform_dirs.to_set()
        }),
{
    let mut config = DetectedConfig::new();
    assert(scan_view(config) =~= empty_scan());
    proof {
        reveal_strlit("");
        assert(""@ =~= Seq::<char>::empty());
    }
    scan_entries("", root, &mut config);
    let ghost mid = scan_view(config);
    assert(mid == record_all(empty_scan(), seen_files(Seq::empty(), root@)));
    finish_scan(&mut config);
    assert(scan_view(config) =~= (ScanView { terraform_dirs: scan_view(config).terraform_dirs, ..mid }));
    config
}

/// Each Terraform directory that `w` has beyond `v` is the directory of a
/// Terraform file among `fs` whose path `w` lists.
pub open spec fn dirs_explained(v: ScanView, w: ScanView, fs: Seq<SeenFile>) -> bool {
    forall|k: int|
        v.terraform_dirs.len() <= k < w.terraform_dirs.len() ==> #[trigger] dir_explained(
            w,
            fs,
            w.terraform_dirs[k],
        )
}

/// `d` is the directory of a Terraform file among `fs` whose path `w` lists.
pub open spec fn dir_explained(w: ScanView, fs: Seq<SeenFile>, d: Seq<char>) -> bool {
    exists|j: int|
        0 <= j < fs.len() && ends_with(#[trigger] fs[j].name, ".tf"@) && dir_of(fs[j].parent) == d
            && w.terraform_files.contains(fs[j].rel)
}

/// Each path that `b` has beyond `a` is the path of one of the files `fs`
/// or the directory it lies in.
pub open spec fn added_from(a: Seq<Seq<char>>, b: Seq<Seq<char>>, fs: Seq<SeenFile>) -> bool {
    forall|k: int|
        a.len() <= k < b.len() ==> exists|j: int|
            0 <= j < fs.len() && (#[trigger] b[k] == (#[trigger] fs[j]).rel || b[k] == dir_of(fs[j].parent))
}

proof fn lemma_added_step(
    a: Seq<Seq<char>>,
    u: Seq<Seq<char>>,
    w: Seq<Seq<char>>,
    fs: Seq<SeenFile>,
    x: Seq<char>,
)
    requires
        fs.len() > 0,
        added_from(a, u, fs.drop_last()),
        w == u || w == u.push(x),
        x == fs.last().rel || x == dir_of(fs.last().parent),
    ensures
        added_from(a, w, fs),
{
    let p = fs.drop_last();
    assert forall|k: int| #![trigger w[k]] a.len() <= k < w.len() implies exists|j: int|
        0 <= j < fs.len() && (w[k] == (#[trigger] fs[j]).rel || w[k] == dir_of(fs[j].parent)) by {
        if k < u.len() {
            assert(u[k] == u[k]);
            let j = choose|j: int| 0 <= j < p.len() && (u[k] == (#[trigger] p[j]).rel || u[k] == dir_of(p[j].parent));
            assert(fs[j] == p[j]);
            assert(w[k] == u[k]);
        } else {
            assert(fs[fs.len() - 1] == fs.last());
        }
    }
}

/// Every list is a prefix of the one after.
pub open spec fn grows(a: Seq<Seq<char>>, b: Seq<Seq<char>>) -> bool {
    a.len() <= b.len() && b.take(a.len() as int) == a
}

/// Recording files only appends to what was found; the directory lists stay
/// free of repeats; and each Terraform directory added is the directory of
/// a Terraform file among those recorded, whose path was added too.
pub proof fn lemma_scan_law(v: ScanView, fs: Seq<SeenFile>)
    requires
        v.terraform_dirs.no_duplicates(),
        v.kubernetes_dirs.no_duplicates(),
        v.helm_charts.no_duplicates(),
    ensures
        ({
            let w = record_all(v, fs);
            &&& grows(v.terraform_files, w.terraform_files)
            &&& grows(v.terraform_dirs, w.terraform_dirs)
            &&& grows(v.kubernetes_files, w.kubernetes_files)
            &&& grows(v.kubernetes_dirs, w.kubernetes_dirs)
            &&& grows(v.dockerfiles, w.dockerfiles)
            &&& grows(v.helm_charts, w.helm_charts)
            &&& grows(v.other_files, w.other_files)
            &&& w.terraform_dirs.no_duplicates()
            &&& w.kubernetes_dirs.no_duplicates()
            &&& w.helm_charts.no_duplicates()
            &&& dirs_explained(v, w, fs)
            &&& added_from(v.terraform_files, w.terraform_files, fs)
            &&& added_from(v.terraform_dirs, w.terraform_dirs, fs)
            &&& added_from(v.kubernetes_files, w.kubernetes_files, fs)
            &&& added_from(v.kubernetes_dirs, w.kubernetes_dirs, fs)
            &&& added_from(v.dockerfiles, w.dockerfiles, fs)
            &&& added_from(v.helm_charts, w.helm_charts, fs)
            &&& added_from(v.other_files, w.other_files, fs)
            &&& (w.buildit_config != v.buildit_config ==> exists|j: int|
                0 <= j < fs.len() && w.buildit_config == Some((#[trigger] fs[j]).rel))
        }),
    decreases fs.len(),
{
    if fs.len() == 0 {
        assert(record_all(v, fs) == v);
        assert(dirs_explained(v, v, fs));
        lemma_grows_push_if(v.terraform_files, false, Seq::empty());
        lemma_grows_push_if(v.terraform_dirs, false, Seq::empty());
        lemma_grows_push_if(v.kubernetes_files, false, Seq::empty());
        lemma_grows_push_if(v.kubernetes_dirs, false, Seq::empty());
        lemma_grows_push_if(v.dockerfiles, false, Seq::empty());
        lemma_grows_push_if(v.helm_charts, false, Seq::empty());
        lemma_grows_push_if(v.other_files, false, Seq::empty());
    } else {
        let p = fs.drop_last();
        let f = fs.last();
        lemma_scan_law(v, p);
        let u = record_all(v, p);
        let w = record_all(v, fs);
        assert(w == record_view(u, f));
        lemma_grows_push_if(u.terraform_files, ends_with(f.name, ".tf"@), f.rel);
        lemma_grows_push_unique_if(u.terraform_dirs, ends_with(f.name, ".tf"@), dir_of(f.parent));
        lemma_grows_push_if(u.kubernetes_files, manifest_text(f.name, f.content), f.rel);
        lemma_grows_push_unique_if(u.kubernetes_dirs, manifest_text(f.name, f.content), dir_of(f.parent));
        lemma_grows_push_if(
            u.dockerfiles,
            f.name == "Dockerfile"@ || starts_with(f.name, "Dockerfile."@),
            f.rel,
        );
        lemma_grows_push_unique_if(u.helm_charts, f.name == "Chart.yaml"@, dir_of(f.parent));
        lemma_grows_push_if(u.other_files, notable_file(f.name), f.rel);
        lemma_grows_trans(v.terraform_files, u.terraform_files, w.terraform_files);
        lemma_grows_trans(v.terraform_dirs, u.terraform_dirs, w.terraform_dirs);
        lemma_grows_trans(v.kubernetes_files, u.kubernetes_files, w.kubernetes_files);
        lemma_grows_trans(v.kubernetes_dirs, u.kubernetes_dirs, w.kubernetes_dirs);
        lemma_grows_trans(v.dockerfiles, u.dockerfiles, w.dockerfiles);
        lemma_grows_trans(v.helm_charts, u.helm_charts, w.helm_charts);
        lemma_grows_trans(v.other_files, u.other_files, w.other_files);
        assert forall|k: int|
            v.terraform_dirs.len() <= k < w.terraform_dirs.len() implies #[trigger] dir_explained(
            w,
            fs,
            w.terraform_dirs[k],
        ) by {
            if k < u.terraform_dirs.len() {
                assert(w.terraform_dirs[k] == u.terraform_dirs[k]);
                assert(dir_explained(u, p, u.terraform_dirs[k]));
                let j = choose|j: int|
                    0 <= j < p.len() && ends_with(#[trigger] p[j].name, ".tf"@) && dir_of(p[j].parent)
                        == u.terraform_dirs[k] && u.terraform_files.contains(p[j].rel);
                assert(fs[j] == p[j]);
                let m = choose|m: int| 0 <= m < u.terraform_files.len() && u.terraform_files[m] == p[j].rel;
                assert(w.terraform_files[m] == u.terraform_files[m]);
                assert(w.terraform_files.contains(fs[j].rel));
                assert(ends_with(fs[j].name, ".tf"@));
            } else {
                assert(ends_with(f.name, ".tf"@));
                let j = fs.len() - 1;
                assert(fs[j] == f);
                let tf = w.terraform_files;
                assert(tf[tf.len() - 1] == f.rel);
                assert(w.terraform_files.contains(fs[j].rel));
                assert(w.terraform_dirs[k] == dir_of(f.parent));
                assert(ends_with(fs[j].name, ".tf"@));
            }
        }
        assert(dirs_explained(v, w, fs));
        lemma_added_step(v.terraform_files, u.terraform_files, w.terraform_files, fs, f.rel);
        lemma_added_step(v.terraform_dirs, u.terraform_dirs, w.terraform_dirs, fs, dir_of(f.parent));
        lemma_added_step(v.kubernetes_files, u.kubernetes_files, w.kubernetes_files, fs, f.rel);
        lemma_added_step(v.kubernetes_dirs, u.kubernetes_dirs, w.kubernetes_dirs, fs, dir_of(f.parent));
        lemma_added_step(v.dockerfiles, u.dockerfiles, w.dockerfiles, fs, f.rel);
        lemma_added_step(v.helm_charts, u.helm_charts, w.helm_charts, fs, dir_of(f.parent));
        lemma_added_step(v.other_files, u.other_files, w.other_files, fs, f.rel);
        if w.buildit_config != v.buildit_config {
            if w.buildit_config == u.buildit_config {
                let j = choose|j: int| 0 <= j < p.len() && u.buildit_config == Some((#[trigger] p[j]).rel);
                assert(fs[j] == p[j]);
            } else {
                assert(fs[fs.len() - 1] == f);
            }
        }
    }
}

/// A file is a Dockerfile when it is named `Dockerfile` or `Dockerfile.<x>`.
pub open spec fn dockerfile_name(name: Seq<char>) -> bool {
    name == "Dockerfile"@ || starts_with(name, "Dockerfile."@)
}

/// The Dockerfiles a scan finds are exactly the files named `Dockerfile` or
/// `Dockerfile.<x>` among those it records, by path, in the order met.
pub proof fn lemma_scan_dockerfiles(v: ScanView, fs: Seq<SeenFile>)
    ensures
        record_all(v, fs).dockerfiles == v.dockerfiles + fs.filter(|f: SeenFile| dockerfile_name(f.name)).map_values(
            |f: SeenFile| f.rel,
        ),
    decreases fs.len(),
{
    let pred = |f: SeenFile| dockerfile_name(f.name);
    reveal(Seq::filter);
    if fs.len() == 0 {
        assert(fs.filter(pred) =~= Seq::<SeenFile>::empty());
        assert(v.dockerfiles + Seq::<Seq<char>>::empty() =~= v.dockerfiles);
    } else {
        lemma_scan_dockerfiles(v, fs.drop_last());
        let f = fs.last();
        let sub = fs.drop_last().filter(pred);
        if dockerfile_name(f.name) {
            assert(fs.filter(pred) == sub.push(f));
            assert(sub.push(f).map_values(|f: SeenFile| f.rel) =~= sub.map_values(|f: SeenFile| f.rel).push(
                f.rel,
            ));
            assert(v.dockerfiles + sub.map_values(|f: SeenFile| f.rel).push(f.rel) =~= (v.dockerfiles
                + sub.map_values(|f: SeenFile| f.rel)).push(f.rel));
        } else {
            assert(fs.filter(pred) == sub);
        }
    }
}

proof fn lemma_filter_rels_push(fs: Seq<SeenFile>, pred: spec_fn(SeenFile) -> bool)
    requires
        fs.len() > 0,
    ensures
        fs.filter(pred).map_values(|f: SeenFile| f.rel) == if pred(fs.last()) {
            fs.drop_last().filter(pred).map_values(|f: SeenFile| f.rel).push(fs.last().rel)
        } else {
            fs.drop_last().filter(pred).map_values(|f: SeenFile| f.rel)
        },
{
    reveal(Seq::filter);
    let sub = fs.drop_last().filter(pred);
    if pred(fs.last()) {
        assert(fs.filter(pred) == sub.push(fs.last()));
        assert(sub.push(fs.last()).map_values(|f: SeenFile| f.rel) =~= sub.map_values(|f: SeenFile| f.rel).push(
            fs.last().rel,
        ));
    } else {
        assert(fs.filter(pred) == sub);
    }
}

/// The files named like notable project files: `docker-compose.yml`,
/// `docker-compose.yaml`, `Makefile`, `Cargo.toml`, `package.json`,
/// `go.mod`, `requirements.txt`, `Gemfile`, `Kustomization.yaml` or
/// `kustomization.yaml`.
pub open spec fn other_name(n: Seq<char>) -> bool {
    n == "docker-compose.yml"@ || n == "docker-compose.yaml"@ || n == "Makefile"@ || n == "Cargo.toml"@ || n
        == "package.json"@ || n == "go.mod"@ || n == "requirements.txt"@ || n == "Gemfile"@ || n
        == "Kustomization.yaml"@ || n == "kustomization.yaml"@
}

/// The Terraform files a scan finds are exactly the recorded files whose
/// name ends in `.tf`, and the other notable files exactly those named like
/// notable project files, by path in the order met.
#[verifier::spinoff_prover]
pub proof fn lemma_scan_file_lists(v: ScanView, fs: Seq<SeenFile>)
    ensures
        record_all(v, fs).terraform_files == v.terraform_files + fs.filter(
            |f: SeenFile| ends_with(f.name, ".tf"@),
        ).map_values(|f: SeenFile| f.rel),
        record_all(v, fs).other_files == v.other_files + fs.filter(|f: SeenFile| other_name(f.name)).map_values(
            |f: SeenFile| f.rel,
        ),
    decreases fs.len(),
{
    let tf = |f: SeenFile| ends_with(f.name, ".tf"@);
    let other = |f: SeenFile| other_name(f.name);
    reveal(Seq::filter);
    if fs.len() == 0 {
        assert(fs.filter(tf) =~= Seq::<SeenFile>::empty());
        assert(fs.filter(other) =~= Seq::<SeenFile>::empty());
        assert(v.terraform_files + Seq::<Seq<char>>::empty() =~= v.terraform_files);
        assert(v.other_files + Seq::<Seq<char>>::empty() =~= v.other_files);
    } else {
        let p = fs.drop_last();
        let f = fs.last();
        lemma_scan_file_lists(v, p);
        lemma_filter_rels_push(fs, tf);
        lemma_filter_rels_push(fs, other);
        let tl = p.filter(tf).map_values(|f: SeenFile| f.rel);
        let ol = p.filter(other).map_values(|f: SeenFile| f.rel);
        assert(v.terraform_files + tl.push(f.rel) =~= (v.terraform_files + tl).push(f.rel));
        assert(v.other_files + ol.push(f.rel) =~= (v.other_files + ol).push(f.rel));
    }
}

proof fn lemma_contains_after_push_unique(a: Seq<Seq<char>>, c: bool, x: Seq<char>, y: Seq<char>)
    ensures
        a.contains(y) ==> push_unique_if(a, c, x).contains(y),
        c ==> push_unique_if(a, c, x).contains(x),
{
    if a.contains(y) {
        let m = choose|m: int| 0 <= m < a.len() && a[m] == y;
        assert(push_unique_if(a, c, x)[m] == a[m]);
    }
    if c && !a.contains(x) {
        assert(a.push(x)[a.len() as int] == x);
    }
}

/// The directory of every recorded Terraform file, Helm chart
/// (`Chart.yaml`) and Kubernetes manifest is listed among the Terraform,
/// chart and manifest directories.
#[verifier::spinoff_prover]
pub proof fn lemma_scan_dirs_listed(v: ScanView, fs: Seq<SeenFile>)
    ensures
        forall|j: int|
            0 <= j < fs.len() && ends_with((#[trigger] fs[j]).name, ".tf"@) ==> record_all(
                v,
                fs,
            ).terraform_dirs.contains(dir_of(fs[j].parent)),
        forall|j: int|
            0 <= j < fs.len() && (#[trigger] fs[j]).name == "Chart.yaml"@ ==> record_all(v, fs).helm_charts.contains(
                dir_of(fs[j].parent),
            ),
        forall|j: int|
            0 <= j < fs.len() && manifest_text((#[trigger] fs[j]).name, fs[j].content) ==> record_all(
                v,
                fs,
            ).kubernetes_dirs.contains(dir_of(fs[j].parent)),
    decreases fs.len(),
{
    if fs.len() > 0 {
        let p = fs.drop_last();
        let f = fs.last();
        lemma_scan_dirs_listed(v, p);
        let u = record_all(v, p);
        let w = record_all(v, fs);
        assert(w == record_view(u, f));
        assert(fs[fs.len() - 1] == f);
        assert forall|j: int| 0 <= j < fs.len() implies {
            &&& ends_with((#[trigger] fs[j]).name, ".tf"@) ==> w.terraform_dirs.contains(dir_of(fs[j].parent))
            &&& fs[j].name == "Chart.yaml"@ ==> w.helm_charts.contains(dir_of(fs[j].parent))
            &&& manifest_text(fs[j].name, fs[j].content) ==> w.kubernetes_dirs.contains(dir_of(fs[j].parent))
        } by {
            let d = dir_of(fs[j].parent);
            lemma_contains_after_push_unique(u.terraform_dirs, ends_with(f.name, ".tf"@), dir_of(f.parent), d);
            lemma_contains_after_push_unique(u.helm_charts, f.name == "Chart.yaml"@, dir_of(f.parent), d);
            lemma_contains_after_push_unique(
                u.kubernetes_dirs,
                manifest_text(f.name, f.content),
                dir_of(f.parent),
                d,
            );
            if j < p.len() {
                assert(fs[j] == p[j]);
            }
        }
    }
}

/// A build configuration file: `.buildit.kdl` or `buildit.kdl`.
pub open spec fn config_name(n: Seq<char>) -> bool {
    n == ".buildit.kdl"@ || n == "buildit.kdl"@
}

/// No file among `fs` from index `j` on is a build configuration file.
pub open spec fn no_config_from(fs: Seq<SeenFile>, j: int) -> bool {
    forall|k: int| j <= k < fs.len() ==> !config_name(#[trigger] fs[k].name)
}

/// The build configuration a scan finds is the last recorded file named
/// `.buildit.kdl` or `buildit.kdl`; with none, it is left as it was.
#[verifier::spinoff_prover]
pub proof fn lemma_scan_config_file(v: ScanView, fs: Seq<SeenFile>)
    ensures
        forall|j: int|
            0 <= j < fs.len() && config_name((#[trigger] fs[j]).name) && no_config_from(fs, j + 1) ==> record_all(
                v,
                fs,
            ).buildit_config == Some(fs[j].rel),
        no_config_from(fs, 0) ==> record_all(v, fs).buildit_config == v.buildit_config,
    decreases fs.len(),
{
    if fs.len() > 0 {
        let p = fs.drop_last();
        let f = fs.last();
        lemma_scan_config_file(v, p);
        let u = record_all(v, p);
        assert(record_all(v, fs).buildit_config == record_view(u, f).buildit_config);
        assert(fs[fs.len() - 1] == f);
        assert forall|j: int|
            0 <= j < fs.len() && config_name((#[trigger] fs[j]).name) && no_config_from(fs, j + 1) implies record_all(
            v,
            fs,
        ).buildit_config == Some(fs[j].rel) by {
            if j < p.len() {
                assert(fs[j] == p[j]);
                assert(!config_name(fs[fs.len() - 1].name));
                assert forall|k: int| j + 1 <= k < p.len() implies !config_name(#[trigger] p[k].name) by {
                    assert(p[k] == fs[k]);
                }
            }
        }
        if no_config_from(fs, 0) {
            assert(!config_name(fs[fs.len() - 1].name));
            assert forall|k: int| 0 <= k < p.len() implies !config_name(#[trigger] p[k].name) by {
                assert(p[k] == fs[k]);
            }
        }
    }
}

/// A scan never enters a hidden directory (a name starting with `.`) nor one
/// named `node_modules`, `target`, `vendor`, `.terraform` or `__pycache__`.
pub proof fn lemma_scan_skips_named_dirs(dir: Seq<char>, es: Seq<FsEntry>)
    ensures
        forall|k: int|
            0 <= k < entered_dirs(dir, es).len() ==> {
                let n = (#[trigger] entered_dirs(dir, es)[k]).1;
                &&& !starts_with(n, "."@)
                &&& n != "node_modules"@
                &&& n != "target"@
                &&& n != "vendor"@
                &&& n != ".terraform"@
                &&& n != "__pycache__"@
            },
{
    lemma_walk(dir, es);
}

/// A scan of a repository records nothing from inside a skipped directory:
/// every directory the walk enters has a name that is not skipped and lies
/// in the root or in a directory entered before; every file recorded lies in
/// the root or in an entered directory; and every path the scan lists is the
/// path of such a file or of the directory it lies in. Before the final
/// sorting, the lists are the ones `scan_tree` returns.
pub proof fn lemma_scan_tree_law(root: Seq<FsEntry>)
    ensures
        ({
            let fs = seen_files(Seq::empty(), root);
            let ed = entered_dirs(Seq::empty(), root);
            let w = record_all(empty_scan(), fs);
            &&& forall|k: int| 0 <= k < ed.len() ==> !skipped_dir(#[trigger] ed[k].1)
            &&& forall|k: int|
                0 <= k < ed.len() ==> (#[trigger] ed[k]).0 == Seq::<char>::empty() || exists|e: int|
                    0 <= e < k && join_path(ed[e].0, ed[e].1) == ed[k].0
            &&& forall|j: int|
                0 <= j < fs.len() ==> (#[trigger] fs[j]).rel == join_path(fs[j].parent, fs[j].name) && (
                fs[j].parent == Seq::<char>::empty() || exists|e: int|
                    0 <= e < ed.len() && join_path((#[trigger] ed[e]).0, ed[e].1) == fs[j].parent)
            &&& added_from(Seq::empty(), w.terraform_files, fs)
            &&& added_from(Seq::empty(), w.terraform_dirs, fs)
            &&& added_from(Seq::empty(), w.kubernetes_files, fs)
            &&& added_from(Seq::empty(), w.kubernetes_dirs, fs)
            &&& added_from(Seq::empty(), w.dockerfiles, fs)
            &&& added_from(Seq::empty(), w.helm_charts, fs)
            &&& added_from(Seq::empty(), w.other_files, fs)
            &&& (w.buildit_config != None::<Seq<char>> ==> exists|j: int|
                0 <= j < fs.len() && w.buildit_config == Some((#[trigger] fs[j]).rel))
        }),
{
    let fs = seen_files(Seq::empty(), root);
    let ed = entered_dirs(Seq::empty(), root);
    lemma_walk(Seq::empty(), root);
    lemma_scan_law(empty_scan(), fs);
    assert forall|j: int| 0 <= j < fs.len() implies (#[trigger] fs[j]).rel == join_path(fs[j].parent, fs[j].name) && (
        fs[j].parent == Seq::<char>::empty() || exists|e: int|
            0 <= e < ed.len() && join_path((#[trigger] ed[e]).0, ed[e].1) == fs[j].parent) by {
        let f = fs[j];
        if f.parent != Seq::<char>::empty() {
            let e = choose|e: int| 0 <= e < ed.len() && join_path(#[trigger] ed[e].0, ed[e].1) == f.parent;
            assert(join_path(ed[e].0, ed[e].1) == fs[j].parent);
        }
    }
}

proof fn lemma_grows_trans(a: Seq<Seq<char>>, b: Seq<Seq<char>>, c: Seq<Seq<char>>)
    requires
        grows(a, b),
        grows(b, c),
    ensures
        grows(a, c),
{
    assert(c.take(a.len() as int) =~= c.take(b.len() as int).take(a.len() as int));
}

proof fn lemma_grows_push_if(a: Seq<Seq<char>>, c: bool, x: Seq<char>)
    ensures
        grows(a, push_if(a, c, x)),
{
    assert(a.take(a.len() as int) =~= a);
    assert(a.push(x).take(a.len() as int) =~= a);
}

proof fn lemma_grows_push_unique_if(a: Seq<Seq<char>>, c: bool, x: Seq<char>)
    requires
        a.no_duplicates(),
    ensures
        grows(a, push_unique_if(a, c, x)),
        push_unique_if(a, c, x).no_duplicates(),
{
    assert(a.take(a.len() as int) =~= a);
    assert(a.push(x).take(a.len() as int) =~= a);
    if c && !a.contains(x) {
        let b = a.push(x);
        assert forall|i: int, j: int| 0 <= i < b.len() && 0 <= j < b.len() && i != j implies b[i] != b[j] by {
            if i < a.len() && j < a.len() {
            } else if i < a.len() {
                assert(a.contains(a[i]));
            } else {
                assert(a.contains(a[j]));
            }
        }
    }
}

/// Git operation errors.
#[derive(Debug)]
pub enum GitError {
    Io(String),
    CloneFailed(String),
    InvalidUrl,
}

impl GitError {
    /// The error's message.
    pub fn message(&self) -> (r: String)
        ensures
            r@ == match self {
                GitError::Io(m) => "IO error: "@ + m@,
                GitError::CloneFailed(m) => "Clone failed: "@ + m@,
                GitError::InvalidUrl => "Invalid repository URL"@,
            },
    {
        match self {
            GitError::Io(m) => {
                let mut out = chars_of("IO error: ");
                append_str(&mut out, m.as_str());
                string_of(out.as_slice())
            },
            GitError::CloneFailed(m) => {
                let mut out = chars_of("Clone failed: ");
                append_str(&mut out, m.as_str());
                string_of(out.as_slice())
            },
            GitError::InvalidUrl => owned("Invalid repository URL"),
        }
    }
}

} // verus!
