//! Publishing a rendered site to an S3 bucket behind CloudFront: the decisions of the
//! deployment (which bucket, what to upload with which type, what to delete, which
//! distribution to invalidate). The calls to AWS are made by the program around the library.
use vstd::prelude::*;
use crate::config;
use crate::text::same_text;

verus! {

/// How a site is published.
#[derive(Debug, Clone, Copy, PartialEq, Eq, Structural)]
pub enum DeployStrategy {
    S3AndCloudfront,
}

impl From<config::DeployStrategy> for DeployStrategy {
    fn from(strategy: config::DeployStrategy) -> (r: DeployStrategy) {
        match strategy {
            config::DeployStrategy::S3AndCloudfront => DeployStrategy::S3AndCloudfront,
        }
    }
}

impl vstd::std_specs::convert::FromSpecImpl<config::DeployStrategy> for DeployStrategy {
    open spec fn obeys_from_spec() -> bool {
        true
    }

    open spec fn from_spec(strategy: config::DeployStrategy) -> DeployStrategy {
        match strategy {
            config::DeployStrategy::S3AndCloudfront => DeployStrategy::S3AndCloudfront,
        }
    }
}

/// Where a site is published.
#[derive(Debug)]
pub struct DeployConfig {
    pub strategy: DeployStrategy,
    pub bucket: String,
}

impl From<config::DeployConfig> for DeployConfig {
    fn from(c: config::DeployConfig) -> (r: DeployConfig) {
        DeployConfig {
            strategy: match c.strategy {
                config::DeployStrategy::S3AndCloudfront => DeployStrategy::S3AndCloudfront,
            },
            bucket: c.bucket,
        }
    }
}

impl vstd::std_specs::convert::FromSpecImpl<config::DeployConfig> for DeployConfig {
    open spec fn obeys_from_spec() -> bool {
        true
    }

    open spec fn from_spec(c: config::DeployConfig) -> DeployConfig {
        DeployConfig {
            strategy: match c.strategy {
                config::DeployStrategy::S3AndCloudfront => DeployStrategy::S3AndCloudfront,
            },
            bucket: c.bucket,
        }
    }
}

/// An error reported by an AWS service, with the context it arose in.
#[derive(Debug)]
pub struct AwsError(String);

impl View for AwsError {
    type V = Seq<char>;

    closed spec fn view(&self) -> Seq<char> {
        self.0@
    }
}

impl AwsError {
    pub fn new(value: String) -> (r: AwsError)
        ensures
            r@ == value@,
    {
        AwsError(value)
    }

    /// Puts `message` in front, as `message: error`.
    pub fn add_message(self, message: String) -> (r: AwsError)
        ensures
            r@ == message@ + ": "@ + self@,
    {
        let mut text = message;
        text.append(": ");
        text.append(self.0.as_str());
        AwsError(text)
    }

    /// The text of the error.
    pub fn message(&self) -> (r: &str)
        ensures
            r@ == self@,
    {
        self.0.as_str()
    }
}

/// The bucket that a configuration deploys to with S3 and CloudFront, if it deploys.
pub fn s3_bucket(deploy_config: &Option<DeployConfig>) -> (r: Option<String>)
    ensures
        match deploy_config {
            Some(c) => match c.strategy {
                DeployStrategy::S3AndCloudfront => r matches Some(b) && b@ == c.bucket@,
            },
            None => r is None,
        },
{
    match deploy_config {
        Some(c) => match c.strategy {
            DeployStrategy::S3AndCloudfront => Some(c.bucket.clone()),
        },
        None => None,
    }
}

/// The domain of the S3 website of a bucket in a region:
/// `{bucket}.s3-website-{region}.amazonaws.com`.
pub fn website_origin(bucket: &str, region: &str) -> (r: String)
    ensures
        r@ == bucket@ + ".s3-website-"@ + region@ + ".amazonaws.com"@,
{
    let mut r = String::from_str(bucket);
    r.append(".s3-website-");
    r.append(region);
    r.append(".amazonaws.com");
    r
}

/// The MIME type that `mime_guess` gives a key by its extension (`text/plain` when it knows
/// none).
pub uninterp spec fn guessed_mime(key: Seq<char>) -> Seq<char>;

/// Relies on `mime_guess::from_path(..).first_or_text_plain()`: the type depends on the
/// key's extension alone.
#[verifier::external_body]
fn guess_content_type(key: &str) -> (r: String)
    ensures
        r@ == guessed_mime(key@),
{
    mime_guess::from_path(key).first_or_text_plain().essence_str().to_string()
}

/// A file to upload: its key in the bucket and its content type.
pub struct Upload {
    pub key: String,
    pub content_type: String,
}

/// The uploads of a site's files, in order, each with the type its key suggests.
pub fn plan_uploads(keys: &Vec<String>) -> (r: Vec<Upload>)
    ensures
        r@.len() == keys@.len(),
        forall|i: int|
            0 <= i < keys@.len() ==> (#[trigger] r@[i]).key@ == keys@[i]@ && r@[i].content_type@
                == guessed_mime(keys@[i]@),
{
    let mut r: Vec<Upload> = Vec::new();
    let mut i: usize = 0;
    while i < keys.len()
        invariant
            i <= keys@.len(),
            r@.len() == i,
            forall|k: int|
                0 <= k < i ==> (#[trigger] r@[k]).key@ == keys@[k]@ && r@[k].content_type@
                    == guessed_mime(keys@[k]@),
        decreases keys.len() - i,
    {
        let key = keys[i].clone();
        let content_type = guess_content_type(key.as_str());
        r.push(Upload { key, content_type });
        i = i + 1;
    }
    r
}

/// Some string of `v` has the text `s`.
pub open spec fn has_text(v: Seq<String>, s: Seq<char>) -> bool {
    exists|i: int| 0 <= i < v.len() && (#[trigger] v[i])@ == s
}

/// Whether some string of `v` has the text of `s`.
pub fn contains_text(v: &Vec<String>, s: &str) -> (r: bool)
    ensures
        r == has_text(v@, s@),
{
    let mut i: usize = 0;
    while i < v.len()
        invariant
            i <= v@.len(),
            forall|k: int| 0 <= k < i ==> (#[trigger] v@[k])@ != s@,
        decreases v.len() - i,
    {
        if same_text(v[i].as_str(), s) {
            return true;
        }
        i = i + 1;
    }
    false
}

/// The keys in the bucket that this deployment did not upload, each once.
pub fn stale_keys(in_bucket: &Vec<String>, uploaded: &Vec<String>) -> (r: Vec<String>)
    ensures
        forall|s: Seq<char>| #[trigger] has_text(r@, s) <==> (has_text(in_bucket@, s) && !has_text(uploaded@, s)),
        forall|i: int, j: int| 0 <= i < j < r@.len() ==> r@[i]@ != r@[j]@,
{
    let mut r: Vec<String> = Vec::new();
    let mut i: usize = 0;
    while i < in_bucket.len()
        invariant
            i <= in_bucket@.len(),
            forall|s: Seq<char>| #[trigger] has_text(r@, s) <==> (has_text(in_bucket@.take(i as int), s) && !has_text(uploaded@, s)),
            forall|a: int, b: int| 0 <= a < b < r@.len() ==> r@[a]@ != r@[b]@,
        decreases in_bucket.len() - i,
    {
        let key = in_bucket[i].as_str();
        let ghost r0 = r@;
        let ghost prefix = in_bucket@.take(i as int);
        let ghost next = in_bucket@.take(i + 1);
        proof {
            assert(next =~= prefix.push(in_bucket@[i as int]));
        }
        let fresh = !contains_text(uploaded, key) && !contains_text(&r, key);
        if fresh {
            r.push(in_bucket[i].clone());
        }
        proof {
            if fresh {
                assert(r@ == r0.push(r@[r0.len() as int]));
                assert(r@[r0.len() as int]@ == key@);
                assert forall|a: int, b: int| 0 <= a < b < r@.len() implies r@[a]@ != r@[b]@ by {
                    if b == r0.len() {
                        assert(r@[a] == r0[a]);
                        assert(has_text(r0, r0[a]@));
                    } else {
                        assert(r@[a] == r0[a] && r@[b] == r0[b]);
                    }
                }
            } else {
                assert(r@ == r0);
            }
            assert forall|s: Seq<char>| #[trigger] has_text(r@, s) <==> (has_text(next, s) && !has_text(uploaded@, s)) by {
                if has_text(next, s) {
                    let w = choose|k: int| 0 <= k < next.len() && (#[trigger] next[k])@ == s;
                    if w < prefix.len() {
                        assert(prefix[w] == next[w]);
                    }
                }
                if has_text(prefix, s) {
                    let w = choose|k: int| 0 <= k < prefix.len() && (#[trigger] prefix[k])@ == s;
                    assert(next[w] == prefix[w]);
                }
                assert(has_text(r0, s) == (has_text(prefix, s) && !has_text(uploaded@, s)));
                if has_text(r0, s) {
                    let w = choose|k: int| 0 <= k < r0.len() && (#[trigger] r0[k])@ == s;
                    assert(r@[w] == r0[w]);
                }
                if has_text(r@, s) {
                    let w = choose|k: int| 0 <= k < r@.len() && (#[trigger] r@[k])@ == s;
                    if w < r0.len() {
                        assert(r@[w] == r0[w]);
                    }
                }
                if s == in_bucket@[i as int]@ {
                    assert(next[i as int]@ == s);
                    if fresh {
                        assert(r@[r0.len() as int]@ == s);
                    }
                }
            }
        }
        i = i + 1;
    }
    proof {
        assert(in_bucket@.take(in_bucket@.len() as int) =~= in_bucket@);
    }
    r
}

/// A CloudFront distribution, as far as the deployment reads it: its id and the domain
/// names of its origins, if it lists any.
pub struct Distribution {
    pub id: String,
    pub origins: Option<Vec<String>>,
}

pub open spec fn serves_origin(d: Distribution, origin: Seq<char>) -> bool {
    match d.origins {
        Some(names) => exists|k: int| 0 <= k < names@.len() && (#[trigger] names@[k])@ == origin,
        None => false,
    }
}

/// The id of the first distribution with an origin at `origin`, if there is one.
pub fn find_distribution(distributions: &Vec<Distribution>, origin: &str) -> (r: Option<String>)
    ensures
        match r {
            Some(id) => exists|i: int|
                0 <= i < distributions@.len() && serves_origin(#[trigger] distributions@[i], origin@)
                    && id@ == distributions@[i].id@ && forall|j: int|
                    0 <= j < i ==> !serves_origin(#[trigger] distributions@[j], origin@),
            None => forall|i: int|
                0 <= i < distributions@.len() ==> !serves_origin(#[trigger] distributions@[i], origin@),
        },
{
    let mut i: usize = 0;
    while i < distributions.len()
        invariant
            i <= distributions@.len(),
            forall|j: int| 0 <= j < i ==> !serves_origin(#[trigger] distributions@[j], origin@),
        decreases distributions.len() - i,
    {
        let d = &distributions[i];
        let found = match &d.origins {
            Some(names) => contains_text(names, origin),
            None => false,
        };
        if found {
            return Some(d.id.clone());
        }
        i = i + 1;
    }
    None
}

} // verus!
