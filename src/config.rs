//! The site's configuration (`config.toml` at the site root). Only the deploy section is
//! read: which strategy, and the bucket that is also the site's domain.
use vstd::prelude::*;

verus! {

/// The configuration of a site.
#[derive(Debug)]
pub struct Config {
    pub deploy: Option<DeployConfig>,
}

/// How a site is published. Written `s3_and_cloudfront` in the configuration.
#[derive(Debug, Clone, Copy, PartialEq, Eq, Structural)]
pub enum DeployStrategy {
    S3AndCloudfront,
}

/// Where a site is published: the strategy, and the bucket named after the site's domain.
#[derive(Debug)]
pub struct DeployConfig {
    pub strategy: DeployStrategy,
    pub bucket: String,
}

} // verus!
