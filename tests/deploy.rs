use kalamos::config;
use kalamos::deploy::{
    find_distribution, plan_uploads, s3_bucket, stale_keys, website_origin, AwsError, DeployConfig,
    DeployStrategy, Distribution,
};
use kalamos::serve::{reply_for, Reply};
use kalamos::watch::{only_output_changed, starts_with_path};

fn strings(items: &[&str]) -> Vec<String> {
    items.iter().map(|s| s.to_string()).collect()
}

#[test]
fn aws_error_messages_nest() {
    let e = AwsError::new("access denied".to_string());
    assert_eq!(e.message(), "access denied");
    let e = e.add_message("put_object".to_string());
    assert_eq!(e.message(), "put_object: access denied");
}

#[test]
fn config_converts_to_deploy_config() {
    let c = config::DeployConfig {
        strategy: config::DeployStrategy::S3AndCloudfront,
        bucket: "example.com".to_string(),
    };
    let d = DeployConfig::from(c);
    assert_eq!(d.strategy, DeployStrategy::S3AndCloudfront);
    assert_eq!(d.bucket, "example.com");
    assert_eq!(s3_bucket(&Some(d)), Some("example.com".to_string()));
    assert_eq!(s3_bucket(&None), None);
}

#[test]
fn website_origin_of_bucket() {
    assert_eq!(
        website_origin("example.com", "us-east-1"),
        "example.com.s3-website-us-east-1.amazonaws.com"
    );
}

#[test]
fn uploads_get_types_from_extensions() {
    let uploads = plan_uploads(&strings(&["index.html", "style.css", "2024/12/first.html", "blob"]));
    let types: Vec<&str> = uploads.iter().map(|u| u.content_type.as_str()).collect();
    assert_eq!(types, vec!["text/html", "text/css", "text/html", "text/plain"]);
    assert_eq!(uploads[2].key, "2024/12/first.html");
}

#[test]
fn stale_keys_are_those_not_uploaded() {
    let in_bucket = strings(&["a.html", "old.html", "b.css", "old.html", "gone/x.png"]);
    let uploaded = strings(&["a.html", "b.css"]);
    assert_eq!(stale_keys(&in_bucket, &uploaded), strings(&["old.html", "gone/x.png"]));
    assert!(stale_keys(&uploaded, &uploaded).is_empty());
    assert!(stale_keys(&vec![], &uploaded).is_empty());
}

#[test]
fn distribution_is_found_by_origin() {
    let origin = website_origin("example.com", "eu-west-1");
    let distributions = vec![
        Distribution { id: "A".to_string(), origins: None },
        Distribution { id: "B".to_string(), origins: Some(strings(&["other.example"])) },
        Distribution { id: "C".to_string(), origins: Some(strings(&["x", origin.as_str()])) },
        Distribution { id: "D".to_string(), origins: Some(strings(&[origin.as_str()])) },
    ];
    assert_eq!(find_distribution(&distributions, &origin), Some("C".to_string()));
    let none_match = vec![
        Distribution { id: "A".to_string(), origins: None },
        Distribution { id: "B".to_string(), origins: Some(strings(&["other.example"])) },
    ];
    assert_eq!(find_distribution(&none_match, &origin), None);
}

#[test]
fn request_replies() {
    assert_eq!(reply_for(true, true, true), Reply::File);
    assert_eq!(reply_for(false, true, true), Reply::Index);
    assert_eq!(reply_for(false, false, true), Reply::NotFoundPage);
    assert_eq!(reply_for(false, false, false), Reply::NotFoundText);
}

#[test]
fn output_changes_do_not_rerender() {
    assert!(starts_with_path("site/index.html", "site"));
    assert!(starts_with_path("site", "site"));
    assert!(starts_with_path("site/a", "site/"));
    assert!(!starts_with_path("sitemap.xml", "site"));
    assert!(!starts_with_path("si", "site"));
    assert!(only_output_changed(&strings(&["site/a.html", "site/b/c.html"]), "site"));
    assert!(!only_output_changed(&strings(&["site/a.html", "posts/x.md"]), "site"));
}
