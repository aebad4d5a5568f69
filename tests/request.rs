use watermarker::location::{parse_s3_url, S3UrlError};
use watermarker::request::{query_param, watermark_text};

#[test]
fn query_param_finds_value() {
    let url = "http://example.com/x?usercode=abc&size=2";
    assert_eq!(query_param(url, "usercode"), Some("abc".to_string()));
    assert_eq!(query_param(url, "size"), Some("2".to_string()));
    assert_eq!(query_param(url, "other"), None);
}

#[test]
fn query_param_last_occurrence_wins() {
    assert_eq!(query_param("/p?a=1&a=2", "a"), Some("2".to_string()));
}

#[test]
fn query_param_ignores_pieces_without_equals() {
    assert_eq!(query_param("/p?a&b=3", "a"), None);
    assert_eq!(query_param("/p?a&b=3", "b"), Some("3".to_string()));
}

#[test]
fn query_param_splits_at_first_equals() {
    assert_eq!(query_param("/p?k=v=w", "k"), Some("v=w".to_string()));
    assert_eq!(query_param("/p?=v", ""), Some("v".to_string()));
}

#[test]
fn query_ends_at_second_question_mark() {
    assert_eq!(query_param("/p?a=1?b=2", "a"), Some("1".to_string()));
    assert_eq!(query_param("/p?a=1?b=2", "b"), None);
}

#[test]
fn url_without_query_has_no_params() {
    assert_eq!(query_param("http://example.com/x", "usercode"), None);
    assert_eq!(query_param("", "usercode"), None);
}

#[test]
fn watermark_text_from_usercode() {
    assert_eq!(watermark_text("https://h/p?usercode=Maria%20J"), "Maria%20J");
    assert_eq!(watermark_text("https://h/p?usercode="), "");
}

#[test]
fn watermark_text_defaults() {
    assert_eq!(watermark_text("https://h/p?user=x"), "WATERMARK");
}

#[test]
fn s3_url_gives_bucket_and_key() {
    assert_eq!(
        parse_s3_url("s3://bucket/path/to/object.jpg"),
        Ok(("bucket".to_string(), "path/to/object.jpg".to_string()))
    );
}

#[test]
fn s3_url_with_trailing_slash_has_empty_key() {
    assert_eq!(parse_s3_url("s3://bucket/"), Ok(("bucket".to_string(), String::new())));
}

#[test]
fn s3_url_without_path_is_rejected() {
    assert_eq!(parse_s3_url("s3://bucket"), Err(S3UrlError::MissingBucketOrKey));
}

#[test]
fn s3_url_without_host_is_rejected() {
    assert_eq!(parse_s3_url("s3:///key"), Err(S3UrlError::MissingBucket));
}

#[test]
fn unparsable_s3_url_is_rejected() {
    assert_eq!(parse_s3_url("s3://[oops/key"), Err(S3UrlError::Unparsable));
}

#[test]
fn http_url_gives_bucket_and_key() {
    assert_eq!(
        parse_s3_url("http://minio.example.com/mybucket/myimage.jpg?param=value"),
        Ok(("mybucket".to_string(), "myimage.jpg".to_string()))
    );
    assert_eq!(
        parse_s3_url("https://h/b/dir/img.png"),
        Ok(("b".to_string(), "dir/img.png".to_string()))
    );
}

#[test]
fn http_url_needs_bucket_and_key() {
    assert_eq!(parse_s3_url("http://h/onlybucket"), Err(S3UrlError::NotS3OrHttp));
    assert_eq!(parse_s3_url("http://h/bucket/"), Err(S3UrlError::NotS3OrHttp));
    assert_eq!(parse_s3_url("http://h//key"), Err(S3UrlError::NotS3OrHttp));
    assert_eq!(parse_s3_url("not a url"), Err(S3UrlError::NotS3OrHttp));
}
