use svdp::sv::aliyun::pair;
use svdp::sv::aliyun::sign::{request_url, signature_nonce, signed_url, sort_params};

fn enc(s: &str) -> String {
    url::form_urlencoded::byte_serialize(s.as_bytes()).collect::<String>()
}

fn tidy(s: &str) -> String {
    s.replace('+', "%20").replace('*', "%2A").replace("%7E", "~")
}

fn expected_url(argv: &[(&str, &str)], id: &str, key: &str, nonce: &str, stamp: &str) -> String {
    let mut all: Vec<(String, String)> = argv.iter().map(|(a, b)| (a.to_string(), b.to_string())).collect();
    for (a, b) in [
        ("AccessKeyId", id),
        ("SignatureMethod", "HMAC-SHA1"),
        ("SignatureVersion", "1.0"),
        ("SignatureNonce", nonce),
        ("Format", "JSON"),
        ("Timestamp", stamp),
    ] {
        all.push((a.to_string(), b.to_string()));
    }
    let mut rest = all[1..].to_vec();
    rest.sort();
    let mid = rest.iter().map(|(a, b)| format!("{}={}", enc(a), enc(b))).collect::<Vec<_>>().join("&");
    let to_sign = tidy(&format!("GET&%2F&{}", enc(&mid)));
    let k = ring::hmac::Key::new(ring::hmac::HMAC_SHA1_FOR_LEGACY_USE_ONLY, key.as_bytes());
    let tag = ring::hmac::sign(&k, to_sign.as_bytes());
    let sig = data_encoding::BASE64.encode(tag.as_ref());
    format!("http://{}?{}&Signature={}", all[0].1, tidy(&mid), tidy(&enc(&sig)))
}

fn argv_of(v: &[(&str, &str)]) -> Vec<[String; 2]> {
    v.iter().map(|(a, b)| pair(a, b.to_string())).collect()
}

const REGIONS: [(&str, &str); 3] = [
    ("Domain", "ecs.aliyuncs.com"),
    ("Version", "2014-05-26"),
    ("Action", "DescribeRegions"),
];

#[test]
fn signed_request_url() {
    let stamp = "2016-02-23T12:46:24Z";
    let nonce = "3ee8c1b8-83d3-44af-a94f-4e0ad82fd6cf";
    let url = request_url(&argv_of(&REGIONS), "testid", "testsecret&", nonce, stamp).unwrap();
    assert_eq!(url, expected_url(&REGIONS, "testid", "testsecret&", nonce, stamp));
    assert!(url.starts_with("http://ecs.aliyuncs.com?AccessKeyId=testid&Action=DescribeRegions&Format=JSON&"));
    assert!(url.contains("&Timestamp=2016-02-23T12%3A46%3A24Z&"));
    assert!(!url.contains("Domain="));
}

#[test]
fn signed_request_url_encodes_spaces_and_stars() {
    let argv = [("Domain", "metrics.aliyuncs.com"), ("Dimensions", "[{\"a\": \"x y*~\"}]"), ("Metric", "cpu_total")];
    let url = request_url(&argv_of(&argv), "id", "key&", "n1", "2018-01-01T00:00:00Z").unwrap();
    assert_eq!(url, expected_url(&argv, "id", "key&", "n1", "2018-01-01T00:00:00Z"));
    assert!(url.contains("Dimensions=%5B%7B%22a%22%3A%20%22x%20y%2A~%22%7D%5D"));
}

#[test]
fn signature_ignores_parameter_order() {
    let a = [("Domain", "metrics.aliyuncs.com"), ("Metric", "load_5m"), ("Action", "QueryMetricList"), ("Period", "300")];
    let b = [("Domain", "metrics.aliyuncs.com"), ("Period", "300"), ("Metric", "load_5m"), ("Action", "QueryMetricList")];
    let ua = request_url(&argv_of(&a), "id", "k&", "n", "t").unwrap();
    let ub = request_url(&argv_of(&b), "id", "k&", "n", "t").unwrap();
    assert_eq!(ua, ub);
}

#[test]
fn parameters_sort_by_name_then_value() {
    let v = argv_of(&[("b", "2"), ("a", "9"), ("b", "1"), ("Z", "0")]);
    let s: Vec<(String, String)> = sort_params(&v).into_iter().map(|p| (p[0].clone(), p[1].clone())).collect();
    let want: Vec<(String, String)> = [("Z", "0"), ("a", "9"), ("b", "1"), ("b", "2")]
        .iter()
        .map(|(a, b)| (a.to_string(), b.to_string()))
        .collect();
    assert_eq!(s, want);
}

#[test]
fn nonce_and_time_stamp() {
    assert_eq!(signature_nonce(1519800000000, 5, -7), "15198000000005-7");
    let url = signed_url(&argv_of(&REGIONS), "testid", "testsecret&", 1_456_231_584_000).unwrap();
    assert!(url.contains("&Timestamp=2016-02-23T12%3A46%3A24Z&"));
    assert!(url.contains("&SignatureNonce=1456231584000"));
    assert!(url.starts_with("http://ecs.aliyuncs.com?AccessKeyId=testid&"));
    let epoch = signed_url(&argv_of(&REGIONS), "testid", "testsecret&", 0).unwrap();
    assert!(epoch.contains("&Timestamp=1970-01-01T00%3A00%3A00Z&"));
}
