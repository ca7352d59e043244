use std::sync::Arc;

use tarantula::link_type_checker::LinkTypeChecker;
use tarantula::uri_service::normalize_url;
use tarantula::uri_service::pre_clean_uri;
use tarantula::uri_service::UriService;

#[test]
fn form_full_url_returns_correct_uri() {
    let input = vec![
        ("/", "https://example.com/"),
        ("/account/login?redirect=https://example.com/", "https://example.com/account/login?redirect=https%3A%2F%2Fexample.com%2F"),
        ("/agb/", "https://example.com/agb/"),
        ("/ausgabe/example-com-62-mindful-leadership/", "https://example.com/ausgabe/example-com-62-mindful-leadership/"),
        ("#", "https://example.com/#"),
        ("#s-angle-down", "https://example.com/#s-angle-down"),
        ("/#foo", "https://example.com/#foo"),
        ("example.com", "https://example.com/"),
        ("https://example.com/", "https://example.com/"),
        ("https://example.com/ausgabe/example-com-59-straight-outta-office/", "https://example.com/ausgabe/example-com-59-straight-outta-office/"),
        ("https://example.com/events/", "https://example.com/events/"),
        ("https://faq.example.com/", "https://faq.example.com/"),
        ("https://twitter.com/example-com", "https://twitter.com/example-com"),
        ("mailto:support@example.com", "mailto:support@example.com"),
        ("//storage.googleapis.com/example.com/assets/foo.png", "https://storage.googleapis.com/example.com/assets/foo.png"),
        ("/some invalid url/assets/my picture.png", "https://example.com/some%20invalid%20url/assets/my%20picture.png"),
    ];

    let host = "example.com";
    let link_type_checker = Arc::new(LinkTypeChecker::new(host));
    let instance = UriService::new(link_type_checker.clone());
    input.iter().for_each(|(uri, expected)| {
        let result = instance.form_full_url("https", uri, host, &Some(String::from(""))).parse::<hyper::Uri>().unwrap();
        let formatted = format!("{}{}", host, uri);
        let scope = link_type_checker.get_uri_scope(host, &formatted);
        assert_eq!(result, *expected, "{} should be {} :: {:?}", uri, expected, scope.unwrap());
    });
}

#[test]
fn clean_and_normalize_url() {
    let input = vec![
        ("https://www.example.com/", "/foo/", "https://www.example.com/foo/"),
        ("https://www.example.com", "/foo/", "https://www.example.com/foo/"),
        ("https://www.example.com/", "//foo//", "https://foo/"),
        ("https://www.example.com/", "///////foo//////", "https://foo/"),
        ("https://www.example.com/", "http-headers-explained/", "https://www.example.com/http-headers-explained/"),
        ("https://www.example.com/about/appsecurity/tools/", "../../../about/appsecurity/research/presentations/", "https://www.example.com/about/appsecurity/research/presentations/"),
        ("https://www.example.com/about/appsecurity/tools", "../../../about/appsecurity/research/presentations/", "https://www.example.com/about/appsecurity/research/presentations/"),
    ];

    let host = "www.example.com";
    let link_type_checker = Arc::new(LinkTypeChecker::new(host));
    let instance = UriService::new(link_type_checker.clone());
    input.iter().for_each(|(parent_uri, uri, expected)| {
        let result = instance.form_full_url("https", uri, host, &Some(String::from(*parent_uri))).parse::<hyper::Uri>().unwrap();
        assert_eq!(result, *expected, "{} should be {}", &result, expected);
    });
}

#[test]
fn pre_cleaned_uri_has_no_double_slash() {
    for uri in ["///////foo//////", "//foo//bar", "/a//b///c", "https://example.com//x"] {
        let cleaned: String = pre_clean_uri(&"example.com".chars().collect(), &uri.chars().collect()).into_iter().collect();
        let rest = ["https://", "http://", "//"]
            .iter()
            .find_map(|prefix| cleaned.strip_prefix(prefix))
            .unwrap_or(&cleaned);
        assert!(!rest.contains("//"), "{} gave {}", uri, cleaned);
    }
}

#[test]
fn normalize_url_resolves_parent_steps() {
    let result: String = normalize_url(
        &"../../x/y".chars().collect(),
        &Some("https://www.example.com/a/b/c/".to_string()),
    )
    .into_iter()
    .collect();
    assert_eq!(result, "https://www.example.com/a/x/y");
}
