use praxis::clusters::{FilterEntry, extract_lb_clusters, extract_router_clusters};
use praxis::yaml::YamlValue;

fn s(text: &str) -> YamlValue {
    YamlValue::String(text.to_owned())
}

fn map(entries: Vec<(&str, YamlValue)>) -> YamlValue {
    YamlValue::Mapping(entries.into_iter().map(|(k, v)| (s(k), v)).collect())
}

fn entry(filter_type: &str, config: YamlValue) -> FilterEntry {
    FilterEntry { filter_type: filter_type.to_owned(), config }
}

fn sorted(mut v: Vec<String>) -> Vec<String> {
    v.sort();
    v
}

#[test]
fn router_clusters_are_collected_once() {
    let entries = vec![
        entry(
            "router",
            map(vec![(
                "routes",
                YamlValue::Sequence(vec![
                    map(vec![("path_prefix", s("/")), ("host", s("api.example.com")), ("cluster", s("api"))]),
                    map(vec![("path_prefix", s("/")), ("cluster", s("default"))]),
                    map(vec![("cluster", s("api"))]),
                    map(vec![("cluster", YamlValue::Number("7".to_owned()))]),
                    s("not a route"),
                ]),
            )]),
        ),
        entry("load_balancer", map(vec![("clusters", YamlValue::Sequence(vec![map(vec![("name", s("lb"))])]))])),
        entry("router", map(vec![("routes", s("not a list"))])),
        entry("router", YamlValue::Null),
    ];
    assert_eq!(sorted(extract_router_clusters(&entries)), vec!["api", "default"]);
}

#[test]
fn lb_clusters_are_collected_once() {
    let entries = vec![
        entry(
            "load_balancer",
            map(vec![(
                "clusters",
                YamlValue::Sequence(vec![
                    map(vec![("name", s("api")), ("endpoints", YamlValue::Sequence(vec![s("127.0.0.1:1")]))]),
                    map(vec![("name", s("default"))]),
                ]),
            )]),
        ),
        entry(
            "load_balancer",
            YamlValue::Tagged(
                "!lb".to_owned(),
                Box::new(map(vec![(
                    "clusters",
                    YamlValue::Sequence(vec![map(vec![(
                        "name",
                        YamlValue::Tagged("!str".to_owned(), Box::new(s("tagged"))),
                    )]), map(vec![("name", s("api"))])]),
                )])),
            ),
        ),
        entry("router", map(vec![("routes", YamlValue::Sequence(vec![map(vec![("cluster", s("r"))])]))])),
    ];
    assert_eq!(sorted(extract_lb_clusters(&entries)), vec!["api", "default", "tagged"]);
}

#[test]
fn no_entries_no_clusters() {
    assert!(extract_router_clusters(&[]).is_empty());
    assert!(extract_lb_clusters(&[]).is_empty());
}

#[test]
fn yaml_lookups_see_through_tags_and_ignore_non_string_keys() {
    let v = YamlValue::Tagged(
        "!t".to_owned(),
        Box::new(YamlValue::Mapping(vec![
            (YamlValue::Number("1".to_owned()), s("one")),
            (s("key"), s("value")),
        ])),
    );
    assert_eq!(v.get("key").and_then(|x| x.as_str()), Some("value"));
    assert!(v.get("1").is_none());
    assert!(v.get("missing").is_none());
    assert!(s("x").get("key").is_none());
    assert!(v.as_sequence().is_none());
    assert_eq!(YamlValue::Sequence(vec![s("a")]).as_sequence().map(|i| i.len()), Some(1));
}
