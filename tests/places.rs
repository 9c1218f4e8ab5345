use places::bounding_box::{deserialize as decode_bounding_box, serialize as encode_bounding_box};
use places::url::query_string;
use places::{
    reverse_geocode, reverse_geocode_url, search_ip, search_point, search_query, search_url,
    Accuracy, Decimal, DecodeError, Json, Place,
    PlaceType, SearchResult,
};

fn s(x: &str) -> Json {
    Json::Str(x.to_string())
}

fn num(x: &str) -> Json {
    Json::Number(x.to_string())
}

fn arr(items: Vec<Json>) -> Json {
    Json::Array(items)
}

fn obj(members: Vec<(&str, Json)>) -> Json {
    Json::Object(members.into_iter().map(|(k, v)| (k.to_string(), v)).collect())
}

fn pairs(ps: &[(&str, &str)]) -> Vec<(String, String)> {
    ps.iter().map(|(k, v)| (k.to_string(), v.to_string())).collect()
}

fn value_of<'a>(ps: &'a [(String, String)], key: &str) -> Option<&'a str> {
    ps.iter().find(|(k, _)| k == key).map(|(_, v)| v.as_str())
}

fn seattle_box() -> Json {
    obj(vec![
        ("type", s("Polygon")),
        (
            "coordinates",
            arr(vec![arr(vec![
                arr(vec![num("-122.4"), num("37.7")]),
                arr(vec![num("-122.3"), num("37.7")]),
                arr(vec![num("-122.3"), num("37.8")]),
                arr(vec![num("-122.4"), num("37.8")]),
            ])]),
        ),
    ])
}

fn place_json(id: &str, contained: Option<Json>) -> Json {
    let mut members = vec![
        ("id", s(id)),
        ("attributes", obj(vec![("street_address", s("1 Main St"))])),
        ("bounding_box", seattle_box()),
        ("country", s("United States")),
        ("country_code", s("US")),
        ("full_name", s("Seattle, WA")),
        ("name", s("Seattle")),
        ("place_type", s("city")),
    ];
    if let Some(c) = contained {
        members.push(("contained_within", c));
    }
    obj(members)
}

#[test]
fn reverse_geocode_minimal() {
    let b = reverse_geocode(Decimal::new(3778, 2), Decimal::new(-12240, 2));
    assert_eq!(b.params(), pairs(&[("lat", "37.78"), ("long", "-122.40")]));
    assert_eq!(
        reverse_geocode_url(&b),
        "https://api.twitter.com/1.1/geo/reverse_geocode.json?lat=37.78&long=-122.40"
    );
}

#[test]
fn reverse_geocode_clamped() {
    let zero = reverse_geocode(Decimal::new(0, 1), Decimal::new(0, 1)).max_results(0);
    assert_eq!(value_of(&zero.params(), "max_results"), Some("20"));
    let fifty = reverse_geocode(Decimal::new(0, 1), Decimal::new(0, 1)).max_results(50);
    assert_eq!(value_of(&fifty.params(), "max_results"), Some("20"));
}

#[test]
fn geocode_max_results_in_range_kept() {
    for n in [1u32, 7, 20] {
        let b = reverse_geocode(Decimal::new(1, 0), Decimal::new(2, 0)).max_results(n);
        assert_eq!(value_of(&b.params(), "max_results"), Some(n.to_string().as_str()));
    }
    let b = reverse_geocode(Decimal::new(1, 0), Decimal::new(2, 0)).max_results(21);
    assert_eq!(value_of(&b.params(), "max_results"), Some("20"));
    let b = reverse_geocode(Decimal::new(1, 0), Decimal::new(2, 0)).max_results(u32::MAX);
    assert_eq!(value_of(&b.params(), "max_results"), Some("20"));
}

#[test]
fn geocode_all_parameters() {
    let b = reverse_geocode(Decimal::new(1, 0), Decimal::new(-2, 0))
        .accuracy(Accuracy::Feet(Decimal::new(15, 1)))
        .granularity(PlaceType::Neighborhood)
        .max_results(5);
    assert_eq!(
        b.params(),
        pairs(&[
            ("lat", "1"),
            ("long", "-2"),
            ("accuracy", "1.5ft"),
            ("granularity", "neighborhood"),
            ("max_results", "5"),
        ])
    );
}

#[test]
fn search_max_results_unchanged() {
    for n in [0u32, 20, 50, 100, 1000] {
        let b = search_query("x".to_string()).max_results(n);
        assert_eq!(value_of(&b.params(), "max_results"), Some(n.to_string().as_str()));
    }
}

#[test]
fn place_type_display() {
    assert_eq!(PlaceType::PointOfInterest.to_string(), "poi");
    assert_eq!(PlaceType::Admin.to_string(), "admin");
}

#[test]
fn place_type_round_trip() {
    for p in [
        PlaceType::PointOfInterest,
        PlaceType::Neighborhood,
        PlaceType::City,
        PlaceType::Admin,
        PlaceType::Country,
    ] {
        let j = p.to_json();
        assert_eq!(PlaceType::from_json(&j), Ok(p));
        match j {
            Json::Str(t) => assert_eq!(t, p.to_string()),
            _ => panic!("not a string"),
        }
    }
    assert_eq!(PlaceType::from_tag("neighborhood"), Some(PlaceType::Neighborhood));
    assert_eq!(PlaceType::from_tag("Country"), None);
}

#[test]
fn place_type_unknown_tag() {
    assert_eq!(PlaceType::from_json(&s("town")), Err(DecodeError::UnknownPlaceType));
    assert_eq!(PlaceType::from_json(&num("1")), Err(DecodeError::UnknownPlaceType));
}

#[test]
fn accuracy_strings() {
    assert_eq!(Accuracy::Meters(Decimal::new(5, 0)).to_string(), "5");
    assert_eq!(Accuracy::Meters(Decimal::new(-5, 3)).to_string(), "-0.005");
    assert_eq!(Accuracy::Feet(Decimal::new(120, 1)).to_string(), "12.0ft");
    assert_eq!(Accuracy::Feet(Decimal::new(0, 0)).to_string(), "0ft");
}

#[test]
fn decimal_text_exact() {
    assert_eq!(Decimal::new(-12240, 2).to_text(), "-122.40");
    assert_eq!(Decimal::new(3778, 2).to_text(), "37.78");
    assert_eq!(Decimal::new(7, 0).to_text(), "7");
    assert_eq!(Decimal::new(i64::MIN, 0).to_text(), "-9223372036854775808");
    assert_eq!(Decimal::new(i64::MAX, 18).to_text(), "9.223372036854775807");
    assert_eq!(Decimal::new(12, 5).to_text(), "0.00012");
}

#[test]
fn search_by_text_with_attributes() {
    let b = search_query("Seattle".to_string())
        .attribute("street_address".to_string(), "123 Main".to_string())
        .granularity(PlaceType::City);
    let ps = b.params();
    assert_eq!(value_of(&ps, "query"), Some("Seattle"));
    assert_eq!(value_of(&ps, "granularity"), Some("city"));
    assert_eq!(value_of(&ps, "attribute:street_address"), Some("123 Main"));
    assert_eq!(
        search_url(&b),
        "https://api.twitter.com/1.1/geo/search.json?query=Seattle&granularity=city&attribute%3Astreet_address=123+Main"
    );
}

#[test]
fn attribute_later_value_wins() {
    let b = search_ip("1.2.3.4".to_string())
        .attribute("k".to_string(), "v1".to_string())
        .attribute("other".to_string(), "o".to_string())
        .attribute("k".to_string(), "v2".to_string());
    let ps = b.params();
    assert_eq!(
        ps,
        pairs(&[("ip", "1.2.3.4"), ("attribute:k", "v2"), ("attribute:other", "o")])
    );
}

#[test]
fn search_point_all_parameters() {
    let b = search_point(Decimal::new(1, 1), Decimal::new(-2, 1))
        .accuracy(Accuracy::Meters(Decimal::new(30, 0)))
        .max_results(3)
        .contained_within("abc123".to_string());
    assert_eq!(
        b.params(),
        pairs(&[
            ("lat", "0.1"),
            ("long", "-0.2"),
            ("accuracy", "30"),
            ("max_results", "3"),
            ("contained_within", "abc123"),
        ])
    );
}

#[test]
fn form_encoding() {
    let ps = pairs(&[("q", "a b&c=d/é*-._~")]);
    assert_eq!(query_string(&ps), "q=a+b%26c%3Dd%2F%C3%A9*-._%7E");
    assert_eq!(query_string(&Vec::new()), "");
}

#[test]
fn bounding_box_decode() {
    let b = decode_bounding_box(&seattle_box()).unwrap();
    assert_eq!(
        b,
        pairs(&[("-122.4", "37.7"), ("-122.3", "37.7"), ("-122.3", "37.8"), ("-122.4", "37.8")])
    );
    assert_eq!(decode_bounding_box(&Json::Null), Ok(Vec::new()));
}

#[test]
fn bounding_box_malformed() {
    let no_coords = obj(vec![("type", s("Point"))]);
    assert_eq!(decode_bounding_box(&no_coords), Err(DecodeError::MalformedBoundingBox));
    let empty_rings = obj(vec![("coordinates", arr(vec![]))]);
    assert_eq!(decode_bounding_box(&empty_rings), Err(DecodeError::MalformedBoundingBox));
    let bad_pair = obj(vec![("coordinates", arr(vec![arr(vec![arr(vec![num("1")])])]))]);
    assert_eq!(decode_bounding_box(&bad_pair), Err(DecodeError::MalformedBoundingBox));
}

#[test]
fn bounding_box_encode() {
    assert!(matches!(encode_bounding_box(&Vec::new()), Json::Null));
    let one = pairs(&[("1.5", "2.5")]);
    match encode_bounding_box(&one) {
        Json::Object(ms) => {
            assert_eq!(ms.len(), 2);
            assert_eq!(ms[0].0, "coordinates");
            assert_eq!(ms[1].0, "type");
            assert!(matches!(&ms[1].1, Json::Str(t) if t == "Point"));
            match &ms[0].1 {
                Json::Array(items) => {
                    assert_eq!(items.len(), 1);
                    assert!(matches!(&items[0], Json::Array(p) if p.len() == 2));
                }
                _ => panic!("coordinates not an array"),
            }
        }
        _ => panic!("not an object"),
    }
    let three = pairs(&[("1", "2"), ("3", "4"), ("5", "6")]);
    match encode_bounding_box(&three) {
        Json::Object(ms) => assert!(matches!(&ms[1].1, Json::Str(t) if t == "Polygon")),
        _ => panic!("not an object"),
    }
}

#[test]
fn place_decode() {
    let inner = place_json("us", None);
    let outer = place_json("seattle", Some(arr(vec![inner])));
    let p = Place::from_json(&outer).unwrap();
    assert_eq!(p.id, "seattle");
    assert_eq!(p.name, "Seattle");
    assert_eq!(p.full_name, "Seattle, WA");
    assert_eq!(p.country_code, "US");
    assert_eq!(p.place_type, PlaceType::City);
    assert_eq!(p.attributes, pairs(&[("street_address", "1 Main St")]));
    assert_eq!(p.bounding_box.len(), 4);
    let within = p.contained_within.unwrap();
    assert_eq!(within.len(), 1);
    assert_eq!(within[0].id, "us");
    assert!(within[0].contained_within.is_none());
    let with_null = place_json("x", Some(Json::Null));
    assert!(Place::from_json(&with_null).unwrap().contained_within.is_none());
}

#[test]
fn place_decoded_outline_shape() {
    let p = Place::from_json(&place_json("x", None)).unwrap();
    let n = p.bounding_box.len();
    assert!(n <= 1 || n >= 3);
}

#[test]
fn place_malformed() {
    let missing_id = obj(vec![("name", s("x"))]);
    assert_eq!(Place::from_json(&missing_id).err(), Some(DecodeError::MalformedPlace));
    let bad_inner = place_json("x", Some(arr(vec![s("nope")])));
    assert_eq!(Place::from_json(&bad_inner).err(), Some(DecodeError::MalformedPlace));
}

#[test]
fn search_result_decode() {
    let j = obj(vec![
        ("query", obj(vec![("url", s("https://api.twitter.com/1.1/geo/search.json?query=x"))])),
        ("result", obj(vec![("places", arr(vec![]))])),
    ]);
    let r = SearchResult::from_json(&j).unwrap();
    assert_eq!(r.url, "\"https://api.twitter.com/1.1/geo/search.json?query=x\"");
    assert!(r.results.is_empty());
}

#[test]
fn search_result_with_place() {
    let j = obj(vec![
        ("query", obj(vec![("url", s("u")), ("type", s("search"))])),
        ("result", obj(vec![("places", arr(vec![place_json("p1", None)]))])),
    ]);
    let r = SearchResult::from_json(&j).unwrap();
    assert_eq!(r.url, "\"u\"");
    assert_eq!(r.results.len(), 1);
    assert_eq!(r.results[0].id, "p1");
}

#[test]
fn search_result_missing_paths() {
    let no_query = obj(vec![("result", obj(vec![("places", arr(vec![]))]))]);
    let no_url = obj(vec![
        ("query", obj(vec![])),
        ("result", obj(vec![("places", arr(vec![]))])),
    ]);
    let no_places = obj(vec![("query", obj(vec![("url", s("u"))])), ("result", obj(vec![]))]);
    let not_array = obj(vec![
        ("query", obj(vec![("url", s("u"))])),
        ("result", obj(vec![("places", s("none"))])),
    ]);
    let bad_place = obj(vec![
        ("query", obj(vec![("url", s("u"))])),
        ("result", obj(vec![("places", arr(vec![obj(vec![])]))])),
    ]);
    for j in [no_query, no_url, no_places, not_array, bad_place] {
        assert_eq!(SearchResult::from_json(&j).err(), Some(DecodeError::MalformedSearchResult));
    }
}

#[test]
fn url_quoting_escapes() {
    let j = obj(vec![
        ("query", obj(vec![("url", s("a\"b"))])),
        ("result", obj(vec![("places", arr(vec![]))])),
    ]);
    assert_eq!(SearchResult::from_json(&j).unwrap().url, "\"a\\\"b\"");
}

#[test]
fn decode_error_messages() {
    assert_eq!(DecodeError::MalformedSearchResult.message(), "Malformed search result");
    assert_eq!(DecodeError::MalformedBoundingBox.message(), "Malformed 'bounding_box' attribute");
    assert_eq!(DecodeError::MalformedPlace.message(), "Malformed place");
    assert_eq!(DecodeError::UnknownPlaceType.message(), "Unknown place type");
}

#[test]
fn url_with_unreadable_number_is_malformed() {
    let j = obj(vec![
        ("query", obj(vec![("url", num("not a number"))])),
        ("result", obj(vec![("places", arr(vec![]))])),
    ]);
    assert_eq!(SearchResult::from_json(&j).err(), Some(DecodeError::MalformedSearchResult));
}

#[test]
fn attribute_key_sent_once() {
    let b = search_query("q".to_string())
        .attribute("k".to_string(), "v1".to_string())
        .attribute("k".to_string(), "v2".to_string())
        .max_results(3);
    let ps = b.params();
    let sent: Vec<&(String, String)> = ps.iter().filter(|(k, _)| k == "attribute:k").collect();
    assert_eq!(sent.len(), 1);
    assert_eq!(sent[0].1, "v2");
}

#[test]
fn url_composite_value_kept_as_json_text() {
    let j = obj(vec![
        (
            "query",
            obj(vec![("url", arr(vec![num("1"), s("a"), Json::Bool(true), obj(vec![("k", Json::Null)])]))]),
        ),
        ("result", obj(vec![("places", arr(vec![]))])),
    ]);
    assert_eq!(SearchResult::from_json(&j).unwrap().url, "[1,\"a\",true,{\"k\":null}]");
}

#[test]
fn place_encode() {
    let p = Place::from_json(&place_json("seattle", Some(arr(vec![place_json("us", None)])))).unwrap();
    match p.to_json() {
        Json::Object(ms) => {
            let keys: Vec<&str> = ms.iter().map(|(k, _)| k.as_str()).collect();
            assert_eq!(
                keys,
                vec![
                    "id",
                    "attributes",
                    "bounding_box",
                    "country",
                    "country_code",
                    "full_name",
                    "name",
                    "place_type",
                    "contained_within"
                ]
            );
            assert!(matches!(&ms[0].1, Json::Str(t) if t == "seattle"));
            assert!(matches!(&ms[7].1, Json::Str(t) if t == "city"));
            match &ms[2].1 {
                Json::Object(b) => {
                    assert!(matches!(&b[1].1, Json::Str(t) if t == "Polygon"));
                    assert!(matches!(&b[0].1, Json::Array(items) if items.len() == 4));
                }
                _ => panic!("bounding box not an object"),
            }
            match &ms[8].1 {
                Json::Array(items) => {
                    assert_eq!(items.len(), 1);
                    match &items[0] {
                        Json::Object(inner) => {
                            assert!(matches!(&inner[0].1, Json::Str(t) if t == "us"));
                            assert!(matches!(&inner[8].1, Json::Null));
                        }
                        _ => panic!("inner place not an object"),
                    }
                }
                _ => panic!("contained_within not an array"),
            }
        }
        _ => panic!("not an object"),
    }
}
