use nws::fetch::FetchError;
use nws::json::{
    get_city, get_features_key, get_features_properties, get_features_properties_key,
    get_features_properties_value, get_features_properties_value_key, get_indexed_object, get_key,
    get_location, get_object, get_properties_key, get_properties_value_key, get_state,
    load_forecast, Json,
};

fn text(value: &str) -> Json {
    Json::String(String::from(value))
}

fn number(digits: &str) -> Json {
    Json::Number(String::from(digits))
}

fn object(members: Vec<(&str, Json)>) -> Json {
    Json::Object(members.into_iter().map(|(key, value)| (String::from(key), value)).collect())
}

fn point() -> Json {
    object(vec![
        ("id", text("https://api.weather.gov/points/39.7456,-97.0892")),
        (
            "properties",
            object(vec![
                ("gridId", text("TOP")),
                ("gridX", number("32")),
                ("forecast", text("https://api.weather.gov/gridpoints/TOP/32,81/forecast")),
                (
                    "relativeLocation",
                    object(vec![
                        ("type", text("Feature")),
                        (
                            "properties",
                            object(vec![
                                ("city", text("Linn")),
                                ("state", text("KS")),
                                ("distance", object(vec![("value", number("7366.9851976444"))])),
                            ]),
                        ),
                    ]),
                ),
            ]),
        ),
    ])
}

fn collection() -> Json {
    object(vec![
        ("type", text("FeatureCollection")),
        (
            "features",
            Json::Array(vec![
                object(vec![
                    ("id", text("first")),
                    (
                        "properties",
                        object(vec![
                            ("name", text("Marysville")),
                            ("elevation", object(vec![("value", number("351")), ("unit", text("m"))])),
                        ]),
                    ),
                ]),
                object(vec![("id", number("2")), ("properties", Json::Null)]),
                text("no feature"),
            ]),
        ),
    ])
}

#[test]
fn get_object_finds_a_member() {
    assert_eq!(get_object(&point(), "id"), &text("https://api.weather.gov/points/39.7456,-97.0892"));
}

#[test]
fn get_object_of_what_is_not_there_is_null() {
    assert_eq!(get_object(&point(), "missing"), &Json::Null);
    assert_eq!(get_object(&point(), ""), &Json::Null);
    assert_eq!(get_object(&Json::Null, "id"), &Json::Null);
    assert_eq!(get_object(&text("id"), "id"), &Json::Null);
    assert_eq!(get_object(&Json::Array(vec![text("id")]), "id"), &Json::Null);
    assert_eq!(get_object(&object(vec![]), "id"), &Json::Null);
}

#[test]
fn get_object_takes_the_first_member_of_a_name() {
    let twice = object(vec![("a", number("1")), ("b", number("2")), ("a", number("3"))]);
    assert_eq!(get_object(&twice, "a"), &number("1"));
    assert_eq!(get_object(&twice, "b"), &number("2"));
}

#[test]
fn get_indexed_object_finds_an_element() {
    assert_eq!(get_indexed_object(&collection(), "features", 2), &text("no feature"));
    assert_eq!(get_key(get_indexed_object(&collection(), "features", 0), "id"), "first");
}

#[test]
fn get_indexed_object_beyond_the_end_is_null() {
    assert_eq!(get_indexed_object(&collection(), "features", 3), &Json::Null);
    assert_eq!(get_indexed_object(&collection(), "features", usize::MAX), &Json::Null);
    assert_eq!(get_indexed_object(&collection(), "type", 0), &Json::Null);
    assert_eq!(get_indexed_object(&collection(), "missing", 0), &Json::Null);
    assert_eq!(get_indexed_object(&Json::Null, "features", 0), &Json::Null);
}

#[test]
fn get_key_reads_text_and_numbers() {
    let props = object(vec![
        ("name", text("Linn")),
        ("count", number("32")),
        ("ratio", number("-0.5")),
        ("flag", Json::Bool(true)),
        ("none", Json::Null),
        ("list", Json::Array(vec![])),
        ("empty", text("")),
    ]);
    assert_eq!(get_key(&props, "name"), "Linn");
    assert_eq!(get_key(&props, "count"), "32");
    assert_eq!(get_key(&props, "ratio"), "-0.5");
    assert_eq!(get_key(&props, "flag"), "");
    assert_eq!(get_key(&props, "none"), "");
    assert_eq!(get_key(&props, "list"), "");
    assert_eq!(get_key(&props, "empty"), "");
    assert_eq!(get_key(&props, "missing"), "");
    assert_eq!(get_key(&Json::Null, "name"), "");
}

#[test]
fn get_properties_key_reads_under_properties() {
    assert_eq!(get_properties_key(&point(), "gridId"), "TOP");
    assert_eq!(get_properties_key(&point(), "gridX"), "32");
    assert_eq!(get_properties_key(&point(), "missing"), "");
    assert_eq!(get_properties_key(&collection(), "gridId"), "");
    assert_eq!(get_properties_key(&Json::Null, "gridId"), "");
}

#[test]
fn get_properties_value_key_reads_two_levels_down() {
    assert_eq!(get_properties_value_key(&point(), "relativeLocation", "type"), "Feature");
    assert_eq!(get_properties_value_key(&point(), "relativeLocation", "missing"), "");
    assert_eq!(get_properties_value_key(&point(), "missing", "type"), "");
    assert_eq!(get_properties_value_key(&point(), "gridId", "type"), "");
    assert_eq!(get_properties_value_key(&Json::Null, "relativeLocation", "type"), "");
}

#[test]
fn get_features_properties_finds_the_properties_of_a_feature() {
    assert_eq!(get_key(get_features_properties(&collection(), 0), "name"), "Marysville");
    assert_eq!(get_features_properties(&collection(), 1), &Json::Null);
    assert_eq!(get_features_properties(&collection(), 2), &Json::Null);
    assert_eq!(get_features_properties(&collection(), 3), &Json::Null);
    assert_eq!(get_features_properties(&point(), 0), &Json::Null);
}

#[test]
fn get_features_properties_key_reads_a_property() {
    assert_eq!(get_features_properties_key(&collection(), 0, "name"), "Marysville");
    assert_eq!(get_features_properties_key(&collection(), 0, "elevation"), "");
    assert_eq!(get_features_properties_key(&collection(), 1, "name"), "");
    assert_eq!(get_features_properties_key(&collection(), 9, "name"), "");
}

#[test]
fn get_features_key_reads_a_member_of_a_feature() {
    assert_eq!(get_features_key(&collection(), 0, "id"), "first");
    assert_eq!(get_features_key(&collection(), 1, "id"), "2");
    assert_eq!(get_features_key(&collection(), 2, "id"), "");
    assert_eq!(get_features_key(&collection(), 3, "id"), "");
    assert_eq!(get_features_key(&Json::Null, 0, "id"), "");
}

#[test]
fn get_features_properties_value_finds_a_value() {
    assert_eq!(
        get_features_properties_value(&collection(), 0, "elevation"),
        &object(vec![("value", number("351")), ("unit", text("m"))])
    );
    assert_eq!(get_features_properties_value(&collection(), 0, "missing"), &Json::Null);
    assert_eq!(get_features_properties_value(&collection(), 1, "elevation"), &Json::Null);
}

#[test]
fn get_features_properties_value_key_reads_a_member_of_a_value() {
    assert_eq!(get_features_properties_value_key(&collection(), 0, "elevation", "value"), "351");
    assert_eq!(get_features_properties_value_key(&collection(), 0, "elevation", "unit"), "m");
    assert_eq!(get_features_properties_value_key(&collection(), 0, "elevation", "missing"), "");
    assert_eq!(get_features_properties_value_key(&collection(), 0, "name", "value"), "");
    assert_eq!(get_features_properties_value_key(&collection(), 5, "elevation", "value"), "");
}

#[test]
fn get_location_reads_the_relative_location() {
    let properties = object(vec![(
        "relativeLocation",
        object(vec![(
            "properties",
            object(vec![("city", text("Linn")), ("state", text("KS")), ("bearing", number("358"))]),
        )]),
    )]);
    assert_eq!(get_location(&properties, "city"), "Linn");
    assert_eq!(get_location(&properties, "bearing"), "358");
    assert_eq!(get_location(&properties, "missing"), "");
    assert_eq!(get_city(&properties), "Linn");
    assert_eq!(get_state(&properties), "KS");
}

#[test]
fn get_location_of_what_is_not_there_is_empty() {
    assert_eq!(get_city(&Json::Null), "");
    assert_eq!(get_state(&object(vec![])), "");
    assert_eq!(get_city(&object(vec![("relativeLocation", Json::Null)])), "");
    assert_eq!(get_city(&object(vec![("relativeLocation", object(vec![("properties", text("x"))]))])), "");
    assert_eq!(get_city(&point()), "");
    assert_eq!(get_city(get_object(&point(), "properties")), "Linn");
    assert_eq!(get_state(get_object(&point(), "properties")), "KS");
}

#[test]
fn load_forecast_hands_the_document_on() {
    assert_eq!(load_forecast(Some(point())), Ok(point()));
    assert_eq!(load_forecast(Some(Json::Null)), Ok(Json::Null));
}

#[test]
fn load_forecast_fails_on_what_is_no_document() {
    assert_eq!(load_forecast(None), Err(FetchError::Parse));
}
