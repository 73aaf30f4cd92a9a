use rossby_vis::error::GatewayError;
use rossby_vis::grid::{rossby_to_earth_grid, GridParams, Spacing};
use rossby_vis::json::{Json, Number};
use rossby_vis::timecode::{first_time, rossby_time_to_iso, time_code_to_iso, whole_hours};

fn object(members: Vec<(&str, Json)>) -> Json {
    Json::Object(members.into_iter().map(|(k, v)| (k.to_string(), v)).collect())
}

fn double(x: f64) -> Json {
    Json::Number(Number::Real(x.to_bits()))
}

fn doubles(values: &[f64]) -> Json {
    Json::Array(values.iter().map(|x| double(*x)).collect())
}

fn size(n: u64) -> Json {
    object(vec![("size", Json::Number(Number::PosInt(n)))])
}

fn metadata(latitude: Json, longitude: Json, rows: Json, columns: Json) -> Json {
    object(vec![
        ("coordinates", object(vec![("latitude", latitude), ("longitude", longitude)])),
        ("dimensions", object(vec![("latitude", rows), ("longitude", columns)])),
    ])
}

fn value_of(n: Number) -> f64 {
    match n {
        Number::PosInt(u) => u as f64,
        Number::NegInt(i) => i as f64,
        Number::Real(bits) => f64::from_bits(bits),
    }
}

fn spacing_value(s: Spacing) -> f64 {
    match s {
        Spacing::Unit => 1.0,
        Spacing::Span { minuend, subtrahend, intervals } => {
            (value_of(minuend) - value_of(subtrahend)) / intervals as f64
        }
    }
}

fn grid_of(document: &Json) -> GridParams {
    rossby_to_earth_grid(document).unwrap()
}

fn is_missing(document: &Json) -> bool {
    matches!(rossby_to_earth_grid(document), Err(GatewayError::MissingGridMetadata))
}

#[test]
fn three_latitudes_a_quarter_degree_apart() {
    let document = metadata(
        doubles(&[90.0, 89.75, 89.5]),
        doubles(&[0.0, 0.25, 0.5]),
        size(3),
        size(3),
    );
    let grid = grid_of(&document);
    assert_eq!(grid.ny, 3);
    assert_eq!(grid.nx, 3);
    assert_eq!(value_of(grid.la1), 90.0);
    assert_eq!(value_of(grid.la2), 89.5);
    assert_eq!(value_of(grid.lo1), 0.0);
    assert_eq!(value_of(grid.lo2), 0.5);
    assert_eq!(
        grid.dy,
        Spacing::Span {
            minuend: Number::Real(90.0f64.to_bits()),
            subtrahend: Number::Real(89.5f64.to_bits()),
            intervals: 2
        }
    );
    assert_eq!(spacing_value(grid.dy), 0.25);
    assert_eq!(spacing_value(grid.dx), 0.25);
}

#[test]
fn the_counts_come_from_the_dimensions_not_the_arrays() {
    let document = metadata(
        doubles(&[90.0, 89.75, 89.5]),
        doubles(&[0.0, 0.25, 0.5]),
        size(721),
        size(1440),
    );
    let grid = grid_of(&document);
    assert_eq!(grid.ny, 721);
    assert_eq!(grid.nx, 1440);
    assert_eq!(spacing_value(grid.dy), 0.5 / 720.0);
    assert_eq!(spacing_value(grid.dx), 0.5 / 1439.0);
}

#[test]
fn a_single_cell_has_the_unit_spacing() {
    let document = metadata(doubles(&[45.0]), doubles(&[10.0, 20.0]), size(1), size(2));
    let grid = grid_of(&document);
    assert_eq!(grid.ny, 1);
    assert_eq!(grid.dy, Spacing::Unit);
    assert_eq!(spacing_value(grid.dy), 1.0);
    assert_eq!(value_of(grid.la1), 45.0);
    assert_eq!(value_of(grid.la2), 45.0);
    assert_eq!(spacing_value(grid.dx), 10.0);
}

#[test]
fn ascending_latitudes_give_a_negative_spacing() {
    let document = metadata(doubles(&[-90.0, 0.0, 90.0]), doubles(&[0.0, 1.0]), size(3), size(2));
    let grid = grid_of(&document);
    assert_eq!(spacing_value(grid.dy), -90.0);
}

#[test]
fn integers_are_kept_as_they_were_read() {
    let latitude = Json::Array(vec![
        Json::Number(Number::PosInt(90)),
        Json::Number(Number::NegInt(-90)),
    ]);
    let document = metadata(latitude, doubles(&[0.0, 359.0]), size(2), size(360));
    let grid = grid_of(&document);
    assert_eq!(grid.la1, Number::PosInt(90));
    assert_eq!(grid.la2, Number::NegInt(-90));
    assert_eq!(spacing_value(grid.dy), 180.0);
    assert_eq!(spacing_value(grid.dx), 1.0);
}

#[test]
fn missing_latitude_is_missing_grid_metadata() {
    let document = object(vec![
        ("coordinates", object(vec![("longitude", doubles(&[0.0, 0.25]))])),
        ("dimensions", object(vec![("latitude", size(3)), ("longitude", size(2))])),
    ]);
    assert!(is_missing(&document));
}

#[test]
fn every_missing_part_is_missing_grid_metadata() {
    let lat = || doubles(&[90.0, 89.0]);
    let lon = || doubles(&[0.0, 1.0]);
    assert!(is_missing(&Json::Null));
    assert!(is_missing(&object(vec![])));
    assert!(is_missing(&object(vec![(
        "coordinates",
        object(vec![("latitude", lat()), ("longitude", lon())])
    )])));
    assert!(is_missing(&object(vec![(
        "dimensions",
        object(vec![("latitude", size(2)), ("longitude", size(2))])
    )])));
    assert!(is_missing(&object(vec![
        ("coordinates", object(vec![("latitude", lat())])),
        ("dimensions", object(vec![("latitude", size(2)), ("longitude", size(2))])),
    ])));
    assert!(is_missing(&object(vec![
        ("coordinates", object(vec![("latitude", lat()), ("longitude", lon())])),
        ("dimensions", object(vec![("longitude", size(2))])),
    ])));
    assert!(is_missing(&object(vec![
        ("coordinates", object(vec![("latitude", lat()), ("longitude", lon())])),
        ("dimensions", object(vec![("latitude", size(2))])),
    ])));
}

#[test]
fn wrong_types_are_missing_grid_metadata() {
    let lat = || doubles(&[90.0, 89.0]);
    let lon = || doubles(&[0.0, 1.0]);
    // an empty axis
    assert!(is_missing(&metadata(doubles(&[]), lon(), size(2), size(2))));
    // an axis that is no array
    assert!(is_missing(&metadata(double(90.0), lon(), size(2), size(2))));
    // an axis that begins or ends with something that is no number
    let texts = Json::Array(vec![Json::String("90".to_string()), double(89.0)]);
    assert!(is_missing(&metadata(texts, lon(), size(2), size(2))));
    let ends_null = Json::Array(vec![double(0.0), Json::Null]);
    assert!(is_missing(&metadata(lat(), ends_null, size(2), size(2))));
    // a size that is no count
    let negative = object(vec![("size", Json::Number(Number::NegInt(-3)))]);
    assert!(is_missing(&metadata(lat(), lon(), negative, size(2))));
    let fraction = object(vec![("size", double(3.0))]);
    assert!(is_missing(&metadata(lat(), lon(), size(2), fraction)));
    let bare = Json::Number(Number::PosInt(2));
    assert!(is_missing(&metadata(lat(), lon(), bare, size(2))));
    let no_size = object(vec![("length", Json::Number(Number::PosInt(2)))]);
    assert!(is_missing(&metadata(lat(), lon(), size(2), no_size)));
}

#[test]
fn a_sample_that_is_no_number_is_missing_grid_metadata() {
    let lon = || doubles(&[0.0, 1.0]);
    let middle = Json::Array(vec![double(90.0), Json::Null, double(89.5)]);
    assert!(is_missing(&metadata(middle, lon(), size(3), size(2))));
    let text = Json::Array(vec![double(90.0), Json::String("89.75".to_string()), double(89.5)]);
    assert!(is_missing(&metadata(text, lon(), size(3), size(2))));
    let lat = || doubles(&[90.0, 89.75, 89.5]);
    let nested = Json::Array(vec![double(0.0), Json::Array(vec![double(0.5)]), double(1.0)]);
    assert!(is_missing(&metadata(lat(), nested, size(3), size(3))));
    let whole = Json::Array(vec![
        double(90.0),
        Json::Number(Number::PosInt(89)),
        Json::Number(Number::NegInt(-1)),
    ]);
    assert_eq!(spacing_value(grid_of(&metadata(whole, lon(), size(3), size(2))).dy), 45.5);
}

#[test]
fn a_count_is_from_one_to_sixteen_bits() {
    let lat = || doubles(&[90.0, 89.0]);
    let lon = || doubles(&[0.0, 1.0]);
    assert!(is_missing(&metadata(lat(), lon(), size(0), size(2))));
    assert!(is_missing(&metadata(lat(), lon(), size(2), size(65536))));
    assert!(is_missing(&metadata(lat(), lon(), size(u64::MAX), size(2))));
    let grid = grid_of(&metadata(lat(), lon(), size(65535), size(1)));
    assert_eq!(grid.ny, 65535);
    assert_eq!(grid.nx, 1);
    assert_eq!(
        grid.dy,
        Spacing::Span {
            minuend: Number::Real(90.0f64.to_bits()),
            subtrahend: Number::Real(89.0f64.to_bits()),
            intervals: 65534
        }
    );
    assert_eq!(grid.dx, Spacing::Unit);
}

#[test]
fn the_time_code_700464() {
    let epoch = chrono::DateTime::parse_from_rfc3339("1900-01-01T00:00:00Z").unwrap();
    let expected = epoch + chrono::Duration::hours(700464);
    let stamp = rossby_time_to_iso(700464);
    assert_eq!(stamp, expected.to_rfc3339());
    assert_eq!(stamp, "1979-11-29T00:00:00+00:00");
    let parsed = chrono::DateTime::parse_from_rfc3339(&stamp).unwrap();
    assert_eq!((parsed - epoch).num_hours(), 700464);
    assert_eq!((parsed - epoch).num_seconds(), 700464 * 3600);
}

#[test]
fn time_codes_around_the_epoch() {
    assert_eq!(rossby_time_to_iso(0), "1900-01-01T00:00:00+00:00");
    assert_eq!(rossby_time_to_iso(1), "1900-01-01T01:00:00+00:00");
    assert_eq!(rossby_time_to_iso(24), "1900-01-02T00:00:00+00:00");
    assert_eq!(rossby_time_to_iso(-1), "1899-12-31T23:00:00+00:00");
    assert_eq!(rossby_time_to_iso(700465), "1979-11-29T01:00:00+00:00");
}

#[test]
fn the_calendar_ends_where_the_contract_says() {
    let epoch = chrono::DateTime::parse_from_rfc3339("1900-01-01T00:00:00Z").unwrap();
    let shifted = |hours: i64| {
        chrono::TimeDelta::try_hours(hours).and_then(|span| epoch.checked_add_signed(span))
    };
    assert!(shifted(2_281_243_295).is_some());
    assert!(shifted(2_281_243_296).is_none());
    assert!(shifted(-2_314_553_400).is_some());
    assert!(shifted(-2_314_553_401).is_none());
    assert_eq!(rossby_time_to_iso(2_281_243_295), "+262142-12-31T23:00:00+00:00");
    assert_eq!(rossby_time_to_iso(2_281_243_294), "+262142-12-31T22:00:00+00:00");
    assert_eq!(rossby_time_to_iso(-2_314_553_400), "-262143-01-01T00:00:00+00:00");
    assert_eq!(rossby_time_to_iso(-2_314_553_399), "-262143-01-01T01:00:00+00:00");
}

#[test]
fn an_hour_count_beyond_the_calendar_is_held_to_it() {
    let last = "+262142-12-31T23:00:00+00:00";
    let first = "-262143-01-01T00:00:00+00:00";
    assert_eq!(rossby_time_to_iso(2_281_243_296), last);
    assert_eq!(rossby_time_to_iso(i64::MAX), last);
    assert_eq!(rossby_time_to_iso(-2_314_553_401), first);
    assert_eq!(rossby_time_to_iso(i64::MIN), first);
}

#[test]
fn the_first_time_of_a_document() {
    let with_times = object(vec![(
        "coordinates",
        object(vec![("time", doubles(&[700470.0, 700471.0]))]),
    )]);
    assert_eq!(first_time(&with_times), Number::Real(700470.0f64.to_bits()));
    let whole = object(vec![(
        "coordinates",
        object(vec![("time", Json::Array(vec![Json::Number(Number::PosInt(5))]))]),
    )]);
    assert_eq!(first_time(&whole), Number::PosInt(5));
}

#[test]
fn a_document_without_times_has_the_default_time() {
    let default = Number::PosInt(700464);
    assert_eq!(first_time(&Json::Null), default);
    assert_eq!(first_time(&object(vec![])), default);
    assert_eq!(first_time(&object(vec![("coordinates", object(vec![]))])), default);
    let empty = object(vec![("coordinates", object(vec![("time", doubles(&[]))]))]);
    assert_eq!(first_time(&empty), default);
    let no_array = object(vec![("coordinates", object(vec![("time", double(3.0))]))]);
    assert_eq!(first_time(&no_array), default);
    let no_number = object(vec![(
        "coordinates",
        object(vec![("time", Json::Array(vec![Json::Null, double(3.0)]))]),
    )]);
    assert_eq!(first_time(&no_number), default);
}

#[test]
fn the_time_code_700464_as_a_double() {
    let epoch = chrono::DateTime::parse_from_rfc3339("1900-01-01T00:00:00Z").unwrap();
    let expected = epoch + chrono::Duration::hours(700464.0f64 as i64);
    let stamp = time_code_to_iso(Number::Real(700464.0f64.to_bits()));
    assert_eq!(stamp, expected.to_rfc3339());
    assert_eq!(stamp, "1979-11-29T00:00:00+00:00");
    assert_eq!(time_code_to_iso(Number::PosInt(700464)), stamp);
}

#[test]
fn the_fraction_of_a_time_code_is_dropped() {
    let stamp = |x: f64| time_code_to_iso(Number::Real(x.to_bits()));
    assert_eq!(stamp(700464.99), "1979-11-29T00:00:00+00:00");
    assert_eq!(stamp(0.999), "1900-01-01T00:00:00+00:00");
    assert_eq!(stamp(-0.999), "1900-01-01T00:00:00+00:00");
    assert_eq!(stamp(-1.5), "1899-12-31T23:00:00+00:00");
    assert_eq!(stamp(1.0), "1900-01-01T01:00:00+00:00");
    assert_eq!(stamp(f64::NAN), "1900-01-01T00:00:00+00:00");
    assert_eq!(time_code_to_iso(Number::NegInt(-24)), "1899-12-31T00:00:00+00:00");
}

#[test]
fn a_time_code_of_any_size_has_a_timestamp() {
    let stamp = |x: f64| time_code_to_iso(Number::Real(x.to_bits()));
    let last = "+262142-12-31T23:00:00+00:00";
    let first = "-262143-01-01T00:00:00+00:00";
    assert_eq!(stamp(1e300), last);
    assert_eq!(stamp(-1e300), first);
    assert_eq!(stamp(f64::INFINITY), last);
    assert_eq!(stamp(f64::NEG_INFINITY), first);
    assert_eq!(stamp(2_281_243_296.0), last);
    assert_eq!(stamp(2_281_243_295.9), last);
    assert_eq!(stamp(2_281_243_294.9), "+262142-12-31T22:00:00+00:00");
    assert_eq!(stamp(f64::NAN), "1900-01-01T00:00:00+00:00");
    assert_eq!(time_code_to_iso(Number::PosInt(u64::MAX)), last);
    assert_eq!(time_code_to_iso(Number::NegInt(i64::MIN)), first);
}

#[test]
fn whole_hours_are_what_the_machine_truncates_to() {
    let two = 2.0f64;
    let samples = [
        0.0,
        -0.0,
        0.5,
        -0.5,
        0.9999999999999999,
        1.0,
        -1.0,
        1.5,
        -1.5,
        2.0,
        3.999,
        700464.0,
        700464.9,
        -700464.9,
        1e10,
        -1e10,
        two.powi(52),
        two.powi(52) + 0.5,
        two.powi(52) - 0.5,
        two.powi(53),
        two.powi(53) + 2.0,
        -two.powi(53),
        two.powi(62),
        two.powi(63),
        -two.powi(63),
        two.powi(63) - 1024.0,
        -two.powi(63) - 2048.0,
        two.powi(64),
        1e19,
        1e300,
        -1e300,
        f64::MAX,
        f64::MIN,
        f64::INFINITY,
        f64::NEG_INFINITY,
        f64::NAN,
        -f64::NAN,
        f64::MIN_POSITIVE,
        5e-324,
        -5e-324,
        f64::EPSILON,
    ];
    for x in samples {
        assert_eq!(whole_hours(Number::Real(x.to_bits())), x as i64, "{:e}", x);
    }
}

#[test]
fn whole_hours_agree_with_the_machine_on_many_bit_patterns() {
    let mut state: u64 = 0x9e37_79b9_7f4a_7c15;
    for round in 0..20000u32 {
        state = state.wrapping_mul(6364136223846793005).wrapping_add(1442695040888963407);
        // every other round, a pattern whose exponent lies where whole parts appear
        let bits = if round % 2 == 0 {
            state
        } else {
            (state & 0x800f_ffff_ffff_ffff) | ((1000 + (state >> 52) % 100) << 52)
        };
        let x = f64::from_bits(bits);
        assert_eq!(whole_hours(Number::Real(bits)), x as i64, "{:#x}", bits);
    }
}

#[test]
fn whole_hours_of_integers() {
    assert_eq!(whole_hours(Number::PosInt(0)), 0);
    assert_eq!(whole_hours(Number::PosInt(700464)), 700464);
    assert_eq!(whole_hours(Number::PosInt(i64::MAX as u64)), i64::MAX);
    assert_eq!(whole_hours(Number::PosInt(i64::MAX as u64 + 1)), i64::MAX);
    assert_eq!(whole_hours(Number::PosInt(u64::MAX)), i64::MAX);
    assert_eq!(whole_hours(Number::NegInt(-1)), -1);
    assert_eq!(whole_hours(Number::NegInt(i64::MIN)), i64::MIN);
}
