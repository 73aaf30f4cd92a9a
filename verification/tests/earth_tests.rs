use rossby_vis::earth::{
    assemble_records, create_earth_header, extract_variable_data, plan_request,
};
use rossby_vis::error::{ErrorKind, GatewayError};
use rossby_vis::grid::{GridParams, Spacing};
use rossby_vis::json::{Json, Number};
use rossby_vis::variables::{VariableCategory, VariableInfo, VariableType};

fn object(members: Vec<(&str, Json)>) -> Json {
    Json::Object(members.into_iter().map(|(k, v)| (k.to_string(), v)).collect())
}

fn double(x: f64) -> Json {
    Json::Number(Number::Real(x.to_bits()))
}

fn doubles(values: &[f64]) -> Json {
    Json::Array(values.iter().map(|x| double(*x)).collect())
}

fn bits(x: f64) -> Number {
    Number::Real(x.to_bits())
}

fn size(n: u64) -> Json {
    object(vec![("size", Json::Number(Number::PosInt(n)))])
}

fn grid() -> GridParams {
    GridParams {
        nx: 3,
        ny: 2,
        lo1: bits(0.0),
        la1: bits(90.0),
        lo2: bits(0.5),
        la2: bits(89.75),
        dx: Spacing::Span { minuend: bits(0.5), subtrahend: bits(0.0), intervals: 2 },
        dy: Spacing::Span { minuend: bits(90.0), subtrahend: bits(89.75), intervals: 1 },
    }
}

fn scalar(name: &str, long_name: &str, units: &str, category: VariableCategory) -> VariableInfo {
    VariableInfo {
        name: name.to_string(),
        display_name: name.to_string(),
        long_name: long_name.to_string(),
        units: units.to_string(),
        category,
        var_type: VariableType::Scalar,
        dimensions: Vec::new(),
    }
}

fn wind() -> VariableInfo {
    VariableInfo {
        name: "u10".to_string(),
        display_name: "Wind".to_string(),
        long_name: "10 metre U wind component".to_string(),
        units: "m s**-1".to_string(),
        category: VariableCategory::Wind,
        var_type: VariableType::Vector {
            u_component: "u10".to_string(),
            v_component: "v10".to_string(),
        },
        dimensions: Vec::new(),
    }
}

fn full_metadata() -> Json {
    object(vec![
        (
            "coordinates",
            object(vec![
                ("latitude", doubles(&[90.0, 89.75, 89.5])),
                ("longitude", doubles(&[0.0, 0.25, 0.5])),
                ("time", doubles(&[700464.0, 700465.0])),
            ]),
        ),
        ("dimensions", object(vec![("latitude", size(3)), ("longitude", size(3))])),
        (
            "variables",
            object(vec![("t2m", Json::Null), ("u10", Json::Null), ("v10", Json::Null)]),
        ),
    ])
}

#[test]
fn the_header_of_a_scalar() {
    let info = scalar("t2m", "2 metre temperature", "K", VariableCategory::Temperature);
    let header = create_earth_header(&info, "2 metre temperature", 0, &grid(), "1979-11-29T00:00:00+00:00");
    assert_eq!(header.discipline, 0);
    assert_eq!(header.discipline_name, "Meteorological products");
    assert_eq!(header.ref_time, "1979-11-29T00:00:00+00:00");
    assert_eq!(header.parameter_category, 0);
    assert_eq!(header.parameter_category_name, "Temperature");
    assert_eq!(header.parameter_number, 0);
    assert_eq!(header.parameter_number_name, "2 metre temperature");
    assert_eq!(header.parameter_unit, "K");
    assert_eq!(header.nx, 3);
    assert_eq!(header.ny, 2);
    assert_eq!(header.lo1, bits(0.0));
    assert_eq!(header.la1, bits(90.0));
    assert_eq!(header.lo2, bits(0.5));
    assert_eq!(header.la2, bits(89.75));
    assert_eq!(header.dx, grid().dx);
    assert_eq!(header.dy, grid().dy);
}

#[test]
fn the_header_carries_the_code_of_each_category() {
    let table = [
        (VariableCategory::Temperature, 0u8, "Temperature"),
        (VariableCategory::Wind, 2, "Momentum"),
        (VariableCategory::Pressure, 3, "Pressure"),
        (VariableCategory::Humidity, 1, "Humidity"),
        (VariableCategory::Precipitation, 255, "Moisture"),
        (VariableCategory::Radiation, 255, "Radiation"),
        (VariableCategory::Cloud, 255, "Cloud"),
        (VariableCategory::General, 255, "General"),
    ];
    for (category, code, name) in table {
        let info = scalar("x", "X", "1", category);
        let header = create_earth_header(&info, "p", 7, &grid(), "t");
        assert_eq!(header.parameter_category, code);
        assert_eq!(header.parameter_category_name, name);
        assert_eq!(header.parameter_number, 7);
        assert_eq!(header.parameter_number_name, "p");
    }
}

#[test]
fn samples_are_the_numbers_of_the_named_array() {
    let data = object(vec![(
        "data",
        object(vec![
            (
                "t2m",
                Json::Array(vec![
                    double(280.5),
                    Json::Null,
                    Json::Number(Number::PosInt(3)),
                    Json::String("x".to_string()),
                    Json::Number(Number::NegInt(-2)),
                ]),
            ),
            ("sp", double(1.0)),
        ]),
    )]);
    assert_eq!(
        extract_variable_data(&data, "t2m"),
        vec![bits(280.5), Number::PosInt(3), Number::NegInt(-2)]
    );
    assert!(extract_variable_data(&data, "sp").is_empty());
    assert!(extract_variable_data(&data, "u10").is_empty());
    assert!(extract_variable_data(&object(vec![]), "t2m").is_empty());
    assert!(extract_variable_data(&Json::Null, "t2m").is_empty());
}

#[test]
fn a_scalar_has_one_record() {
    let info = scalar("t2m", "2 metre temperature", "K", VariableCategory::Temperature);
    let data = object(vec![("data", object(vec![("t2m", doubles(&[280.0, 281.5]))]))]);
    let records = assemble_records(&info, &grid(), "1979-11-29T00:00:00+00:00", &data);
    assert_eq!(records.len(), 1);
    assert_eq!(records[0].header.parameter_number, 0);
    assert_eq!(records[0].header.parameter_number_name, "2 metre temperature");
    assert_eq!(records[0].header.parameter_category, 0);
    assert_eq!(records[0].header.parameter_unit, "K");
    assert_eq!(records[0].header.ref_time, "1979-11-29T00:00:00+00:00");
    assert_eq!(records[0].data, vec![bits(280.0), bits(281.5)]);
    assert_eq!(records[0].meta.date, "1979-11-29T00:00:00+00:00");
}

#[test]
fn a_vector_has_two_records_u_then_v() {
    let data = object(vec![(
        "data",
        object(vec![("u10", doubles(&[1.0, 2.0])), ("v10", doubles(&[-3.0]))]),
    )]);
    let records = assemble_records(&wind(), &grid(), "T", &data);
    assert_eq!(records.len(), 2);
    assert_eq!(records[0].header.parameter_number, 2);
    assert_eq!(records[0].header.parameter_number_name, "U-component");
    assert_eq!(records[0].data, vec![bits(1.0), bits(2.0)]);
    assert_eq!(records[1].header.parameter_number, 3);
    assert_eq!(records[1].header.parameter_number_name, "V-component");
    assert_eq!(records[1].data, vec![bits(-3.0)]);
    for record in records.iter() {
        assert_eq!(record.header.parameter_category, 2);
        assert_eq!(record.header.parameter_category_name, "Momentum");
        assert_eq!(record.header.parameter_unit, "m s**-1");
        assert_eq!(record.header.nx, 3);
        assert_eq!(record.header.ny, 2);
        assert_eq!(record.meta.date, "T");
    }
}

#[test]
fn samples_that_are_missing_leave_the_record_empty() {
    let data = object(vec![("data", object(vec![("u10", doubles(&[1.0]))]))]);
    let records = assemble_records(&wind(), &grid(), "T", &data);
    assert_eq!(records.len(), 2);
    assert_eq!(records[0].data, vec![bits(1.0)]);
    assert!(records[1].data.is_empty());
    let info = scalar("sp", "Surface pressure", "Pa", VariableCategory::Pressure);
    let records = assemble_records(&info, &grid(), "T", &Json::Null);
    assert_eq!(records.len(), 1);
    assert!(records[0].data.is_empty());
    assert_eq!(records[0].header.parameter_category, 3);
}

#[test]
fn a_plan_for_a_scalar() {
    let plan = plan_request("t2m", &full_metadata()).unwrap();
    assert_eq!(plan.variable.name, "t2m");
    assert!(matches!(plan.variable.var_type, VariableType::Scalar));
    assert_eq!(plan.time, bits(700464.0));
    assert_eq!(plan.grid.nx, 3);
    assert_eq!(plan.grid.ny, 3);
    assert_eq!(plan.grid.la1, bits(90.0));
    assert_eq!(plan.grid.la2, bits(89.5));
    assert_eq!(
        plan.grid.dy,
        Spacing::Span { minuend: bits(90.0), subtrahend: bits(89.5), intervals: 2 }
    );
}

#[test]
fn a_plan_for_a_vector() {
    let plan = plan_request("u10", &full_metadata()).unwrap();
    assert_eq!(plan.variable.name, "u10");
    assert!(matches!(&plan.variable.var_type, VariableType::Vector { u_component, v_component }
        if u_component == "u10" && v_component == "v10"));
}

#[test]
fn a_variable_that_is_not_there_is_an_error() {
    match plan_request("sp", &full_metadata()) {
        Err(GatewayError::MissingVariable { name }) => assert_eq!(name, "sp"),
        other => panic!("expected a missing variable, got {:?}", other),
    }
    // the second component of a vector is no variable of its own
    match plan_request("v10", &full_metadata()) {
        Err(e) => {
            assert_eq!(e.kind(), ErrorKind::MissingVariable);
            assert_eq!(e.message(), "Variable 'v10' not found in metadata");
        }
        Ok(plan) => panic!("expected a missing variable, got {:?}", plan),
    }
    assert!(matches!(
        plan_request("t2m", &Json::Null),
        Err(GatewayError::MissingVariable { .. })
    ));
    assert!(matches!(
        plan_request("latitude", &full_metadata()),
        Err(GatewayError::MissingVariable { .. })
    ));
}

#[test]
fn a_known_variable_without_grid_is_missing_grid_metadata() {
    let metadata = object(vec![("variables", object(vec![("t2m", Json::Null)]))]);
    assert!(matches!(plan_request("t2m", &metadata), Err(GatewayError::MissingGridMetadata)));
    // the variable is looked for first
    assert!(matches!(
        plan_request("sp", &metadata),
        Err(GatewayError::MissingVariable { .. })
    ));
}

#[test]
fn a_plan_without_times_asks_for_the_default_time() {
    let metadata = object(vec![
        (
            "coordinates",
            object(vec![("latitude", doubles(&[1.0])), ("longitude", doubles(&[2.0]))]),
        ),
        ("dimensions", object(vec![("latitude", size(1)), ("longitude", size(1))])),
        ("variables", object(vec![("t2m", Json::Null)])),
    ]);
    let plan = plan_request("t2m", &metadata).unwrap();
    assert_eq!(plan.time, Number::PosInt(700464));
    assert_eq!(plan.grid.dx, Spacing::Unit);
    assert_eq!(plan.grid.dy, Spacing::Unit);
}
