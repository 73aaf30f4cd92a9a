//! Records in the schema of the visualisation client, assembled from a
//! variable, the grid, a timestamp and the samples that the data server sent.

use vstd::prelude::*;
use vstd::string::*;
use crate::error::{ErrorKind, GatewayError};
use crate::grid::{grid_of, rossby_to_earth_grid, GridParams, Spacing};
use crate::json::{collect_numbers, numbers_in, Json, Number};
use crate::timecode::{first_time, first_time_of};
use crate::analysis::{
    analysis, analyze_metadata_variables, answers, descriptors, find_variable, first_answer,
};
use crate::variables::{
    category_code, category_name, get_category_code, get_category_name, Descriptor, Kind,
    VariableInfo, VariableType,
};

verus! {

/// The header of a record: what was measured, when, and on which grid.
#[derive(Debug)]
pub struct EarthHeader {
    pub discipline: u8,
    pub discipline_name: String,
    pub ref_time: String,
    pub parameter_category: u8,
    pub parameter_category_name: String,
    pub parameter_number: u8,
    pub parameter_number_name: String,
    pub parameter_unit: String,
    pub nx: u16,
    pub ny: u16,
    pub lo1: Number,
    pub la1: Number,
    pub lo2: Number,
    pub la2: Number,
    pub dx: Spacing,
    pub dy: Spacing,
}

/// The tags that accompany a record.
#[derive(Debug)]
pub struct EarthMeta {
    pub date: String,
}

/// One record: a header, the samples, and the tags.
#[derive(Debug)]
pub struct EarthDataPoint {
    pub header: EarthHeader,
    pub data: Vec<Number>,
    pub meta: EarthMeta,
}

/// The mathematical value of an `EarthHeader`.
pub struct HeaderView {
    pub discipline: u8,
    pub discipline_name: Seq<char>,
    pub ref_time: Seq<char>,
    pub parameter_category: u8,
    pub parameter_category_name: Seq<char>,
    pub parameter_number: u8,
    pub parameter_number_name: Seq<char>,
    pub parameter_unit: Seq<char>,
    pub grid: GridParams,
}

/// The mathematical value of an `EarthDataPoint`.
pub struct RecordView {
    pub header: HeaderView,
    pub data: Seq<Number>,
    pub date: Seq<char>,
}

impl View for EarthHeader {
    type V = HeaderView;

    open spec fn view(&self) -> HeaderView {
        HeaderView {
            discipline: self.discipline,
            discipline_name: self.discipline_name@,
            ref_time: self.ref_time@,
            parameter_category: self.parameter_category,
            parameter_category_name: self.parameter_category_name@,
            parameter_number: self.parameter_number,
            parameter_number_name: self.parameter_number_name@,
            parameter_unit: self.parameter_unit@,
            grid: GridParams {
                nx: self.nx,
                ny: self.ny,
                lo1: self.lo1,
                la1: self.la1,
                lo2: self.lo2,
                la2: self.la2,
                dx: self.dx,
                dy: self.dy,
            },
        }
    }
}

impl View for EarthDataPoint {
    type V = RecordView;

    open spec fn view(&self) -> RecordView {
        RecordView { header: self.header@, data: self.data@, date: self.meta.date@ }
    }
}

/// The header of a record of the variable `d`, with the parameter named
/// `parameter_name` and numbered `parameter_number`.
pub open spec fn header_of(
    d: Descriptor,
    parameter_name: Seq<char>,
    parameter_number: u8,
    grid: GridParams,
    ref_time: Seq<char>,
) -> HeaderView {
    HeaderView {
        discipline: 0,
        discipline_name: "Meteorological products"@,
        ref_time,
        parameter_category: category_code(d.category),
        parameter_category_name: category_name(d.category),
        parameter_number,
        parameter_number_name: parameter_name,
        parameter_unit: d.units,
        grid,
    }
}

/// Builds the header of a record.
pub fn create_earth_header(
    var_info: &VariableInfo,
    parameter_name: &str,
    parameter_number: u8,
    grid: &GridParams,
    ref_time: &str,
) -> (header: EarthHeader)
    ensures
        header@ == header_of(var_info@, parameter_name@, parameter_number, *grid, ref_time@),
{
    EarthHeader {
        discipline: 0,
        discipline_name: String::from_str("Meteorological products"),
        ref_time: String::from_str(ref_time),
        parameter_category: get_category_code(&var_info.category),
        parameter_category_name: String::from_str(get_category_name(&var_info.category)),
        parameter_number,
        parameter_number_name: String::from_str(parameter_name),
        parameter_unit: var_info.units.clone(),
        nx: grid.nx,
        ny: grid.ny,
        lo1: grid.lo1,
        la1: grid.la1,
        lo2: grid.lo2,
        la2: grid.la2,
        dx: grid.dx,
        dy: grid.dy,
    }
}

/// The samples of `variable` in the answer of the data server: the numbers of
/// the array `data.<variable>`; none where there is no such array.
pub open spec fn samples_of(data: Json, variable: Seq<char>) -> Seq<Number> {
    match data.member2("data"@, variable) {
        Some(Json::Array(items)) => numbers_in(items@),
        _ => Seq::empty(),
    }
}

/// Takes the samples of `variable` out of the answer of the data server. An
/// answer without them yields no samples and is no failure.
pub fn extract_variable_data(rossby_data: &Json, variable: &str) -> (samples: Vec<Number>)
    ensures
        samples@ == samples_of(*rossby_data, variable@),
{
    match rossby_data.get("data") {
        Some(data) => match data.get(variable) {
            Some(values) => match values.as_array() {
                Some(items) => collect_numbers(items),
                None => Vec::new(),
            },
            None => Vec::new(),
        },
        None => Vec::new(),
    }
}

/// One record of the variable `d`.
pub open spec fn record_of(
    d: Descriptor,
    parameter_name: Seq<char>,
    parameter_number: u8,
    grid: GridParams,
    ref_time: Seq<char>,
    samples: Seq<Number>,
) -> RecordView {
    RecordView {
        header: header_of(d, parameter_name, parameter_number, grid, ref_time),
        data: samples,
        date: ref_time,
    }
}

/// The records of a variable. A scalar has one, numbered 0 and named by the
/// long name of the variable. A vector has two, its first component and then
/// its second, numbered 2 and 3.
pub open spec fn records_of(d: Descriptor, grid: GridParams, ref_time: Seq<char>, data: Json) -> Seq<
    RecordView,
> {
    match d.kind {
        Kind::Scalar => seq![
            record_of(d, d.long_name, 0, grid, ref_time, samples_of(data, d.name)),
        ],
        Kind::Vector { u_component, v_component } => seq![
            record_of(d, "U-component"@, 2, grid, ref_time, samples_of(data, u_component)),
            record_of(d, "V-component"@, 3, grid, ref_time, samples_of(data, v_component)),
        ],
    }
}

/// The records that a list of `EarthDataPoint` stands for.
pub open spec fn record_views(list: Seq<EarthDataPoint>) -> Seq<RecordView> {
    list.map_values(|r: EarthDataPoint| r@)
}

fn make_record(
    var_info: &VariableInfo,
    parameter_name: &str,
    parameter_number: u8,
    grid: &GridParams,
    ref_time: &str,
    rossby_data: &Json,
    component: &str,
) -> (record: EarthDataPoint)
    ensures
        record@ == record_of(
            var_info@,
            parameter_name@,
            parameter_number,
            *grid,
            ref_time@,
            samples_of(*rossby_data, component@),
        ),
{
    EarthDataPoint {
        header: create_earth_header(var_info, parameter_name, parameter_number, grid, ref_time),
        data: extract_variable_data(rossby_data, component),
        meta: EarthMeta { date: String::from_str(ref_time) },
    }
}

/// Assembles the records of a variable from the answer of the data server.
pub fn assemble_records(
    var_info: &VariableInfo,
    grid: &GridParams,
    ref_time: &str,
    rossby_data: &Json,
) -> (records: Vec<EarthDataPoint>)
    ensures
        record_views(records@) == records_of(var_info@, *grid, ref_time@, *rossby_data),
{
    let mut records: Vec<EarthDataPoint> = Vec::new();
    match &var_info.var_type {
        VariableType::Vector { u_component, v_component } => {
            let u = make_record(
                var_info,
                "U-component",
                2,
                grid,
                ref_time,
                rossby_data,
                u_component.as_str(),
            );
            let v = make_record(
                var_info,
                "V-component",
                3,
                grid,
                ref_time,
                rossby_data,
                v_component.as_str(),
            );
            records.push(u);
            records.push(v);
            assert(record_views(records@) =~= seq![u@, v@]);
        },
        VariableType::Scalar => {
            let only = make_record(
                var_info,
                var_info.long_name.as_str(),
                0,
                grid,
                ref_time,
                rossby_data,
                var_info.name.as_str(),
            );
            records.push(only);
            assert(record_views(records@) =~= seq![only@]);
        },
    }
    records
}

/// What a request for one variable needs from the data server: the variable,
/// the grid of the dataset, and the time code to ask for.
#[derive(Debug)]
pub struct DataPlan {
    pub variable: VariableInfo,
    pub grid: GridParams,
    pub time: Number,
}

/// The outcome of planning a request for `requested`. The variable is looked
/// for first: a request for an unknown variable fails as such even where the
/// grid is missing too.
pub open spec fn plan_of(requested: Seq<char>, metadata: Json) -> Result<
    (Descriptor, GridParams, Number),
    ErrorKind,
> {
    match first_answer(analysis(metadata), requested) {
        None => Err(ErrorKind::MissingVariable),
        Some(at) => match grid_of(metadata) {
            None => Err(ErrorKind::MissingGridMetadata),
            Some(grid) => Ok((analysis(metadata)[at], grid, first_time_of(metadata))),
        },
    }
}

/// Plans the request for the variable `requested` against the metadata of
/// the dataset. A variable that the analysis of the metadata does not yield
/// is an error, never an empty answer; so are metadata without a grid.
pub fn plan_request(requested: &str, metadata: &Json) -> (plan: Result<DataPlan, GatewayError>)
    ensures
        match plan_of(requested@, *metadata) {
            Ok((d, grid, time)) => plan matches Ok(p) && p.variable@ == d && p.grid == grid
                && p.time == time,
            Err(ErrorKind::MissingVariable) => plan matches Err(
                GatewayError::MissingVariable { name },
            ) && name@ == requested@,
            Err(_) => plan matches Err(GatewayError::MissingGridMetadata),
        },
{
    let mut variables = analyze_metadata_variables(metadata);
    let at = match find_variable(&variables, requested) {
        Some(at) => at,
        None => {
            return Err(GatewayError::MissingVariable { name: requested.to_owned() });
        },
    };
    let ghost d = variables@[at as int]@;
    assert(d == analysis(*metadata)[at as int]) by {
        assert(descriptors(variables@)[at as int] == variables@[at as int]@);
    }
    let time = first_time(metadata);
    let grid = match rossby_to_earth_grid(metadata) {
        Ok(grid) => grid,
        Err(e) => {
            return Err(e);
        },
    };
    let variable = variables.swap_remove(at);
    Ok(DataPlan { variable, grid, time })
}

/// A request for a variable that no descriptor of the analysis answers is
/// refused as a missing variable, whatever else the metadata hold.
pub proof fn lemma_unknown_variable_refused(requested: Seq<char>, metadata: Json)
    requires
        forall|k: int|
            0 <= k < analysis(metadata).len() ==> !answers(
                #[trigger] analysis(metadata)[k],
                requested,
            ),
    ensures
        plan_of(requested, metadata) == Err::<(Descriptor, GridParams, Number), ErrorKind>(
            ErrorKind::MissingVariable,
        ),
{
    let hits = analysis(metadata).map_values(|d: Descriptor| answers(d, requested));
    hits.index_of_first_ensures(true);
    if hits.contains(true) {
        let k = choose|k: int| 0 <= k < hits.len() && hits[k] == true;
        assert(answers(analysis(metadata)[k], requested));
    }
}

} // verus!
