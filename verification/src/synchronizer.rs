//! The synchronizer: it reads the request sheet and brings the quota of each listed user in line.

use crate::collect::{collected, collecting_stops_at_the_first_error, errors_stay};
use crate::crd::{UserBootstrap, UserBootstrapSpec, UserBootstrapSpecView, UserBootstrapView};
use crate::k8s::{hard_quota, limited_once, PatchParams, PatchParamsView, ResourceQuotaSpec};
use crate::queue::{
    advance, issued, left_after, next_step, runs_stop_at_the_first_failure, Step,
};
use crate::text::{
    contains_text, decimal, decimal_text, decimals_read_back, integer_read, is_plain_number, occurs_in,
    same_text,
};
use vstd::prelude::*;
use vstd::string::StringExecFns;
use vstd::utf8::{decode_utf8, valid_utf8};

verus! {

/// Seconds between two passes, unless another interval is configured.
pub fn default_sync_interval_secs() -> (seconds: u64)
    ensures
        seconds == 60,
{
    60
}

/// Why a pass failed.
#[derive(Debug, PartialEq)]
pub enum Error {
    KubeError(String),
    GoogleAuthError(String),
    Utf8Error(String),
    GoogleApiError(String),
    RequestFailed,
    HyperError(String),
    CsvHeaderError(String),
    CsvParseError(String),
}

/// What an `Error` says.
pub enum ErrorView {
    KubeError(Seq<char>),
    GoogleAuthError(Seq<char>),
    Utf8Error(Seq<char>),
    GoogleApiError(Seq<char>),
    RequestFailed,
    HyperError(Seq<char>),
    CsvHeaderError(Seq<char>),
    CsvParseError(Seq<char>),
}

impl DeepView for Error {
    type V = ErrorView;

    open spec fn deep_view(&self) -> ErrorView {
        match self {
            Error::KubeError(cause) => ErrorView::KubeError(cause@),
            Error::GoogleAuthError(cause) => ErrorView::GoogleAuthError(cause@),
            Error::Utf8Error(cause) => ErrorView::Utf8Error(cause@),
            Error::GoogleApiError(cause) => ErrorView::GoogleApiError(cause@),
            Error::RequestFailed => ErrorView::RequestFailed,
            Error::HyperError(cause) => ErrorView::HyperError(cause@),
            Error::CsvHeaderError(cause) => ErrorView::CsvHeaderError(cause@),
            Error::CsvParseError(cause) => ErrorView::CsvParseError(cause@),
        }
    }
}

impl ErrorView {
    /// The message that is shown for this error.
    pub open spec fn message(self) -> Seq<char> {
        match self {
            ErrorView::KubeError(cause) => "kube error: "@ + cause,
            ErrorView::GoogleAuthError(cause) => "google auth error: "@ + cause,
            ErrorView::Utf8Error(cause) => "file is not utf8: "@ + cause,
            ErrorView::GoogleApiError(cause) => "google api error: "@ + cause,
            ErrorView::RequestFailed => "request failed"@,
            ErrorView::HyperError(cause) => "hyper error: "@ + cause,
            ErrorView::CsvHeaderError(cause) => "csv header error: "@ + cause,
            ErrorView::CsvParseError(cause) => "csv parsing error: "@ + cause,
        }
    }
}

impl Error {
    /// The message that is shown for this error.
    pub fn message(&self) -> (text: String)
        ensures
            text@ == self.deep_view().message(),
    {
        match self {
            Error::KubeError(cause) => "kube error: ".to_owned().concat(cause.as_str()),
            Error::GoogleAuthError(cause) => "google auth error: ".to_owned().concat(
                cause.as_str(),
            ),
            Error::Utf8Error(cause) => "file is not utf8: ".to_owned().concat(cause.as_str()),
            Error::GoogleApiError(cause) => "google api error: ".to_owned().concat(cause.as_str()),
            Error::RequestFailed => "request failed".to_owned(),
            Error::HyperError(cause) => "hyper error: ".to_owned().concat(cause.as_str()),
            Error::CsvHeaderError(cause) => "csv header error: ".to_owned().concat(cause.as_str()),
            Error::CsvParseError(cause) => "csv parsing error: ".to_owned().concat(cause.as_str()),
        }
    }
}

/// One entry of the sheet.
#[derive(Debug, PartialEq)]
pub struct Row {
    /// Real name.
    pub name: String,
    /// Username in id.snucse.org.
    pub id_username: String,
    /// Name of the GPU server.
    pub gpu_server: String,
    pub gpu_request: i64,
    pub cpu_request: i64,
    pub memory_request: i64,
    pub storage_request: i64,
}

/// What a `Row` says.
pub struct RowView {
    pub name: Seq<char>,
    pub id_username: Seq<char>,
    pub gpu_server: Seq<char>,
    pub gpu_request: int,
    pub cpu_request: int,
    pub memory_request: int,
    pub storage_request: int,
}

impl DeepView for Row {
    type V = RowView;

    open spec fn deep_view(&self) -> RowView {
        RowView {
            name: self.name@,
            id_username: self.id_username@,
            gpu_server: self.gpu_server@,
            gpu_request: self.gpu_request as int,
            cpu_request: self.cpu_request as int,
            memory_request: self.memory_request as int,
            storage_request: self.storage_request as int,
        }
    }
}

/// The field that a column of the sheet holds, by the wording of its header; `None` when the
/// wording is not known. The first rule that fits counts.
pub open spec fn inferred_header(header: Seq<char>) -> Option<Seq<char>> {
    if header == "타임스탬프"@ {
        Some("timestamp"@)
    } else if header == "이름"@ {
        Some("name"@)
    } else if occurs_in(header, "id.snucse.org"@) && occurs_in(header, "이름"@) {
        Some("id_username"@)
    } else if occurs_in(header, "GPU 서버"@) {
        Some("gpu_server"@)
    } else if occurs_in(header, "GPU 개수"@) {
        Some("gpu_request"@)
    } else if occurs_in(header, "CPU 코어"@) || occurs_in(header, "CPU 개수"@) {
        Some("cpu_request"@)
    } else if occurs_in(header, "메모리"@) {
        Some("memory_request"@)
    } else if occurs_in(header, "스토리지"@) {
        Some("storage_request"@)
    } else {
        None
    }
}

/// The error for a header whose wording is not known.
pub open spec fn unknown_header(header: Seq<char>) -> ErrorView {
    ErrorView::CsvHeaderError("unknown header: \""@ + header + "\""@)
}

/// The field that a column of the sheet holds, or the error for a header that is not known.
pub open spec fn field_under(header: Seq<char>) -> Result<Seq<char>, ErrorView> {
    match inferred_header(header) {
        Some(field) => Ok(field),
        None => Err(unknown_header(header)),
    }
}

/// Infers the field that a column holds from the wording of its header.
pub fn try_infer_header(header: &str) -> (field: Result<String, Error>)
    ensures
        match field {
            Ok(field) => inferred_header(header@) == Some(field@),
            Err(error) => inferred_header(header@) is None && error.deep_view() == unknown_header(
                header@,
            ),
        },
{
    if same_text(header, "타임스탬프") {
        return Ok("timestamp".to_owned());
    }
    if same_text(header, "이름") {
        return Ok("name".to_owned());
    }
    if contains_text(header, "id.snucse.org") && contains_text(header, "이름") {
        return Ok("id_username".to_owned());
    }
    if contains_text(header, "GPU 서버") {
        return Ok("gpu_server".to_owned());
    }
    if contains_text(header, "GPU 개수") {
        return Ok("gpu_request".to_owned());
    }
    if contains_text(header, "CPU 코어") || contains_text(header, "CPU 개수") {
        return Ok("cpu_request".to_owned());
    }
    if contains_text(header, "메모리") {
        return Ok("memory_request".to_owned());
    }
    if contains_text(header, "스토리지") {
        return Ok("storage_request".to_owned());
    }
    Err(Error::CsvHeaderError("unknown header: \"".to_owned().concat(header).concat("\"")))
}

/// The fields of all columns, or the error for the first header that is not known.
pub open spec fn inferred_headers(headers: Seq<Seq<char>>) -> Result<Seq<Seq<char>>, ErrorView> {
    collected(headers.map_values(|header: Seq<char>| field_under(header)))
}

/// What reading a list of texts came to.
pub open spec fn texts_read(result: Result<Vec<String>, Error>) -> Result<
    Seq<Seq<char>>,
    ErrorView,
> {
    match result {
        Ok(texts) => Ok(texts.deep_view()),
        Err(error) => Err(error.deep_view()),
    }
}

/// Infers the fields of all columns.
pub fn infer_headers(headers: &Vec<String>) -> (fields: Result<Vec<String>, Error>)
    ensures
        texts_read(fields) == inferred_headers(headers.deep_view()),
{
    let ghost views = headers.deep_view().map_values(|header: Seq<char>| field_under(header));
    let mut fields: Vec<String> = Vec::new();
    let mut at: usize = 0;
    assert(fields.deep_view() =~= Seq::empty());
    while at < headers.len()
        invariant
            at <= headers.len(),
            views == headers.deep_view().map_values(|header: Seq<char>| field_under(header)),
            collected(views.take(at as int)) == Ok::<Seq<Seq<char>>, ErrorView>(
                fields.deep_view(),
            ),
        decreases headers.len() - at,
    {
        let ghost before = fields.deep_view();
        proof {
            assert(views.take(at + 1).drop_last() =~= views.take(at as int));
            assert(views.take(at + 1).last() == field_under(headers[at as int]@));
        }
        match try_infer_header(headers[at].as_str()) {
            Ok(field) => {
                fields.push(field);
                assert(fields.deep_view() =~= before.push(field@));
            },
            Err(error) => {
                proof {
                    errors_stay(views, at + 1);
                }
                return Err(error);
            },
        }
        at += 1;
    }
    assert(views.take(at as int) =~= views);
    Ok(fields)
}

/// The fields of the first record of a CSV text, as the `csv` crate reads it, or its error.
pub uninterp spec fn csv_header_record(content: Seq<char>) -> Result<Seq<Seq<char>>, Seq<char>>;

/// Calls `csv::Reader::headers` on a reader of `content` with the crate's default settings.
/// Trusted: the fields, or the error's text, depend on `content` alone.
#[verifier::external_body]
fn read_csv_header(content: &str) -> (fields: Result<Vec<String>, String>)
    ensures
        header_read(fields) == csv_header_record(content@),
{
    csv::Reader::from_reader(content.as_bytes())
        .headers()
        .map(|record| record.iter().map(|field| field.to_owned()).collect())
        .map_err(|error| error.to_string())
}

/// The fields that the columns of a sheet hold, given its first record.
pub open spec fn sheet_fields(header: Result<Seq<Seq<char>>, Seq<char>>) -> Result<
    Seq<Seq<char>>,
    ErrorView,
> {
    match header {
        Ok(header) => inferred_headers(header),
        Err(error) => Err(ErrorView::CsvParseError(error)),
    }
}

/// What reading the first record came to.
pub open spec fn header_read(result: Result<Vec<String>, String>) -> Result<
    Seq<Seq<char>>,
    Seq<char>,
> {
    match result {
        Ok(header) => Ok(header.deep_view()),
        Err(error) => Err(error@),
    }
}

/// Infers the fields that the columns of a sheet hold from what its first record was read as.
pub fn fields_under(header: Result<Vec<String>, String>) -> (fields: Result<Vec<String>, Error>)
    ensures
        texts_read(fields) == sheet_fields(header_read(header)),
{
    match header {
        Ok(header) => infer_headers(&header),
        Err(error) => Err(Error::CsvParseError(error)),
    }
}

/// Infers the fields that the columns of a sheet hold. The records behind the first one are read
/// under these names.
pub fn parse_csv_headers(content: &str) -> (fields: Result<Vec<String>, Error>)
    ensures
        texts_read(fields) == sheet_fields(csv_header_record(content@)),
{
    fields_under(read_csv_header(content))
}

/// What decoding a record came to.
pub open spec fn row_read(result: Result<Row, String>) -> Result<RowView, Seq<char>> {
    match result {
        Ok(row) => Ok(row.deep_view()),
        Err(error) => Err(error@),
    }
}

/// All rows, or the error of the first record that could not be decoded.
pub open spec fn collected_rows(decoded: Seq<Result<RowView, Seq<char>>>) -> Result<
    Seq<RowView>,
    ErrorView,
> {
    match collected(decoded) {
        Ok(rows) => Ok(rows),
        Err(error) => Err(ErrorView::CsvParseError(error)),
    }
}

/// What reading all rows came to.
pub open spec fn rows_read(result: Result<Vec<Row>, Error>) -> Result<Seq<RowView>, ErrorView> {
    match result {
        Ok(rows) => Ok(rows.deep_view()),
        Err(error) => Err(error.deep_view()),
    }
}

/// Collects the records of a sheet, each decoded or not, in order.
pub fn parse_csv_rows(decoded: Vec<Result<Row, String>>) -> (rows: Result<Vec<Row>, Error>)
    ensures
        rows_read(rows) == collected_rows(
            decoded@.map_values(|result: Result<Row, String>| row_read(result)),
        ),
{
    let ghost views = decoded@.map_values(|result: Result<Row, String>| row_read(result));
    let mut rows: Vec<Row> = Vec::new();
    assert(rows.deep_view() =~= Seq::empty());
    for result in records: decoded
        invariant
            views == decoded@.map_values(|result: Result<Row, String>| row_read(result)),
            records.seq() == decoded@,
            collected(views.take(records.index() as int)) == Ok::<Seq<RowView>, Seq<char>>(
                rows.deep_view(),
            ),
    {
        let ghost at = records.index() as int;
        let ghost before = rows.deep_view();
        proof {
            assert(result == decoded@[at]);
            assert(views.take(at + 1).drop_last() =~= views.take(at));
            assert(views.take(at + 1).last() == row_read(result));
        }
        match result {
            Ok(row) => {
                let ghost view = row.deep_view();
                rows.push(row);
                assert(rows.deep_view() =~= before.push(view));
            },
            Err(error) => {
                proof {
                    errors_stay(views, at + 1);
                }
                return Err(Error::CsvParseError(error));
            },
        }
    }
    assert(views.take(decoded@.len() as int) =~= views);
    Ok(rows)
}

/// The text of the error for bytes that are not UTF-8, as `std` words it.
pub uninterp spec fn utf8_error_text(bytes: Seq<u8>) -> Seq<char>;

/// Calls `String::from_utf8`. Trusted: it succeeds exactly on valid UTF-8 and gives the characters
/// that the bytes encode; the error's text depends on the bytes alone.
#[verifier::external_body]
fn text_from_utf8(bytes: Vec<u8>) -> (text: Result<String, String>)
    ensures
        match text {
            Ok(text) => valid_utf8(bytes@) && text@ == decode_utf8(bytes@),
            Err(error) => !valid_utf8(bytes@) && error@ == utf8_error_text(bytes@),
        },
{
    String::from_utf8(bytes).map_err(|error| error.to_string())
}

/// Accepts the response to the export of the sheet only when it reports success.
pub fn check_export(success: bool) -> (checked: Result<(), Error>)
    ensures
        match checked {
            Ok(_) => success,
            Err(error) => !success && error.deep_view() == ErrorView::RequestFailed,
        },
{
    if success {
        Ok(())
    } else {
        Err(Error::RequestFailed)
    }
}

/// The exported sheet: its text, and the field that each of its columns holds.
#[derive(Debug, PartialEq)]
pub struct Sheet {
    pub content: String,
    pub fields: Vec<String>,
}

/// What a `Sheet` says.
#[verifier::ext_equal]
pub struct SheetView {
    pub content: Seq<char>,
    pub fields: Seq<Seq<char>>,
}

impl DeepView for Sheet {
    type V = SheetView;

    open spec fn deep_view(&self) -> SheetView {
        SheetView { content: self.content@, fields: self.fields.deep_view() }
    }
}

/// What the body of the export reads as.
pub open spec fn sheet_of(body: Seq<u8>) -> Result<SheetView, ErrorView> {
    if valid_utf8(body) {
        let content = decode_utf8(body);
        match sheet_fields(csv_header_record(content)) {
            Ok(fields) => Ok(SheetView { content, fields }),
            Err(error) => Err(error),
        }
    } else {
        Err(ErrorView::Utf8Error(utf8_error_text(body)))
    }
}

/// Reads the body of the export.
pub fn read_sheet(body: Vec<u8>) -> (sheet: Result<Sheet, Error>)
    ensures
        (match sheet {
            Ok(sheet) => Ok(sheet.deep_view()),
            Err(error) => Err(error.deep_view()),
        }) == sheet_of(body@),
{
    match text_from_utf8(body) {
        Ok(content) => match parse_csv_headers(content.as_str()) {
            Ok(fields) => Ok(Sheet { content, fields }),
            Err(error) => Err(error),
        },
        Err(error) => Err(Error::Utf8Error(error)),
    }
}

/// The rows that are for one GPU server.
pub open spec fn on_server(gpu_server: Seq<char>) -> spec_fn(RowView) -> bool {
    |row: RowView| row.gpu_server == gpu_server
}

/// Keeps the rows that are for one GPU server, in order.
pub fn rows_on_server(rows: Vec<Row>, gpu_server: &str) -> (kept: Vec<Row>)
    ensures
        kept.deep_view() == rows.deep_view().filter(on_server(gpu_server@)),
{
    let ghost views = rows.deep_view();
    let ghost wanted = on_server(gpu_server@);
    let mut kept: Vec<Row> = Vec::new();
    proof {
        reveal(Seq::filter);
        assert(kept.deep_view() =~= views.take(0).filter(wanted));
    }
    for row in listed: rows
        invariant
            views == rows.deep_view(),
            wanted == on_server(gpu_server@),
            listed.seq() == rows@,
            kept.deep_view() == views.take(listed.index() as int).filter(wanted),
    {
        let ghost at = listed.index() as int;
        let ghost before = kept.deep_view();
        let ghost view = row.deep_view();
        proof {
            reveal(Seq::filter);
            assert(views[at] == view);
            assert(views.take(at + 1).drop_last() =~= views.take(at));
        }
        if same_text(row.gpu_server.as_str(), gpu_server) {
            kept.push(row);
            assert(kept.deep_view() =~= before.push(view));
        }
    }
    assert(views.take(rows@.len() as int) =~= views);
    kept
}

/// The rows of a sheet that are for one GPU server, or why they could not be read.
pub open spec fn selected_rows(
    decoded: Seq<Result<RowView, Seq<char>>>,
    gpu_server: Seq<char>,
) -> Result<Seq<RowView>, ErrorView> {
    match collected_rows(decoded) {
        Ok(rows) => Ok(rows.filter(on_server(gpu_server))),
        Err(error) => Err(error),
    }
}

/// Collects the records of a sheet and keeps the rows that are for one GPU server.
pub fn select_rows(decoded: Vec<Result<Row, String>>, gpu_server: &str) -> (rows: Result<
    Vec<Row>,
    Error,
>)
    ensures
        rows_read(rows) == selected_rows(
            decoded@.map_values(|result: Result<Row, String>| row_read(result)),
            gpu_server@,
        ),
{
    match parse_csv_rows(decoded) {
        Ok(rows) => Ok(rows_on_server(rows, gpu_server)),
        Err(error) => Err(error),
    }
}

/// The first row of a user.
pub open spec fn first_row(rows: Seq<RowView>, username: Seq<char>) -> Option<RowView>
    decreases rows.len(),
{
    if rows.len() == 0 {
        None
    } else if rows[0].id_username == username {
        Some(rows[0])
    } else {
        first_row(rows.drop_first(), username)
    }
}

/// Finds the first row of a user.
pub fn find_row<'a>(rows: &'a Vec<Row>, username: &str) -> (found: Option<&'a Row>)
    ensures
        found.deep_view() == first_row(rows.deep_view(), username@),
{
    let ghost views = rows.deep_view();
    let mut at: usize = 0;
    assert(views.skip(0) =~= views);
    while at < rows.len()
        invariant
            at <= rows.len(),
            views == rows.deep_view(),
            first_row(views, username@) == first_row(views.skip(at as int), username@),
        decreases rows.len() - at,
    {
        assert(views.skip(at as int)[0] == rows[at as int].deep_view());
        assert(views.skip(at as int).drop_first() =~= views.skip(at + 1));
        if same_text(rows[at].id_username.as_str(), username) {
            return Some(&rows[at]);
        }
        at += 1;
    }
    None
}

/// The limits that a row asks for.
pub open spec fn requested_limits(row: RowView) -> Seq<(Seq<char>, Seq<char>)> {
    seq![
        ("requests.cpu"@, decimal(row.cpu_request)),
        ("requests.memory"@, decimal(row.memory_request) + "Mi"@),
        ("requests.nvidia.com/gpu"@, decimal(row.gpu_request)),
        ("requests.storage"@, decimal(row.storage_request) + "Gi"@),
    ]
}

/// A row asks for each resource once.
proof fn requested_limits_are_distinct(row: RowView)
    ensures
        limited_once(requested_limits(row)),
{
    reveal_strlit("requests.cpu");
    reveal_strlit("requests.memory");
    reveal_strlit("requests.nvidia.com/gpu");
    reveal_strlit("requests.storage");
    assert("requests.cpu"@.len() == 12);
    assert("requests.memory"@.len() == 15);
    assert("requests.nvidia.com/gpu"@.len() == 23);
    assert("requests.storage"@.len() == 16);
}

/// The quantity is an integer in plain decimal form, followed by the unit.
pub open spec fn is_amount(quantity: Seq<char>, amount: int, unit: Seq<char>) -> bool {
    exists|number: Seq<char>|
        quantity == number + unit && #[trigger] integer_read(number) == amount && is_plain_number(
            if amount < 0 {
                number.drop_first()
            } else {
                number
            },
        )
}

/// The limits say these numbers: the cores, the memory in Mi, the GPUs and the storage in Gi, and
/// nothing else.
pub open spec fn says_numbers(
    hard: Seq<(Seq<char>, Seq<char>)>,
    cores: int,
    memory: int,
    gpus: int,
    storage: int,
) -> bool {
    &&& hard.len() == 4
    &&& hard[0].0 == "requests.cpu"@
    &&& is_amount(hard[0].1, cores, Seq::empty())
    &&& hard[1].0 == "requests.memory"@
    &&& is_amount(hard[1].1, memory, "Mi"@)
    &&& hard[2].0 == "requests.nvidia.com/gpu"@
    &&& is_amount(hard[2].1, gpus, Seq::empty())
    &&& hard[3].0 == "requests.storage"@
    &&& is_amount(hard[3].1, storage, "Gi"@)
}

/// The limits say the numbers of the row.
pub open spec fn says_numbers_of(hard: Seq<(Seq<char>, Seq<char>)>, row: RowView) -> bool {
    says_numbers(
        hard,
        row.cpu_request,
        row.memory_request,
        row.gpu_request,
        row.storage_request,
    )
}

/// The quantity of an integer and a unit reads back as that integer.
proof fn decimals_are_amounts(amount: int, unit: Seq<char>)
    ensures
        is_amount(decimal(amount) + unit, amount, unit),
{
    decimals_read_back(amount);
    assert(integer_read(decimal(amount)) == amount);
}

/// The quota says the numbers of the row: each quantity reads back, without its unit, as the number
/// that the row asks for.
pub proof fn quotas_say_the_numbers_of_the_row(row: RowView)
    ensures
        says_numbers_of(requested_limits(row), row),
{
    decimals_are_amounts(row.cpu_request, Seq::empty());
    decimals_are_amounts(row.memory_request, "Mi"@);
    decimals_are_amounts(row.gpu_request, Seq::empty());
    decimals_are_amounts(row.storage_request, "Gi"@);
    assert(decimal(row.cpu_request) + Seq::empty() =~= decimal(row.cpu_request));
    assert(decimal(row.gpu_request) + Seq::empty() =~= decimal(row.gpu_request));
}

/// A quantity says one amount only.
proof fn amounts_are_unambiguous(quantity: Seq<char>, left: int, right: int, unit: Seq<char>)
    requires
        is_amount(quantity, left, unit),
        is_amount(quantity, right, unit),
    ensures
        left == right,
{
    let one = choose|number: Seq<char>|
        quantity == number + unit && #[trigger] integer_read(number) == left;
    let other = choose|number: Seq<char>|
        quantity == number + unit && #[trigger] integer_read(number) == right;
    assert(one =~= quantity.take(quantity.len() - unit.len()));
    assert(other =~= quantity.take(quantity.len() - unit.len()));
}

/// Rows that differ in one of the numbers ask for different quotas.
pub proof fn different_numbers_give_different_quotas(left: RowView, right: RowView)
    ensures
        requested_limits(left) == requested_limits(right) <==> {
            &&& left.cpu_request == right.cpu_request
            &&& left.memory_request == right.memory_request
            &&& left.gpu_request == right.gpu_request
            &&& left.storage_request == right.storage_request
        },
{
    quotas_say_the_numbers_of_the_row(left);
    quotas_say_the_numbers_of_the_row(right);
    if requested_limits(left) == requested_limits(right) {
        let hard = requested_limits(left);
        amounts_are_unambiguous(hard[0].1, left.cpu_request, right.cpu_request, Seq::empty());
        amounts_are_unambiguous(hard[1].1, left.memory_request, right.memory_request, "Mi"@);
        amounts_are_unambiguous(hard[2].1, left.gpu_request, right.gpu_request, Seq::empty());
        amounts_are_unambiguous(hard[3].1, left.storage_request, right.storage_request, "Gi"@);
    }
}

/// The quota that a row asks for: cores, mebibytes of memory, GPUs and gibibytes of storage.
pub fn requested_quota(row: &Row) -> (quota: ResourceQuotaSpec)
    ensures
        quota.deep_view() == hard_quota(requested_limits(row.deep_view())),
        quota.deep_view().well_formed(),
        quota.deep_view().hard matches Some(hard) && says_numbers(
            hard,
            row.cpu_request as int,
            row.memory_request as int,
            row.gpu_request as int,
            row.storage_request as int,
        ),
{
    proof {
        requested_limits_are_distinct(row.deep_view());
        quotas_say_the_numbers_of_the_row(row.deep_view());
    }
    let hard = vec![
        ("requests.cpu".to_owned(), decimal_text(row.cpu_request)),
        ("requests.memory".to_owned(), decimal_text(row.memory_request).concat("Mi")),
        ("requests.nvidia.com/gpu".to_owned(), decimal_text(row.gpu_request)),
        ("requests.storage".to_owned(), decimal_text(row.storage_request).concat("Gi")),
    ];
    assert(hard.deep_view() =~= requested_limits(row.deep_view()));
    ResourceQuotaSpec { hard: Some(hard), scope_selector: None, scopes: None }
}

/// A patch of a bootstrap that is to be sent.
#[derive(Debug, PartialEq)]
pub struct BootstrapPatch {
    pub name: String,
    pub params: PatchParams,
    pub bootstrap: UserBootstrap,
}

/// What a `BootstrapPatch` says.
#[verifier::ext_equal]
pub struct BootstrapPatchView {
    pub name: Seq<char>,
    pub params: PatchParamsView,
    pub bootstrap: UserBootstrapView,
}

impl DeepView for BootstrapPatch {
    type V = BootstrapPatchView;

    open spec fn deep_view(&self) -> BootstrapPatchView {
        BootstrapPatchView {
            name: self.name@,
            params: self.params.deep_view(),
            bootstrap: self.bootstrap.deep_view(),
        }
    }
}

/// The bootstrap with another quota.
pub open spec fn with_quota(
    bootstrap: UserBootstrapView,
    hard: Seq<(Seq<char>, Seq<char>)>,
) -> UserBootstrapView {
    UserBootstrapView {
        spec: UserBootstrapSpecView { quota: Some(hard_quota(hard)), ..bootstrap.spec },
        ..bootstrap
    }
}

/// The patch that a bootstrap needs: one with a name gets the quota of the first row of that name,
/// where there is such a row.
pub open spec fn patch_for(rows: Seq<RowView>, bootstrap: UserBootstrapView) -> Option<
    BootstrapPatchView,
> {
    match bootstrap.metadata.name {
        None => None,
        Some(name) => match first_row(rows, name) {
            None => None,
            Some(row) => Some(
                BootstrapPatchView {
                    name,
                    params: PatchParamsView { field_manager: None, force: false },
                    bootstrap: with_quota(bootstrap, requested_limits(row)),
                },
            ),
        },
    }
}

/// Makes the patch that a bootstrap needs.
pub fn make_patch(rows: &Vec<Row>, bootstrap: UserBootstrap) -> (patch: Option<BootstrapPatch>)
    ensures
        patch.deep_view() == patch_for(rows.deep_view(), bootstrap.deep_view()),
{
    let name = match &bootstrap.metadata.name {
        Some(name) => name.clone(),
        None => {
            return None;
        },
    };
    match find_row(rows, name.as_str()) {
        None => None,
        Some(row) => {
            let spec = UserBootstrapSpec {
                kube_username: bootstrap.spec.kube_username,
                quota: Some(requested_quota(row)),
                role: bootstrap.spec.role,
                rolebinding: bootstrap.spec.rolebinding,
            };
            Some(
                BootstrapPatch {
                    name,
                    params: PatchParams { field_manager: None, force: false },
                    bootstrap: UserBootstrap {
                        metadata: bootstrap.metadata,
                        spec,
                        status: bootstrap.status,
                    },
                },
            )
        },
    }
}

/// The patches that the listed bootstraps need.
pub open spec fn planned_patches(
    rows: Seq<RowView>,
    bootstraps: Seq<UserBootstrapView>,
) -> Seq<BootstrapPatchView> {
    bootstraps.filter_map(|bootstrap: UserBootstrapView| patch_for(rows, bootstrap))
}

/// Plans the patches of one pass, in the order in which the bootstraps are listed.
pub fn plan_patches(rows: &Vec<Row>, bootstraps: Vec<UserBootstrap>) -> (patches: Vec<
    BootstrapPatch,
>)
    ensures
        patches.deep_view() == planned_patches(rows.deep_view(), bootstraps.deep_view()),
{
    let ghost views = bootstraps.deep_view();
    let ghost row_views = rows.deep_view();
    let mut patches: Vec<BootstrapPatch> = Vec::new();
    assert(patches.deep_view() =~= planned_patches(row_views, views.take(0)));
    for bootstrap in listed: bootstraps
        invariant
            views == bootstraps.deep_view(),
            row_views == rows.deep_view(),
            listed.seq() == bootstraps@,
            patches.deep_view() == planned_patches(
                row_views,
                views.take(listed.index() as int),
            ),
    {
        let ghost at = listed.index() as int;
        let ghost before = patches.deep_view();
        proof {
            assert(views[at] == bootstrap.deep_view());
            assert(views.take(at + 1).drop_last() =~= views.take(at));
            assert(views.take(at + 1).last() == bootstrap.deep_view());
        }
        match make_patch(rows, bootstrap) {
            Some(patch) => {
                let ghost view = patch.deep_view();
                patches.push(patch);
                assert(patches.deep_view() =~= before + seq![view]);
            },
            None => {},
        }
    }
    assert(views.take(bootstraps@.len() as int) =~= views);
    patches
}

/// Where the synchronizer stands.
#[derive(Debug, PartialEq)]
pub enum SyncState {
    /// The account of the synchronizer is being authenticated.
    Authenticating,
    /// The time of the next pass is awaited.
    Waiting,
    /// The sheet is being exported.
    Exporting,
    /// The exported sheet is being downloaded.
    Downloading,
    /// The records of the sheet are being decoded.
    Decoding,
    /// The bootstraps are being listed; these rows apply to them.
    Listing(Vec<Row>),
    /// A patch is being sent; these are still to be sent.
    Patching(Vec<BootstrapPatch>),
    /// Nothing more happens.
    Finished,
}

/// What a `SyncState` says.
#[verifier::ext_equal]
pub enum SyncStateView {
    Authenticating,
    Waiting,
    Exporting,
    Downloading,
    Decoding,
    Listing(Seq<RowView>),
    Patching(Seq<BootstrapPatchView>),
    Finished,
}

impl DeepView for SyncState {
    type V = SyncStateView;

    open spec fn deep_view(&self) -> SyncStateView {
        match self {
            SyncState::Authenticating => SyncStateView::Authenticating,
            SyncState::Waiting => SyncStateView::Waiting,
            SyncState::Exporting => SyncStateView::Exporting,
            SyncState::Downloading => SyncStateView::Downloading,
            SyncState::Decoding => SyncStateView::Decoding,
            SyncState::Listing(rows) => SyncStateView::Listing(rows.deep_view()),
            SyncState::Patching(pending) => SyncStateView::Patching(pending.deep_view()),
            SyncState::Finished => SyncStateView::Finished,
        }
    }
}

/// What the synchronizer is told.
#[derive(Debug, PartialEq)]
pub enum SyncEvent {
    /// The account was authenticated, or could not be.
    Authenticated(Result<(), String>),
    /// It is time for another pass.
    Tick,
    /// The process is asked to end.
    Stop,
    /// The export was answered, with success or not, or could not be asked for.
    Exported(Result<bool, String>),
    /// The body of the answer was received, or could not be.
    Downloaded(Result<Vec<u8>, String>),
    /// Each record of the sheet was decoded, or could not be.
    Decoded(Vec<Result<Row, String>>),
    /// The bootstraps were listed, or could not be.
    Listed(Result<Vec<UserBootstrap>, String>),
    /// The last patch was sent, or could not be.
    Patched(Result<(), String>),
}

/// What a `SyncEvent` says.
#[verifier::ext_equal]
pub enum SyncEventView {
    Authenticated(Result<(), Seq<char>>),
    Tick,
    Stop,
    Exported(Result<bool, Seq<char>>),
    Downloaded(Result<Seq<u8>, Seq<char>>),
    Decoded(Seq<Result<RowView, Seq<char>>>),
    Listed(Result<Seq<UserBootstrapView>, Seq<char>>),
    Patched(Result<(), Seq<char>>),
}

impl DeepView for SyncEvent {
    type V = SyncEventView;

    open spec fn deep_view(&self) -> SyncEventView {
        match self {
            SyncEvent::Authenticated(Ok(_)) => SyncEventView::Authenticated(Ok(())),
            SyncEvent::Authenticated(Err(cause)) => SyncEventView::Authenticated(Err(cause@)),
            SyncEvent::Tick => SyncEventView::Tick,
            SyncEvent::Stop => SyncEventView::Stop,
            SyncEvent::Exported(Ok(success)) => SyncEventView::Exported(Ok(*success)),
            SyncEvent::Exported(Err(cause)) => SyncEventView::Exported(Err(cause@)),
            SyncEvent::Downloaded(Ok(body)) => SyncEventView::Downloaded(Ok(body@)),
            SyncEvent::Downloaded(Err(cause)) => SyncEventView::Downloaded(Err(cause@)),
            SyncEvent::Decoded(decoded) => SyncEventView::Decoded(
                decoded@.map_values(|result: Result<Row, String>| row_read(result)),
            ),
            SyncEvent::Listed(Ok(bootstraps)) => SyncEventView::Listed(Ok(bootstraps.deep_view())),
            SyncEvent::Listed(Err(cause)) => SyncEventView::Listed(Err(cause@)),
            SyncEvent::Patched(Ok(_)) => SyncEventView::Patched(Ok(())),
            SyncEvent::Patched(Err(cause)) => SyncEventView::Patched(Err(cause@)),
        }
    }
}

/// What the synchronizer wants done.
#[derive(Debug, PartialEq)]
pub enum SyncAction {
    /// Wait for the time of the next pass.
    Wait,
    /// Ask for the export of the sheet.
    Export,
    /// Receive the body of the answer.
    Download,
    /// Decode the records behind the first one, under the fields of the columns.
    Decode(Sheet),
    /// List all bootstraps.
    List,
    /// Send this patch.
    Patch(BootstrapPatch),
    /// Come to an end.
    Stop,
    /// Give up.
    Fail(Error),
}

/// What a `SyncAction` says.
#[verifier::ext_equal]
pub enum SyncActionView {
    Wait,
    Export,
    Download,
    Decode(SheetView),
    List,
    Patch(BootstrapPatchView),
    Stop,
    Fail(ErrorView),
}

impl DeepView for SyncAction {
    type V = SyncActionView;

    open spec fn deep_view(&self) -> SyncActionView {
        match self {
            SyncAction::Wait => SyncActionView::Wait,
            SyncAction::Export => SyncActionView::Export,
            SyncAction::Download => SyncActionView::Download,
            SyncAction::Decode(sheet) => SyncActionView::Decode(sheet.deep_view()),
            SyncAction::List => SyncActionView::List,
            SyncAction::Patch(patch) => SyncActionView::Patch(patch.deep_view()),
            SyncAction::Stop => SyncActionView::Stop,
            SyncAction::Fail(error) => SyncActionView::Fail(error.deep_view()),
        }
    }
}

/// The events that can come in a state.
pub open spec fn awaits(state: SyncStateView, event: SyncEventView) -> bool {
    match state {
        SyncStateView::Authenticating => event is Authenticated,
        SyncStateView::Waiting => event is Tick || event is Stop,
        SyncStateView::Exporting => event is Exported,
        SyncStateView::Downloading => event is Downloaded,
        SyncStateView::Decoding => event is Decoded,
        SyncStateView::Listing(_) => event is Listed,
        SyncStateView::Patching(_) => event is Patched,
        SyncStateView::Finished => false,
    }
}

/// The end of a synchronizer that met an error.
pub open spec fn given_up(error: ErrorView) -> (SyncStateView, SyncActionView) {
    (SyncStateView::Finished, SyncActionView::Fail(error))
}

/// What follows the outcome of a patch: the next one, as long as each goes well.
pub open spec fn patch_next(
    pending: Seq<BootstrapPatchView>,
    outcome: Result<(), Seq<char>>,
) -> (SyncStateView, SyncActionView) {
    match next_step(pending, outcome) {
        Step::Issue(patch) => (
            SyncStateView::Patching(left_after(pending, outcome)),
            SyncActionView::Patch(patch),
        ),
        Step::Done => (SyncStateView::Waiting, SyncActionView::Wait),
        Step::Failed(cause) => given_up(ErrorView::KubeError(cause)),
    }
}

/// What the synchronizer of a GPU server does on an event. A pass exports the sheet, downloads and
/// decodes it, lists the bootstraps and patches those that the sheet asks for.
pub open spec fn sync_next(
    state: SyncStateView,
    event: SyncEventView,
    gpu_server: Seq<char>,
) -> (SyncStateView, SyncActionView) {
    match (state, event) {
        (SyncStateView::Authenticating, SyncEventView::Authenticated(Ok(_))) => (
            SyncStateView::Waiting,
            SyncActionView::Wait,
        ),
        (SyncStateView::Authenticating, SyncEventView::Authenticated(Err(cause))) => given_up(
            ErrorView::GoogleAuthError(cause),
        ),
        (SyncStateView::Waiting, SyncEventView::Tick) => (
            SyncStateView::Exporting,
            SyncActionView::Export,
        ),
        (SyncStateView::Exporting, SyncEventView::Exported(Ok(success))) => if success {
            (SyncStateView::Downloading, SyncActionView::Download)
        } else {
            given_up(ErrorView::RequestFailed)
        },
        (SyncStateView::Exporting, SyncEventView::Exported(Err(cause))) => given_up(
            ErrorView::GoogleApiError(cause),
        ),
        (SyncStateView::Downloading, SyncEventView::Downloaded(Ok(body))) => match sheet_of(body) {
            Ok(sheet) => (SyncStateView::Decoding, SyncActionView::Decode(sheet)),
            Err(error) => given_up(error),
        },
        (SyncStateView::Downloading, SyncEventView::Downloaded(Err(cause))) => given_up(
            ErrorView::HyperError(cause),
        ),
        (SyncStateView::Decoding, SyncEventView::Decoded(decoded)) => match selected_rows(
            decoded,
            gpu_server,
        ) {
            Ok(rows) => (SyncStateView::Listing(rows), SyncActionView::List),
            Err(error) => given_up(error),
        },
        (SyncStateView::Listing(rows), SyncEventView::Listed(Ok(bootstraps))) => patch_next(
            planned_patches(rows, bootstraps),
            Ok(()),
        ),
        (SyncStateView::Listing(_), SyncEventView::Listed(Err(cause))) => given_up(
            ErrorView::KubeError(cause),
        ),
        (SyncStateView::Patching(pending), SyncEventView::Patched(outcome)) => patch_next(
            pending,
            outcome,
        ),
        _ => (SyncStateView::Finished, SyncActionView::Stop),
    }
}

impl SyncState {
    /// Whether an event can come in this state.
    pub fn awaits(&self, event: &SyncEvent) -> (expected: bool)
        ensures
            expected == awaits(self.deep_view(), event.deep_view()),
    {
        match (self, event) {
            (SyncState::Authenticating, SyncEvent::Authenticated(_)) => true,
            (SyncState::Waiting, SyncEvent::Tick) => true,
            (SyncState::Waiting, SyncEvent::Stop) => true,
            (SyncState::Exporting, SyncEvent::Exported(_)) => true,
            (SyncState::Downloading, SyncEvent::Downloaded(_)) => true,
            (SyncState::Decoding, SyncEvent::Decoded(_)) => true,
            (SyncState::Listing(_), SyncEvent::Listed(_)) => true,
            (SyncState::Patching(_), SyncEvent::Patched(_)) => true,
            _ => false,
        }
    }
}

/// Gives up.
fn give_up(error: Error) -> (next: (SyncState, SyncAction))
    ensures
        (next.0.deep_view(), next.1.deep_view()) == given_up(error.deep_view()),
{
    (SyncState::Finished, SyncAction::Fail(error))
}

/// Decides what follows the outcome of a patch, given the patches still to be sent.
fn advance_patches(pending: Vec<BootstrapPatch>, outcome: Result<(), String>) -> (next: (
    SyncState,
    SyncAction,
))
    ensures
        (next.0.deep_view(), next.1.deep_view()) == patch_next(
            pending.deep_view(),
            match outcome {
                Ok(_) => Ok(()),
                Err(cause) => Err(cause@),
            },
        ),
{
    let ghost before = pending.deep_view();
    let mut pending = pending;
    match advance(&mut pending, outcome) {
        Step::Issue(patch) => {
            assert(before[0] == patch.deep_view());
            assert(pending.deep_view() =~= before.drop_first());
            (SyncState::Patching(pending), SyncAction::Patch(patch))
        },
        Step::Done => (SyncState::Waiting, SyncAction::Wait),
        Step::Failed(cause) => give_up(Error::KubeError(cause)),
    }
}

/// Takes the next step of the synchronizer of a GPU server, which starts with the authentication of
/// its account.
pub fn synchronize_loop(state: SyncState, event: SyncEvent, gpu_server_name: &str) -> (next: (
    SyncState,
    SyncAction,
))
    requires
        awaits(state.deep_view(), event.deep_view()),
    ensures
        (next.0.deep_view(), next.1.deep_view()) == sync_next(
            state.deep_view(),
            event.deep_view(),
            gpu_server_name@,
        ),
{
    match (state, event) {
        (SyncState::Authenticating, SyncEvent::Authenticated(Ok(_))) => (
            SyncState::Waiting,
            SyncAction::Wait,
        ),
        (SyncState::Authenticating, SyncEvent::Authenticated(Err(cause))) => give_up(
            Error::GoogleAuthError(cause),
        ),
        (SyncState::Waiting, SyncEvent::Tick) => (SyncState::Exporting, SyncAction::Export),
        (SyncState::Exporting, SyncEvent::Exported(Ok(success))) => match check_export(success) {
            Ok(_) => (SyncState::Downloading, SyncAction::Download),
            Err(error) => give_up(error),
        },
        (SyncState::Exporting, SyncEvent::Exported(Err(cause))) => give_up(
            Error::GoogleApiError(cause),
        ),
        (SyncState::Downloading, SyncEvent::Downloaded(Ok(body))) => match read_sheet(body) {
            Ok(sheet) => (SyncState::Decoding, SyncAction::Decode(sheet)),
            Err(error) => give_up(error),
        },
        (SyncState::Downloading, SyncEvent::Downloaded(Err(cause))) => give_up(
            Error::HyperError(cause),
        ),
        (SyncState::Decoding, SyncEvent::Decoded(decoded)) => match select_rows(
            decoded,
            gpu_server_name,
        ) {
            Ok(rows) => (SyncState::Listing(rows), SyncAction::List),
            Err(error) => give_up(error),
        },
        (SyncState::Listing(rows), SyncEvent::Listed(Ok(bootstraps))) => advance_patches(
            plan_patches(&rows, bootstraps),
            Ok(()),
        ),
        (SyncState::Listing(_), SyncEvent::Listed(Err(cause))) => give_up(Error::KubeError(cause)),
        (SyncState::Patching(pending), SyncEvent::Patched(outcome)) => advance_patches(
            pending,
            outcome,
        ),
        _ => (SyncState::Finished, SyncAction::Stop),
    }
}

/// The header at `k` is not known, and each in front of it is.
pub open spec fn is_first_unknown(headers: Seq<Seq<char>>, k: int) -> bool {
    &&& 0 <= k < headers.len()
    &&& inferred_header(headers[k]) is None
    &&& forall|j: int| 0 <= j < k ==> inferred_header(#[trigger] headers[j]) is Some
}

/// The columns are read one by one: with every header known there is one field for each, in order;
/// otherwise the first unknown header is reported.
pub proof fn headers_are_read_one_by_one(headers: Seq<Seq<char>>)
    ensures
        match inferred_headers(headers) {
            Ok(fields) => fields.len() == headers.len() && forall|k: int|
                0 <= k < headers.len() ==> inferred_header(#[trigger] headers[k]) == Some(
                    fields[k],
                ),
            Err(error) => exists|k: int|
                #[trigger] is_first_unknown(headers, k) && error == unknown_header(headers[k]),
        },
{
    let results = headers.map_values(|header: Seq<char>| field_under(header));
    collecting_stops_at_the_first_error(results);
    match inferred_headers(headers) {
        Ok(fields) => {
            assert forall|k: int| 0 <= k < headers.len() implies inferred_header(
                #[trigger] headers[k],
            ) == Some(fields[k]) by {
                assert(results[k] == field_under(headers[k]));
            }
        },
        Err(error) => {
            let k = choose|k: int|
                0 <= k < results.len() && #[trigger] results[k] == Err::<Seq<char>, ErrorView>(
                    error,
                ) && (forall|j: int| 0 <= j < k ==> #[trigger] results[j] is Ok);
            assert(results[k] == field_under(headers[k]));
            assert forall|j: int| 0 <= j < k implies inferred_header(
                #[trigger] headers[j],
            ) is Some by {
                assert(results[j] is Ok);
            }
            assert(is_first_unknown(headers, k));
        },
    }
}

/// The records are read one by one: each gives its row, in order; otherwise the first that could
/// not be decoded is reported.
pub proof fn records_are_read_one_by_one(decoded: Seq<Result<RowView, Seq<char>>>)
    ensures
        match collected_rows(decoded) {
            Ok(rows) => rows.len() == decoded.len() && forall|k: int|
                0 <= k < decoded.len() ==> #[trigger] decoded[k] == Ok::<RowView, Seq<char>>(
                    rows[k],
                ),
            Err(error) => exists|k: int|
                0 <= k < decoded.len() && (#[trigger] decoded[k] matches Err(cause) && error
                    == ErrorView::CsvParseError(cause)) && (forall|j: int|
                    0 <= j < k ==> #[trigger] decoded[j] is Ok),
        },
{
    collecting_stops_at_the_first_error(decoded);
}

/// The records without those at the given positions.
pub open spec fn without(
    decoded: Seq<Result<RowView, Seq<char>>>,
    left_out: Set<int>,
) -> Seq<Result<RowView, Seq<char>>>
    decreases decoded.len(),
{
    if decoded.len() == 0 {
        decoded
    } else {
        let before = without(decoded.drop_last(), left_out);
        if left_out.contains(decoded.len() - 1) {
            before
        } else {
            before.push(decoded.last())
        }
    }
}

/// Rows of other servers do not matter: whichever of them are left out, the same rows are selected,
/// and a pass goes on as it does with them.
pub proof fn rows_of_other_servers_do_not_matter(
    decoded: Seq<Result<RowView, Seq<char>>>,
    gpu_server: Seq<char>,
    left_out: Set<int>,
)
    requires
        forall|k: int|
            0 <= k < decoded.len() && left_out.contains(k) ==> (#[trigger] decoded[k] matches Ok(
                row,
            ) && row.gpu_server != gpu_server),
    ensures
        selected_rows(without(decoded, left_out), gpu_server) == selected_rows(
            decoded,
            gpu_server,
        ),
        sync_next(
            SyncStateView::Decoding,
            SyncEventView::Decoded(without(decoded, left_out)),
            gpu_server,
        ) == sync_next(SyncStateView::Decoding, SyncEventView::Decoded(decoded), gpu_server),
    decreases decoded.len(),
{
    reveal(Seq::filter);
    if decoded.len() > 0 {
        let before = decoded.drop_last();
        let fewer = without(before, left_out);
        let last = decoded.len() - 1;
        let wanted = on_server(gpu_server);
        assert forall|k: int| 0 <= k < before.len() && left_out.contains(k) implies (
        #[trigger] before[k] matches Ok(row) && row.gpu_server != gpu_server) by {
            assert(before[k] == decoded[k]);
        }
        rows_of_other_servers_do_not_matter(before, gpu_server, left_out);
        assert(decoded[last] == decoded.last());
        assert(fewer.push(decoded.last()).drop_last() =~= fewer);
        if let (Ok(rows), Ok(row)) = (collected(before), decoded.last()) {
            assert(rows.push(row).drop_last() =~= rows);
            if let Ok(fewer_rows) = collected(fewer) {
                assert(fewer_rows.push(row).drop_last() =~= fewer_rows);
            }
        }
    }
}

/// The row that is found for a user is the first of that user's; without one, no row is that
/// user's.
pub proof fn found_rows_belong_to_the_user(rows: Seq<RowView>, username: Seq<char>)
    ensures
        match first_row(rows, username) {
            Some(row) => exists|k: int|
                0 <= k < rows.len() && #[trigger] rows[k] == row && row.id_username == username && (
                forall|j: int| 0 <= j < k ==> (#[trigger] rows[j]).id_username != username),
            None => forall|k: int|
                0 <= k < rows.len() ==> (#[trigger] rows[k]).id_username != username,
        },
    decreases rows.len(),
{
    if rows.len() > 0 && rows[0].id_username != username {
        let rest = rows.drop_first();
        found_rows_belong_to_the_user(rest, username);
        match first_row(rest, username) {
            Some(row) => {
                let k = choose|k: int|
                    0 <= k < rest.len() && #[trigger] rest[k] == row && row.id_username == username
                        && (forall|j: int|
                        0 <= j < k ==> (#[trigger] rest[j]).id_username != username);
                assert(rows[k + 1] == row);
                assert forall|j: int| 0 <= j < k + 1 implies (#[trigger] rows[j]).id_username
                    != username by {
                    if j > 0 {
                        assert(rest[j - 1] == rows[j]);
                    }
                }
            },
            None => {
                assert forall|k: int| 0 <= k < rows.len() implies (#[trigger] rows[k]).id_username
                    != username by {
                    if k > 0 {
                        assert(rest[k - 1] == rows[k]);
                    }
                }
            },
        }
    } else if rows.len() > 0 {
        assert(rows[0] == first_row(rows, username)->0);
    }
}

/// Each planned patch is the one that some listed bootstrap needs, and each bootstrap that needs a
/// patch gets it.
pub proof fn plans_hold_what_is_needed(rows: Seq<RowView>, bootstraps: Seq<UserBootstrapView>)
    ensures
        forall|k: int|
            0 <= k < planned_patches(rows, bootstraps).len() ==> exists|i: int|
                0 <= i < bootstraps.len() && patch_for(rows, #[trigger] bootstraps[i]) == Some(
                    #[trigger] planned_patches(rows, bootstraps)[k],
                ),
        forall|i: int|
            0 <= i < bootstraps.len() ==> match patch_for(rows, #[trigger] bootstraps[i]) {
                Some(patch) => planned_patches(rows, bootstraps).contains(patch),
                None => true,
            },
    decreases bootstraps.len(),
{
    let planned = planned_patches(rows, bootstraps);
    if bootstraps.len() > 0 {
        let before = bootstraps.drop_last();
        let last = bootstraps.len() - 1;
        let earlier = planned_patches(rows, before);
        plans_hold_what_is_needed(rows, before);
        assert forall|k: int| 0 <= k < planned.len() implies exists|i: int|
            0 <= i < bootstraps.len() && patch_for(rows, #[trigger] bootstraps[i]) == Some(
                #[trigger] planned[k],
            ) by {
            if k < earlier.len() {
                assert(planned[k] == earlier[k]);
                let i = choose|i: int|
                    0 <= i < before.len() && patch_for(rows, #[trigger] before[i]) == Some(
                        earlier[k],
                    );
                assert(bootstraps[i] == before[i]);
            } else {
                assert(patch_for(rows, bootstraps[last]) == Some(planned[k]));
            }
        }
        assert forall|i: int| 0 <= i < bootstraps.len() implies match patch_for(
            rows,
            #[trigger] bootstraps[i],
        ) {
            Some(patch) => planned.contains(patch),
            None => true,
        } by {
            match patch_for(rows, bootstraps[i]) {
                Some(patch) => {
                    if i < last {
                        assert(before[i] == bootstraps[i]);
                        assert(earlier.contains(patch));
                        let k = choose|k: int| 0 <= k < earlier.len() && earlier[k] == patch;
                        assert(planned[k] == patch);
                    } else {
                        assert(planned[planned.len() - 1] == patch);
                    }
                },
                None => {},
            }
        }
    }
}

/// What one more row means for the search: it is found where none was found before it.
proof fn later_rows_count_last(rows: Seq<RowView>, row: RowView, username: Seq<char>)
    ensures
        first_row(rows.push(row), username) == (if first_row(rows, username) is Some {
            first_row(rows, username)
        } else if row.id_username == username {
            Some(row)
        } else {
            None
        }),
    decreases rows.len(),
{
    reveal_with_fuel(first_row, 2);
    if rows.len() > 0 {
        assert(rows.push(row).drop_first() =~= rows.drop_first().push(row));
        later_rows_count_last(rows.drop_first(), row, username);
    } else {
        assert(rows.push(row).drop_first() =~= Seq::empty());
    }
}

/// The row at `k` is the first of a user on a server.
pub open spec fn is_first_on_server(
    sheet: Seq<RowView>,
    gpu_server: Seq<char>,
    username: Seq<char>,
    k: int,
) -> bool {
    &&& 0 <= k < sheet.len()
    &&& sheet[k].gpu_server == gpu_server
    &&& sheet[k].id_username == username
    &&& forall|j: int|
        0 <= j < k ==> !((#[trigger] sheet[j]).gpu_server == gpu_server && sheet[j].id_username
            == username)
}

/// Of a sheet, the first row of a user on the server counts; none does only when no row is of that
/// user on that server.
pub proof fn first_rows_on_the_server_count(
    sheet: Seq<RowView>,
    gpu_server: Seq<char>,
    username: Seq<char>,
)
    ensures
        match first_row(sheet.filter(on_server(gpu_server)), username) {
            Some(row) => exists|k: int| #[trigger]
                is_first_on_server(sheet, gpu_server, username, k) && sheet[k] == row,
            None => forall|k: int|
                0 <= k < sheet.len() ==> !((#[trigger] sheet[k]).gpu_server == gpu_server
                    && sheet[k].id_username == username),
        },
    decreases sheet.len(),
{
    reveal(Seq::filter);
    let wanted = on_server(gpu_server);
    if sheet.len() > 0 {
        let before = sheet.drop_last();
        let last = sheet.len() - 1;
        first_rows_on_the_server_count(before, gpu_server, username);
        later_rows_count_last(before.filter(wanted), sheet.last(), username);
        assert forall|j: int| 0 <= j < last implies #[trigger] sheet[j] == before[j] by {}
        match first_row(before.filter(wanted), username) {
            Some(row) => {
                let k = choose|k: int| #[trigger]
                    is_first_on_server(before, gpu_server, username, k) && before[k] == row;
                assert(sheet[k] == before[k]);
                assert(is_first_on_server(sheet, gpu_server, username, k));
            },
            None => {
                if sheet.last().gpu_server == gpu_server && sheet.last().id_username == username {
                    assert(is_first_on_server(sheet, gpu_server, username, last));
                }
            },
        }
    }
}

/// A bootstrap gets a patch exactly when it has a name and some row has that name as its user,
/// whatever else it holds.
pub proof fn bootstraps_with_a_row_get_a_patch(rows: Seq<RowView>, bootstrap: UserBootstrapView)
    ensures
        patch_for(rows, bootstrap) is Some <==> bootstrap.metadata.name is Some && exists|k: int|
            0 <= k < rows.len() && (#[trigger] rows[k]).id_username
                == bootstrap.metadata.name->0,
{
    if bootstrap.metadata.name is Some {
        found_rows_belong_to_the_user(rows, bootstrap.metadata.name->0);
    }
}

/// Of a sheet, a bootstrap gets a patch exactly when it has a name and some row has that name as its
/// user and the configured server.
pub proof fn bootstraps_in_the_sheet_get_a_patch(
    sheet: Seq<RowView>,
    gpu_server: Seq<char>,
    bootstrap: UserBootstrapView,
)
    ensures
        patch_for(sheet.filter(on_server(gpu_server)), bootstrap) is Some
            <==> bootstrap.metadata.name is Some && exists|k: int|
            0 <= k < sheet.len() && (#[trigger] sheet[k]).gpu_server == gpu_server
                && sheet[k].id_username == bootstrap.metadata.name->0,
{
    if bootstrap.metadata.name is Some {
        let username = bootstrap.metadata.name->0;
        first_rows_on_the_server_count(sheet, gpu_server, username);
        if first_row(sheet.filter(on_server(gpu_server)), username) is Some {
            let k = choose|k: int| #[trigger]
                is_first_on_server(sheet, gpu_server, username, k);
            assert(sheet[k].gpu_server == gpu_server);
        }
    }
}

/// A patch changes nothing but the quota, and the quota is well-formed, is that of the first row of
/// the same user on the configured server, says the numbers of that row, and has no scopes. The patch
/// goes to the bootstrap's own name, without a field manager and without force.
pub proof fn patches_change_the_quota_only(
    sheet: Seq<RowView>,
    gpu_server: Seq<char>,
    bootstrap: UserBootstrapView,
    patch: BootstrapPatchView,
)
    requires
        patch_for(sheet.filter(on_server(gpu_server)), bootstrap) == Some(patch),
    ensures
        bootstrap.metadata.name == Some(patch.name),
        patch.params.field_manager is None,
        !patch.params.force,
        patch.bootstrap.metadata == bootstrap.metadata,
        patch.bootstrap.status == bootstrap.status,
        patch.bootstrap.spec.kube_username == bootstrap.spec.kube_username,
        patch.bootstrap.spec.role == bootstrap.spec.role,
        patch.bootstrap.spec.rolebinding == bootstrap.spec.rolebinding,
        patch.bootstrap.spec.quota matches Some(quota) && quota.well_formed(),
        patch.bootstrap.spec.quota->0.scope_selector is None,
        patch.bootstrap.spec.quota->0.scopes is None,
        exists|k: int| #[trigger]
            is_first_on_server(sheet, gpu_server, patch.name, k) && (
            patch.bootstrap.spec.quota->0.hard matches Some(hard) && hard == requested_limits(
                sheet[k],
            ) && says_numbers_of(hard, sheet[k])),
        exists|row: RowView| #[trigger]
            sheet.contains(row) && row.gpu_server == gpu_server && row.id_username == patch.name
                && patch.bootstrap.spec.quota == Some(hard_quota(requested_limits(row))),
{
    let rows = sheet.filter(on_server(gpu_server));
    let row = first_row(rows, patch.name)->0;
    requested_limits_are_distinct(row);
    quotas_say_the_numbers_of_the_row(row);
    first_rows_on_the_server_count(sheet, gpu_server, patch.name);
    let k = choose|k: int| #[trigger]
        is_first_on_server(sheet, gpu_server, patch.name, k) && sheet[k] == row;
    assert(is_first_on_server(sheet, gpu_server, patch.name, k));
    assert(sheet.contains(sheet[k]));
}

/// Bootstraps are planned one by one: one more at the end adds its own patch at the end, where it
/// needs one, and changes nothing before.
pub proof fn bootstraps_are_planned_one_by_one(
    rows: Seq<RowView>,
    bootstraps: Seq<UserBootstrapView>,
    bootstrap: UserBootstrapView,
)
    ensures
        planned_patches(rows, Seq::empty()).len() == 0,
        planned_patches(rows, bootstraps.push(bootstrap)) == match patch_for(rows, bootstrap) {
            Some(patch) => planned_patches(rows, bootstraps).push(patch),
            None => planned_patches(rows, bootstraps),
        },
{
    assert(bootstraps.push(bootstrap).drop_last() =~= bootstraps);
    assert(bootstraps.push(bootstrap).last() == bootstrap);
    match patch_for(rows, bootstrap) {
        Some(patch) => {
            assert(planned_patches(rows, bootstraps.push(bootstrap)) =~= planned_patches(
                rows,
                bootstraps,
            ).push(patch));
        },
        None => {
            assert(planned_patches(rows, bootstraps.push(bootstrap)) =~= planned_patches(
                rows,
                bootstraps,
            ));
        },
    }
}

/// A second pass over the same sheet asks for nothing new: a patched bootstrap needs the patch that
/// it was given.
pub proof fn passes_are_repeatable(
    rows: Seq<RowView>,
    bootstrap: UserBootstrapView,
    patch: BootstrapPatchView,
)
    requires
        patch_for(rows, bootstrap) == Some(patch),
    ensures
        patch_for(rows, patch.bootstrap) == Some(patch),
{
}

/// The patches that are sent from an event on, in a run whose patches meet these outcomes, until
/// there is no further outcome.
pub open spec fn patches_sent(
    state: SyncStateView,
    event: SyncEventView,
    gpu_server: Seq<char>,
    later: Seq<Result<(), Seq<char>>>,
) -> Seq<BootstrapPatchView>
    decreases later.len(),
{
    let (next, action) = sync_next(state, event, gpu_server);
    match action {
        SyncActionView::Patch(patch) => if later.len() == 0 {
            seq![patch]
        } else {
            seq![patch] + patches_sent(
                next,
                SyncEventView::Patched(later[0]),
                gpu_server,
                later.drop_first(),
            )
        },
        _ => Seq::empty(),
    }
}

/// Once patches are being sent, they are sent as the queue issues them.
proof fn patches_are_issued(
    pending: Seq<BootstrapPatchView>,
    outcome: Result<(), Seq<char>>,
    gpu_server: Seq<char>,
    later: Seq<Result<(), Seq<char>>>,
)
    ensures
        patches_sent(
            SyncStateView::Patching(pending),
            SyncEventView::Patched(outcome),
            gpu_server,
            later,
        ) == issued(pending, outcome, later),
    decreases later.len(),
{
    if later.len() > 0 {
        patches_are_issued(
            left_after(pending, outcome),
            later[0],
            gpu_server,
            later.drop_first(),
        );
    }
}

/// A pass sends the patches that the bootstraps need by the rows of its server, in order: all of
/// them when each goes well, and none behind the first that fails.
pub proof fn passes_send_what_is_planned(
    decoded: Seq<Result<RowView, Seq<char>>>,
    gpu_server: Seq<char>,
    rows: Seq<RowView>,
    bootstraps: Seq<UserBootstrapView>,
    later: Seq<Result<(), Seq<char>>>,
    succeeded: int,
)
    requires
        selected_rows(decoded, gpu_server) == Ok::<Seq<RowView>, ErrorView>(rows),
        0 <= succeeded <= later.len(),
        forall|k: int| 0 <= k < succeeded ==> #[trigger] later[k] is Ok,
        succeeded < later.len() ==> later[succeeded] is Err,
    ensures
        ({
            let listing = sync_next(
                SyncStateView::Decoding,
                SyncEventView::Decoded(decoded),
                gpu_server,
            ).0;
            let planned = planned_patches(rows, bootstraps);
            patches_sent(listing, SyncEventView::Listed(Ok(bootstraps)), gpu_server, later) == if
            succeeded + 1 <= planned.len() {
                planned.take(succeeded + 1)
            } else {
                planned
            }
        }),
{
    let planned = planned_patches(rows, bootstraps);
    runs_stop_at_the_first_failure(planned, later, succeeded);
    if planned.len() > 0 && later.len() > 0 {
        patches_are_issued(planned.drop_first(), later[0], gpu_server, later.drop_first());
    }
    assert(patches_sent(
        SyncStateView::Listing(rows),
        SyncEventView::Listed(Ok(bootstraps)),
        gpu_server,
        later,
    ) =~= issued(planned, Ok(()), later));
}

/// The error that is met in an event: the one that it reports, or the one that its content leads to.
pub open spec fn met(event: SyncEventView, gpu_server: Seq<char>) -> Option<ErrorView> {
    match event {
        SyncEventView::Authenticated(Err(cause)) => Some(ErrorView::GoogleAuthError(cause)),
        SyncEventView::Exported(Err(cause)) => Some(ErrorView::GoogleApiError(cause)),
        SyncEventView::Exported(Ok(success)) => if success {
            None
        } else {
            Some(ErrorView::RequestFailed)
        },
        SyncEventView::Downloaded(Err(cause)) => Some(ErrorView::HyperError(cause)),
        SyncEventView::Downloaded(Ok(body)) => match sheet_of(body) {
            Ok(_) => None,
            Err(error) => Some(error),
        },
        SyncEventView::Decoded(decoded) => match selected_rows(decoded, gpu_server) {
            Ok(_) => None,
            Err(error) => Some(error),
        },
        SyncEventView::Listed(Err(cause)) => Some(ErrorView::KubeError(cause)),
        SyncEventView::Patched(Err(cause)) => Some(ErrorView::KubeError(cause)),
        _ => None,
    }
}

/// Whatever goes wrong ends the synchronizer for good, with the error that was met; otherwise only
/// a request to stop does, and that is heard between passes alone.
pub proof fn synchronizers_end_on_errors(
    state: SyncStateView,
    event: SyncEventView,
    gpu_server: Seq<char>,
)
    requires
        awaits(state, event),
    ensures
        ({
            let (next, action) = sync_next(state, event, gpu_server);
            &&& met(event, gpu_server) matches Some(error) ==> (next, action) == given_up(error)
            &&& action is Fail <==> met(event, gpu_server) is Some
            &&& action is Stop <==> event is Stop && state is Waiting
            &&& next is Finished <==> action is Stop || action is Fail
            &&& next is Finished ==> forall|later: SyncEventView| !#[trigger] awaits(next, later)
        }),
{
}

/// A body that is not UTF-8 ends the synchronizer with the error for its bytes; of one whose first
/// record names an unknown column, the first such column is reported.
pub proof fn bad_bodies_are_reported(body: Seq<u8>, gpu_server: Seq<char>, k: int)
    ensures
        ({
            let next = sync_next(
                SyncStateView::Downloading,
                SyncEventView::Downloaded(Ok(body)),
                gpu_server,
            );
            &&& !valid_utf8(body) ==> next == given_up(ErrorView::Utf8Error(utf8_error_text(body)))
            &&& valid_utf8(body) ==> match csv_header_record(decode_utf8(body)) {
                Err(cause) => next == given_up(ErrorView::CsvParseError(cause)),
                Ok(headers) => is_first_unknown(headers, k) ==> next == given_up(
                    unknown_header(headers[k]),
                ),
            }
        }),
{
    if valid_utf8(body) {
        if let Ok(headers) = csv_header_record(decode_utf8(body)) {
            headers_are_read_one_by_one(headers);
        }
    }
}

/// The first record that could not be decoded ends the synchronizer with its error.
pub proof fn undecoded_records_are_reported(
    decoded: Seq<Result<RowView, Seq<char>>>,
    gpu_server: Seq<char>,
    k: int,
    cause: Seq<char>,
)
    requires
        0 <= k < decoded.len(),
        decoded[k] == Err::<RowView, Seq<char>>(cause),
        forall|j: int| 0 <= j < k ==> #[trigger] decoded[j] is Ok,
    ensures
        sync_next(SyncStateView::Decoding, SyncEventView::Decoded(decoded), gpu_server)
            == given_up(ErrorView::CsvParseError(cause)),
{
    records_are_read_one_by_one(decoded);
}

/// The rows of the server are all selected: of a sheet in which every record is a row of the server,
/// each row is kept, in its place.
pub proof fn rows_of_the_server_are_all_selected(rows: Seq<RowView>, gpu_server: Seq<char>)
    requires
        forall|k: int| 0 <= k < rows.len() ==> (#[trigger] rows[k]).gpu_server == gpu_server,
    ensures
        selected_rows(
            rows.map_values(|row: RowView| Ok::<RowView, Seq<char>>(row)),
            gpu_server,
        ) == Ok::<Seq<RowView>, ErrorView>(rows),
    decreases rows.len(),
{
    reveal(Seq::filter);
    let decoded = rows.map_values(|row: RowView| Ok::<RowView, Seq<char>>(row));
    if rows.len() > 0 {
        let before = rows.drop_last();
        assert(decoded.drop_last() =~= before.map_values(
            |row: RowView| Ok::<RowView, Seq<char>>(row),
        ));
        assert(decoded.last() == Ok::<RowView, Seq<char>>(rows.last()));
        assert forall|k: int| 0 <= k < before.len() implies (#[trigger] before[k]).gpu_server
            == gpu_server by {
            assert(before[k] == rows[k]);
        }
        rows_of_the_server_are_all_selected(before, gpu_server);
        collecting_stops_at_the_first_error(decoded.drop_last());
        let kept = collected(decoded.drop_last())->Ok_0;
        assert forall|k: int| 0 <= k < before.len() implies kept[k] == before[k] by {
            assert(decoded.drop_last()[k] == Ok::<RowView, Seq<char>>(kept[k]));
        }
        assert(kept =~= before);
        assert(before.push(rows.last()) =~= rows);
        assert(rows[rows.len() - 1] == rows.last());
    } else {
        assert(rows =~= Seq::empty());
    }
}

/// Headers mean what they say. A timestamp and a name are known by the whole header, everything else
/// by words that stand in it, where the earlier of the fields wins: the user, the server, GPUs,
/// cores, memory, storage.
pub proof fn headers_mean_what_they_say(header: Seq<char>)
    ensures
        ({
            let field = inferred_header(header);
            let exact = header == "타임스탬프"@ || header == "이름"@;
            let user = occurs_in(header, "id.snucse.org"@) && occurs_in(header, "이름"@);
            let server = occurs_in(header, "GPU 서버"@);
            let gpus = occurs_in(header, "GPU 개수"@);
            let cores = occurs_in(header, "CPU 코어"@) || occurs_in(header, "CPU 개수"@);
            let memory = occurs_in(header, "메모리"@);
            let storage = occurs_in(header, "스토리지"@);
            &&& header == "타임스탬프"@ ==> field == Some("timestamp"@)
            &&& header == "이름"@ && header != "타임스탬프"@ ==> field == Some("name"@)
            &&& !exact && user ==> field == Some("id_username"@)
            &&& !exact && !user && server ==> field == Some("gpu_server"@)
            &&& !exact && !user && !server && gpus ==> field == Some("gpu_request"@)
            &&& !exact && !user && !server && !gpus && cores ==> field == Some("cpu_request"@)
            &&& !exact && !user && !server && !gpus && !cores && memory ==> field == Some(
                "memory_request"@,
            )
            &&& !exact && !user && !server && !gpus && !cores && !memory && storage ==> field
                == Some("storage_request"@)
            &&& field is Some <==> exact || user || server || gpus || cores || memory || storage
        }),
{
}

/// A header that is not known is quoted in full in its error, and the message of every error says
/// what failed and then the whole cause.
pub proof fn messages_give_the_cause(header: Seq<char>, cause: Seq<char>)
    ensures
        unknown_header(header).message() == "csv header error: "@ + ("unknown header: \""@ + header
            + "\""@),
        ErrorView::KubeError(cause).message() == "kube error: "@ + cause,
        ErrorView::GoogleAuthError(cause).message() == "google auth error: "@ + cause,
        ErrorView::Utf8Error(cause).message() == "file is not utf8: "@ + cause,
        ErrorView::GoogleApiError(cause).message() == "google api error: "@ + cause,
        ErrorView::RequestFailed.message() == "request failed"@,
        ErrorView::HyperError(cause).message() == "hyper error: "@ + cause,
        ErrorView::CsvHeaderError(cause).message() == "csv header error: "@ + cause,
        ErrorView::CsvParseError(cause).message() == "csv parsing error: "@ + cause,
{
}

/// A body that can be read is decoded in full: its text is the whole of the body, and each column of
/// its first record has the field that its header means.
pub proof fn good_bodies_are_decoded(body: Seq<u8>, headers: Seq<Seq<char>>, gpu_server: Seq<char>)
    requires
        valid_utf8(body),
        csv_header_record(decode_utf8(body)) == Ok::<Seq<Seq<char>>, Seq<char>>(headers),
        forall|k: int| 0 <= k < headers.len() ==> inferred_header(#[trigger] headers[k]) is Some,
    ensures
        ({
            let (next, action) = sync_next(
                SyncStateView::Downloading,
                SyncEventView::Downloaded(Ok(body)),
                gpu_server,
            );
            &&& next is Decoding
            &&& action matches SyncActionView::Decode(sheet)
            &&& sheet.content == decode_utf8(body)
            &&& sheet.fields.len() == headers.len()
            &&& forall|k: int|
                0 <= k < headers.len() ==> inferred_header(#[trigger] headers[k]) == Some(
                    sheet.fields[k],
                )
        }),
{
    headers_are_read_one_by_one(headers);
}

/// A pass takes its course: each step that goes well leads to the next one, and a pass that has
/// nothing left to send leads back to waiting.
pub proof fn passes_take_their_course(
    gpu_server: Seq<char>,
    decoded: Seq<Result<RowView, Seq<char>>>,
    rows: Seq<RowView>,
    bootstraps: Seq<UserBootstrapView>,
)
    ensures
        sync_next(
            SyncStateView::Authenticating,
            SyncEventView::Authenticated(Ok(())),
            gpu_server,
        ) == (SyncStateView::Waiting, SyncActionView::Wait),
        sync_next(SyncStateView::Waiting, SyncEventView::Tick, gpu_server) == (
            SyncStateView::Exporting,
            SyncActionView::Export,
        ),
        sync_next(SyncStateView::Exporting, SyncEventView::Exported(Ok(true)), gpu_server) == (
            SyncStateView::Downloading,
            SyncActionView::Download,
        ),
        selected_rows(decoded, gpu_server) is Ok ==> sync_next(
            SyncStateView::Decoding,
            SyncEventView::Decoded(decoded),
            gpu_server,
        ) == (
            SyncStateView::Listing(selected_rows(decoded, gpu_server)->Ok_0),
            SyncActionView::List,
        ),
        ({
            let (next, action) = sync_next(
                SyncStateView::Listing(rows),
                SyncEventView::Listed(Ok(bootstraps)),
                gpu_server,
            );
            let planned = planned_patches(rows, bootstraps);
            &&& planned.len() == 0 ==> (next, action) == (
                SyncStateView::Waiting,
                SyncActionView::Wait,
            )
            &&& planned.len() > 0 ==> (next, action) == (
                SyncStateView::Patching(planned.drop_first()),
                SyncActionView::Patch(planned[0]),
            )
        }),
        sync_next(
            SyncStateView::Patching(Seq::empty()),
            SyncEventView::Patched(Ok(())),
            gpu_server,
        ) == (SyncStateView::Waiting, SyncActionView::Wait),
{
}

/// What a row says is what it holds.
pub proof fn rows_say_what_they_hold(row: Row)
    ensures
        row.deep_view().name == row.name@,
        row.deep_view().id_username == row.id_username@,
        row.deep_view().gpu_server == row.gpu_server@,
        row.deep_view().gpu_request == row.gpu_request,
        row.deep_view().cpu_request == row.cpu_request,
        row.deep_view().memory_request == row.memory_request,
        row.deep_view().storage_request == row.storage_request,
{
}

/// What was asked for is awaited, with any outcome: after each action the synchronizer takes the
/// event that the action leads to, and after waiting also a request to stop.
pub proof fn asked_for_events_are_awaited(
    state: SyncStateView,
    event: SyncEventView,
    gpu_server: Seq<char>,
    later: SyncEventView,
)
    requires
        awaits(state, event),
    ensures
        ({
            let (next, action) = sync_next(state, event, gpu_server);
            awaits(next, later) <==> match action {
                SyncActionView::Wait => later is Tick || later is Stop,
                SyncActionView::Export => later is Exported,
                SyncActionView::Download => later is Downloaded,
                SyncActionView::Decode(_) => later is Decoded,
                SyncActionView::List => later is Listed,
                SyncActionView::Patch(_) => later is Patched,
                SyncActionView::Stop => false,
                SyncActionView::Fail(_) => false,
            }
        }),
        awaits(SyncStateView::Authenticating, later) <==> later is Authenticated,
{
}

} // verus!
