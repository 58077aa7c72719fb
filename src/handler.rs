use vstd::prelude::*;
use crate::report::{Config, Metric, ReportView, WeatherReport, METRIC_COUNT};
use crate::store::{latest, next_after, upsert_fails, upserted, MemoryStore, StorageError};

verus! {

/// A metric field of an ingest request as it arrived.
#[derive(Clone, Copy, Debug, PartialEq, Eq, Structural)]
pub enum FieldValue {
    /// The field was not sent.
    Absent,
    /// A well-formed decimal, as its IEEE-754 bit pattern.
    Value(u64),
    /// The field was sent but is not a decimal number.
    Malformed,
}

impl FieldValue {
    pub open spec fn as_option(self) -> Option<u64> {
        match self {
            FieldValue::Value(v) => Some(v),
            _ => None,
        }
    }
}

/// The fields of an ingest request.
#[derive(Clone, Debug)]
pub struct IngestForm {
    pub temperature: FieldValue,
    pub humidity: FieldValue,
    pub percipitation: FieldValue,
    pub pm10: FieldValue,
    pub pm25: FieldValue,
    pub co2: FieldValue,
    pub tvoc: FieldValue,
    pub device_type: Option<String>,
}

impl IngestForm {
    /// The metric fields in column order.
    pub open spec fn fields(&self) -> Seq<FieldValue> {
        seq![
            self.temperature,
            self.humidity,
            self.percipitation,
            self.pm10,
            self.pm25,
            self.co2,
            self.tvoc,
        ]
    }

    pub fn field(&self, m: Metric) -> (r: FieldValue)
        ensures
            r == self.fields()[m.index()],
    {
        match m {
            Metric::Temperature => self.temperature,
            Metric::Humidity => self.humidity,
            Metric::Percipitation => self.percipitation,
            Metric::Pm10 => self.pm10,
            Metric::Pm25 => self.pm25,
            Metric::Co2 => self.co2,
            Metric::Tvoc => self.tvoc,
        }
    }

    pub open spec fn has_malformed(&self) -> bool {
        exists|i: int| 0 <= i < METRIC_COUNT && #[trigger] self.fields()[i] is Malformed
    }
}

/// Why an ingest request was refused.
#[derive(Clone, Copy, Debug, PartialEq, Eq, Structural)]
pub enum IngestError {
    /// The named metric is not a decimal number.
    InvalidMetric(Metric),
    /// The required device type is missing.
    MissingDeviceType,
}

impl IngestError {
    /// Name of the offending request field.
    pub fn field_name(&self) -> (r: &'static str)
        ensures
            r@ == match self {
                IngestError::InvalidMetric(m) => m.spec_column(),
                IngestError::MissingDeviceType => "device_type"@,
            },
    {
        match self {
            IngestError::InvalidMetric(m) => m.column(),
            IngestError::MissingDeviceType => "device_type",
        }
    }
}

/// `e` is the error a form gets: the first malformed metric in column
/// order, else a missing device type.
pub open spec fn form_error(form: IngestForm, e: IngestError) -> bool {
    match e {
        IngestError::InvalidMetric(m) => form.fields()[m.index()] is Malformed
            && forall|i: int| 0 <= i < m.index() ==> !(#[trigger] form.fields()[i] is Malformed),
        IngestError::MissingDeviceType => !form.has_malformed() && form.device_type is None,
    }
}

/// The reading built from a valid form: the given identity, the form's
/// device type and the metrics the form carries, the rest absent.
pub open spec fn ingested(form: IngestForm, oid: Seq<char>, timestamp: i64) -> ReportView {
    ReportView {
        id: 0,
        oid,
        metrics: form.fields().map_values(|f: FieldValue| f.as_option()),
        device_type: form.device_type->0@,
        timestamp,
    }
}

/// Validates an ingest form, fields checked in column order and the device
/// type last, and builds the new reading from it.
pub fn accept_form(form: &IngestForm, oid: String, timestamp: i64) -> (r: Result<WeatherReport, IngestError>)
    ensures
        r is Err <==> form.has_malformed() || form.device_type is None,
        r matches Err(e) ==> form_error(*form, e),
        r matches Ok(rep) ==> rep@ == ingested(*form, oid@, timestamp),
{
    let mut k: usize = 0;
    while k < METRIC_COUNT
        invariant
            k <= METRIC_COUNT,
            forall|i: int| 0 <= i < k ==> !(#[trigger] form.fields()[i] is Malformed),
        decreases METRIC_COUNT - k,
    {
        let m = Metric::from_index(k);
        if form.field(m) == FieldValue::Malformed {
            return Err(IngestError::InvalidMetric(m));
        }
        k = k + 1;
    }
    let device_type = match &form.device_type {
        Some(d) => d.clone(),
        None => {
            return Err(IngestError::MissingDeviceType);
        },
    };
    let mut rep = WeatherReport::with_oid(oid, device_type, timestamp);
    let mut k: usize = 0;
    while k < METRIC_COUNT
        invariant
            k <= METRIC_COUNT,
            rep@.oid == oid@,
            rep@.id == 0,
            rep@.timestamp == timestamp,
            rep@.device_type == form.device_type->0@,
            rep@.metrics.len() == METRIC_COUNT,
            forall|i: int| 0 <= i < k ==> #[trigger] rep@.metrics[i] == form.fields()[i].as_option(),
            forall|i: int| k <= i < METRIC_COUNT ==> #[trigger] rep@.metrics[i] is None,
        decreases METRIC_COUNT - k,
    {
        let m = Metric::from_index(k);
        match form.field(m) {
            FieldValue::Value(v) => rep.set_metric(m, Some(v)),
            _ => {},
        }
        k = k + 1;
    }
    assert(rep@.metrics =~= form.fields().map_values(|f: FieldValue| f.as_option()));
    Ok(rep)
}

pub open spec fn header_matches(header: Option<&str>, key: Seq<char>) -> bool {
    match header {
        Some(h) => h@ == key,
        None => false,
    }
}

/// Exact comparison of the shared-secret header with the configured key.
pub fn authorized(config: &Config, header: Option<&str>) -> (r: bool)
    ensures
        r == header_matches(header, config.apikey@),
{
    match header {
        Some(h) => String::from_str(h) == config.apikey,
        None => false,
    }
}

/// Path under which both endpoints are served.
pub const REPORTS_PATH: &'static str = "/api/weather_reports";

/// What a request asks for.
#[derive(Clone, Copy, Debug, PartialEq, Eq, Structural)]
pub enum Route {
    /// Unauthenticated: the same answer as an unknown route.
    NotFound,
    Ingest,
    Latest,
    /// Authenticated, but neither endpoint.
    Other,
}

/// Routes a request. A request without the right key is refused with
/// `NotFound` whatever it asks for.
pub fn route(config: &Config, header: Option<&str>, url: &str, method: &str) -> (r: Route)
    ensures
        !header_matches(header, config.apikey@) ==> r == Route::NotFound,
        header_matches(header, config.apikey@) ==> r == (if url@ == REPORTS_PATH@ && method@ == "POST"@ {
            Route::Ingest
        } else if url@ == REPORTS_PATH@ && method@ == "GET"@ {
            Route::Latest
        } else {
            Route::Other
        }),
{
    if !authorized(config, header) {
        return Route::NotFound;
    }
    let on_path = String::from_str(url) == String::from_str(REPORTS_PATH);
    let m = String::from_str(method);
    if on_path && m == String::from_str("POST") {
        Route::Ingest
    } else if on_path && m == String::from_str("GET") {
        Route::Latest
    } else {
        Route::Other
    }
}

/// The outcome of a request against the store.
#[derive(Debug)]
pub enum Reply {
    /// Missing or wrong key, or an unknown route.
    NotFound,
    /// The ingest form was refused.
    Invalid(IngestError),
    /// The reading was stored; the echo of what was accepted.
    Accepted(WeatherReport),
    /// The newest stored reading.
    Found(WeatherReport),
    /// Nothing is stored yet.
    NoData,
    /// The store failed.
    Failed(StorageError),
}

/// The reply to a latest-reading query given its result rows, newest first.
pub fn latest_reply(rows: Vec<WeatherReport>) -> (r: Reply)
    ensures
        rows@.len() == 0 ==> r is NoData,
        rows@.len() > 0 ==> (r matches Reply::Found(rep) && rep@ == rows@[0]@),
{
    let mut rows = rows;
    if rows.len() == 0 {
        Reply::NoData
    } else {
        Reply::Found(rows.swap_remove(0))
    }
}

/// Ingest endpoint: authenticates, validates the form, builds the reading
/// with the given identifier and timestamp, upserts it and echoes it.
pub fn handle_ingest(
    store: &mut MemoryStore,
    config: &Config,
    header: Option<&str>,
    form: &IngestForm,
    oid: String,
    timestamp: i64,
) -> (r: Reply)
    requires
        old(store).wf(),
    ensures
        final(store).wf(),
        !header_matches(header, config.apikey@) ==> r is NotFound,
        !header_matches(header, config.apikey@) || form.has_malformed() || form.device_type is None
            ==> *final(store) == *old(store),
        header_matches(header, config.apikey@) ==> match r {
            Reply::Invalid(e) => form_error(*form, e),
            Reply::Accepted(rep) => !form.has_malformed() && form.device_type is Some
                && rep@ == ingested(*form, oid@, timestamp)
                && final(store).rows() == upserted(old(store).rows(), old(store).next_id(), rep@)
                && final(store).next_id() == next_after(old(store).rows(), old(store).next_id(), rep@),
            Reply::Failed(e) => !form.has_malformed() && form.device_type is Some
                && upsert_fails(old(store).rows(), old(store).next_id(), ingested(*form, oid@, timestamp))
                && *final(store) == *old(store),
            _ => false,
        },
        header_matches(header, config.apikey@) && (form.has_malformed() || form.device_type is None)
            ==> r is Invalid,
        header_matches(header, config.apikey@) && !form.has_malformed() && form.device_type is Some
            && !upsert_fails(old(store).rows(), old(store).next_id(), ingested(*form, oid@, timestamp))
            ==> r is Accepted,
{
    if !authorized(config, header) {
        return Reply::NotFound;
    }
    match accept_form(form, oid, timestamp) {
        Err(e) => Reply::Invalid(e),
        Ok(rep) => match store.upsert(&rep) {
            Ok(()) => Reply::Accepted(rep),
            Err(e) => Reply::Failed(e),
        },
    }
}

/// Latest endpoint: authenticates and replies with the newest stored
/// reading, or `NoData` while the store is empty.
pub fn handle_latest(store: &MemoryStore, config: &Config, header: Option<&str>) -> (r: Reply)
    requires
        store.wf(),
    ensures
        !header_matches(header, config.apikey@) ==> r is NotFound,
        header_matches(header, config.apikey@) && latest(store.rows()) is None ==> r is NoData,
        header_matches(header, config.apikey@) && latest(store.rows()) is Some ==> (r matches Reply::Found(rep)
            && latest(store.rows()) == Some(rep@)),
{
    if !authorized(config, header) {
        return Reply::NotFound;
    }
    match store.latest() {
        Some(rep) => Reply::Found(rep),
        None => Reply::NoData,
    }
}

} // verus!
