use vstd::prelude::*;
use rand::Rng;

verus! {

/// Number of metric fields a reading carries.
pub const METRIC_COUNT: usize = 7;

/// One of the optional measurements of a reading.
#[derive(Clone, Copy, Debug, PartialEq, Eq, Structural)]
pub enum Metric {
    Temperature,
    Humidity,
    Percipitation,
    Pm10,
    Pm25,
    Co2,
    Tvoc,
}

impl Metric {
    /// Position of the metric in the fixed column order.
    pub open spec fn index(self) -> int {
        match self {
            Metric::Temperature => 0,
            Metric::Humidity => 1,
            Metric::Percipitation => 2,
            Metric::Pm10 => 3,
            Metric::Pm25 => 4,
            Metric::Co2 => 5,
            Metric::Tvoc => 6,
        }
    }

    /// Column (and form field) name of the metric.
    pub open spec fn spec_column(self) -> Seq<char> {
        match self {
            Metric::Temperature => "temperature"@,
            Metric::Humidity => "humidity"@,
            Metric::Percipitation => "percipitation"@,
            Metric::Pm10 => "pm10"@,
            Metric::Pm25 => "pm25"@,
            Metric::Co2 => "co2"@,
            Metric::Tvoc => "tvoc"@,
        }
    }

    /// The metric at position `i` of the column order.
    pub open spec fn at(i: int) -> Metric {
        if i == 0 {
            Metric::Temperature
        } else if i == 1 {
            Metric::Humidity
        } else if i == 2 {
            Metric::Percipitation
        } else if i == 3 {
            Metric::Pm10
        } else if i == 4 {
            Metric::Pm25
        } else if i == 5 {
            Metric::Co2
        } else {
            Metric::Tvoc
        }
    }

    pub fn from_index(i: usize) -> (m: Metric)
        requires
            i < METRIC_COUNT,
        ensures
            m.index() == i,
            m == Metric::at(i as int),
    {
        if i == 0 {
            Metric::Temperature
        } else if i == 1 {
            Metric::Humidity
        } else if i == 2 {
            Metric::Percipitation
        } else if i == 3 {
            Metric::Pm10
        } else if i == 4 {
            Metric::Pm25
        } else if i == 5 {
            Metric::Co2
        } else {
            Metric::Tvoc
        }
    }

    pub fn column(self) -> (r: &'static str)
        ensures
            r@ == self.spec_column(),
    {
        match self {
            Metric::Temperature => "temperature",
            Metric::Humidity => "humidity",
            Metric::Percipitation => "percipitation",
            Metric::Pm10 => "pm10",
            Metric::Pm25 => "pm25",
            Metric::Co2 => "co2",
            Metric::Tvoc => "tvoc",
        }
    }
}

/// Connection parameters of the backing Postgres database.
#[derive(Clone, Debug)]
pub struct PostgresServer {
    pub db_name: String,
    pub username: String,
    pub password: String,
    pub address: String,
}

/// Configuration captured once at start-up and shared by every handler.
#[derive(Clone, Debug)]
pub struct Config {
    pub apikey: String,
    pub pg: PostgresServer,
    pub port: u16,
}

/// Mathematical model of a reading. A metric is the IEEE-754 bit pattern of
/// the measured value, `None` while it has not been reported.
pub struct ReportView {
    pub id: i32,
    pub oid: Seq<char>,
    pub metrics: Seq<Option<u64>>,
    pub device_type: Seq<char>,
    pub timestamp: i64,
}

impl ReportView {
    pub open spec fn metric(self, m: Metric) -> Option<u64> {
        self.metrics[m.index()]
    }

    pub open spec fn with_metric(self, m: Metric, v: Option<u64>) -> ReportView {
        ReportView { metrics: self.metrics.update(m.index(), v), ..self }
    }

    /// A fresh row: identity fields set, every metric absent.
    pub open spec fn skeleton(id: i32, oid: Seq<char>, device_type: Seq<char>, timestamp: i64) -> ReportView {
        ReportView {
            id,
            oid,
            metrics: Seq::new(METRIC_COUNT as nat, |i: int| None::<u64>),
            device_type,
            timestamp,
        }
    }
}

/// One measurement event of one device. Metric values are stored as the
/// IEEE-754 bit patterns of the decimal readings (`f64::to_bits`).
#[derive(Clone, Debug)]
pub struct WeatherReport {
    pub id: i32,
    pub oid: String,
    pub temperature: Option<u64>,
    pub humidity: Option<u64>,
    pub percipitation: Option<u64>,
    pub pm10: Option<u64>,
    pub pm25: Option<u64>,
    pub co2: Option<u64>,
    pub tvoc: Option<u64>,
    pub device_type: String,
    pub timestamp: i64,
}

impl View for WeatherReport {
    type V = ReportView;

    open spec fn view(&self) -> ReportView {
        ReportView {
            id: self.id,
            oid: self.oid@,
            metrics: seq![
                self.temperature,
                self.humidity,
                self.percipitation,
                self.pm10,
                self.pm25,
                self.co2,
                self.tvoc,
            ],
            device_type: self.device_type@,
            timestamp: self.timestamp,
        }
    }
}

/// Length of the identifier generated for a new reading.
pub const OID_LEN: usize = 15;

pub open spec fn is_alphanumeric(c: char) -> bool {
    ('A' <= c && c <= 'Z') || ('a' <= c && c <= 'z') || ('0' <= c && c <= '9')
}

/// Relies on rand's `thread_rng` sampled through the `Alphanumeric`
/// distribution: `len` characters, each drawn from A-Z, a-z and 0-9.
/// (`thread_rng` panics only if the operating system's random source fails
/// when it is first seeded.)
#[verifier::external_body]
fn random_alphanumeric(len: usize) -> (r: String)
    ensures
        r@.len() == len,
        forall|i: int| 0 <= i < r@.len() ==> is_alphanumeric(#[trigger] r@[i]),
{
    rand::thread_rng().sample_iter(&rand::distributions::Alphanumeric).take(len).map(char::from).collect()
}

impl WeatherReport {
    /// A new reading with a freshly generated identifier, taken at
    /// `timestamp` (epoch seconds), device type "other" and no metrics.
    pub fn new(timestamp: i64) -> (r: WeatherReport)
        ensures
            r@.oid.len() == OID_LEN,
            forall|i: int| 0 <= i < r@.oid.len() ==> is_alphanumeric(#[trigger] r@.oid[i]),
            r@ == ReportView::skeleton(0, r@.oid, "other"@, timestamp),
    {
        let oid = random_alphanumeric(OID_LEN);
        WeatherReport::with_oid(oid, String::from_str("other"), timestamp)
    }

    /// A reading with the given identity fields and no metrics.
    pub fn with_oid(oid: String, device_type: String, timestamp: i64) -> (r: WeatherReport)
        ensures
            r@ == ReportView::skeleton(0, oid@, device_type@, timestamp),
    {
        let r = WeatherReport {
            id: 0,
            oid,
            temperature: None,
            humidity: None,
            percipitation: None,
            pm10: None,
            pm25: None,
            co2: None,
            tvoc: None,
            device_type,
            timestamp,
        };
        assert(r@.metrics =~= Seq::new(METRIC_COUNT as nat, |i: int| None::<u64>));
        r
    }

    pub fn metric(&self, m: Metric) -> (r: Option<u64>)
        ensures
            r == self@.metric(m),
    {
        match m {
            Metric::Temperature => self.temperature,
            Metric::Humidity => self.humidity,
            Metric::Percipitation => self.percipitation,
            Metric::Pm10 => self.pm10,
            Metric::Pm25 => self.pm25,
            Metric::Co2 => self.co2,
            Metric::Tvoc => self.tvoc,
        }
    }

    pub fn set_metric(&mut self, m: Metric, v: Option<u64>)
        ensures
            final(self)@ == old(self)@.with_metric(m, v),
    {
        match m {
            Metric::Temperature => self.temperature = v,
            Metric::Humidity => self.humidity = v,
            Metric::Percipitation => self.percipitation = v,
            Metric::Pm10 => self.pm10 = v,
            Metric::Pm25 => self.pm25 = v,
            Metric::Co2 => self.co2 = v,
            Metric::Tvoc => self.tvoc = v,
        }
        assert(self@.metrics =~= old(self)@.metrics.update(m.index(), v));
    }

    /// A field-by-field copy.
    pub fn duplicate(&self) -> (r: WeatherReport)
        ensures
            r@ == self@,
    {
        WeatherReport {
            id: self.id,
            oid: self.oid.clone(),
            temperature: self.temperature,
            humidity: self.humidity,
            percipitation: self.percipitation,
            pm10: self.pm10,
            pm25: self.pm25,
            co2: self.co2,
            tvoc: self.tvoc,
            device_type: self.device_type.clone(),
            timestamp: self.timestamp,
        }
    }

    /// Name of the table the readings are stored in.
    pub fn sql_table_name() -> (r: String)
        ensures
            r@ == "weather_reports"@,
    {
        String::from_str("weather_reports")
    }

    /// Statement that creates the readings table.
    pub fn sql_build_statement() -> (r: &'static str)
        ensures
            r@ == CREATE_TABLE@,
    {
        CREATE_TABLE
    }

    /// Schema migrations run after the table is created, in order.
    pub fn migrations() -> (r: Vec<&'static str>)
        ensures
            r@.len() == 1,
            r@[0]@ == ""@,
    {
        vec![""]
    }
}

/// Schema of the readings table.
pub const CREATE_TABLE: &'static str = "CREATE TABLE public.weather_reports (
            id serial NOT NULL,
            oid varchar NOT NULL UNIQUE,
            temperature DOUBLE PRECISION NULL,
            humidity DOUBLE PRECISION NULL,
            percipitation DOUBLE PRECISION NULL,
            pm10 DOUBLE PRECISION NULL,
            pm25 DOUBLE PRECISION NULL,
            co2 DOUBLE PRECISION NULL,
            tvoc DOUBLE PRECISION NULL,
            device_type VARCHAR NULL,
            timestamp BIGINT DEFAULT 0,
            CONSTRAINT weather_reports_pkey PRIMARY KEY (id));";

} // verus!
