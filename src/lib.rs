//! Weather readings from homebrew sensor devices: the record model, the
//! query builder, the upsert-by-presence plan and store, and the request
//! handlers that authenticate, validate and drive the store.
pub mod handler;
pub mod laws;
pub mod plan;
pub mod query;
pub mod report;
pub mod store;

pub use handler::{
    accept_form, authorized, handle_ingest, handle_latest, latest_reply, route, FieldValue, IngestError,
    IngestForm, Reply, Route, REPORTS_PATH,
};
pub use plan::{plan_upsert, Statement};
pub use query::{build_select, decimal_string};
pub use report::{Config, Metric, PostgresServer, WeatherReport, OID_LEN};
pub use store::{MemoryStore, StorageError};
