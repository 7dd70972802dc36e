//! An in-process registry that lets connected clients declare interest in
//! payment offers and lets unrelated callers ask, on demand, that some
//! current subscriber of an offer produce an invoice for it, carrying the
//! answer back over a broadcast topic correlated by an opaque hook id.

pub mod bus;
pub mod conn_index;
pub mod offer_key;
pub mod registry;

pub use registry::InvoiceHook;
pub use registry::OfferSubscriptions;
pub use registry::RequestInvoiceError;
