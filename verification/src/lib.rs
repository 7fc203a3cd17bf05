//! Generation of Common Event Format (CEF) log lines from annotated type
//! schemas: a resolution engine that decides, for each of the seven fixed
//! CEF headers and for the open-ended extensions map, which source supplies
//! the value, and emits the accessor logic; plus the runtime traits and the
//! composer that joins header values and extensions into the final line.

pub mod emit;
pub mod extensions;
pub mod laws;
pub mod parse;
pub mod resolve;
pub mod runtime;
pub mod schema;
pub mod text;
pub mod timestamp;

pub use emit::{
    derive_cef_extensions, derive_cef_header_device_event_class_id,
    derive_cef_header_device_product, derive_cef_header_device_vendor,
    derive_cef_header_device_version, derive_cef_header_name, derive_cef_header_severity,
    derive_cef_header_version, derive_to_cef, generate_impls, implement_extensions_trait,
    implement_header_trait,
};
pub use extensions::resolve_extensions;
pub use parse::{parse_annotation, parse_attrs_to_name_value, parse_site_annotations};
pub use resolve::resolve_header;
pub use runtime::{
    CefConversionError, CefExtensions, CefExtensionsResult, CefHeaderDeviceEventClassID,
    CefHeaderDeviceProduct, CefHeaderDeviceVendor, CefHeaderDeviceVersion, CefHeaderName,
    CefHeaderSeverity, CefHeaderVersion, CefResult, ExtensionsCollector, ToCef, compose_cef_line,
    compose_outcomes,
};
pub use schema::{
    Annotation, Field, FieldIdent, GenError, HeaderSource, ResolvedExtensions, ResolvedHeader,
    SiteRef, TypeSchema, Variant,
};

use vstd::prelude::*;

verus! {

/// The seven fixed CEF header names, in the order they appear in a line.
#[derive(Clone, Copy, Debug, PartialEq, Eq, Structural)]
pub enum HeaderName {
    Version,
    DeviceVendor,
    DeviceProduct,
    DeviceVersion,
    DeviceEventClassID,
    Name,
    Severity,
}

} // verus!
