//! Runtime behavior: composing CEF lines through the traits, error
//! propagation, and the timestamp extension.

use rust_cef::{
    Annotation, CefConversionError, CefExtensions, CefExtensionsResult, CefHeaderDeviceEventClassID,
    CefHeaderDeviceProduct, CefHeaderDeviceVendor, CefHeaderDeviceVersion, CefHeaderName,
    CefHeaderSeverity, CefHeaderVersion, CefResult, ExtensionsCollector, HeaderName, ToCef,
    TypeSchema,
};
use time::OffsetDateTime;

struct GoodExample {}

impl ToCef for GoodExample {}

impl CefHeaderVersion for GoodExample {
    fn cef_header_version(&self) -> CefResult {
        Ok("0".to_owned())
    }
}

impl CefHeaderDeviceVendor for GoodExample {
    fn cef_header_device_vendor(&self) -> CefResult {
        Ok("polyverse".to_owned())
    }
}

impl CefHeaderDeviceProduct for GoodExample {
    fn cef_header_device_product(&self) -> CefResult {
        Ok("zerotect".to_owned())
    }
}

impl CefHeaderDeviceVersion for GoodExample {
    fn cef_header_device_version(&self) -> CefResult {
        Ok("V1".to_owned())
    }
}

impl CefHeaderDeviceEventClassID for GoodExample {
    fn cef_header_device_event_class_id(&self) -> CefResult {
        Ok("LinuxKernelTrap".to_owned())
    }
}

impl CefHeaderName for GoodExample {
    fn cef_header_name(&self) -> CefResult {
        Ok("Linux Kernel Trap".to_owned())
    }
}

impl CefHeaderSeverity for GoodExample {
    fn cef_header_severity(&self) -> CefResult {
        Ok("10".to_owned())
    }
}

impl CefExtensions for GoodExample {
    fn cef_extensions(&self, collector: &mut ExtensionsCollector) -> CefExtensionsResult {
        collector.insert("customField1", "customValue1".to_owned());
        collector.insert("customField2", "customValue2".to_owned());
        collector.insert("customField3", "customValue2".to_owned());
        collector.insert("customField4", "customValue3".to_owned());
        Ok(())
    }
}

struct BadExample {}

impl ToCef for BadExample {}

impl CefHeaderVersion for BadExample {
    fn cef_header_version(&self) -> CefResult {
        Ok("0".to_owned())
    }
}

impl CefHeaderDeviceVendor for BadExample {
    fn cef_header_device_vendor(&self) -> CefResult {
        Ok("polyverse".to_owned())
    }
}

impl CefHeaderDeviceProduct for BadExample {
    fn cef_header_device_product(&self) -> CefResult {
        Ok("zerotect".to_owned())
    }
}

impl CefHeaderDeviceVersion for BadExample {
    fn cef_header_device_version(&self) -> CefResult {
        Ok("V1".to_owned())
    }
}

impl CefHeaderDeviceEventClassID for BadExample {
    fn cef_header_device_event_class_id(&self) -> CefResult {
        Err(CefConversionError::Unexpected(
            "This error should propagate".to_owned(),
        ))
    }
}

impl CefHeaderName for BadExample {
    fn cef_header_name(&self) -> CefResult {
        Ok("Linux Kernel Trap".to_owned())
    }
}

impl CefHeaderSeverity for BadExample {
    fn cef_header_severity(&self) -> CefResult {
        Ok("10".to_owned())
    }
}

impl CefExtensions for BadExample {
    fn cef_extensions(&self, collector: &mut ExtensionsCollector) -> CefExtensionsResult {
        collector.insert("customField", "customValue".to_owned());
        Ok(())
    }
}

#[test]
fn test_impl_works() {
    let example = GoodExample {};
    let result = example.to_cef();
    assert!(result.is_ok());
    assert_eq!(result.unwrap(), "CEF:0|polyverse|zerotect|V1|LinuxKernelTrap|Linux Kernel Trap|10|customField1=customValue1 customField2=customValue2 customField3=customValue2 customField4=customValue3");
}

#[test]
fn test_error_propagates() {
    let example = BadExample {};
    let result = example.to_cef();
    assert!(result.is_err());
    assert_eq!(
        result.unwrap_err(),
        CefConversionError::Unexpected("This error should propagate".to_owned())
    );
}

#[test]
fn test_ext_for_datetime() {
    let mut collector = ExtensionsCollector::new();
    let example = OffsetDateTime::from_unix_timestamp_nanos(3435315515325000000).unwrap();
    let result = example.cef_extensions(&mut collector);
    assert!(result.is_ok());

    let maybe_rt = collector.get("rt");
    assert!(maybe_rt.is_some());

    let rt = maybe_rt.unwrap();
    assert_eq!(rt, "3435315515325");
}

/// The type of the all-fixed-headers example: every header value is supplied
/// at the type root, exactly as the generated accessors would return them.
struct AllFixedHeadersStruct {}

impl ToCef for AllFixedHeadersStruct {}

impl CefHeaderVersion for AllFixedHeadersStruct {
    fn cef_header_version(&self) -> CefResult {
        Ok("0".to_owned())
    }
}

impl CefHeaderDeviceVendor for AllFixedHeadersStruct {
    fn cef_header_device_vendor(&self) -> CefResult {
        Ok("polyverse".to_owned())
    }
}

impl CefHeaderDeviceProduct for AllFixedHeadersStruct {
    fn cef_header_device_product(&self) -> CefResult {
        Ok("zerotect".to_owned())
    }
}

impl CefHeaderDeviceVersion for AllFixedHeadersStruct {
    fn cef_header_device_version(&self) -> CefResult {
        Ok("V1".to_owned())
    }
}

impl CefHeaderDeviceEventClassID for AllFixedHeadersStruct {
    fn cef_header_device_event_class_id(&self) -> CefResult {
        Ok("segfault".to_owned())
    }
}

impl CefHeaderName for AllFixedHeadersStruct {
    fn cef_header_name(&self) -> CefResult {
        Ok("attack".to_owned())
    }
}

impl CefHeaderSeverity for AllFixedHeadersStruct {
    fn cef_header_severity(&self) -> CefResult {
        Ok("High".to_owned())
    }
}

impl CefExtensions for AllFixedHeadersStruct {
    fn cef_extensions(&self, _collector: &mut ExtensionsCollector) -> CefExtensionsResult {
        Ok(())
    }
}

fn fixed(target: HeaderName, literal: &str) -> Annotation {
    Annotation::FixedValue {
        target,
        literal: literal.to_owned(),
    }
}

#[test]
fn test_derive_to_cef() {
    // The schema the example declares: all seven headers fixed at the root.
    let schema = TypeSchema::Record {
        fields: vec![],
        annotations: vec![
            fixed(HeaderName::Version, "0"),
            fixed(HeaderName::DeviceVendor, "polyverse"),
            fixed(HeaderName::DeviceProduct, "zerotect"),
            fixed(HeaderName::DeviceVersion, "V1"),
            fixed(HeaderName::DeviceEventClassID, "segfault"),
            fixed(HeaderName::Name, "attack"),
            fixed(HeaderName::Severity, "High"),
        ],
    };
    let generated = rust_cef::generate_impls("AllFixedHeadersStruct", &schema);
    assert!(generated.is_ok());
    assert!(generated
        .unwrap()
        .contains("impl rust_cef::ToCef for AllFixedHeadersStruct { }"));

    let example1 = AllFixedHeadersStruct {};
    let result = example1.to_cef();
    assert!(result.is_ok());
    // An empty extensions map leaves a trailing empty extensions field after
    // the seventh header's separator.
    assert_eq!(
        result.unwrap(),
        "CEF:0|polyverse|zerotect|V1|segfault|attack|High|"
    );
}

struct AllFixedHeadersCustomExtensions {}

impl ToCef for AllFixedHeadersCustomExtensions {}

impl CefHeaderVersion for AllFixedHeadersCustomExtensions {
    fn cef_header_version(&self) -> CefResult {
        Ok("0".to_owned())
    }
}

impl CefHeaderDeviceVendor for AllFixedHeadersCustomExtensions {
    fn cef_header_device_vendor(&self) -> CefResult {
        Ok("polyverse".to_owned())
    }
}

impl CefHeaderDeviceProduct for AllFixedHeadersCustomExtensions {
    fn cef_header_device_product(&self) -> CefResult {
        Ok("zerotect".to_owned())
    }
}

impl CefHeaderDeviceVersion for AllFixedHeadersCustomExtensions {
    fn cef_header_device_version(&self) -> CefResult {
        Ok("V1".to_owned())
    }
}

impl CefHeaderDeviceEventClassID for AllFixedHeadersCustomExtensions {
    fn cef_header_device_event_class_id(&self) -> CefResult {
        Ok("LinuxKernelFault".to_owned())
    }
}

impl CefHeaderName for AllFixedHeadersCustomExtensions {
    fn cef_header_name(&self) -> CefResult {
        Ok("Linux Kernel Fault".to_owned())
    }
}

impl CefHeaderSeverity for AllFixedHeadersCustomExtensions {
    fn cef_header_severity(&self) -> CefResult {
        Ok("10".to_owned())
    }
}

impl CefExtensions for AllFixedHeadersCustomExtensions {
    fn cef_extensions(&self, collector: &mut ExtensionsCollector) -> CefExtensionsResult {
        collector.insert("extension1", "value1".to_owned());
        Ok(())
    }
}

#[test]
fn test_to_cef_with_fixed_headers_and_custom_extensions() {
    let t = AllFixedHeadersCustomExtensions {};
    assert_eq!(
        t.to_cef().unwrap(),
        "CEF:0|polyverse|zerotect|V1|LinuxKernelFault|Linux Kernel Fault|10|extension1=value1"
    )
}

struct ManualAndFixedHeaders {}

impl ToCef for ManualAndFixedHeaders {}

impl CefHeaderVersion for ManualAndFixedHeaders {
    fn cef_header_version(&self) -> CefResult {
        Ok("customVersion".to_owned())
    }
}

impl CefHeaderDeviceVendor for ManualAndFixedHeaders {
    fn cef_header_device_vendor(&self) -> CefResult {
        Ok("polyverse".to_owned())
    }
}

impl CefHeaderDeviceProduct for ManualAndFixedHeaders {
    fn cef_header_device_product(&self) -> CefResult {
        Ok("zerotect".to_owned())
    }
}

impl CefHeaderDeviceVersion for ManualAndFixedHeaders {
    fn cef_header_device_version(&self) -> CefResult {
        Ok("V1".to_owned())
    }
}

impl CefHeaderDeviceEventClassID for ManualAndFixedHeaders {
    fn cef_header_device_event_class_id(&self) -> CefResult {
        Ok("LinuxKernelFault".to_owned())
    }
}

impl CefHeaderName for ManualAndFixedHeaders {
    fn cef_header_name(&self) -> CefResult {
        Ok("Linux Kernel Fault".to_owned())
    }
}

impl CefHeaderSeverity for ManualAndFixedHeaders {
    fn cef_header_severity(&self) -> CefResult {
        Ok("10".to_owned())
    }
}

impl CefExtensions for ManualAndFixedHeaders {
    fn cef_extensions(&self, _collector: &mut ExtensionsCollector) -> CefExtensionsResult {
        Ok(())
    }
}

#[test]
fn test_to_cef_with_fixed_and_manual_headers() {
    let t = ManualAndFixedHeaders {};
    assert_eq!(
        t.to_cef().unwrap(),
        "CEF:customVersion|polyverse|zerotect|V1|LinuxKernelFault|Linux Kernel Fault|10|"
    )
}

#[test]
fn test_error_message_rendering() {
    let e = CefConversionError::Unexpected("boom".to_owned());
    assert_eq!(e.message(), "CefConversionError::Unexpected boom");
}

#[test]
fn test_millis_decimal_truncates_toward_zero() {
    assert_eq!(rust_cef::timestamp::millis_decimal(1_500_000), "1");
    assert_eq!(rust_cef::timestamp::millis_decimal(-1_500_000), "-1");
    assert_eq!(rust_cef::timestamp::millis_decimal(-500_000), "0");
    assert_eq!(rust_cef::timestamp::millis_decimal(0), "0");
    assert_eq!(
        rust_cef::timestamp::millis_decimal(3435315515325000000),
        "3435315515325"
    );
}

#[test]
fn test_collector_last_write_wins() {
    let mut collector = ExtensionsCollector::new();
    collector.insert("key", "first".to_owned());
    collector.insert("key", "second".to_owned());
    assert_eq!(collector.len(), 1);
    assert_eq!(collector.get("key"), Some(&"second".to_owned()));
    assert_eq!(collector.get("other"), None);
}

#[test]
fn test_collector_renders_sorted_by_key() {
    let mut collector = ExtensionsCollector::new();
    collector.insert("zebra", "1".to_owned());
    collector.insert("alpha", "2".to_owned());
    collector.insert("middle", "3".to_owned());
    assert_eq!(collector.extensions_string(), "alpha=2 middle=3 zebra=1");
}

#[test]
fn test_compose_cef_line_layout() {
    let empty = ExtensionsCollector::new();
    let line = rust_cef::compose_cef_line("0", "acme", "widget", "V1", "evt", "Evt", "5", &empty);
    assert_eq!(line, "CEF:0|acme|widget|V1|evt|Evt|5|");
}

#[test]
fn test_compose_outcomes_first_failure_wins() {
    let empty = ExtensionsCollector::new();
    let ext_err = CefConversionError::Unexpected("extensions failed".to_owned());
    let vendor_err = CefConversionError::Unexpected("vendor failed".to_owned());
    let name_err = CefConversionError::Unexpected("name failed".to_owned());

    // The extensions step fails first: its error surfaces, unchanged, even
    // though a header also failed.
    let r = rust_cef::compose_outcomes(
        Err(ext_err.clone()),
        &empty,
        Ok("0".to_owned()),
        Err(vendor_err.clone()),
        Ok("widget".to_owned()),
        Ok("V1".to_owned()),
        Ok("evt".to_owned()),
        Ok("Evt".to_owned()),
        Ok("5".to_owned()),
    );
    assert_eq!(r, Err(ext_err));

    // With extensions fine, the first failing header in CEF order wins.
    let r = rust_cef::compose_outcomes(
        Ok(()),
        &empty,
        Ok("0".to_owned()),
        Err(vendor_err.clone()),
        Ok("widget".to_owned()),
        Ok("V1".to_owned()),
        Ok("evt".to_owned()),
        Err(name_err),
        Ok("5".to_owned()),
    );
    assert_eq!(r, Err(vendor_err));

    // With every accessor succeeding, the line is composed exactly.
    let r = rust_cef::compose_outcomes(
        Ok(()),
        &empty,
        Ok("0".to_owned()),
        Ok("acme".to_owned()),
        Ok("widget".to_owned()),
        Ok("V1".to_owned()),
        Ok("evt".to_owned()),
        Ok("Evt".to_owned()),
        Ok("5".to_owned()),
    );
    assert_eq!(r, Ok("CEF:0|acme|widget|V1|evt|Evt|5|".to_owned()));
}
