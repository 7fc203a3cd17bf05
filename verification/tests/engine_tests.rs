//! The resolution engine: header arbitration, extension collection, the
//! annotation parser, and the emitted accessor text.

use rust_cef::{
    Annotation, CefExtensions, CefExtensionsResult, CefHeaderName, CefHeaderVersion, CefResult,
    ExtensionsCollector, Field, FieldIdent, GenError, HeaderName, HeaderSource,
    ResolvedExtensions, ResolvedHeader, SiteRef, TypeSchema, Variant,
};
use rust_cef::parse::{RawArg, RawAttribute};
use rust_cef::schema::{DispatchArm, ExtensionContribution, VariantExtensions};

fn fixed(target: HeaderName, literal: &str) -> Annotation {
    Annotation::FixedValue {
        target,
        literal: literal.to_owned(),
    }
}

fn named_field(name: &str, annotations: Vec<Annotation>) -> Field {
    Field {
        identity: FieldIdent::Named(name.to_owned()),
        annotations,
    }
}

fn positional_field(index: usize, annotations: Vec<Annotation>) -> Field {
    Field {
        identity: FieldIdent::Positional(index),
        annotations,
    }
}

struct SingleHeader {}

impl rust_cef::CefHeaderVersion for SingleHeader {
    fn cef_header_version(&self) -> CefResult {
        Ok("4234".to_owned())
    }
}

struct MultipleAttrs {}

impl rust_cef::CefHeaderVersion for MultipleAttrs {
    fn cef_header_version(&self) -> CefResult {
        Ok("3424".to_owned())
    }
}

impl CefHeaderName for MultipleAttrs {
    fn cef_header_name(&self) -> CefResult {
        Ok("name1".to_owned())
    }
}

struct MultipleHeaders {}

impl rust_cef::CefHeaderVersion for MultipleHeaders {
    fn cef_header_version(&self) -> CefResult {
        Ok("3235".to_owned())
    }
}

impl CefHeaderName for MultipleHeaders {
    fn cef_header_name(&self) -> CefResult {
        Ok("name2".to_owned())
    }
}

#[test]
fn test_cef_fixed_headers() {
    // A single fixed header at the root resolves to exactly that literal.
    let single = TypeSchema::Record {
        fields: vec![],
        annotations: vec![fixed(HeaderName::Version, "4234")],
    };
    assert_eq!(
        rust_cef::resolve_header(&single, HeaderName::Version),
        Ok(ResolvedHeader::Value(HeaderSource::Fixed("4234".to_owned())))
    );
    let sh = SingleHeader {};
    assert_eq!(sh.cef_header_version().unwrap(), "4234");

    // Two separate annotation occurrences, one header each.
    let multiple_attrs = TypeSchema::Record {
        fields: vec![],
        annotations: vec![
            fixed(HeaderName::Version, "3424"),
            fixed(HeaderName::Name, "name1"),
        ],
    };
    assert_eq!(
        rust_cef::resolve_header(&multiple_attrs, HeaderName::Version),
        Ok(ResolvedHeader::Value(HeaderSource::Fixed("3424".to_owned())))
    );
    assert_eq!(
        rust_cef::resolve_header(&multiple_attrs, HeaderName::Name),
        Ok(ResolvedHeader::Value(HeaderSource::Fixed("name1".to_owned())))
    );
    let ma = MultipleAttrs {};
    assert_eq!(ma.cef_header_version().unwrap(), "3424");
    assert_eq!(ma.cef_header_name().unwrap(), "name1");

    // One annotation occurrence carrying two headers.
    let multiple_headers = TypeSchema::Record {
        fields: vec![],
        annotations: vec![
            fixed(HeaderName::Version, "3235"),
            fixed(HeaderName::Name, "name2"),
        ],
    };
    assert_eq!(
        rust_cef::resolve_header(&multiple_headers, HeaderName::Version),
        Ok(ResolvedHeader::Value(HeaderSource::Fixed("3235".to_owned())))
    );
    let mh = MultipleHeaders {};
    assert_eq!(mh.cef_header_version().unwrap(), "3235");
    assert_eq!(mh.cef_header_name().unwrap(), "name2");
}

struct NameStruct {
    pub name: String,
}

impl CefHeaderName for NameStruct {
    fn cef_header_name(&self) -> CefResult {
        Ok(format!("{}", &self.name))
    }
}

impl CefExtensions for NameStruct {
    fn cef_extensions(&self, collector: &mut ExtensionsCollector) -> CefExtensionsResult {
        collector.insert("newname", format!("{}", &self.name));
        Ok(())
    }
}

struct NameInheritorStruct {
    pub name_struct: NameStruct,
    pub address: Option<String>,
    pub name_struct2: Option<NameStruct>,
    pub age: usize,
}

impl CefHeaderName for NameInheritorStruct {
    fn cef_header_name(&self) -> CefResult {
        CefHeaderName::cef_header_name(&self.name_struct)
    }
}

impl CefExtensions for NameInheritorStruct {
    fn cef_extensions(&self, collector: &mut ExtensionsCollector) -> CefExtensionsResult {
        collector.insert("TopStructField", "fixedExtensionsValue".to_owned());
        collector.insert(
            "name2",
            format!("NameStruct::{}", &self.name_struct.name),
        );
        if let Some(address) = &self.address {
            collector.insert("address", format!("{}", address));
        }
        if let Some(name_struct2) = &self.name_struct2 {
            CefExtensions::cef_extensions(name_struct2, collector)?;
        }
        collector.insert("person_age", format!("{}", &self.age));
        Ok(())
    }
}

#[test]
fn test_cef_extensions() {
    let n1 = NameStruct {
        name: "WillBeRenamed".to_owned(),
    };
    let mut collector = ExtensionsCollector::new();
    assert!(n1.cef_extensions(&mut collector).is_ok());
    assert_eq!(
        collector.get("newname"),
        Some(&"WillBeRenamed".to_owned())
    );
    // Header implementation still works
    assert_eq!(n1.cef_header_name().unwrap(), "WillBeRenamed");

    let n2 = NameInheritorStruct {
        name_struct: NameStruct {
            name: "NS1".to_owned(),
        },
        name_struct2: Some(NameStruct {
            name: "NS2".to_owned(),
        }),
        address: Some("An address of some sort".to_owned()),
        age: 42,
    };

    let mut collector = ExtensionsCollector::new();
    assert!(n2.cef_extensions(&mut collector).is_ok());
    assert_eq!(collector.get("newname"), Some(&"NS2".to_owned()));
    assert_eq!(
        collector.get("address"),
        Some(&"An address of some sort".to_owned())
    );
    assert_eq!(
        collector.get("name2"),
        Some(&"NameStruct::NS1".to_owned())
    );
    assert_eq!(collector.get("person_age"), Some(&"42".to_owned()));
}

#[test]
fn test_name_struct_schema_resolution() {
    // The schema NameStruct declares: one named field carrying a renamed
    // extension entry and a textual Name header.
    let schema = TypeSchema::Record {
        fields: vec![named_field(
            "name",
            vec![
                Annotation::ExtensionField {
                    rename: Some("newname".to_owned()),
                },
                Annotation::Display {
                    target: HeaderName::Name,
                },
            ],
        )],
        annotations: vec![],
    };
    assert_eq!(
        rust_cef::resolve_header(&schema, HeaderName::Name),
        Ok(ResolvedHeader::Value(HeaderSource::Display(
            FieldIdent::Named("name".to_owned())
        )))
    );
    assert_eq!(
        rust_cef::resolve_extensions(&schema),
        Ok(ResolvedExtensions::ForRecord(vec![
            ExtensionContribution::FieldValue {
                key: "newname".to_owned(),
                field: FieldIdent::Named("name".to_owned()),
            }
        ]))
    );
    assert_eq!(
        rust_cef::derive_cef_header_name("NameStruct", &schema).unwrap(),
        "impl rust_cef::CefHeaderName for NameStruct { fn cef_header_name(&self) -> rust_cef::CefResult { Ok(format!(\"{}\", &self.name)) } }"
    );
    assert_eq!(
        rust_cef::derive_cef_extensions("NameStruct", &schema).unwrap(),
        "impl rust_cef::CefExtensions for NameStruct { fn cef_extensions(&self, collector: &mut rust_cef::ExtensionsCollector) -> rust_cef::CefExtensionsResult { collector.insert(\"newname\", format!(\"{}\", &self.name)); Ok(()) } }"
    );

    // With the value "X" in the field, the Name header resolves to "X" and
    // the extensions resolve to one entry, newname=X.
    let value = NameStruct {
        name: "X".to_owned(),
    };
    assert_eq!(value.cef_header_name().unwrap(), "X");
    let mut collector = ExtensionsCollector::new();
    assert!(value.cef_extensions(&mut collector).is_ok());
    assert_eq!(collector.extensions_string(), "newname=X");
}

#[test]
fn test_union_dispatch_and_incomplete() {
    // Two variants, each supplying DeviceEventClassID through a different
    // field index, nothing at the union root: a two-armed dispatch.
    let v1 = Variant {
        name: "V1".to_owned(),
        fields: vec![positional_field(
            0,
            vec![Annotation::Display {
                target: HeaderName::DeviceEventClassID,
            }],
        )],
        annotations: vec![],
    };
    let v2 = Variant {
        name: "V2".to_owned(),
        fields: vec![
            positional_field(0, vec![]),
            positional_field(
                1,
                vec![Annotation::Display {
                    target: HeaderName::DeviceEventClassID,
                }],
            ),
        ],
        annotations: vec![],
    };
    let union2 = TypeSchema::Union {
        variants: vec![v1.clone(), v2.clone()],
        annotations: vec![],
    };
    assert_eq!(
        rust_cef::resolve_header(&union2, HeaderName::DeviceEventClassID),
        Ok(ResolvedHeader::Dispatch(vec![
            DispatchArm {
                variant_name: "V1".to_owned(),
                source: HeaderSource::Display(FieldIdent::Positional(0)),
            },
            DispatchArm {
                variant_name: "V2".to_owned(),
                source: HeaderSource::Display(FieldIdent::Positional(1)),
            },
        ]))
    );
    assert_eq!(
        rust_cef::implement_header_trait("Top", HeaderName::DeviceEventClassID, &union2).unwrap(),
        "impl rust_cef::CefHeaderDeviceEventClassID for Top { fn cef_header_device_event_class_id(&self) -> rust_cef::CefResult { match self { Self::V1(_index0) => Ok(format!(\"{}\", _index0)), Self::V2(_, _index1) => Ok(format!(\"{}\", _index1)), } } }"
    );

    // A third variant without the annotation makes generation fail,
    // incomplete, naming exactly the missing variant.
    let v3 = Variant {
        name: "V3".to_owned(),
        fields: vec![],
        annotations: vec![],
    };
    let union3 = TypeSchema::Union {
        variants: vec![v1, v2, v3],
        annotations: vec![],
    };
    assert_eq!(
        rust_cef::resolve_header(&union3, HeaderName::DeviceEventClassID),
        Err(GenError::Incomplete {
            header: HeaderName::DeviceEventClassID,
            missing_variants: vec!["V3".to_owned()],
        })
    );
}

#[test]
fn test_union_root_fixed_value() {
    // A root fixed value stands alone and serves every variant.
    let schema = TypeSchema::Union {
        variants: vec![
            Variant {
                name: "A".to_owned(),
                fields: vec![],
                annotations: vec![],
            },
            Variant {
                name: "B".to_owned(),
                fields: vec![],
                annotations: vec![],
            },
        ],
        annotations: vec![fixed(HeaderName::DeviceVersion, "V1")],
    };
    assert_eq!(
        rust_cef::resolve_header(&schema, HeaderName::DeviceVersion),
        Ok(ResolvedHeader::Value(HeaderSource::Fixed("V1".to_owned())))
    );
}

#[test]
fn test_union_root_and_variant_conflict() {
    // A header set both at the root and in a variant conflicts; both sites
    // are reported.
    let schema = TypeSchema::Union {
        variants: vec![Variant {
            name: "A".to_owned(),
            fields: vec![],
            annotations: vec![fixed(HeaderName::DeviceVersion, "V2")],
        }],
        annotations: vec![fixed(HeaderName::DeviceVersion, "V1")],
    };
    assert_eq!(
        rust_cef::resolve_header(&schema, HeaderName::DeviceVersion),
        Err(GenError::Conflict {
            header: HeaderName::DeviceVersion,
            sites: vec![
                SiteRef {
                    variant: None,
                    field: None,
                    annotation: 0,
                },
                SiteRef {
                    variant: Some(0),
                    field: None,
                    annotation: 0,
                },
            ],
        })
    );
}

#[test]
fn test_record_conflict_reports_every_site() {
    let schema = TypeSchema::Record {
        fields: vec![named_field(
            "inner",
            vec![Annotation::Inherit {
                target: HeaderName::Version,
            }],
        )],
        annotations: vec![
            fixed(HeaderName::Version, "1"),
            fixed(HeaderName::Version, "2"),
        ],
    };
    assert_eq!(
        rust_cef::resolve_header(&schema, HeaderName::Version),
        Err(GenError::Conflict {
            header: HeaderName::Version,
            sites: vec![
                SiteRef {
                    variant: None,
                    field: None,
                    annotation: 0,
                },
                SiteRef {
                    variant: None,
                    field: None,
                    annotation: 1,
                },
                SiteRef {
                    variant: None,
                    field: Some(0),
                    annotation: 0,
                },
            ],
        })
    );
}

#[test]
fn test_missing_value() {
    let schema = TypeSchema::Record {
        fields: vec![],
        annotations: vec![],
    };
    assert_eq!(
        rust_cef::resolve_header(&schema, HeaderName::Severity),
        Err(GenError::MissingValue {
            header: HeaderName::Severity,
        })
    );
}

#[test]
fn test_inherit_resolution_and_emission() {
    let schema = TypeSchema::Record {
        fields: vec![named_field(
            "inner",
            vec![Annotation::Inherit {
                target: HeaderName::Severity,
            }],
        )],
        annotations: vec![],
    };
    assert_eq!(
        rust_cef::resolve_header(&schema, HeaderName::Severity),
        Ok(ResolvedHeader::Value(HeaderSource::Inherit(
            FieldIdent::Named("inner".to_owned())
        )))
    );
    assert_eq!(
        rust_cef::derive_cef_header_severity("Outer", &schema).unwrap(),
        "impl rust_cef::CefHeaderSeverity for Outer { fn cef_header_severity(&self) -> rust_cef::CefResult { rust_cef::CefHeaderSeverity::cef_header_severity(&self.inner) } }"
    );
}

#[test]
fn test_fixed_literal_is_escaped() {
    let schema = TypeSchema::Record {
        fields: vec![],
        annotations: vec![fixed(HeaderName::Name, "say \"hi\" \\ bye")],
    };
    assert_eq!(
        rust_cef::derive_cef_header_name("Quoted", &schema).unwrap(),
        "impl rust_cef::CefHeaderName for Quoted { fn cef_header_name(&self) -> rust_cef::CefResult { Ok(\"say \\\"hi\\\" \\\\ bye\".to_owned()) } }"
    );
}

#[test]
fn test_extension_merge_order_last_write_wins() {
    // Two contributions to the same key: the later one's value stands, never
    // an error.
    struct Gobbled {}
    impl CefExtensions for Gobbled {
        fn cef_extensions(&self, collector: &mut ExtensionsCollector) -> CefExtensionsResult {
            collector.insert("shared", "from_gobble".to_owned());
            Ok(())
        }
    }
    struct Outer {
        inner: Gobbled,
    }
    impl CefExtensions for Outer {
        fn cef_extensions(&self, collector: &mut ExtensionsCollector) -> CefExtensionsResult {
            collector.insert("shared", "from_field".to_owned());
            CefExtensions::cef_extensions(&self.inner, collector)?;
            Ok(())
        }
    }
    let mut collector = ExtensionsCollector::new();
    let outer = Outer { inner: Gobbled {} };
    assert!(outer.cef_extensions(&mut collector).is_ok());
    assert_eq!(collector.get("shared"), Some(&"from_gobble".to_owned()));
    assert_eq!(collector.len(), 1);
}

#[test]
fn test_union_extensions_per_variant() {
    let schema = TypeSchema::Union {
        variants: vec![
            Variant {
                name: "V1".to_owned(),
                fields: vec![positional_field(0, vec![Annotation::ExtensionGobble])],
                annotations: vec![Annotation::ExtensionFixed {
                    key: "EnumV1Field".to_owned(),
                    value: "fixedExtensionsValue".to_owned(),
                }],
            },
            Variant {
                name: "V2".to_owned(),
                fields: vec![named_field("severity", vec![Annotation::ExtensionField { rename: None }])],
                annotations: vec![],
            },
        ],
        annotations: vec![Annotation::ExtensionFixed {
            key: "TopEnumField".to_owned(),
            value: "fixedExtensionsValue".to_owned(),
        }],
    };
    assert_eq!(
        rust_cef::resolve_extensions(&schema),
        Ok(ResolvedExtensions::PerVariant(vec![
            VariantExtensions {
                variant_name: "V1".to_owned(),
                contributions: vec![
                    ExtensionContribution::Fixed {
                        key: "TopEnumField".to_owned(),
                        value: "fixedExtensionsValue".to_owned(),
                    },
                    ExtensionContribution::Fixed {
                        key: "EnumV1Field".to_owned(),
                        value: "fixedExtensionsValue".to_owned(),
                    },
                    ExtensionContribution::NestedMerge {
                        field: FieldIdent::Positional(0),
                    },
                ],
            },
            VariantExtensions {
                variant_name: "V2".to_owned(),
                contributions: vec![
                    ExtensionContribution::Fixed {
                        key: "TopEnumField".to_owned(),
                        value: "fixedExtensionsValue".to_owned(),
                    },
                    ExtensionContribution::FieldValue {
                        key: "severity".to_owned(),
                        field: FieldIdent::Named("severity".to_owned()),
                    },
                ],
            },
        ]))
    );
    assert_eq!(
        rust_cef::implement_extensions_trait("Top", &schema).unwrap(),
        "impl rust_cef::CefExtensions for Top { fn cef_extensions(&self, collector: &mut rust_cef::ExtensionsCollector) -> rust_cef::CefExtensionsResult { match self { Self::V1(_index0) => { collector.insert(\"TopEnumField\", \"fixedExtensionsValue\".to_owned()); collector.insert(\"EnumV1Field\", \"fixedExtensionsValue\".to_owned()); rust_cef::CefExtensions::cef_extensions(_index0, collector)?; }, Self::V2 { severity: _severity } => { collector.insert(\"TopEnumField\", \"fixedExtensionsValue\".to_owned()); collector.insert(\"severity\", format!(\"{}\", _severity)); }, } Ok(()) } }"
    );
}

#[test]
fn test_positional_extension_needs_rename() {
    let schema = TypeSchema::Record {
        fields: vec![positional_field(0, vec![Annotation::ExtensionField { rename: None }])],
        annotations: vec![],
    };
    let r = rust_cef::resolve_extensions(&schema);
    assert!(r.is_err());
    let errors = r.unwrap_err();
    assert_eq!(errors.len(), 1);
    match &errors[0] {
        GenError::MalformedAnnotation { site, message } => {
            assert_eq!(
                site,
                &SiteRef {
                    variant: None,
                    field: Some(0),
                    annotation: 0,
                }
            );
            assert!(message.contains("rename"));
        }
        other => panic!("unexpected error: {:?}", other),
    }

    // With a rename the same field is accepted.
    let renamed = TypeSchema::Record {
        fields: vec![positional_field(
            0,
            vec![Annotation::ExtensionField {
                rename: Some("age".to_owned()),
            }],
        )],
        annotations: vec![],
    };
    assert_eq!(
        rust_cef::resolve_extensions(&renamed),
        Ok(ResolvedExtensions::ForRecord(vec![
            ExtensionContribution::FieldValue {
                key: "age".to_owned(),
                field: FieldIdent::Positional(0),
            }
        ]))
    );
}

#[test]
fn test_field_takes_at_most_one_extension_annotation() {
    // A field carrying two extension annotations is malformed: one error for
    // the field, naming the extra annotation, and no contribution.
    let schema = TypeSchema::Record {
        fields: vec![named_field(
            "inner",
            vec![
                Annotation::ExtensionField {
                    rename: Some("renamed".to_owned()),
                },
                Annotation::ExtensionGobble,
            ],
        )],
        annotations: vec![],
    };
    let r = rust_cef::resolve_extensions(&schema);
    assert!(r.is_err());
    let errors = r.unwrap_err();
    assert_eq!(errors.len(), 1);
    match &errors[0] {
        GenError::MalformedAnnotation { site, message } => {
            assert_eq!(
                site,
                &SiteRef {
                    variant: None,
                    field: Some(0),
                    annotation: 1,
                }
            );
            assert!(message.contains("at most one"));
        }
        other => panic!("unexpected error: {:?}", other),
    }

    // Three gobbles still make one error for the field, not one per extra.
    let tripled = TypeSchema::Record {
        fields: vec![named_field(
            "inner",
            vec![
                Annotation::ExtensionGobble,
                Annotation::ExtensionGobble,
                Annotation::ExtensionGobble,
            ],
        )],
        annotations: vec![],
    };
    let errors = rust_cef::resolve_extensions(&tripled).unwrap_err();
    assert_eq!(errors.len(), 1);

    // A rejected positional entry does not count toward the one allowed
    // contribution: the gobble below stands alone, so only the rename
    // rejection surfaces.
    let mixed = TypeSchema::Record {
        fields: vec![positional_field(
            0,
            vec![
                Annotation::ExtensionField { rename: None },
                Annotation::ExtensionGobble,
            ],
        )],
        annotations: vec![],
    };
    let errors = rust_cef::resolve_extensions(&mixed).unwrap_err();
    assert_eq!(errors.len(), 1);
    match &errors[0] {
        GenError::MalformedAnnotation { message, .. } => {
            assert!(message.contains("rename"));
        }
        other => panic!("unexpected error: {:?}", other),
    }
}

#[test]
fn test_generation_idempotent() {
    let schema = TypeSchema::Record {
        fields: vec![named_field(
            "name",
            vec![
                Annotation::Display {
                    target: HeaderName::Name,
                },
                Annotation::ExtensionField { rename: None },
            ],
        )],
        annotations: vec![
            fixed(HeaderName::Version, "0"),
            fixed(HeaderName::DeviceVendor, "acme"),
            fixed(HeaderName::DeviceProduct, "widget"),
            fixed(HeaderName::DeviceVersion, "V1"),
            fixed(HeaderName::DeviceEventClassID, "evt"),
            fixed(HeaderName::Severity, "5"),
        ],
    };
    let first = rust_cef::generate_impls("Example", &schema);
    let second = rust_cef::generate_impls("Example", &schema);
    assert!(first.is_ok());
    assert_eq!(first, second);
}

#[test]
fn test_generation_accumulates_all_errors() {
    // A bare record supplies nothing: every header reports its own missing
    // value in one run.
    let schema = TypeSchema::Record {
        fields: vec![],
        annotations: vec![],
    };
    let r = rust_cef::generate_impls("Empty", &schema);
    assert!(r.is_err());
    let errors = r.unwrap_err();
    assert_eq!(errors.len(), 7);
    assert_eq!(
        errors[0],
        GenError::MissingValue {
            header: HeaderName::Version,
        }
    );
    assert_eq!(
        errors[6],
        GenError::MissingValue {
            header: HeaderName::Severity,
        }
    );
}

#[test]
fn test_parse_annotation_sites_and_arity() {
    let type_site = SiteRef {
        variant: None,
        field: None,
        annotation: 0,
    };
    let field_site = SiteRef {
        variant: None,
        field: Some(0),
        annotation: 0,
    };

    // cef_values on a type root parses to fixed values.
    let values_attr = RawAttribute {
        name: "cef_values".to_owned(),
        args: Some(vec![
            RawArg::StrValue {
                name: "Version".to_owned(),
                value: "0".to_owned(),
            },
            RawArg::StrValue {
                name: "Name".to_owned(),
                value: "evt".to_owned(),
            },
        ]),
    };
    assert_eq!(
        rust_cef::parse_annotation(type_site, &values_attr),
        Ok(vec![
            fixed(HeaderName::Version, "0"),
            fixed(HeaderName::Name, "evt"),
        ])
    );

    // The same attribute on a field is rejected.
    assert!(rust_cef::parse_annotation(field_site, &values_attr).is_err());

    // A non-string value is rejected.
    let non_string = RawAttribute {
        name: "cef_values".to_owned(),
        args: Some(vec![RawArg::OtherValue {
            name: "Version".to_owned(),
        }]),
    };
    match rust_cef::parse_annotation(type_site, &non_string) {
        Err(GenError::MalformedAnnotation { message, .. }) => {
            assert!(message.contains("string literal"));
        }
        other => panic!("unexpected: {:?}", other),
    }

    // An unknown header name is rejected.
    let unknown = RawAttribute {
        name: "cef_values".to_owned(),
        args: Some(vec![RawArg::StrValue {
            name: "SomethingElse".to_owned(),
            value: "1".to_owned(),
        }]),
    };
    match rust_cef::parse_annotation(type_site, &unknown) {
        Err(GenError::MalformedAnnotation { message, .. }) => {
            assert!(message.contains("header name should be one of"));
        }
        other => panic!("unexpected: {:?}", other),
    }

    // cef_inherit on a field names header targets.
    let inherit = RawAttribute {
        name: "cef_inherit".to_owned(),
        args: Some(vec![RawArg::Path("Severity".to_owned())]),
    };
    assert_eq!(
        rust_cef::parse_annotation(field_site, &inherit),
        Ok(vec![Annotation::Inherit {
            target: HeaderName::Severity,
        }])
    );
    assert!(rust_cef::parse_annotation(type_site, &inherit).is_err());

    // cef_ext_field takes at most one bare identifier.
    let ext_field = RawAttribute {
        name: "cef_ext_field".to_owned(),
        args: Some(vec![RawArg::Path("person_age".to_owned())]),
    };
    assert_eq!(
        rust_cef::parse_annotation(field_site, &ext_field),
        Ok(vec![Annotation::ExtensionField {
            rename: Some("person_age".to_owned()),
        }])
    );
    let bare_ext_field = RawAttribute {
        name: "cef_ext_field".to_owned(),
        args: None,
    };
    assert_eq!(
        rust_cef::parse_annotation(field_site, &bare_ext_field),
        Ok(vec![Annotation::ExtensionField { rename: None }])
    );

    // cef_ext_gobble takes no arguments.
    let gobble = RawAttribute {
        name: "cef_ext_gobble".to_owned(),
        args: None,
    };
    assert_eq!(
        rust_cef::parse_annotation(field_site, &gobble),
        Ok(vec![Annotation::ExtensionGobble])
    );
    let gobble_with_arg = RawAttribute {
        name: "cef_ext_gobble".to_owned(),
        args: Some(vec![RawArg::Path("x".to_owned())]),
    };
    assert!(rust_cef::parse_annotation(field_site, &gobble_with_arg).is_err());

    // An attribute that is not ours parses to nothing.
    let foreign = RawAttribute {
        name: "serde".to_owned(),
        args: None,
    };
    assert_eq!(rust_cef::parse_annotation(field_site, &foreign), Ok(vec![]));
}

#[test]
fn test_parse_site_surfaces_every_error() {
    // Two malformed attributes on one site each surface their own error.
    let attrs = vec![
        RawAttribute {
            name: "cef_inherit".to_owned(),
            args: None,
        },
        RawAttribute {
            name: "cef_values".to_owned(),
            args: Some(vec![RawArg::StrValue {
                name: "Version".to_owned(),
                value: "0".to_owned(),
            }]),
        },
        RawAttribute {
            name: "cef_ext_gobble".to_owned(),
            args: Some(vec![RawArg::Path("x".to_owned())]),
        },
    ];
    let (annotations, errors) = rust_cef::parse_site_annotations(None, Some(2), &attrs);
    assert_eq!(annotations, vec![]);
    assert_eq!(errors.len(), 3);
    match &errors[1] {
        GenError::MalformedAnnotation { site, .. } => {
            assert_eq!(
                site,
                &SiteRef {
                    variant: None,
                    field: Some(2),
                    annotation: 1,
                }
            );
        }
        other => panic!("unexpected: {:?}", other),
    }
}

#[test]
fn test_parse_attrs_to_name_value() {
    let site = SiteRef {
        variant: None,
        field: None,
        annotation: 0,
    };
    let attr = RawAttribute {
        name: "cef_values".to_owned(),
        args: Some(vec![
            RawArg::StrValue {
                name: "a".to_owned(),
                value: "1".to_owned(),
            },
            RawArg::StrValue {
                name: "b".to_owned(),
                value: "2".to_owned(),
            },
        ]),
    };
    assert_eq!(
        rust_cef::parse_attrs_to_name_value(&attr, site, "usage"),
        Ok(vec![
            ("a".to_owned(), "1".to_owned()),
            ("b".to_owned(), "2".to_owned()),
        ])
    );
    let bare = RawAttribute {
        name: "cef_values".to_owned(),
        args: None,
    };
    assert_eq!(
        rust_cef::parse_attrs_to_name_value(&bare, site, "the usage text"),
        Err(GenError::MalformedAnnotation {
            site,
            message: "the usage text".to_owned(),
        })
    );
}

#[test]
fn test_variant_fixed_value_mixed_with_fields() {
    // One variant takes its value from a fixed literal, the other from a
    // field: both arms stand in the dispatch.
    let schema = TypeSchema::Union {
        variants: vec![
            Variant {
                name: "Fixed".to_owned(),
                fields: vec![],
                annotations: vec![fixed(HeaderName::Name, "constant")],
            },
            Variant {
                name: "FromField".to_owned(),
                fields: vec![named_field(
                    "label",
                    vec![Annotation::Display {
                        target: HeaderName::Name,
                    }],
                )],
                annotations: vec![],
            },
        ],
        annotations: vec![],
    };
    assert_eq!(
        rust_cef::resolve_header(&schema, HeaderName::Name),
        Ok(ResolvedHeader::Dispatch(vec![
            DispatchArm {
                variant_name: "Fixed".to_owned(),
                source: HeaderSource::Fixed("constant".to_owned()),
            },
            DispatchArm {
                variant_name: "FromField".to_owned(),
                source: HeaderSource::Display(FieldIdent::Named("label".to_owned())),
            },
        ]))
    );
    assert_eq!(
        rust_cef::implement_header_trait("Mixed", HeaderName::Name, &schema).unwrap(),
        "impl rust_cef::CefHeaderName for Mixed { fn cef_header_name(&self) -> rust_cef::CefResult { match self { Self::Fixed => Ok(\"constant\".to_owned()), Self::FromField { label: _label } => Ok(format!(\"{}\", _label)), } } }"
    );
}
