//! The schema model: the in-memory representation of one type declaration —
//! a record with fields or a tagged union of variants, each site carrying
//! annotations — together with the resolution outcomes and errors, and the
//! spec-level mirror of each so that contracts can speak of whole values.

use vstd::prelude::*;

use crate::HeaderName;

verus! {

/// A generic view of a sequence of viewable values.
pub open spec fn seq_view<T: View>(s: Seq<T>) -> Seq<T::V> {
    Seq::new(s.len(), |i: int| s[i]@)
}

/// Pushing commutes with taking the view of every element.
pub broadcast proof fn lemma_seq_view_push<T: View>(s: Seq<T>, x: T)
    ensures
        #[trigger] seq_view(s.push(x)) == seq_view(s).push(x@),
{
    assert(seq_view(s.push(x)) =~= seq_view(s).push(x@));
}

/// The view of an optional index.
pub open spec fn opt_index_view(o: Option<usize>) -> Option<int> {
    match o {
        Some(u) => Some(u as int),
        None => None,
    }
}

/// The view of an optional string.
pub open spec fn opt_string_view(o: &Option<String>) -> Option<Seq<char>> {
    match o {
        Some(s) => Some(s@),
        None => None,
    }
}

/// How a field is addressed: by name, or by its position in a tuple.
#[derive(Debug, Clone, PartialEq, Eq)]
pub enum FieldIdent {
    Named(String),
    Positional(usize),
}

/// Spec-level mirror of `FieldIdent`.
pub enum SpecFieldIdent {
    Named(Seq<char>),
    Positional(int),
}

impl View for FieldIdent {
    type V = SpecFieldIdent;

    open spec fn view(&self) -> SpecFieldIdent {
        match self {
            FieldIdent::Named(n) => SpecFieldIdent::Named(n@),
            FieldIdent::Positional(i) => SpecFieldIdent::Positional(*i as int),
        }
    }
}

/// One parsed annotation, already checked for site and shape.
#[derive(Debug, Clone, PartialEq, Eq)]
pub enum Annotation {
    /// A compile-time literal for a header; sits on a record, a union root or
    /// a variant, never on a field.
    FixedValue { target: HeaderName, literal: String },
    /// Delegate the header to the field's own accessor; sits on a field.
    Inherit { target: HeaderName },
    /// Render the field's textual form as the header; sits on a field.
    Display { target: HeaderName },
    /// Merge the field's own extension set into the parent's; sits on a field.
    ExtensionGobble,
    /// One extension entry keyed by the rename or the field's name, valued by
    /// the field's textual form; sits on a field.
    ExtensionField { rename: Option<String> },
    /// A static extension entry; sits on a record, a union root or a variant.
    ExtensionFixed { key: String, value: String },
}

/// Spec-level mirror of `Annotation`.
pub enum SpecAnnotation {
    FixedValue { target: HeaderName, literal: Seq<char> },
    Inherit { target: HeaderName },
    Display { target: HeaderName },
    ExtensionGobble,
    ExtensionField { rename: Option<Seq<char>> },
    ExtensionFixed { key: Seq<char>, value: Seq<char> },
}

impl View for Annotation {
    type V = SpecAnnotation;

    open spec fn view(&self) -> SpecAnnotation {
        match self {
            Annotation::FixedValue { target, literal } => SpecAnnotation::FixedValue {
                target: *target,
                literal: literal@,
            },
            Annotation::Inherit { target } => SpecAnnotation::Inherit { target: *target },
            Annotation::Display { target } => SpecAnnotation::Display { target: *target },
            Annotation::ExtensionGobble => SpecAnnotation::ExtensionGobble,
            Annotation::ExtensionField { rename } => SpecAnnotation::ExtensionField {
                rename: opt_string_view(rename),
            },
            Annotation::ExtensionFixed { key, value } => SpecAnnotation::ExtensionFixed {
                key: key@,
                value: value@,
            },
        }
    }
}

/// One field of a record or of a variant, with its annotations.
#[derive(Debug, Clone, PartialEq, Eq)]
pub struct Field {
    pub identity: FieldIdent,
    pub annotations: Vec<Annotation>,
}

/// Spec-level mirror of `Field`.
pub struct SpecField {
    pub identity: SpecFieldIdent,
    pub annotations: Seq<SpecAnnotation>,
}

impl View for Field {
    type V = SpecField;

    open spec fn view(&self) -> SpecField {
        SpecField { identity: self.identity@, annotations: seq_view(self.annotations@) }
    }
}

/// One variant of a union, with its fields and its own annotations.
#[derive(Debug, Clone, PartialEq, Eq)]
pub struct Variant {
    pub name: String,
    pub fields: Vec<Field>,
    pub annotations: Vec<Annotation>,
}

/// Spec-level mirror of `Variant`.
pub struct SpecVariant {
    pub name: Seq<char>,
    pub fields: Seq<SpecField>,
    pub annotations: Seq<SpecAnnotation>,
}

impl View for Variant {
    type V = SpecVariant;

    open spec fn view(&self) -> SpecVariant {
        SpecVariant {
            name: self.name@,
            fields: seq_view(self.fields@),
            annotations: seq_view(self.annotations@),
        }
    }
}

/// One type declaration: a record with fields, or a tagged union of
/// variants; either carries annotations of its own.
#[derive(Debug, Clone, PartialEq, Eq)]
pub enum TypeSchema {
    Record { fields: Vec<Field>, annotations: Vec<Annotation> },
    Union { variants: Vec<Variant>, annotations: Vec<Annotation> },
}

/// Spec-level mirror of `TypeSchema`.
pub enum SpecSchema {
    Record { fields: Seq<SpecField>, annotations: Seq<SpecAnnotation> },
    Union { variants: Seq<SpecVariant>, annotations: Seq<SpecAnnotation> },
}

impl View for TypeSchema {
    type V = SpecSchema;

    open spec fn view(&self) -> SpecSchema {
        match self {
            TypeSchema::Record { fields, annotations } => SpecSchema::Record {
                fields: seq_view(fields@),
                annotations: seq_view(annotations@),
            },
            TypeSchema::Union { variants, annotations } => SpecSchema::Union {
                variants: seq_view(variants@),
                annotations: seq_view(annotations@),
            },
        }
    }
}

/// Where an annotation sits: on the type root (`variant` and `field` empty),
/// on a variant root, or on a field, possibly inside a variant; `annotation`
/// is the position in that site's annotation list.
#[derive(Debug, Clone, Copy, PartialEq, Eq)]
pub struct SiteRef {
    pub variant: Option<usize>,
    pub field: Option<usize>,
    pub annotation: usize,
}

/// Spec-level mirror of `SiteRef`.
pub struct SpecSiteRef {
    pub variant: Option<int>,
    pub field: Option<int>,
    pub annotation: int,
}

impl View for SiteRef {
    type V = SpecSiteRef;

    open spec fn view(&self) -> SpecSiteRef {
        SpecSiteRef {
            variant: opt_index_view(self.variant),
            field: opt_index_view(self.field),
            annotation: self.annotation as int,
        }
    }
}

/// Where a header's value comes from: a literal, a delegated call to the
/// field's own accessor, or the field's textual form.
#[derive(Debug, Clone, PartialEq, Eq)]
pub enum HeaderSource {
    Fixed(String),
    Inherit(FieldIdent),
    Display(FieldIdent),
}

/// Spec-level mirror of `HeaderSource`.
pub enum SpecHeaderSource {
    Fixed(Seq<char>),
    Inherit(SpecFieldIdent),
    Display(SpecFieldIdent),
}

impl View for HeaderSource {
    type V = SpecHeaderSource;

    open spec fn view(&self) -> SpecHeaderSource {
        match self {
            HeaderSource::Fixed(v) => SpecHeaderSource::Fixed(v@),
            HeaderSource::Inherit(f) => SpecHeaderSource::Inherit(f@),
            HeaderSource::Display(f) => SpecHeaderSource::Display(f@),
        }
    }
}

/// One candidate for a header at one site.
#[derive(Debug, Clone, PartialEq, Eq)]
pub struct Candidate {
    pub site: SiteRef,
    pub source: HeaderSource,
}

/// Spec-level mirror of `Candidate`.
pub struct SpecCandidate {
    pub site: SpecSiteRef,
    pub source: SpecHeaderSource,
}

impl View for Candidate {
    type V = SpecCandidate;

    open spec fn view(&self) -> SpecCandidate {
        SpecCandidate { site: self.site@, source: self.source@ }
    }
}

/// One dispatch arm of a resolved union header: the variant's name and the
/// source that supplies the value for it.
#[derive(Debug, Clone, PartialEq, Eq)]
pub struct DispatchArm {
    pub variant_name: String,
    pub source: HeaderSource,
}

/// Spec-level mirror of `DispatchArm`.
pub struct SpecDispatchArm {
    pub variant_name: Seq<char>,
    pub source: SpecHeaderSource,
}

impl View for DispatchArm {
    type V = SpecDispatchArm;

    open spec fn view(&self) -> SpecDispatchArm {
        SpecDispatchArm { variant_name: self.variant_name@, source: self.source@ }
    }
}

/// A resolved header: one source for the whole type, or one source per
/// variant of a union, in declaration order.
#[derive(Debug, Clone, PartialEq, Eq)]
pub enum ResolvedHeader {
    Value(HeaderSource),
    Dispatch(Vec<DispatchArm>),
}

/// Spec-level mirror of `ResolvedHeader`.
pub enum SpecResolvedHeader {
    Value(SpecHeaderSource),
    Dispatch(Seq<SpecDispatchArm>),
}

impl View for ResolvedHeader {
    type V = SpecResolvedHeader;

    open spec fn view(&self) -> SpecResolvedHeader {
        match self {
            ResolvedHeader::Value(s) => SpecResolvedHeader::Value(s@),
            ResolvedHeader::Dispatch(arms) => SpecResolvedHeader::Dispatch(seq_view(arms@)),
        }
    }
}

/// A generation-time failure.
#[derive(Debug, Clone, PartialEq, Eq)]
pub enum GenError {
    /// An annotation with the wrong shape or on a disallowed site.
    MalformedAnnotation { site: SiteRef, message: String },
    /// A header with no candidate source at its resolution scope.
    MissingValue { header: HeaderName },
    /// A header with more than one candidate at the same scope, or set both
    /// at a union's root and in its variants; every offending site is listed.
    Conflict { header: HeaderName, sites: Vec<SiteRef> },
    /// A union header supplied by some variants but not all; the variants
    /// without it are named.
    Incomplete { header: HeaderName, missing_variants: Vec<String> },
}

/// Spec-level mirror of `GenError`.
pub enum SpecGenError {
    MalformedAnnotation { site: SpecSiteRef, message: Seq<char> },
    MissingValue { header: HeaderName },
    Conflict { header: HeaderName, sites: Seq<SpecSiteRef> },
    Incomplete { header: HeaderName, missing_variants: Seq<Seq<char>> },
}

impl View for GenError {
    type V = SpecGenError;

    open spec fn view(&self) -> SpecGenError {
        match self {
            GenError::MalformedAnnotation { site, message } => SpecGenError::MalformedAnnotation {
                site: site@,
                message: message@,
            },
            GenError::MissingValue { header } => SpecGenError::MissingValue { header: *header },
            GenError::Conflict { header, sites } => SpecGenError::Conflict {
                header: *header,
                sites: seq_view(sites@),
            },
            GenError::Incomplete { header, missing_variants } => SpecGenError::Incomplete {
                header: *header,
                missing_variants: seq_view(missing_variants@),
            },
        }
    }
}

/// One contribution to the extensions of a type or of a variant.
#[derive(Debug, Clone, PartialEq, Eq)]
pub enum ExtensionContribution {
    /// A static entry from an `ExtensionFixed` annotation.
    Fixed { key: String, value: String },
    /// An entry keyed by `key` whose value is the field's textual form.
    FieldValue { key: String, field: FieldIdent },
    /// The field's own extension set, merged in.
    NestedMerge { field: FieldIdent },
}

/// Spec-level mirror of `ExtensionContribution`.
pub enum SpecExtensionContribution {
    Fixed { key: Seq<char>, value: Seq<char> },
    FieldValue { key: Seq<char>, field: SpecFieldIdent },
    NestedMerge { field: SpecFieldIdent },
}

impl View for ExtensionContribution {
    type V = SpecExtensionContribution;

    open spec fn view(&self) -> SpecExtensionContribution {
        match self {
            ExtensionContribution::Fixed { key, value } => SpecExtensionContribution::Fixed {
                key: key@,
                value: value@,
            },
            ExtensionContribution::FieldValue { key, field } =>
                SpecExtensionContribution::FieldValue { key: key@, field: field@ },
            ExtensionContribution::NestedMerge { field } => SpecExtensionContribution::NestedMerge {
                field: field@,
            },
        }
    }
}

/// The extension contributions of one variant, in declaration order.
#[derive(Debug, Clone, PartialEq, Eq)]
pub struct VariantExtensions {
    pub variant_name: String,
    pub contributions: Vec<ExtensionContribution>,
}

/// Spec-level mirror of `VariantExtensions`.
pub struct SpecVariantExtensions {
    pub variant_name: Seq<char>,
    pub contributions: Seq<SpecExtensionContribution>,
}

impl View for VariantExtensions {
    type V = SpecVariantExtensions;

    open spec fn view(&self) -> SpecVariantExtensions {
        SpecVariantExtensions {
            variant_name: self.variant_name@,
            contributions: seq_view(self.contributions@),
        }
    }
}

/// The resolved extensions of a type: one contribution list for a record,
/// one per variant for a union.
#[derive(Debug, Clone, PartialEq, Eq)]
pub enum ResolvedExtensions {
    ForRecord(Vec<ExtensionContribution>),
    PerVariant(Vec<VariantExtensions>),
}

/// Spec-level mirror of `ResolvedExtensions`.
pub enum SpecResolvedExtensions {
    ForRecord(Seq<SpecExtensionContribution>),
    PerVariant(Seq<SpecVariantExtensions>),
}

impl View for ResolvedExtensions {
    type V = SpecResolvedExtensions;

    open spec fn view(&self) -> SpecResolvedExtensions {
        match self {
            ResolvedExtensions::ForRecord(c) => SpecResolvedExtensions::ForRecord(seq_view(c@)),
            ResolvedExtensions::PerVariant(v) => SpecResolvedExtensions::PerVariant(seq_view(v@)),
        }
    }
}

/// The view of a result whose sides are both viewable.
pub open spec fn res_view<T: View, E: View>(r: Result<T, E>) -> Result<T::V, E::V> {
    match r {
        Ok(t) => Ok(t@),
        Err(e) => Err(e@),
    }
}

} // verus!
