//! The emitter: turns resolved header and extension decisions into the
//! accessor logic for the owning type, as target-language text. The text is
//! a function of the schema alone, so generation is deterministic; all
//! decisions are made by the resolvers, never here.

use vstd::prelude::*;

use crate::HeaderName;
use crate::extensions::{resolve_extensions, spec_resolve_extensions};
use crate::resolve::{resolve_header, spec_dispatch, spec_resolve_header};
use crate::schema::{
    ExtensionContribution, Field, FieldIdent, GenError, HeaderSource,
    ResolvedExtensions, ResolvedHeader, SpecDispatchArm, SpecExtensionContribution, SpecField,
    SpecFieldIdent, SpecGenError, SpecHeaderSource, SpecResolvedExtensions, SpecResolvedHeader,
    SpecSchema, SpecVariant, SpecVariantExtensions, TypeSchema, Variant, VariantExtensions,
    res_view, seq_view, lemma_seq_view_push,
};
use crate::text::{escape_literal, spec_decimal, spec_escape, str_eq, usize_to_decimal};

verus! {

broadcast use lemma_seq_view_push;

/// The runtime trait a header corresponds to.
pub open spec fn spec_trait_name(h: HeaderName) -> Seq<char> {
    match h {
        HeaderName::Version => "CefHeaderVersion"@,
        HeaderName::DeviceVendor => "CefHeaderDeviceVendor"@,
        HeaderName::DeviceProduct => "CefHeaderDeviceProduct"@,
        HeaderName::DeviceVersion => "CefHeaderDeviceVersion"@,
        HeaderName::DeviceEventClassID => "CefHeaderDeviceEventClassID"@,
        HeaderName::Name => "CefHeaderName"@,
        HeaderName::Severity => "CefHeaderSeverity"@,
    }
}

/// The runtime trait a header corresponds to.
pub fn trait_name(h: HeaderName) -> (r: &'static str)
    ensures
        r@ == spec_trait_name(h),
{
    match h {
        HeaderName::Version => "CefHeaderVersion",
        HeaderName::DeviceVendor => "CefHeaderDeviceVendor",
        HeaderName::DeviceProduct => "CefHeaderDeviceProduct",
        HeaderName::DeviceVersion => "CefHeaderDeviceVersion",
        HeaderName::DeviceEventClassID => "CefHeaderDeviceEventClassID",
        HeaderName::Name => "CefHeaderName",
        HeaderName::Severity => "CefHeaderSeverity",
    }
}

/// The accessor method of a header's trait.
pub open spec fn spec_method_name(h: HeaderName) -> Seq<char> {
    match h {
        HeaderName::Version => "cef_header_version"@,
        HeaderName::DeviceVendor => "cef_header_device_vendor"@,
        HeaderName::DeviceProduct => "cef_header_device_product"@,
        HeaderName::DeviceVersion => "cef_header_device_version"@,
        HeaderName::DeviceEventClassID => "cef_header_device_event_class_id"@,
        HeaderName::Name => "cef_header_name"@,
        HeaderName::Severity => "cef_header_severity"@,
    }
}

/// The accessor method of a header's trait.
pub fn method_name(h: HeaderName) -> (r: &'static str)
    ensures
        r@ == spec_method_name(h),
{
    match h {
        HeaderName::Version => "cef_header_version",
        HeaderName::DeviceVendor => "cef_header_device_vendor",
        HeaderName::DeviceProduct => "cef_header_device_product",
        HeaderName::DeviceVersion => "cef_header_device_version",
        HeaderName::DeviceEventClassID => "cef_header_device_event_class_id",
        HeaderName::Name => "cef_header_name",
        HeaderName::Severity => "cef_header_severity",
    }
}

/// How a record accesses one of its fields.
pub open spec fn spec_field_access(f: SpecFieldIdent) -> Seq<char> {
    match f {
        SpecFieldIdent::Named(n) => "&self."@ + n,
        SpecFieldIdent::Positional(i) => "&self."@ + spec_decimal(i as nat),
    }
}

/// How a record accesses one of its fields.
fn field_access(f: &FieldIdent) -> (r: String)
    ensures
        r@ == spec_field_access(f@),
{
    match f {
        FieldIdent::Named(n) => {
            let mut s = "&self.".to_owned();
            s.append(n.as_str());
            s
        },
        FieldIdent::Positional(i) => {
            let mut s = "&self.".to_owned();
            let d = usize_to_decimal(*i);
            s.append(d.as_str());
            s
        },
    }
}

/// The name a match arm binds one field to.
pub open spec fn spec_binding(f: SpecFieldIdent) -> Seq<char> {
    match f {
        SpecFieldIdent::Named(n) => "_"@ + n,
        SpecFieldIdent::Positional(i) => "_index"@ + spec_decimal(i as nat),
    }
}

/// The name a match arm binds one field to.
fn binding(f: &FieldIdent) -> (r: String)
    ensures
        r@ == spec_binding(f@),
{
    match f {
        FieldIdent::Named(n) => {
            let mut s = "_".to_owned();
            s.append(n.as_str());
            s
        },
        FieldIdent::Positional(i) => {
            let mut s = "_index".to_owned();
            let d = usize_to_decimal(*i);
            s.append(d.as_str());
            s
        },
    }
}

/// The expression a header source becomes: the literal wrapped in `Ok`, a
/// delegated accessor call, or the field's textual form — reading the field
/// through `self` in a record, through the match binding in a variant.
pub open spec fn spec_source_expr(h: HeaderName, src: SpecHeaderSource, in_variant: bool) -> Seq<
    char,
> {
    match src {
        SpecHeaderSource::Fixed(v) => "Ok(\""@ + spec_escape(v) + "\".to_owned())"@,
        SpecHeaderSource::Inherit(f) => "rust_cef::"@ + spec_trait_name(h) + "::"@
            + spec_method_name(h) + "("@ + (if in_variant {
            spec_binding(f)
        } else {
            spec_field_access(f)
        }) + ")"@,
        SpecHeaderSource::Display(f) => "Ok(format!(\"{}\", "@ + (if in_variant {
            spec_binding(f)
        } else {
            spec_field_access(f)
        }) + "))"@,
    }
}

/// The expression a header source becomes.
fn source_expr(h: HeaderName, src: &HeaderSource, in_variant: bool) -> (r: String)
    ensures
        r@ == spec_source_expr(h, src@, in_variant),
{
    match src {
        HeaderSource::Fixed(v) => {
            let mut s = "Ok(\"".to_owned();
            let e = escape_literal(v.as_str());
            s.append(e.as_str());
            s.append("\".to_owned())");
            s
        },
        HeaderSource::Inherit(f) => {
            let mut s = "rust_cef::".to_owned();
            s.append(trait_name(h));
            s.append("::");
            s.append(method_name(h));
            s.append("(");
            let a = if in_variant {
                binding(f)
            } else {
                field_access(f)
            };
            s.append(a.as_str());
            s.append(")");
            s
        },
        HeaderSource::Display(f) => {
            let mut s = "Ok(format!(\"{}\", ".to_owned();
            let a = if in_variant {
                binding(f)
            } else {
                field_access(f)
            };
            s.append(a.as_str());
            s.append("))");
            s
        },
    }
}

/// The field a header source reads, if any.
pub open spec fn spec_source_field(src: SpecHeaderSource) -> Option<SpecFieldIdent> {
    match src {
        SpecHeaderSource::Fixed(_) => None,
        SpecHeaderSource::Inherit(f) => Some(f),
        SpecHeaderSource::Display(f) => Some(f),
    }
}

/// How a match arm captures one field: bound when the arm's expression reads
/// it, ignored otherwise.
pub open spec fn spec_capture_one(f: SpecField, used: bool) -> Seq<char> {
    match f.identity {
        SpecFieldIdent::Named(n) => if used {
            n + ": _"@ + n
        } else {
            n + ": _"@
        },
        SpecFieldIdent::Positional(i) => if used {
            "_index"@ + spec_decimal(i as nat)
        } else {
            "_"@
        },
    }
}

/// How a match arm captures one field.
fn capture_one(f: &Field, used: bool) -> (r: String)
    ensures
        r@ == spec_capture_one(f@, used),
{
    match &f.identity {
        FieldIdent::Named(n) => {
            let mut s = n.clone();
            s.append(": _");
            if used {
                s.append(n.as_str());
            }
            s
        },
        FieldIdent::Positional(i) => {
            if used {
                let mut s = "_index".to_owned();
                let d = usize_to_decimal(*i);
                s.append(d.as_str());
                s
            } else {
                "_".to_owned()
            }
        },
    }
}

/// The capture list of a header arm: every field in order, the one the
/// source reads bound, the rest ignored, joined by `, `.
pub open spec fn spec_header_captures_list(
    fields: Seq<SpecField>,
    uses: Option<SpecFieldIdent>,
) -> Seq<char>
    decreases fields.len(),
{
    if fields.len() == 0 {
        Seq::empty()
    } else {
        let one = spec_capture_one(fields.last(), uses == Some(fields.last().identity));
        if fields.len() == 1 {
            one
        } else {
            spec_header_captures_list(fields.drop_last(), uses) + ", "@ + one
        }
    }
}

/// A capture list wrapped as the variant's shape asks: braces after a space
/// for named fields, parentheses for positional ones, nothing for a variant
/// without fields.
pub open spec fn spec_wrap_captures(fields: Seq<SpecField>, list: Seq<char>) -> Seq<char> {
    if fields.len() == 0 {
        Seq::empty()
    } else if fields[0].identity is Named {
        " { "@ + list + " }"@
    } else {
        "("@ + list + ")"@
    }
}

/// Whether two field identities are the same.
fn ident_eq(a: &FieldIdent, b: &FieldIdent) -> (r: bool)
    ensures
        r == (a@ == b@),
{
    match (a, b) {
        (FieldIdent::Named(x), FieldIdent::Named(y)) => str_eq(x.as_str(), y.as_str()),
        (FieldIdent::Positional(x), FieldIdent::Positional(y)) => x == y,
        _ => false,
    }
}

/// Builds the captures of a header arm.
fn header_captures(fields: &Vec<Field>, src: &HeaderSource) -> (r: String)
    ensures
        r@ == spec_wrap_captures(
            seq_view(fields@),
            spec_header_captures_list(seq_view(fields@), spec_source_field(src@)),
        ),
{
    let n = fields.len();
    if n == 0 {
        return String::new();
    }
    let mut list = String::new();
    let mut i: usize = 0;
    while i < n
        invariant
            0 <= i <= n,
            n == fields@.len(),
            list@ == spec_header_captures_list(
                seq_view(fields@).take(i as int),
                spec_source_field(src@),
            ),
        decreases n - i,
    {
        if i > 0 {
            list.append(", ");
        }
        let used = match src {
            HeaderSource::Fixed(_) => false,
            HeaderSource::Inherit(f) => ident_eq(&fields[i].identity, f),
            HeaderSource::Display(f) => ident_eq(&fields[i].identity, f),
        };
        let one = capture_one(&fields[i], used);
        list.append(one.as_str());
        proof {
            assert(seq_view(fields@).take(i + 1).drop_last() =~= seq_view(fields@).take(i as int));
            assert(seq_view(fields@).take(i + 1).last() == fields@[i as int]@);
            assert(list@ =~= spec_header_captures_list(
                seq_view(fields@).take(i + 1),
                spec_source_field(src@),
            ));
        }
        i = i + 1;
    }
    proof {
        assert(seq_view(fields@).take(n as int) =~= seq_view(fields@));
    }
    let mut r = String::new();
    match &fields[0].identity {
        FieldIdent::Named(_) => {
            r.append(" { ");
            r.append(list.as_str());
            r.append(" }");
        },
        FieldIdent::Positional(_) => {
            r.append("(");
            r.append(list.as_str());
            r.append(")");
        },
    }
    proof {
        assert(seq_view(fields@)[0] == fields@[0]@);
        assert(r@ =~= spec_wrap_captures(
            seq_view(fields@),
            spec_header_captures_list(seq_view(fields@), spec_source_field(src@)),
        ));
    }
    r
}

/// One arm of a header dispatch, trailing comma and space included.
pub open spec fn spec_header_arm(h: HeaderName, v: SpecVariant, src: SpecHeaderSource) -> Seq<
    char,
> {
    "Self::"@ + v.name + spec_wrap_captures(
        v.fields,
        spec_header_captures_list(v.fields, spec_source_field(src)),
    ) + " => "@ + spec_source_expr(h, src, true) + ", "@
}

/// Builds one arm of a header dispatch.
fn header_arm(h: HeaderName, v: &Variant, src: &HeaderSource) -> (r: String)
    ensures
        r@ == spec_header_arm(h, v@, src@),
{
    let mut s = "Self::".to_owned();
    s.append(v.name.as_str());
    let caps = header_captures(&v.fields, src);
    s.append(caps.as_str());
    s.append(" => ");
    let e = source_expr(h, src, true);
    s.append(e.as_str());
    s.append(", ");
    s
}

/// The arms of a header dispatch, one per variant in declaration order.
pub open spec fn spec_header_arms(
    variants: Seq<SpecVariant>,
    arms: Seq<SpecDispatchArm>,
    h: HeaderName,
) -> Seq<char>
    decreases arms.len(),
{
    if arms.len() == 0 || variants.len() == 0 {
        Seq::empty()
    } else {
        spec_header_arms(variants.drop_last(), arms.drop_last(), h) + spec_header_arm(
            h,
            variants.last(),
            arms.last().source,
        )
    }
}

/// The body of one header accessor: the source's expression for a single
/// value, a match over every variant for a dispatch.
pub open spec fn spec_header_body(
    h: HeaderName,
    s: SpecSchema,
    resolved: SpecResolvedHeader,
) -> Seq<char> {
    match resolved {
        SpecResolvedHeader::Value(src) => spec_source_expr(h, src, false),
        SpecResolvedHeader::Dispatch(arms) => {
            let variants = match s {
                SpecSchema::Union { variants, .. } => variants,
                SpecSchema::Record { .. } => Seq::empty(),
            };
            "match self { "@ + spec_header_arms(variants, arms, h) + "}"@
        },
    }
}

/// The full accessor impl a header resolves to.
pub open spec fn spec_header_impl_text(
    item_name: Seq<char>,
    h: HeaderName,
    body: Seq<char>,
) -> Seq<char> {
    "impl rust_cef::"@ + spec_trait_name(h) + " for "@ + item_name + " { fn "@ + spec_method_name(
        h,
    ) + "(&self) -> rust_cef::CefResult { "@ + body + " } }"@
}

/// What `implement_header_trait` emits: the accessor impl, or the resolution
/// error untouched.
#[verifier::opaque]
pub open spec fn spec_implement_header(
    item_name: Seq<char>,
    h: HeaderName,
    s: SpecSchema,
) -> Result<Seq<char>, SpecGenError> {
    match spec_resolve_header(s, h) {
        Err(e) => Err(e),
        Ok(resolved) => Ok(spec_header_impl_text(item_name, h, spec_header_body(h, s, resolved))),
    }
}

/// Emits the accessor impl of one header for a type, resolving first: the
/// impl text when resolution succeeds, the resolution error otherwise.
pub fn implement_header_trait(item_name: &str, h: HeaderName, schema: &TypeSchema) -> (r: Result<
    String,
    GenError,
>)
    ensures
        res_view(r) == spec_implement_header(item_name@, h, schema@),
{
    proof {
        reveal(spec_implement_header);
    }
    let resolved = match resolve_header(schema, h) {
        Err(e) => {
            return Err(e);
        },
        Ok(resolved) => resolved,
    };
    let body = match &resolved {
        ResolvedHeader::Value(src) => source_expr(h, src, false),
        ResolvedHeader::Dispatch(arms) => {
            let variants = match schema {
                TypeSchema::Union { variants, .. } => variants,
                TypeSchema::Record { .. } => {
                    proof {
                        assert(false);
                    }
                    return Err(GenError::MissingValue { header: h });
                },
            };
            let ghost sv = seq_view(variants@);
            let ghost av = seq_view(arms@);
            proof {
                assert(av == spec_dispatch(sv, h));
                assert(av.len() == sv.len());
            }
            let mut body = "match self { ".to_owned();
            let n = arms.len();
            let mut i: usize = 0;
            while i < n
                invariant
                    0 <= i <= n,
                    n == arms@.len(),
                    n == variants@.len(),
                    sv == seq_view(variants@),
                    av == seq_view(arms@),
                    body@ == "match self { "@ + spec_header_arms(sv.take(i as int), av.take(i as int), h),
                decreases n - i,
            {
                let arm = header_arm(h, &variants[i], &arms[i].source);
                body.append(arm.as_str());
                proof {
                    assert(sv.take(i + 1).drop_last() =~= sv.take(i as int));
                    assert(av.take(i + 1).drop_last() =~= av.take(i as int));
                    assert(sv.take(i + 1).last() == sv[i as int]);
                    assert(av.take(i + 1).last() == av[i as int]);
                    assert(body@ =~= "match self { "@ + spec_header_arms(
                        sv.take(i + 1),
                        av.take(i + 1),
                        h,
                    ));
                }
                i = i + 1;
            }
            proof {
                assert(sv.take(n as int) =~= sv);
                assert(av.take(n as int) =~= av);
            }
            body.append("}");
            body
        },
    };
    let mut s = "impl rust_cef::".to_owned();
    s.append(trait_name(h));
    s.append(" for ");
    s.append(item_name);
    s.append(" { fn ");
    s.append(method_name(h));
    s.append("(&self) -> rust_cef::CefResult { ");
    s.append(body.as_str());
    s.append(" } }");
    proof {
        assert(s@ =~= spec_header_impl_text(item_name@, h, spec_header_body(h, schema@, resolved@)));
    }
    Ok(s)
}

/// What `derive_to_cef` emits: the composition comes with the trait itself,
/// so the impl is empty.
pub open spec fn spec_to_cef_impl(item_name: Seq<char>) -> Seq<char> {
    "impl rust_cef::ToCef for "@ + item_name + " { }"@
}

/// Emits the `ToCef` impl for a type; the trait's provided composition does
/// the work, so the impl is empty.
pub fn derive_to_cef(item_name: &str) -> (r: String)
    ensures
        r@ == spec_to_cef_impl(item_name@),
{
    let mut s = "impl rust_cef::ToCef for ".to_owned();
    s.append(item_name);
    s.append(" { }");
    s
}

/// Emits the `Version` header accessor impl for a type.
pub fn derive_cef_header_version(item_name: &str, schema: &TypeSchema) -> (r: Result<
    String,
    GenError,
>)
    ensures
        res_view(r) == spec_implement_header(item_name@, HeaderName::Version, schema@),
{
    implement_header_trait(item_name, HeaderName::Version, schema)
}

/// Emits the `DeviceVendor` header accessor impl for a type.
pub fn derive_cef_header_device_vendor(item_name: &str, schema: &TypeSchema) -> (r: Result<
    String,
    GenError,
>)
    ensures
        res_view(r) == spec_implement_header(item_name@, HeaderName::DeviceVendor, schema@),
{
    implement_header_trait(item_name, HeaderName::DeviceVendor, schema)
}

/// Emits the `DeviceProduct` header accessor impl for a type.
pub fn derive_cef_header_device_product(item_name: &str, schema: &TypeSchema) -> (r: Result<
    String,
    GenError,
>)
    ensures
        res_view(r) == spec_implement_header(item_name@, HeaderName::DeviceProduct, schema@),
{
    implement_header_trait(item_name, HeaderName::DeviceProduct, schema)
}

/// Emits the `DeviceVersion` header accessor impl for a type.
pub fn derive_cef_header_device_version(item_name: &str, schema: &TypeSchema) -> (r: Result<
    String,
    GenError,
>)
    ensures
        res_view(r) == spec_implement_header(item_name@, HeaderName::DeviceVersion, schema@),
{
    implement_header_trait(item_name, HeaderName::DeviceVersion, schema)
}

/// Emits the `DeviceEventClassID` header accessor impl for a type.
pub fn derive_cef_header_device_event_class_id(item_name: &str, schema: &TypeSchema) -> (r: Result<
    String,
    GenError,
>)
    ensures
        res_view(r) == spec_implement_header(item_name@, HeaderName::DeviceEventClassID, schema@),
{
    implement_header_trait(item_name, HeaderName::DeviceEventClassID, schema)
}

/// Emits the `Name` header accessor impl for a type.
pub fn derive_cef_header_name(item_name: &str, schema: &TypeSchema) -> (r: Result<String, GenError>)
    ensures
        res_view(r) == spec_implement_header(item_name@, HeaderName::Name, schema@),
{
    implement_header_trait(item_name, HeaderName::Name, schema)
}

/// Emits the `Severity` header accessor impl for a type.
pub fn derive_cef_header_severity(item_name: &str, schema: &TypeSchema) -> (r: Result<
    String,
    GenError,
>)
    ensures
        res_view(r) == spec_implement_header(item_name@, HeaderName::Severity, schema@),
{
    implement_header_trait(item_name, HeaderName::Severity, schema)
}

/// The statement one extension contribution becomes: a static insert, an
/// insert of the field's textual form, or a delegated merge whose failure
/// propagates unchanged.
pub open spec fn spec_contribution_stmt(c: SpecExtensionContribution, in_variant: bool) -> Seq<
    char,
> {
    match c {
        SpecExtensionContribution::Fixed { key, value } => "collector.insert(\""@ + spec_escape(
            key,
        ) + "\", \""@ + spec_escape(value) + "\".to_owned()); "@,
        SpecExtensionContribution::FieldValue { key, field } => "collector.insert(\""@
            + spec_escape(key) + "\", format!(\"{}\", "@ + (if in_variant {
            spec_binding(field)
        } else {
            spec_field_access(field)
        }) + ")); "@,
        SpecExtensionContribution::NestedMerge { field } =>
            "rust_cef::CefExtensions::cef_extensions("@ + (if in_variant {
            spec_binding(field)
        } else {
            spec_field_access(field)
        }) + ", collector)?; "@,
    }
}

/// The statement one extension contribution becomes.
fn contribution_stmt(c: &ExtensionContribution, in_variant: bool) -> (r: String)
    ensures
        r@ == spec_contribution_stmt(c@, in_variant),
{
    match c {
        ExtensionContribution::Fixed { key, value } => {
            let mut s = "collector.insert(\"".to_owned();
            let k = escape_literal(key.as_str());
            s.append(k.as_str());
            s.append("\", \"");
            let v = escape_literal(value.as_str());
            s.append(v.as_str());
            s.append("\".to_owned()); ");
            s
        },
        ExtensionContribution::FieldValue { key, field } => {
            let mut s = "collector.insert(\"".to_owned();
            let k = escape_literal(key.as_str());
            s.append(k.as_str());
            s.append("\", format!(\"{}\", ");
            let a = if in_variant {
                binding(field)
            } else {
                field_access(field)
            };
            s.append(a.as_str());
            s.append(")); ");
            s
        },
        ExtensionContribution::NestedMerge { field } => {
            let mut s = "rust_cef::CefExtensions::cef_extensions(".to_owned();
            let a = if in_variant {
                binding(field)
            } else {
                field_access(field)
            };
            s.append(a.as_str());
            s.append(", collector)?; ");
            s
        },
    }
}

/// The statements of a contribution list, in order.
pub open spec fn spec_contribution_stmts(
    cs: Seq<SpecExtensionContribution>,
    in_variant: bool,
) -> Seq<char>
    decreases cs.len(),
{
    if cs.len() == 0 {
        Seq::empty()
    } else {
        spec_contribution_stmts(cs.drop_last(), in_variant) + spec_contribution_stmt(
            cs.last(),
            in_variant,
        )
    }
}

/// Builds the statements of a contribution list.
fn contribution_stmts(cs: &Vec<ExtensionContribution>, in_variant: bool) -> (r: String)
    ensures
        r@ == spec_contribution_stmts(seq_view(cs@), in_variant),
{
    let mut r = String::new();
    let n = cs.len();
    let mut i: usize = 0;
    while i < n
        invariant
            0 <= i <= n,
            n == cs@.len(),
            r@ == spec_contribution_stmts(seq_view(cs@).take(i as int), in_variant),
        decreases n - i,
    {
        let s = contribution_stmt(&cs[i], in_variant);
        r.append(s.as_str());
        proof {
            assert(seq_view(cs@).take(i + 1).drop_last() =~= seq_view(cs@).take(i as int));
            assert(seq_view(cs@).take(i + 1).last() == cs@[i as int]@);
        }
        i = i + 1;
    }
    proof {
        assert(seq_view(cs@).take(n as int) =~= seq_view(cs@));
    }
    r
}

/// Whether a contribution list reads a field.
pub open spec fn spec_ext_uses(cs: Seq<SpecExtensionContribution>, id: SpecFieldIdent) -> bool
    decreases cs.len(),
{
    if cs.len() == 0 {
        false
    } else {
        spec_ext_uses(cs.drop_last(), id) || (match cs.last() {
            SpecExtensionContribution::FieldValue { field, .. } => field == id,
            SpecExtensionContribution::NestedMerge { field } => field == id,
            SpecExtensionContribution::Fixed { .. } => false,
        })
    }
}

/// Whether a contribution list reads a field.
fn ext_uses(cs: &Vec<ExtensionContribution>, id: &FieldIdent) -> (r: bool)
    ensures
        r == spec_ext_uses(seq_view(cs@), id@),
{
    let n = cs.len();
    let mut used = false;
    let mut i: usize = 0;
    while i < n
        invariant
            0 <= i <= n,
            n == cs@.len(),
            used == spec_ext_uses(seq_view(cs@).take(i as int), id@),
        decreases n - i,
    {
        proof {
            assert(seq_view(cs@).take(i + 1).drop_last() =~= seq_view(cs@).take(i as int));
            assert(seq_view(cs@).take(i + 1).last() == cs@[i as int]@);
        }
        match &cs[i] {
            ExtensionContribution::FieldValue { field, .. } => {
                if ident_eq(field, id) {
                    used = true;
                }
            },
            ExtensionContribution::NestedMerge { field } => {
                if ident_eq(field, id) {
                    used = true;
                }
            },
            ExtensionContribution::Fixed { .. } => {},
        }
        i = i + 1;
    }
    proof {
        assert(seq_view(cs@).take(n as int) =~= seq_view(cs@));
    }
    used
}

/// The capture list of an extensions arm: a field is bound when any
/// contribution reads it.
pub open spec fn spec_ext_captures_list(
    fields: Seq<SpecField>,
    cs: Seq<SpecExtensionContribution>,
) -> Seq<char>
    decreases fields.len(),
{
    if fields.len() == 0 {
        Seq::empty()
    } else {
        let one = spec_capture_one(fields.last(), spec_ext_uses(cs, fields.last().identity));
        if fields.len() == 1 {
            one
        } else {
            spec_ext_captures_list(fields.drop_last(), cs) + ", "@ + one
        }
    }
}

/// Builds the captures of an extensions arm.
fn ext_captures(fields: &Vec<Field>, cs: &Vec<ExtensionContribution>) -> (r: String)
    ensures
        r@ == spec_wrap_captures(
            seq_view(fields@),
            spec_ext_captures_list(seq_view(fields@), seq_view(cs@)),
        ),
{
    let n = fields.len();
    if n == 0 {
        return String::new();
    }
    let mut list = String::new();
    let mut i: usize = 0;
    while i < n
        invariant
            0 <= i <= n,
            n == fields@.len(),
            list@ == spec_ext_captures_list(seq_view(fields@).take(i as int), seq_view(cs@)),
        decreases n - i,
    {
        if i > 0 {
            list.append(", ");
        }
        let used = ext_uses(cs, &fields[i].identity);
        let one = capture_one(&fields[i], used);
        list.append(one.as_str());
        proof {
            assert(seq_view(fields@).take(i + 1).drop_last() =~= seq_view(fields@).take(i as int));
            assert(seq_view(fields@).take(i + 1).last() == fields@[i as int]@);
            assert(list@ =~= spec_ext_captures_list(seq_view(fields@).take(i + 1), seq_view(cs@)));
        }
        i = i + 1;
    }
    proof {
        assert(seq_view(fields@).take(n as int) =~= seq_view(fields@));
    }
    let mut r = String::new();
    match &fields[0].identity {
        FieldIdent::Named(_) => {
            r.append(" { ");
            r.append(list.as_str());
            r.append(" }");
        },
        FieldIdent::Positional(_) => {
            r.append("(");
            r.append(list.as_str());
            r.append(")");
        },
    }
    proof {
        assert(seq_view(fields@)[0] == fields@[0]@);
        assert(r@ =~= spec_wrap_captures(
            seq_view(fields@),
            spec_ext_captures_list(seq_view(fields@), seq_view(cs@)),
        ));
    }
    r
}

/// One arm of an extensions dispatch, trailing comma and space included.
pub open spec fn spec_ext_arm(v: SpecVariant, ve: SpecVariantExtensions) -> Seq<char> {
    "Self::"@ + v.name + spec_wrap_captures(
        v.fields,
        spec_ext_captures_list(v.fields, ve.contributions),
    ) + " => { "@ + spec_contribution_stmts(ve.contributions, true) + "}, "@
}

/// Builds one arm of an extensions dispatch.
fn ext_arm(v: &Variant, ve: &VariantExtensions) -> (r: String)
    ensures
        r@ == spec_ext_arm(v@, ve@),
{
    let mut s = "Self::".to_owned();
    s.append(v.name.as_str());
    let caps = ext_captures(&v.fields, &ve.contributions);
    s.append(caps.as_str());
    s.append(" => { ");
    let stmts = contribution_stmts(&ve.contributions, true);
    s.append(stmts.as_str());
    s.append("}, ");
    s
}

/// The arms of an extensions dispatch, one per variant in declaration order.
pub open spec fn spec_ext_arms(
    variants: Seq<SpecVariant>,
    ves: Seq<SpecVariantExtensions>,
) -> Seq<char>
    decreases ves.len(),
{
    if ves.len() == 0 || variants.len() == 0 {
        Seq::empty()
    } else {
        spec_ext_arms(variants.drop_last(), ves.drop_last()) + spec_ext_arm(
            variants.last(),
            ves.last(),
        )
    }
}

/// The body of the extensions accessor: the contributions' statements, under
/// a match over the variants for a union, ending in success — delegated
/// merges alone can fail, and their failure propagates.
pub open spec fn spec_ext_body(s: SpecSchema, resolved: SpecResolvedExtensions) -> Seq<char> {
    match resolved {
        SpecResolvedExtensions::ForRecord(cs) => spec_contribution_stmts(cs, false) + "Ok(())"@,
        SpecResolvedExtensions::PerVariant(ves) => {
            let variants = match s {
                SpecSchema::Union { variants, .. } => variants,
                SpecSchema::Record { .. } => Seq::empty(),
            };
            "match self { "@ + spec_ext_arms(variants, ves) + "} Ok(())"@
        },
    }
}

/// The full extensions impl a schema resolves to.
pub open spec fn spec_ext_impl_text(item_name: Seq<char>, body: Seq<char>) -> Seq<char> {
    "impl rust_cef::CefExtensions for "@ + item_name
        + " { fn cef_extensions(&self, collector: &mut rust_cef::ExtensionsCollector) -> rust_cef::CefExtensionsResult { "@
        + body + " } }"@
}

/// What `implement_extensions_trait` emits: the extensions impl, or every
/// rejection the resolver reported.
#[verifier::opaque]
pub open spec fn spec_implement_extensions(item_name: Seq<char>, s: SpecSchema) -> Result<
    Seq<char>,
    Seq<SpecGenError>,
> {
    match spec_resolve_extensions(s) {
        Err(es) => Err(es),
        Ok(resolved) => Ok(spec_ext_impl_text(item_name, spec_ext_body(s, resolved))),
    }
}

/// Emits the extensions impl for a type, resolving first: the impl text when
/// resolution succeeds, every rejection otherwise.
pub fn implement_extensions_trait(item_name: &str, schema: &TypeSchema) -> (r: Result<
    String,
    Vec<GenError>,
>)
    ensures
        match r {
            Ok(s) => spec_implement_extensions(item_name@, schema@) == Ok::<_, Seq<SpecGenError>>(
                s@,
            ),
            Err(es) => spec_implement_extensions(item_name@, schema@) == Err::<Seq<char>, _>(
                seq_view(es@),
            ),
        },
{
    proof {
        reveal(spec_implement_extensions);
    }
    let resolved = match resolve_extensions(schema) {
        Err(es) => {
            return Err(es);
        },
        Ok(resolved) => resolved,
    };
    let body = match &resolved {
        ResolvedExtensions::ForRecord(cs) => {
            let mut body = contribution_stmts(cs, false);
            body.append("Ok(())");
            body
        },
        ResolvedExtensions::PerVariant(ves) => {
            let (variants, annotations) = match schema {
                TypeSchema::Union { variants, annotations } => (variants, annotations),
                TypeSchema::Record { .. } => {
                    proof {
                        assert(false);
                    }
                    return Err(Vec::new());
                },
            };
            let ghost sv = seq_view(variants@);
            let ghost vev = seq_view(ves@);
            let mut body = "match self { ".to_owned();
            let n = ves.len();
            proof {
                crate::extensions::lemma_union_extensions_len(seq_view(annotations@), sv);
            }
            let mut i: usize = 0;
            while i < n
                invariant
                    0 <= i <= n,
                    n == ves@.len(),
                    n <= variants@.len(),
                    sv == seq_view(variants@),
                    vev == seq_view(ves@),
                    body@ == "match self { "@ + spec_ext_arms(
                        sv.take(i as int),
                        vev.take(i as int),
                    ),
                decreases n - i,
            {
                let arm = ext_arm(&variants[i], &ves[i]);
                body.append(arm.as_str());
                proof {
                    assert(sv.take(i + 1).drop_last() =~= sv.take(i as int));
                    assert(vev.take(i + 1).drop_last() =~= vev.take(i as int));
                    assert(sv.take(i + 1).last() == sv[i as int]);
                    assert(vev.take(i + 1).last() == vev[i as int]);
                    assert(body@ =~= "match self { "@ + spec_ext_arms(
                        sv.take(i + 1),
                        vev.take(i + 1),
                    ));
                }
                i = i + 1;
            }
            proof {
                assert(sv.take(n as int) =~= sv);
                assert(vev.take(n as int) =~= vev);
            }
            body.append("} Ok(())");
            body
        },
    };
    let mut s = "impl rust_cef::CefExtensions for ".to_owned();
    s.append(item_name);
    s.append(
        " { fn cef_extensions(&self, collector: &mut rust_cef::ExtensionsCollector) -> rust_cef::CefExtensionsResult { ",
    );
    s.append(body.as_str());
    s.append(" } }");
    proof {
        assert(s@ =~= spec_ext_impl_text(item_name@, spec_ext_body(schema@, resolved@)));
    }
    Ok(s)
}

/// Emits the extensions impl for a type.
pub fn derive_cef_extensions(item_name: &str, schema: &TypeSchema) -> (r: Result<
    String,
    Vec<GenError>,
>)
    ensures
        match r {
            Ok(s) => spec_implement_extensions(item_name@, schema@) == Ok::<_, Seq<SpecGenError>>(
                s@,
            ),
            Err(es) => spec_implement_extensions(item_name@, schema@) == Err::<Seq<char>, _>(
                seq_view(es@),
            ),
        },
{
    implement_extensions_trait(item_name, schema)
}

/// The error a header generation contributes to the accumulated report.
pub open spec fn spec_err_of(r: Result<Seq<char>, SpecGenError>) -> Seq<SpecGenError> {
    match r {
        Ok(_) => Seq::empty(),
        Err(e) => seq![e],
    }
}

/// What generating everything for one type yields: the seven header impls,
/// the extensions impl and the `ToCef` impl, newline-separated and in that
/// order — or every generation error of the whole type together, so that one
/// run surfaces every problem.
pub open spec fn spec_generate_impls(item_name: Seq<char>, s: SpecSchema) -> Result<
    Seq<char>,
    Seq<SpecGenError>,
> {
    let r1 = spec_implement_header(item_name, HeaderName::Version, s);
    let r2 = spec_implement_header(item_name, HeaderName::DeviceVendor, s);
    let r3 = spec_implement_header(item_name, HeaderName::DeviceProduct, s);
    let r4 = spec_implement_header(item_name, HeaderName::DeviceVersion, s);
    let r5 = spec_implement_header(item_name, HeaderName::DeviceEventClassID, s);
    let r6 = spec_implement_header(item_name, HeaderName::Name, s);
    let r7 = spec_implement_header(item_name, HeaderName::Severity, s);
    let re = spec_implement_extensions(item_name, s);
    let errs = spec_err_of(r1) + spec_err_of(r2) + spec_err_of(r3) + spec_err_of(r4) + spec_err_of(
        r5,
    ) + spec_err_of(r6) + spec_err_of(r7) + (match re {
        Ok(_) => Seq::empty(),
        Err(es) => es,
    });
    if errs.len() == 0 {
        Ok(
            r1->Ok_0 + "\n"@ + r2->Ok_0 + "\n"@ + r3->Ok_0 + "\n"@ + r4->Ok_0 + "\n"@ + r5->Ok_0
                + "\n"@ + r6->Ok_0 + "\n"@ + r7->Ok_0 + "\n"@ + re->Ok_0 + "\n"@
                + spec_to_cef_impl(item_name),
        )
    } else {
        Err(errs)
    }
}

/// The impl text a header generation contributes when it succeeds.
pub open spec fn spec_text_of(r: Result<Seq<char>, SpecGenError>) -> Seq<Seq<char>> {
    match r {
        Ok(t) => seq![t],
        Err(_) => Seq::empty(),
    }
}

/// Banks one header generation outcome: the text on success, the error
/// otherwise.
fn take_part(r: Result<String, GenError>, texts: &mut Vec<String>, errors: &mut Vec<GenError>)
    ensures
        seq_view(final(texts)@) == seq_view(old(texts)@) + spec_text_of(res_view(r)),
        seq_view(final(errors)@) == seq_view(old(errors)@) + spec_err_of(res_view(r)),
{
    let ghost t0 = seq_view(texts@);
    let ghost e0 = seq_view(errors@);
    match r {
        Ok(s) => {
            texts.push(s);
            proof {
                assert(seq_view(texts@) =~= t0 + spec_text_of(res_view(r)));
                assert(seq_view(errors@) =~= e0 + spec_err_of(res_view(r)));
            }
        },
        Err(e) => {
            errors.push(e);
            proof {
                assert(seq_view(texts@) =~= t0 + spec_text_of(res_view(r)));
                assert(seq_view(errors@) =~= e0 + spec_err_of(res_view(r)));
            }
        },
    }
}

/// A failed extensions generation reports at least one rejection.
proof fn lemma_extensions_errors_nonempty(item_name: Seq<char>, s: SpecSchema)
    ensures
        spec_implement_extensions(item_name, s) is Err ==> spec_implement_extensions(
            item_name,
            s,
        )->Err_0.len() > 0,
{
    reveal(spec_implement_extensions);
}

/// Generates every impl for one type: the seven header accessors, the
/// extensions accessor and `ToCef`, newline-separated — or, when anything
/// fails, every generation error of the type at once.
#[verifier::rlimit(100)]
#[verifier::spinoff_prover]
pub fn generate_impls(item_name: &str, schema: &TypeSchema) -> (r: Result<String, Vec<GenError>>)
    ensures
        match r {
            Ok(s) => spec_generate_impls(item_name@, schema@) == Ok::<_, Seq<SpecGenError>>(s@),
            Err(es) => spec_generate_impls(item_name@, schema@) == Err::<Seq<char>, _>(
                seq_view(es@),
            ),
        },
{
    let ghost s1 = spec_implement_header(item_name@, HeaderName::Version, schema@);
    let ghost s2 = spec_implement_header(item_name@, HeaderName::DeviceVendor, schema@);
    let ghost s3 = spec_implement_header(item_name@, HeaderName::DeviceProduct, schema@);
    let ghost s4 = spec_implement_header(item_name@, HeaderName::DeviceVersion, schema@);
    let ghost s5 = spec_implement_header(item_name@, HeaderName::DeviceEventClassID, schema@);
    let ghost s6 = spec_implement_header(item_name@, HeaderName::Name, schema@);
    let ghost s7 = spec_implement_header(item_name@, HeaderName::Severity, schema@);
    let ghost se = spec_implement_extensions(item_name@, schema@);
    let mut texts: Vec<String> = Vec::new();
    let mut errors: Vec<GenError> = Vec::new();
    proof {
        assert(seq_view(texts@) =~= Seq::<Seq<char>>::empty());
        assert(seq_view(errors@) =~= Seq::<SpecGenError>::empty());
        assert(Seq::<Seq<char>>::empty() + spec_text_of(s1) =~= spec_text_of(s1));
        assert(Seq::<SpecGenError>::empty() + spec_err_of(s1) =~= spec_err_of(s1));
    }
    take_part(
        implement_header_trait(item_name, HeaderName::Version, schema),
        &mut texts,
        &mut errors,
    );
    take_part(
        implement_header_trait(item_name, HeaderName::DeviceVendor, schema),
        &mut texts,
        &mut errors,
    );
    take_part(
        implement_header_trait(item_name, HeaderName::DeviceProduct, schema),
        &mut texts,
        &mut errors,
    );
    take_part(
        implement_header_trait(item_name, HeaderName::DeviceVersion, schema),
        &mut texts,
        &mut errors,
    );
    take_part(
        implement_header_trait(item_name, HeaderName::DeviceEventClassID, schema),
        &mut texts,
        &mut errors,
    );
    take_part(
        implement_header_trait(item_name, HeaderName::Name, schema),
        &mut texts,
        &mut errors,
    );
    take_part(
        implement_header_trait(item_name, HeaderName::Severity, schema),
        &mut texts,
        &mut errors,
    );
    match implement_extensions_trait(item_name, schema) {
        Ok(s) => {
            texts.push(s);
        },
        Err(mut es) => {
            errors.append(&mut es);
        },
    }
    let ghost ee = match se {
        Ok(_) => Seq::<SpecGenError>::empty(),
        Err(es) => es,
    };
    let ghost te = match se {
        Ok(t) => seq![t],
        Err(_) => Seq::<Seq<char>>::empty(),
    };
    proof {
        assert(seq_view(texts@) =~= spec_text_of(s1) + spec_text_of(s2) + spec_text_of(s3)
            + spec_text_of(s4) + spec_text_of(s5) + spec_text_of(s6) + spec_text_of(s7) + te);
        assert(seq_view(errors@) =~= spec_err_of(s1) + spec_err_of(s2) + spec_err_of(s3)
            + spec_err_of(s4) + spec_err_of(s5) + spec_err_of(s6) + spec_err_of(s7) + ee);
    }
    if errors.len() == 0 {
        proof {
            assert(spec_err_of(s1).len() == 0 && spec_err_of(s2).len() == 0 && spec_err_of(s3).len()
                == 0 && spec_err_of(s4).len() == 0 && spec_err_of(s5).len() == 0 && spec_err_of(
                s6,
            ).len() == 0 && spec_err_of(s7).len() == 0 && ee.len() == 0);
            assert(s1 is Ok) by {
                if !(s1 is Ok) {
                    assert(spec_err_of(s1).len() == 1);
                }
            }
            assert(s2 is Ok) by {
                if !(s2 is Ok) {
                    assert(spec_err_of(s2).len() == 1);
                }
            }
            assert(s3 is Ok) by {
                if !(s3 is Ok) {
                    assert(spec_err_of(s3).len() == 1);
                }
            }
            assert(s4 is Ok) by {
                if !(s4 is Ok) {
                    assert(spec_err_of(s4).len() == 1);
                }
            }
            assert(s5 is Ok) by {
                if !(s5 is Ok) {
                    assert(spec_err_of(s5).len() == 1);
                }
            }
            assert(s6 is Ok) by {
                if !(s6 is Ok) {
                    assert(spec_err_of(s6).len() == 1);
                }
            }
            assert(s7 is Ok) by {
                if !(s7 is Ok) {
                    assert(spec_err_of(s7).len() == 1);
                }
            }
            lemma_extensions_errors_nonempty(item_name@, schema@);
            assert(se is Ok);
            assert(texts@.len() == 8);
            assert(seq_view(texts@)[0] == s1->Ok_0);
            assert(seq_view(texts@)[1] == s2->Ok_0);
            assert(seq_view(texts@)[2] == s3->Ok_0);
            assert(seq_view(texts@)[3] == s4->Ok_0);
            assert(seq_view(texts@)[4] == s5->Ok_0);
            assert(seq_view(texts@)[5] == s6->Ok_0);
            assert(seq_view(texts@)[6] == s7->Ok_0);
            assert(seq_view(texts@)[7] == se->Ok_0);
        }
        let mut out = String::new();
        out.append(texts[0].as_str());
        out.append("\n");
        out.append(texts[1].as_str());
        out.append("\n");
        out.append(texts[2].as_str());
        out.append("\n");
        out.append(texts[3].as_str());
        out.append("\n");
        out.append(texts[4].as_str());
        out.append("\n");
        out.append(texts[5].as_str());
        out.append("\n");
        out.append(texts[6].as_str());
        out.append("\n");
        out.append(texts[7].as_str());
        out.append("\n");
        let to_cef = derive_to_cef(item_name);
        out.append(to_cef.as_str());
        proof {
            assert(out@ =~= s1->Ok_0 + "\n"@ + s2->Ok_0 + "\n"@ + s3->Ok_0 + "\n"@ + s4->Ok_0
                + "\n"@ + s5->Ok_0 + "\n"@ + s6->Ok_0 + "\n"@ + s7->Ok_0 + "\n"@ + se->Ok_0
                + "\n"@ + spec_to_cef_impl(item_name@));
        }
        Ok(out)
    } else {
        Err(errors)
    }
}

/// Generation is idempotent: what is emitted is a function of the schema and
/// the type's name alone — every generator's contract pins its output to
/// `spec_generate_impls` — so re-running generation on an unchanged schema
/// yields byte-identical text, and the same errors.
pub proof fn lemma_generation_idempotent(
    item_name: Seq<char>,
    s: SpecSchema,
    r1: Result<Seq<char>, Seq<SpecGenError>>,
    r2: Result<Seq<char>, Seq<SpecGenError>>,
)
    requires
        r1 == spec_generate_impls(item_name, s),
        r2 == spec_generate_impls(item_name, s),
    ensures
        r1 == r2,
{
}

} // verus!
