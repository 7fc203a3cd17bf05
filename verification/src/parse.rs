//! The annotation parser: turns one raw attribute occurrence — its name and
//! argument list, at a given site — into typed annotations, rejecting wrong
//! arity, wrong literal kinds and disallowed sites, one distinct error per
//! malformed occurrence.

use vstd::prelude::*;

use crate::HeaderName;
use crate::schema::{
    Annotation, GenError, SiteRef, SpecAnnotation, SpecGenError, SpecSiteRef, opt_index_view,
    opt_string_view, seq_view, lemma_seq_view_push,
};
use crate::text::str_eq;

verus! {

broadcast use lemma_seq_view_push;

/// One argument of a raw attribute: a bare identifier, a `name = "literal"`
/// pair, a `name = <non-string literal>` pair, or anything else.
#[derive(Debug, Clone, PartialEq, Eq)]
pub enum RawArg {
    Path(String),
    StrValue { name: String, value: String },
    OtherValue { name: String },
    Other,
}

/// Spec-level mirror of `RawArg`.
pub enum SpecRawArg {
    Path(Seq<char>),
    StrValue { name: Seq<char>, value: Seq<char> },
    OtherValue { name: Seq<char> },
    Other,
}

impl View for RawArg {
    type V = SpecRawArg;

    open spec fn view(&self) -> SpecRawArg {
        match self {
            RawArg::Path(p) => SpecRawArg::Path(p@),
            RawArg::StrValue { name, value } => SpecRawArg::StrValue { name: name@, value: value@ },
            RawArg::OtherValue { name } => SpecRawArg::OtherValue { name: name@ },
            RawArg::Other => SpecRawArg::Other,
        }
    }
}

/// One raw attribute occurrence: its name, and its argument list — absent
/// when the attribute stands bare, without parentheses.
#[derive(Debug, Clone, PartialEq, Eq)]
pub struct RawAttribute {
    pub name: String,
    pub args: Option<Vec<RawArg>>,
}

/// Spec-level mirror of `RawAttribute`.
pub struct SpecRawAttribute {
    pub name: Seq<char>,
    pub args: Option<Seq<SpecRawArg>>,
}

impl View for RawAttribute {
    type V = SpecRawAttribute;

    open spec fn view(&self) -> SpecRawAttribute {
        SpecRawAttribute {
            name: self.name@,
            args: match &self.args {
                Some(a) => Some(seq_view(a@)),
                None => None,
            },
        }
    }
}

/// The header a name denotes, if it is one of the seven.
pub open spec fn spec_header_of_name(s: Seq<char>) -> Option<HeaderName> {
    if s == "Version"@ {
        Some(HeaderName::Version)
    } else if s == "DeviceVendor"@ {
        Some(HeaderName::DeviceVendor)
    } else if s == "DeviceProduct"@ {
        Some(HeaderName::DeviceProduct)
    } else if s == "DeviceVersion"@ {
        Some(HeaderName::DeviceVersion)
    } else if s == "DeviceEventClassID"@ {
        Some(HeaderName::DeviceEventClassID)
    } else if s == "Name"@ {
        Some(HeaderName::Name)
    } else if s == "Severity"@ {
        Some(HeaderName::Severity)
    } else {
        None
    }
}

/// Looks a header name up among the seven.
pub fn header_of_name(s: &str) -> (r: Option<HeaderName>)
    ensures
        r == spec_header_of_name(s@),
{
    if str_eq(s, "Version") {
        Some(HeaderName::Version)
    } else if str_eq(s, "DeviceVendor") {
        Some(HeaderName::DeviceVendor)
    } else if str_eq(s, "DeviceProduct") {
        Some(HeaderName::DeviceProduct)
    } else if str_eq(s, "DeviceVersion") {
        Some(HeaderName::DeviceVersion)
    } else if str_eq(s, "DeviceEventClassID") {
        Some(HeaderName::DeviceEventClassID)
    } else if str_eq(s, "Name") {
        Some(HeaderName::Name)
    } else if str_eq(s, "Severity") {
        Some(HeaderName::Severity)
    } else {
        None
    }
}

/// Message: where `cef_values` may sit.
pub open spec fn spec_msg_values_site() -> Seq<char> {
    "'cef_values' may sit on a record, a union or a variant, never on a field"@
}

fn msg_values_site() -> (r: String)
    ensures
        r@ == spec_msg_values_site(),
{
    "'cef_values' may sit on a record, a union or a variant, never on a field".to_owned()
}

/// Message: where `cef_ext_values` may sit.
pub open spec fn spec_msg_ext_values_site() -> Seq<char> {
    "'cef_ext_values' may sit on a record, a union or a variant, never on a field"@
}

fn msg_ext_values_site() -> (r: String)
    ensures
        r@ == spec_msg_ext_values_site(),
{
    "'cef_ext_values' may sit on a record, a union or a variant, never on a field".to_owned()
}

/// Message: where `cef_inherit` may sit.
pub open spec fn spec_msg_inherit_site() -> Seq<char> {
    "'cef_inherit' applies only to a field, possibly inside a variant, never to the type or a variant root"@
}

fn msg_inherit_site() -> (r: String)
    ensures
        r@ == spec_msg_inherit_site(),
{
    "'cef_inherit' applies only to a field, possibly inside a variant, never to the type or a variant root".to_owned()
}

/// Message: where `cef_field` may sit.
pub open spec fn spec_msg_field_site() -> Seq<char> {
    "'cef_field' applies only to a field, possibly inside a variant, never to the type or a variant root"@
}

fn msg_field_site() -> (r: String)
    ensures
        r@ == spec_msg_field_site(),
{
    "'cef_field' applies only to a field, possibly inside a variant, never to the type or a variant root".to_owned()
}

/// Message: where `cef_ext_field` may sit.
pub open spec fn spec_msg_ext_field_site() -> Seq<char> {
    "'cef_ext_field' applies only to a field, never to the type or a variant root"@
}

fn msg_ext_field_site() -> (r: String)
    ensures
        r@ == spec_msg_ext_field_site(),
{
    "'cef_ext_field' applies only to a field, never to the type or a variant root".to_owned()
}

/// Message: where `cef_ext_gobble` may sit.
pub open spec fn spec_msg_ext_gobble_site() -> Seq<char> {
    "'cef_ext_gobble' applies only to a field, never to the type or a variant root"@
}

fn msg_ext_gobble_site() -> (r: String)
    ensures
        r@ == spec_msg_ext_gobble_site(),
{
    "'cef_ext_gobble' applies only to a field, never to the type or a variant root".to_owned()
}

/// Message: how `cef_values` is used.
pub open spec fn spec_msg_values_usage() -> Seq<char> {
    "'cef_values' lists header values as in #[cef_values(Version = \"0\", Name = \"name\")]"@
}

fn msg_values_usage() -> (r: String)
    ensures
        r@ == spec_msg_values_usage(),
{
    "'cef_values' lists header values as in #[cef_values(Version = \"0\", Name = \"name\")]".to_owned()
}

/// Message: how `cef_ext_values` is used.
pub open spec fn spec_msg_ext_values_usage() -> Seq<char> {
    "'cef_ext_values' lists extension entries as in #[cef_ext_values(key = \"value\")]"@
}

fn msg_ext_values_usage() -> (r: String)
    ensures
        r@ == spec_msg_ext_values_usage(),
{
    "'cef_ext_values' lists extension entries as in #[cef_ext_values(key = \"value\")]".to_owned()
}

/// Message: how `cef_inherit` is used.
pub open spec fn spec_msg_inherit_usage() -> Seq<char> {
    "'cef_inherit' names the headers to inherit from the field, as in #[cef_inherit(Name)]"@
}

fn msg_inherit_usage() -> (r: String)
    ensures
        r@ == spec_msg_inherit_usage(),
{
    "'cef_inherit' names the headers to inherit from the field, as in #[cef_inherit(Name)]".to_owned()
}

/// Message: how `cef_field` is used.
pub open spec fn spec_msg_field_usage() -> Seq<char> {
    "'cef_field' names the headers the field's textual form supplies, as in #[cef_field(Name)]"@
}

fn msg_field_usage() -> (r: String)
    ensures
        r@ == spec_msg_field_usage(),
{
    "'cef_field' names the headers the field's textual form supplies, as in #[cef_field(Name)]".to_owned()
}

/// Message: how `cef_ext_field` is used.
pub open spec fn spec_msg_ext_field_usage() -> Seq<char> {
    "'cef_ext_field' takes at most one bare identifier, the extension key, as in #[cef_ext_field(key_name)]"@
}

fn msg_ext_field_usage() -> (r: String)
    ensures
        r@ == spec_msg_ext_field_usage(),
{
    "'cef_ext_field' takes at most one bare identifier, the extension key, as in #[cef_ext_field(key_name)]".to_owned()
}

/// Message: how `cef_ext_gobble` is used.
pub open spec fn spec_msg_ext_gobble_usage() -> Seq<char> {
    "'cef_ext_gobble' takes no arguments: #[cef_ext_gobble]"@
}

fn msg_ext_gobble_usage() -> (r: String)
    ensures
        r@ == spec_msg_ext_gobble_usage(),
{
    "'cef_ext_gobble' takes no arguments: #[cef_ext_gobble]".to_owned()
}

/// Message: the closed set of header names.
pub open spec fn spec_msg_invalid_header() -> Seq<char> {
    "header name should be one of: Version, DeviceVendor, DeviceProduct, DeviceVersion, DeviceEventClassID, Name, Severity"@
}

fn msg_invalid_header() -> (r: String)
    ensures
        r@ == spec_msg_invalid_header(),
{
    "header name should be one of: Version, DeviceVendor, DeviceProduct, DeviceVersion, DeviceEventClassID, Name, Severity".to_owned()
}

/// Message: fixed values must be string literals.
pub open spec fn spec_msg_values_strings() -> Seq<char> {
    "'cef_values' and 'cef_ext_values' expect every value to be a string literal"@
}

fn msg_values_strings() -> (r: String)
    ensures
        r@ == spec_msg_values_strings(),
{
    "'cef_values' and 'cef_ext_values' expect every value to be a string literal".to_owned()
}

/// What parsing a `name = "value"` argument list yields: the pairs in order,
/// or the first rejection — a bare or non-string argument.
pub open spec fn spec_name_values(
    args: Seq<SpecRawArg>,
    site: SpecSiteRef,
    usage: Seq<char>,
) -> Result<Seq<(Seq<char>, Seq<char>)>, SpecGenError>
    decreases args.len(),
{
    if args.len() == 0 {
        Ok(Seq::empty())
    } else {
        match spec_name_values(args.drop_last(), site, usage) {
            Err(e) => Err(e),
            Ok(pairs) => match args.last() {
                SpecRawArg::StrValue { name, value } => Ok(pairs.push((name, value))),
                SpecRawArg::OtherValue { name } => Err(
                    SpecGenError::MalformedAnnotation {
                        site,
                        message: spec_msg_values_strings(),
                    },
                ),
                _ => Err(SpecGenError::MalformedAnnotation { site, message: usage }),
            },
        }
    }
}

/// Extracts the `name = "value"` pairs of one attribute's argument list; an
/// attribute without a list, a bare argument or a non-string value is
/// malformed, with `usage` as the explanation.
pub fn parse_attrs_to_name_value(attr: &RawAttribute, site: SiteRef, usage: &str) -> (r: Result<
    Vec<(String, String)>,
    GenError,
>)
    ensures
        match r {
            Ok(pairs) => attr@.args is Some && spec_name_values(
                attr@.args->Some_0,
                site@,
                usage@,
            ) == Ok::<_, SpecGenError>(seq_view(pairs@)),
            Err(e) => (attr@.args is None && e@ == SpecGenError::MalformedAnnotation {
                site: site@,
                message: usage@,
            }) || (attr@.args is Some && spec_name_values(attr@.args->Some_0, site@, usage@)
                == Err::<Seq<(Seq<char>, Seq<char>)>, _>(e@)),
        },
{
    let args = match &attr.args {
        Some(a) => a,
        None => {
            return Err(
                GenError::MalformedAnnotation { site, message: usage.to_owned() },
            );
        },
    };
    let n = args.len();
    let mut pairs: Vec<(String, String)> = Vec::new();
    let mut failure: Option<GenError> = None;
    let mut i: usize = 0;
    proof {
        assert(seq_view(args@).take(0) =~= Seq::<SpecRawArg>::empty());
        assert(seq_view(pairs@) =~= Seq::<(Seq<char>, Seq<char>)>::empty());
    }
    while i < n
        invariant
            0 <= i <= n,
            n == args@.len(),
            match failure {
                None => spec_name_values(seq_view(args@).take(i as int), site@, usage@)
                    == Ok::<_, SpecGenError>(seq_view(pairs@)),
                Some(e) => spec_name_values(seq_view(args@).take(i as int), site@, usage@)
                    == Err::<Seq<(Seq<char>, Seq<char>)>, _>(e@),
            },
        decreases n - i,
    {
        proof {
            assert(seq_view(args@).take(i + 1).drop_last() =~= seq_view(args@).take(i as int));
            assert(seq_view(args@).take(i + 1).last() == args@[i as int]@);
        }
        if failure.is_none() {
            match &args[i] {
                RawArg::StrValue { name, value } => {
                    pairs.push((name.clone(), value.clone()));
                    proof {
                        assert(seq_view(pairs@).last() == (args@[i as int]@->StrValue_name,
                        args@[i as int]@->StrValue_value));
                    }
                },
                RawArg::OtherValue { name } => {
                    failure = Some(
                        GenError::MalformedAnnotation { site, message: msg_values_strings() },
                    );
                },
                _ => {
                    failure = Some(
                        GenError::MalformedAnnotation { site, message: usage.to_owned() },
                    );
                },
            }
        }
        i = i + 1;
    }
    proof {
        assert(seq_view(args@).take(n as int) =~= seq_view(args@));
    }
    match failure {
        None => Ok(pairs),
        Some(e) => Err(e),
    }
}

/// What the `cef_values` / `cef_ext_values` pairs become: fixed header
/// values, checked against the seven header names, or static extension
/// entries, any key allowed.
pub open spec fn spec_values_annotations(
    pairs: Seq<(Seq<char>, Seq<char>)>,
    site: SpecSiteRef,
    ext: bool,
) -> Result<Seq<SpecAnnotation>, SpecGenError>
    decreases pairs.len(),
{
    if pairs.len() == 0 {
        Ok(Seq::empty())
    } else {
        match spec_values_annotations(pairs.drop_last(), site, ext) {
            Err(e) => Err(e),
            Ok(anns) => {
                let (name, value) = pairs.last();
                if ext {
                    Ok(anns.push(SpecAnnotation::ExtensionFixed { key: name, value }))
                } else {
                    match spec_header_of_name(name) {
                        Some(h) => Ok(
                            anns.push(SpecAnnotation::FixedValue { target: h, literal: value }),
                        ),
                        None => Err(
                            SpecGenError::MalformedAnnotation {
                                site,
                                message: spec_msg_invalid_header(),
                            },
                        ),
                    }
                }
            },
        }
    }
}

/// Turns extracted pairs into annotations.
fn values_annotations(pairs: Vec<(String, String)>, site: SiteRef, ext: bool) -> (r: Result<
    Vec<Annotation>,
    GenError,
>)
    ensures
        match r {
            Ok(anns) => spec_values_annotations(seq_view(pairs@), site@, ext)
                == Ok::<_, SpecGenError>(seq_view(anns@)),
            Err(e) => spec_values_annotations(seq_view(pairs@), site@, ext)
                == Err::<Seq<SpecAnnotation>, _>(e@),
        },
{
    let n = pairs.len();
    let mut anns: Vec<Annotation> = Vec::new();
    let mut failure: Option<GenError> = None;
    let mut i: usize = 0;
    proof {
        assert(seq_view(pairs@).take(0) =~= Seq::<(Seq<char>, Seq<char>)>::empty());
        assert(seq_view(anns@) =~= Seq::<SpecAnnotation>::empty());
    }
    while i < n
        invariant
            0 <= i <= n,
            n == pairs@.len(),
            match failure {
                None => spec_values_annotations(seq_view(pairs@).take(i as int), site@, ext)
                    == Ok::<_, SpecGenError>(seq_view(anns@)),
                Some(e) => spec_values_annotations(seq_view(pairs@).take(i as int), site@, ext)
                    == Err::<Seq<SpecAnnotation>, _>(e@),
            },
        decreases n - i,
    {
        proof {
            assert(seq_view(pairs@).take(i + 1).drop_last() =~= seq_view(pairs@).take(i as int));
            assert(seq_view(pairs@).take(i + 1).last() == pairs@[i as int]@);
        }
        if failure.is_none() {
            if ext {
                anns.push(
                    Annotation::ExtensionFixed {
                        key: pairs[i].0.clone(),
                        value: pairs[i].1.clone(),
                    },
                );
            } else {
                match header_of_name(pairs[i].0.as_str()) {
                    Some(h) => {
                        anns.push(
                            Annotation::FixedValue { target: h, literal: pairs[i].1.clone() },
                        );
                    },
                    None => {
                        failure = Some(
                            GenError::MalformedAnnotation { site, message: msg_invalid_header() },
                        );
                    },
                }
            }
        }
        i = i + 1;
    }
    proof {
        assert(seq_view(pairs@).take(n as int) =~= seq_view(pairs@));
    }
    match failure {
        None => Ok(anns),
        Some(e) => Err(e),
    }
}

/// What a `cef_inherit` / `cef_field` argument list yields: one annotation
/// per named header, in order; a non-identifier argument or an unknown
/// header name is malformed.
pub open spec fn spec_target_annotations(
    args: Seq<SpecRawArg>,
    site: SpecSiteRef,
    display: bool,
) -> Result<Seq<SpecAnnotation>, SpecGenError>
    decreases args.len(),
{
    if args.len() == 0 {
        Ok(Seq::empty())
    } else {
        match spec_target_annotations(args.drop_last(), site, display) {
            Err(e) => Err(e),
            Ok(anns) => match args.last() {
                SpecRawArg::Path(name) => match spec_header_of_name(name) {
                    Some(h) => Ok(
                        anns.push(
                            if display {
                                SpecAnnotation::Display { target: h }
                            } else {
                                SpecAnnotation::Inherit { target: h }
                            },
                        ),
                    ),
                    None => Err(
                        SpecGenError::MalformedAnnotation {
                            site,
                            message: spec_msg_invalid_header(),
                        },
                    ),
                },
                _ => Err(
                    SpecGenError::MalformedAnnotation {
                        site,
                        message: if display {
                            spec_msg_field_usage()
                        } else {
                            spec_msg_inherit_usage()
                        },
                    },
                ),
            },
        }
    }
}

/// Turns a `cef_inherit` / `cef_field` argument list into annotations.
fn target_annotations(args: &Vec<RawArg>, site: SiteRef, display: bool) -> (r: Result<
    Vec<Annotation>,
    GenError,
>)
    ensures
        match r {
            Ok(anns) => spec_target_annotations(seq_view(args@), site@, display)
                == Ok::<_, SpecGenError>(seq_view(anns@)),
            Err(e) => spec_target_annotations(seq_view(args@), site@, display)
                == Err::<Seq<SpecAnnotation>, _>(e@),
        },
{
    let n = args.len();
    let mut anns: Vec<Annotation> = Vec::new();
    let mut failure: Option<GenError> = None;
    let mut i: usize = 0;
    proof {
        assert(seq_view(args@).take(0) =~= Seq::<SpecRawArg>::empty());
        assert(seq_view(anns@) =~= Seq::<SpecAnnotation>::empty());
    }
    while i < n
        invariant
            0 <= i <= n,
            n == args@.len(),
            match failure {
                None => spec_target_annotations(seq_view(args@).take(i as int), site@, display)
                    == Ok::<_, SpecGenError>(seq_view(anns@)),
                Some(e) => spec_target_annotations(seq_view(args@).take(i as int), site@, display)
                    == Err::<Seq<SpecAnnotation>, _>(e@),
            },
        decreases n - i,
    {
        proof {
            assert(seq_view(args@).take(i + 1).drop_last() =~= seq_view(args@).take(i as int));
            assert(seq_view(args@).take(i + 1).last() == args@[i as int]@);
        }
        if failure.is_none() {
            match &args[i] {
                RawArg::Path(name) => {
                    match header_of_name(name.as_str()) {
                        Some(h) => {
                            if display {
                                anns.push(Annotation::Display { target: h });
                            } else {
                                anns.push(Annotation::Inherit { target: h });
                            }
                        },
                        None => {
                            failure = Some(
                                GenError::MalformedAnnotation {
                                    site,
                                    message: msg_invalid_header(),
                                },
                            );
                        },
                    }
                },
                _ => {
                    failure = Some(
                        GenError::MalformedAnnotation {
                            site,
                            message: if display {
                                msg_field_usage()
                            } else {
                                msg_inherit_usage()
                            },
                        },
                    );
                },
            }
        }
        i = i + 1;
    }
    proof {
        assert(seq_view(args@).take(n as int) =~= seq_view(args@));
    }
    match failure {
        None => Ok(anns),
        Some(e) => Err(e),
    }
}

/// What one raw attribute occurrence parses to: its annotations in order, or
/// one error naming the site and explaining the correct use. An attribute
/// that is none of the six is not ours and parses to nothing.
pub open spec fn spec_parse_annotation(site: SpecSiteRef, attr: SpecRawAttribute) -> Result<
    Seq<SpecAnnotation>,
    SpecGenError,
> {
    let on_field = site.field is Some;
    if attr.name == "cef_values"@ || attr.name == "cef_ext_values"@ {
        let ext = attr.name == "cef_ext_values"@;
        if on_field {
            Err(
                SpecGenError::MalformedAnnotation {
                    site,
                    message: if ext {
                        spec_msg_ext_values_site()
                    } else {
                        spec_msg_values_site()
                    },
                },
            )
        } else {
            let usage = if ext {
                spec_msg_ext_values_usage()
            } else {
                spec_msg_values_usage()
            };
            match attr.args {
                None => Err(SpecGenError::MalformedAnnotation { site, message: usage }),
                Some(args) => match spec_name_values(args, site, usage) {
                    Err(e) => Err(e),
                    Ok(pairs) => spec_values_annotations(pairs, site, ext),
                },
            }
        }
    } else if attr.name == "cef_inherit"@ || attr.name == "cef_field"@ {
        let display = attr.name == "cef_field"@;
        if !on_field {
            Err(
                SpecGenError::MalformedAnnotation {
                    site,
                    message: if display {
                        spec_msg_field_site()
                    } else {
                        spec_msg_inherit_site()
                    },
                },
            )
        } else {
            match attr.args {
                None => Err(
                    SpecGenError::MalformedAnnotation {
                        site,
                        message: if display {
                            spec_msg_field_usage()
                        } else {
                            spec_msg_inherit_usage()
                        },
                    },
                ),
                Some(args) => spec_target_annotations(args, site, display),
            }
        }
    } else if attr.name == "cef_ext_field"@ {
        if !on_field {
            Err(SpecGenError::MalformedAnnotation { site, message: spec_msg_ext_field_site() })
        } else {
            match attr.args {
                None => Ok(seq![SpecAnnotation::ExtensionField { rename: None }]),
                Some(args) => if args.len() == 0 {
                    Ok(seq![SpecAnnotation::ExtensionField { rename: None }])
                } else if args.len() == 1 {
                    match args[0] {
                        SpecRawArg::Path(name) => Ok(
                            seq![SpecAnnotation::ExtensionField { rename: Some(name) }],
                        ),
                        _ => Err(
                            SpecGenError::MalformedAnnotation {
                                site,
                                message: spec_msg_ext_field_usage(),
                            },
                        ),
                    }
                } else {
                    Err(
                        SpecGenError::MalformedAnnotation {
                            site,
                            message: spec_msg_ext_field_usage(),
                        },
                    )
                },
            }
        }
    } else if attr.name == "cef_ext_gobble"@ {
        if !on_field {
            Err(SpecGenError::MalformedAnnotation { site, message: spec_msg_ext_gobble_site() })
        } else {
            match attr.args {
                None => Ok(seq![SpecAnnotation::ExtensionGobble]),
                Some(args) => if args.len() == 0 {
                    Ok(seq![SpecAnnotation::ExtensionGobble])
                } else {
                    Err(
                        SpecGenError::MalformedAnnotation {
                            site,
                            message: spec_msg_ext_gobble_usage(),
                        },
                    )
                },
            }
        }
    } else {
        Ok(Seq::empty())
    }
}

/// Parses one raw attribute occurrence at a site.
pub fn parse_annotation(site: SiteRef, attr: &RawAttribute) -> (r: Result<Vec<Annotation>, GenError>)
    ensures
        match r {
            Ok(anns) => spec_parse_annotation(site@, attr@) == Ok::<_, SpecGenError>(
                seq_view(anns@),
            ),
            Err(e) => spec_parse_annotation(site@, attr@) == Err::<Seq<SpecAnnotation>, _>(e@),
        },
{
    let on_field = site.field.is_some();
    let name = attr.name.as_str();
    if str_eq(name, "cef_values") || str_eq(name, "cef_ext_values") {
        let ext = str_eq(name, "cef_ext_values");
        if on_field {
            return Err(
                GenError::MalformedAnnotation {
                    site,
                    message: if ext {
                        msg_ext_values_site()
                    } else {
                        msg_values_site()
                    },
                },
            );
        }
        let usage = if ext {
            msg_ext_values_usage()
        } else {
            msg_values_usage()
        };
        match parse_attrs_to_name_value(attr, site, usage.as_str()) {
            Err(e) => Err(e),
            Ok(pairs) => values_annotations(pairs, site, ext),
        }
    } else if str_eq(name, "cef_inherit") || str_eq(name, "cef_field") {
        let display = str_eq(name, "cef_field");
        if !on_field {
            return Err(
                GenError::MalformedAnnotation {
                    site,
                    message: if display {
                        msg_field_site()
                    } else {
                        msg_inherit_site()
                    },
                },
            );
        }
        match &attr.args {
            None => Err(
                GenError::MalformedAnnotation {
                    site,
                    message: if display {
                        msg_field_usage()
                    } else {
                        msg_inherit_usage()
                    },
                },
            ),
            Some(args) => target_annotations(args, site, display),
        }
    } else if str_eq(name, "cef_ext_field") {
        if !on_field {
            return Err(
                GenError::MalformedAnnotation { site, message: msg_ext_field_site() },
            );
        }
        match &attr.args {
            None => {
                let mut anns: Vec<Annotation> = Vec::new();
                anns.push(Annotation::ExtensionField { rename: None });
                proof {
                    assert(seq_view(anns@) =~= seq![
                        SpecAnnotation::ExtensionField { rename: None },
                    ]);
                }
                Ok(anns)
            },
            Some(args) => {
                if args.len() == 0 {
                    let mut anns: Vec<Annotation> = Vec::new();
                    anns.push(Annotation::ExtensionField { rename: None });
                    proof {
                        assert(seq_view(anns@) =~= seq![
                            SpecAnnotation::ExtensionField { rename: None },
                        ]);
                    }
                    Ok(anns)
                } else if args.len() == 1 {
                    match &args[0] {
                        RawArg::Path(name) => {
                            let mut anns: Vec<Annotation> = Vec::new();
                            anns.push(
                                Annotation::ExtensionField { rename: Some(name.clone()) },
                            );
                            proof {
                                assert(seq_view(args@)[0] == args@[0]@);
                                assert(seq_view(anns@) =~= seq![
                                    SpecAnnotation::ExtensionField {
                                        rename: Some(args@[0]@->Path_0),
                                    },
                                ]);
                            }
                            Ok(anns)
                        },
                        _ => Err(
                            GenError::MalformedAnnotation {
                                site,
                                message: msg_ext_field_usage(),
                            },
                        ),
                    }
                } else {
                    Err(
                        GenError::MalformedAnnotation { site, message: msg_ext_field_usage() },
                    )
                }
            },
        }
    } else if str_eq(name, "cef_ext_gobble") {
        if !on_field {
            return Err(
                GenError::MalformedAnnotation { site, message: msg_ext_gobble_site() },
            );
        }
        let ok = match &attr.args {
            None => true,
            Some(args) => args.len() == 0,
        };
        if ok {
            let mut anns: Vec<Annotation> = Vec::new();
            anns.push(Annotation::ExtensionGobble);
            proof {
                assert(seq_view(anns@) =~= seq![SpecAnnotation::ExtensionGobble]);
            }
            Ok(anns)
        } else {
            Err(GenError::MalformedAnnotation { site, message: msg_ext_gobble_usage() })
        }
    } else {
        let anns: Vec<Annotation> = Vec::new();
        proof {
            assert(seq_view(anns@) =~= Seq::<SpecAnnotation>::empty());
        }
        Ok(anns)
    }
}

/// What a whole attribute list at one site parses to: the annotations of the
/// occurrences that parsed, and one error per occurrence that did not — each
/// malformed attribute surfaces its own error, none shadows another.
pub open spec fn spec_parse_site(
    variant: Option<int>,
    field: Option<int>,
    attrs: Seq<SpecRawAttribute>,
) -> (Seq<SpecAnnotation>, Seq<SpecGenError>)
    decreases attrs.len(),
{
    if attrs.len() == 0 {
        (Seq::empty(), Seq::empty())
    } else {
        let (pa, pe) = spec_parse_site(variant, field, attrs.drop_last());
        let site = SpecSiteRef { variant, field, annotation: attrs.len() - 1 };
        match spec_parse_annotation(site, attrs.last()) {
            Ok(anns) => (pa + anns, pe),
            Err(e) => (pa, pe.push(e)),
        }
    }
}

/// Parses every attribute of one site, accumulating annotations and errors.
pub fn parse_site_annotations(
    variant: Option<usize>,
    field: Option<usize>,
    attrs: &Vec<RawAttribute>,
) -> (r: (Vec<Annotation>, Vec<GenError>))
    ensures
        seq_view(r.0@) == spec_parse_site(
            opt_index_view(variant),
            opt_index_view(field),
            seq_view(attrs@),
        ).0,
        seq_view(r.1@) == spec_parse_site(
            opt_index_view(variant),
            opt_index_view(field),
            seq_view(attrs@),
        ).1,
{
    let mut anns: Vec<Annotation> = Vec::new();
    let mut errors: Vec<GenError> = Vec::new();
    let n = attrs.len();
    let mut i: usize = 0;
    while i < n
        invariant
            0 <= i <= n,
            n == attrs@.len(),
            seq_view(anns@) == spec_parse_site(
                opt_index_view(variant),
                opt_index_view(field),
                seq_view(attrs@).take(i as int),
            ).0,
            seq_view(errors@) == spec_parse_site(
                opt_index_view(variant),
                opt_index_view(field),
                seq_view(attrs@).take(i as int),
            ).1,
        decreases n - i,
    {
        proof {
            assert(seq_view(attrs@).take(i + 1).drop_last() =~= seq_view(attrs@).take(i as int));
            assert(seq_view(attrs@).take(i + 1).last() == attrs@[i as int]@);
        }
        let site = SiteRef { variant, field, annotation: i };
        let ghost pre = seq_view(anns@);
        match parse_annotation(site, &attrs[i]) {
            Ok(mut a) => {
                let ghost av = seq_view(a@);
                anns.append(&mut a);
                proof {
                    assert(seq_view(anns@) =~= pre + av);
                }
            },
            Err(e) => {
                errors.push(e);
            },
        }
        i = i + 1;
    }
    proof {
        assert(seq_view(attrs@).take(n as int) =~= seq_view(attrs@));
    }
    (anns, errors)
}

} // verus!
