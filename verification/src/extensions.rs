//! The extensions resolver: walks a schema for extension-producing
//! annotations and collects, in declaration order, the contributions of the
//! type (for a record) or of each variant (for a union). Duplicate keys
//! across fields are no error: they are resolved at evaluation time, the
//! later write winning. Two things are rejected: an extension entry on a
//! positional field without a rename, since an index is not a legal
//! extension key, and more than one extension annotation on one field,
//! since a field supplies at most one extension value.

use vstd::prelude::*;

use crate::schema::{
    Annotation, ExtensionContribution, Field, FieldIdent, GenError, ResolvedExtensions, SiteRef,
    SpecAnnotation, SpecExtensionContribution, SpecField, SpecFieldIdent, SpecGenError,
    SpecResolvedExtensions, SpecSchema, SpecSiteRef, SpecVariant, SpecVariantExtensions, TypeSchema,
    VariantExtensions, opt_index_view, seq_view, lemma_seq_view_push,
};

verus! {

broadcast use lemma_seq_view_push;

/// Why an extension entry on a positional field needs a rename.
pub open spec fn spec_positional_needs_rename() -> Seq<char> {
    "an extension entry on a positional field needs a rename: a tuple index is not a legal extension key; use an argument as in #[cef_ext_field(key_name)]"@
}

/// The message handed out with the positional-field rejection.
fn positional_needs_rename() -> (r: String)
    ensures
        r@ == spec_positional_needs_rename(),
{
    "an extension entry on a positional field needs a rename: a tuple index is not a legal extension key; use an argument as in #[cef_ext_field(key_name)]".to_owned()
}

/// The static entries among the annotations of a type root or a variant
/// root, in declaration order.
pub open spec fn fixed_contributions(anns: Seq<SpecAnnotation>) -> Seq<SpecExtensionContribution>
    decreases anns.len(),
{
    if anns.len() == 0 {
        Seq::empty()
    } else {
        let prefix = fixed_contributions(anns.drop_last());
        match anns.last() {
            SpecAnnotation::ExtensionFixed { key, value } => prefix.push(
                SpecExtensionContribution::Fixed { key, value },
            ),
            _ => prefix,
        }
    }
}

/// Why more than one extension annotation on one field is rejected.
pub open spec fn spec_msg_multiple_extensions() -> Seq<char> {
    "multiple extension values found for one field: at most one 'cef_ext_field' or 'cef_ext_gobble' may apply to a field; remove all but one"@
}

/// The message handed out with the multiple-values rejection.
fn msg_multiple_extensions() -> (r: String)
    ensures
        r@ == spec_msg_multiple_extensions(),
{
    "multiple extension values found for one field: at most one 'cef_ext_field' or 'cef_ext_gobble' may apply to a field; remove all but one".to_owned()
}

/// One field's extension entries in the order of its annotations, each
/// paired with the index of the annotation that produced it, and the
/// per-annotation rejections: an entry per `ExtensionField`, keyed by the
/// rename or the field's name, a merge per `ExtensionGobble`; a positional
/// field without a rename is rejected.
pub open spec fn field_contribution_entries(
    anns: Seq<SpecAnnotation>,
    identity: SpecFieldIdent,
    variant: Option<int>,
    field: int,
) -> (Seq<(SpecExtensionContribution, int)>, Seq<SpecGenError>)
    decreases anns.len(),
{
    if anns.len() == 0 {
        (Seq::empty(), Seq::empty())
    } else {
        let (pc, pe) = field_contribution_entries(anns.drop_last(), identity, variant, field);
        let idx = anns.len() - 1;
        let site = SpecSiteRef { variant, field: Some(field), annotation: idx };
        match anns.last() {
            SpecAnnotation::ExtensionField { rename } => match rename {
                Some(k) => (
                    pc.push(
                        (SpecExtensionContribution::FieldValue { key: k, field: identity }, idx),
                    ),
                    pe,
                ),
                None => match identity {
                    SpecFieldIdent::Named(n) => (
                        pc.push(
                            (
                                SpecExtensionContribution::FieldValue { key: n, field: identity },
                                idx,
                            ),
                        ),
                        pe,
                    ),
                    SpecFieldIdent::Positional(_) => (
                        pc,
                        pe.push(
                            SpecGenError::MalformedAnnotation {
                                site,
                                message: spec_positional_needs_rename(),
                            },
                        ),
                    ),
                },
            },
            SpecAnnotation::ExtensionGobble => (
                pc.push((SpecExtensionContribution::NestedMerge { field: identity }, idx)),
                pe,
            ),
            _ => (pc, pe),
        }
    }
}

/// One field's contributions and rejections: a field supplies at most one
/// extension value, so a second contributing annotation makes the whole
/// field malformed — the extra annotation is named and the field
/// contributes nothing — and a positional field without a rename is
/// rejected.
pub open spec fn field_contributions(
    anns: Seq<SpecAnnotation>,
    identity: SpecFieldIdent,
    variant: Option<int>,
    field: int,
) -> (Seq<SpecExtensionContribution>, Seq<SpecGenError>) {
    let (entries, errors) = field_contribution_entries(anns, identity, variant, field);
    if entries.len() >= 2 {
        (
            Seq::empty(),
            errors.push(
                SpecGenError::MalformedAnnotation {
                    site: SpecSiteRef { variant, field: Some(field), annotation: entries[1].1 },
                    message: spec_msg_multiple_extensions(),
                },
            ),
        )
    } else if entries.len() == 1 {
        (seq![entries[0].0], errors)
    } else {
        (Seq::empty(), errors)
    }
}

/// The contributions and rejections of a whole field list, fields in
/// declaration order.
pub open spec fn fields_contributions(fields: Seq<SpecField>, variant: Option<int>) -> (
    Seq<SpecExtensionContribution>,
    Seq<SpecGenError>,
)
    decreases fields.len(),
{
    if fields.len() == 0 {
        (Seq::empty(), Seq::empty())
    } else {
        let (pc, pe) = fields_contributions(fields.drop_last(), variant);
        let (fc, fe) = field_contributions(
            fields.last().annotations,
            fields.last().identity,
            variant,
            fields.len() - 1,
        );
        (pc + fc, pe + fe)
    }
}

/// A record's contributions: the root's static entries first, then the
/// fields' contributions.
pub open spec fn record_contributions(
    anns: Seq<SpecAnnotation>,
    fields: Seq<SpecField>,
) -> (Seq<SpecExtensionContribution>, Seq<SpecGenError>) {
    let (fc, fe) = fields_contributions(fields, None);
    (fixed_contributions(anns) + fc, fe)
}

/// One variant's realized contributions: the union root's static entries,
/// the variant's own static entries, then its fields' contributions.
pub open spec fn variant_contributions(
    type_anns: Seq<SpecAnnotation>,
    v: SpecVariant,
    vi: int,
) -> (Seq<SpecExtensionContribution>, Seq<SpecGenError>) {
    let (fc, fe) = fields_contributions(v.fields, Some(vi));
    (fixed_contributions(type_anns) + fixed_contributions(v.annotations) + fc, fe)
}

/// Every variant's contributions and all rejections, variants in declaration
/// order.
pub open spec fn union_extensions(
    type_anns: Seq<SpecAnnotation>,
    variants: Seq<SpecVariant>,
) -> (Seq<SpecVariantExtensions>, Seq<SpecGenError>)
    decreases variants.len(),
{
    if variants.len() == 0 {
        (Seq::empty(), Seq::empty())
    } else {
        let (pv, pe) = union_extensions(type_anns, variants.drop_last());
        let (vc, ve) = variant_contributions(type_anns, variants.last(), variants.len() - 1);
        (
            pv.push(
                SpecVariantExtensions { variant_name: variants.last().name, contributions: vc },
            ),
            pe + ve,
        )
    }
}

/// What `resolve_extensions` returns: the contributions when nothing was
/// rejected, all rejections otherwise.
pub open spec fn spec_resolve_extensions(s: SpecSchema) -> Result<
    SpecResolvedExtensions,
    Seq<SpecGenError>,
> {
    match s {
        SpecSchema::Record { fields, annotations } => {
            let (c, e) = record_contributions(annotations, fields);
            if e.len() == 0 {
                Ok(SpecResolvedExtensions::ForRecord(c))
            } else {
                Err(e)
            }
        },
        SpecSchema::Union { variants, annotations } => {
            let (vs, e) = union_extensions(annotations, variants);
            if e.len() == 0 {
                Ok(SpecResolvedExtensions::PerVariant(vs))
            } else {
                Err(e)
            }
        },
    }
}

/// A union's resolved extensions hold one entry per variant.
pub proof fn lemma_union_extensions_len(
    type_anns: Seq<SpecAnnotation>,
    variants: Seq<SpecVariant>,
)
    ensures
        union_extensions(type_anns, variants).0.len() == variants.len(),
    decreases variants.len(),
{
    if variants.len() > 0 {
        lemma_union_extensions_len(type_anns, variants.drop_last());
    }
}

/// The view of an extensions-resolution result.
pub open spec fn ext_res_view(r: Result<ResolvedExtensions, Vec<GenError>>) -> Result<
    SpecResolvedExtensions,
    Seq<SpecGenError>,
> {
    match r {
        Ok(x) => Ok(x@),
        Err(e) => Err(seq_view(e@)),
    }
}

/// A copy of a field identity with the same view.
fn clone_field_ident(f: &FieldIdent) -> (r: FieldIdent)
    ensures
        r@ == f@,
{
    match f {
        FieldIdent::Named(n) => FieldIdent::Named(n.clone()),
        FieldIdent::Positional(i) => FieldIdent::Positional(*i),
    }
}

/// Collects the static entries among root annotations.
fn fixed_contributions_exec(anns: &Vec<Annotation>) -> (r: Vec<ExtensionContribution>)
    ensures
        seq_view(r@) == fixed_contributions(seq_view(anns@)),
{
    let mut r: Vec<ExtensionContribution> = Vec::new();
    let n = anns.len();
    let mut i: usize = 0;
    while i < n
        invariant
            0 <= i <= n,
            n == anns@.len(),
            seq_view(r@) == fixed_contributions(seq_view(anns@).take(i as int)),
        decreases n - i,
    {
        proof {
            assert(seq_view(anns@).take(i + 1).drop_last() =~= seq_view(anns@).take(i as int));
            assert(seq_view(anns@).take(i + 1).last() == anns@[i as int]@);
        }
        match &anns[i] {
            Annotation::ExtensionFixed { key, value } => {
                r.push(ExtensionContribution::Fixed { key: key.clone(), value: value.clone() });
            },
            _ => {},
        }
        i = i + 1;
    }
    proof {
        assert(seq_view(anns@).take(n as int) =~= seq_view(anns@));
    }
    r
}

/// Collects one field's contributions; rejections go to `errors`.
fn field_contributions_exec(
    f: &Field,
    variant: Option<usize>,
    field_index: usize,
    out: &mut Vec<ExtensionContribution>,
    errors: &mut Vec<GenError>,
)
    ensures
        seq_view(final(out)@) == seq_view(old(out)@) + field_contributions(
            seq_view(f.annotations@),
            f.identity@,
            opt_index_view(variant),
            field_index as int,
        ).0,
        seq_view(final(errors)@) == seq_view(old(errors)@) + field_contributions(
            seq_view(f.annotations@),
            f.identity@,
            opt_index_view(variant),
            field_index as int,
        ).1,
{
    let ghost out0 = seq_view(out@);
    let ghost err0 = seq_view(errors@);
    let ghost anns_v = seq_view(f.annotations@);
    let ghost idv = f.identity@;
    let ghost vv = opt_index_view(variant);
    let ghost fi = field_index as int;
    let n = f.annotations.len();
    let mut field_out: Vec<ExtensionContribution> = Vec::new();
    let mut second_idx: usize = 0;
    let mut i: usize = 0;
    proof {
        assert(anns_v.take(0) =~= Seq::<SpecAnnotation>::empty());
        assert(seq_view(field_out@) =~= Seq::<SpecExtensionContribution>::empty());
        assert(entry_contribs(field_contribution_entries(anns_v.take(0), idv, vv, fi).0) =~= Seq::<
            SpecExtensionContribution,
        >::empty());
        assert(err0 + field_contribution_entries(anns_v.take(0), idv, vv, fi).1 =~= err0);
    }
    while i < n
        invariant
            0 <= i <= n,
            n == f.annotations@.len(),
            anns_v == seq_view(f.annotations@),
            idv == f.identity@,
            vv == opt_index_view(variant),
            fi == field_index as int,
            seq_view(out@) == out0,
            seq_view(field_out@) == entry_contribs(
                field_contribution_entries(anns_v.take(i as int), idv, vv, fi).0,
            ),
            field_out@.len() >= 2 ==> second_idx as int == field_contribution_entries(
                anns_v.take(i as int),
                idv,
                vv,
                fi,
            ).0[1].1,
            seq_view(errors@) == err0 + field_contribution_entries(
                anns_v.take(i as int),
                idv,
                vv,
                fi,
            ).1,
        decreases n - i,
    {
        proof {
            assert(anns_v.take(i + 1).drop_last() =~= anns_v.take(i as int));
            assert(anns_v.take(i + 1).last() == f.annotations@[i as int]@);
        }
        let ghost prev_entries = field_contribution_entries(anns_v.take(i as int), idv, vv, fi).0;
        match &f.annotations[i] {
            Annotation::ExtensionField { rename } => {
                match rename {
                    Some(k) => {
                        if field_out.len() == 1 {
                            second_idx = i;
                        }
                        field_out.push(
                            ExtensionContribution::FieldValue {
                                key: k.clone(),
                                field: clone_field_ident(&f.identity),
                            },
                        );
                    },
                    None => {
                        match &f.identity {
                            FieldIdent::Named(name) => {
                                if field_out.len() == 1 {
                                    second_idx = i;
                                }
                                field_out.push(
                                    ExtensionContribution::FieldValue {
                                        key: name.clone(),
                                        field: clone_field_ident(&f.identity),
                                    },
                                );
                            },
                            FieldIdent::Positional(_) => {
                                errors.push(
                                    GenError::MalformedAnnotation {
                                        site: SiteRef {
                                            variant,
                                            field: Some(field_index),
                                            annotation: i,
                                        },
                                        message: positional_needs_rename(),
                                    },
                                );
                            },
                        }
                    },
                }
            },
            Annotation::ExtensionGobble => {
                if field_out.len() == 1 {
                    second_idx = i;
                }
                field_out.push(
                    ExtensionContribution::NestedMerge { field: clone_field_ident(&f.identity) },
                );
            },
            _ => {},
        }
        proof {
            let new_entries = field_contribution_entries(anns_v.take(i + 1), idv, vv, fi).0;
            if new_entries.len() > prev_entries.len() {
                assert(new_entries == prev_entries.push(new_entries.last()));
                assert(entry_contribs(new_entries) =~= entry_contribs(prev_entries).push(
                    new_entries.last().0,
                ));
            }
            assert(seq_view(field_out@) =~= entry_contribs(new_entries));
        }
        i = i + 1;
    }
    proof {
        assert(anns_v.take(n as int) =~= anns_v);
    }
    if field_out.len() >= 2 {
        errors.push(
            GenError::MalformedAnnotation {
                site: SiteRef { variant, field: Some(field_index), annotation: second_idx },
                message: msg_multiple_extensions(),
            },
        );
        proof {
            assert(seq_view(out@) =~= out0 + field_contributions(anns_v, idv, vv, fi).0);
            assert(seq_view(errors@) =~= err0 + field_contributions(anns_v, idv, vv, fi).1);
        }
    } else {
        let ghost fo = seq_view(field_out@);
        out.append(&mut field_out);
        proof {
            assert(seq_view(out@) =~= out0 + fo);
            let entries = field_contribution_entries(anns_v, idv, vv, fi).0;
            if entries.len() == 1 {
                assert(fo =~= seq![entries[0].0]);
            } else {
                assert(fo =~= Seq::<SpecExtensionContribution>::empty());
            }
            assert(seq_view(out@) =~= out0 + field_contributions(anns_v, idv, vv, fi).0);
            assert(seq_view(errors@) =~= err0 + field_contributions(anns_v, idv, vv, fi).1);
        }
    }
}

/// The contributions of an entry sequence, the producing indices dropped.
pub open spec fn entry_contribs(entries: Seq<(SpecExtensionContribution, int)>) -> Seq<
    SpecExtensionContribution,
> {
    Seq::new(entries.len(), |i: int| entries[i].0)
}

/// Collects a whole field list's contributions; rejections go to `errors`.
fn fields_contributions_exec(
    fields: &Vec<Field>,
    variant: Option<usize>,
    out: &mut Vec<ExtensionContribution>,
    errors: &mut Vec<GenError>,
)
    ensures
        seq_view(final(out)@) == seq_view(old(out)@) + fields_contributions(
            seq_view(fields@),
            opt_index_view(variant),
        ).0,
        seq_view(final(errors)@) == seq_view(old(errors)@) + fields_contributions(
            seq_view(fields@),
            opt_index_view(variant),
        ).1,
{
    let ghost out0 = seq_view(out@);
    let ghost err0 = seq_view(errors@);
    let n = fields.len();
    let mut i: usize = 0;
    while i < n
        invariant
            0 <= i <= n,
            n == fields@.len(),
            seq_view(out@) == out0 + fields_contributions(
                seq_view(fields@).take(i as int),
                opt_index_view(variant),
            ).0,
            seq_view(errors@) == err0 + fields_contributions(
                seq_view(fields@).take(i as int),
                opt_index_view(variant),
            ).1,
        decreases n - i,
    {
        field_contributions_exec(&fields[i], variant, i, out, errors);
        proof {
            assert(seq_view(fields@).take(i + 1).drop_last() =~= seq_view(fields@).take(i as int));
            assert(seq_view(fields@).take(i + 1).last() == fields@[i as int]@);
            assert(seq_view(out@) =~= out0 + fields_contributions(
                seq_view(fields@).take(i + 1),
                opt_index_view(variant),
            ).0);
            assert(seq_view(errors@) =~= err0 + fields_contributions(
                seq_view(fields@).take(i + 1),
                opt_index_view(variant),
            ).1);
        }
        i = i + 1;
    }
    proof {
        assert(seq_view(fields@).take(n as int) =~= seq_view(fields@));
    }
}

/// Resolves the extensions of a schema: the contribution list of a record,
/// or one list per variant of a union; every rejected annotation is
/// reported, none silently dropped.
pub fn resolve_extensions(schema: &TypeSchema) -> (r: Result<ResolvedExtensions, Vec<GenError>>)
    ensures
        ext_res_view(r) == spec_resolve_extensions(schema@),
{
    match schema {
        TypeSchema::Record { fields, annotations } => {
            let mut out = fixed_contributions_exec(annotations);
            let mut errors: Vec<GenError> = Vec::new();
            let ghost fixed = seq_view(out@);
            fields_contributions_exec(fields, None, &mut out, &mut errors);
            proof {
                assert(seq_view(Seq::<GenError>::empty()) =~= Seq::<SpecGenError>::empty());
                assert(Seq::<SpecGenError>::empty() + fields_contributions(
                    seq_view(fields@),
                    None,
                ).1 =~= fields_contributions(seq_view(fields@), None).1);
            }
            if errors.len() == 0 {
                Ok(ResolvedExtensions::ForRecord(out))
            } else {
                Err(errors)
            }
        },
        TypeSchema::Union { variants, annotations } => {
            let mut per_variant: Vec<VariantExtensions> = Vec::new();
            let mut errors: Vec<GenError> = Vec::new();
            let ghost sv = seq_view(variants@);
            let ghost ta = seq_view(annotations@);
            let n = variants.len();
            let mut vi: usize = 0;
            while vi < n
                invariant
                    0 <= vi <= n,
                    n == variants@.len(),
                    sv == seq_view(variants@),
                    ta == seq_view(annotations@),
                    seq_view(per_variant@) == union_extensions(ta, sv.take(vi as int)).0,
                    seq_view(errors@) == union_extensions(ta, sv.take(vi as int)).1,
                decreases n - vi,
            {
                let mut contributions = fixed_contributions_exec(annotations);
                let ghost c0 = seq_view(contributions@);
                let mut vfixed = fixed_contributions_exec(&variants[vi].annotations);
                let ghost c1 = seq_view(vfixed@);
                contributions.append(&mut vfixed);
                proof {
                    assert(seq_view(contributions@) =~= c0 + c1);
                }
                let ghost c01 = seq_view(contributions@);
                fields_contributions_exec(
                    &variants[vi].fields,
                    Some(vi),
                    &mut contributions,
                    &mut errors,
                );
                per_variant.push(
                    VariantExtensions {
                        variant_name: variants[vi].name.clone(),
                        contributions,
                    },
                );
                proof {
                    assert(sv.take(vi + 1).drop_last() =~= sv.take(vi as int));
                    assert(sv.take(vi + 1).last() == sv[vi as int]);
                    assert(seq_view(per_variant@) =~= union_extensions(ta, sv.take(vi + 1)).0) by {
                        assert(c01 + fields_contributions(
                            seq_view(variants@[vi as int].fields@),
                            opt_index_view(Some(vi)),
                        ).0 =~= variant_contributions(ta, sv[vi as int], vi as int).0);
                    }
                    assert(seq_view(errors@) =~= union_extensions(ta, sv.take(vi + 1)).1);
                }
                vi = vi + 1;
            }
            proof {
                assert(sv.take(n as int) =~= sv);
            }
            if errors.len() == 0 {
                Ok(ResolvedExtensions::PerVariant(per_variant))
            } else {
                Err(errors)
            }
        },
    }
}

} // verus!
