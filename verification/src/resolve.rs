//! The header resolver: for one schema and one of the seven header names,
//! finds every candidate source, arbitrates, and returns either the single
//! source (or the per-variant dispatch of a union) or the one error the
//! situation calls for — never a silent pick among several candidates.

use vstd::prelude::*;

use crate::HeaderName;
use crate::schema::{
    Annotation, Candidate, DispatchArm, Field, FieldIdent, GenError, HeaderSource, ResolvedHeader,
    SiteRef, SpecAnnotation, SpecCandidate, SpecDispatchArm, SpecField, SpecGenError,
    SpecHeaderSource, SpecResolvedHeader, SpecSchema, SpecSiteRef, SpecVariant, TypeSchema,
    Variant, opt_index_view, res_view, seq_view, lemma_seq_view_push,
};

verus! {

broadcast use lemma_seq_view_push;

/// The fixed-value candidates for `h` among the annotations of a type root
/// or a variant root, in declaration order.
pub open spec fn root_candidates(
    anns: Seq<SpecAnnotation>,
    variant: Option<int>,
    h: HeaderName,
) -> Seq<SpecCandidate>
    decreases anns.len(),
{
    if anns.len() == 0 {
        Seq::empty()
    } else {
        let prefix = root_candidates(anns.drop_last(), variant, h);
        match anns.last() {
            SpecAnnotation::FixedValue { target, literal } => if target == h {
                prefix.push(
                    SpecCandidate {
                        site: SpecSiteRef { variant, field: None, annotation: anns.len() - 1 },
                        source: SpecHeaderSource::Fixed(literal),
                    },
                )
            } else {
                prefix
            },
            _ => prefix,
        }
    }
}

/// The candidates for `h` among one field's annotations, in declaration
/// order: each `Inherit` or `Display` aimed at `h`.
pub open spec fn field_candidates(
    anns: Seq<SpecAnnotation>,
    identity: crate::schema::SpecFieldIdent,
    variant: Option<int>,
    field: int,
    h: HeaderName,
) -> Seq<SpecCandidate>
    decreases anns.len(),
{
    if anns.len() == 0 {
        Seq::empty()
    } else {
        let prefix = field_candidates(anns.drop_last(), identity, variant, field, h);
        let site = SpecSiteRef { variant, field: Some(field), annotation: anns.len() - 1 };
        match anns.last() {
            SpecAnnotation::Inherit { target } => if target == h {
                prefix.push(SpecCandidate { site, source: SpecHeaderSource::Inherit(identity) })
            } else {
                prefix
            },
            SpecAnnotation::Display { target } => if target == h {
                prefix.push(SpecCandidate { site, source: SpecHeaderSource::Display(identity) })
            } else {
                prefix
            },
            _ => prefix,
        }
    }
}

/// The candidates for `h` among a whole field list, fields in declaration
/// order.
pub open spec fn fields_candidates(
    fields: Seq<SpecField>,
    variant: Option<int>,
    h: HeaderName,
) -> Seq<SpecCandidate>
    decreases fields.len(),
{
    if fields.len() == 0 {
        Seq::empty()
    } else {
        fields_candidates(fields.drop_last(), variant, h) + field_candidates(
            fields.last().annotations,
            fields.last().identity,
            variant,
            fields.len() - 1,
            h,
        )
    }
}

/// The candidates one variant offers for `h`: its own fixed values, then its
/// fields' candidates.
pub open spec fn variant_candidates(v: SpecVariant, vi: int, h: HeaderName) -> Seq<SpecCandidate> {
    root_candidates(v.annotations, Some(vi), h) + fields_candidates(v.fields, Some(vi), h)
}

/// All candidates that any variant of a union offers for `h`, variants in
/// declaration order.
pub open spec fn union_variant_candidates(
    variants: Seq<SpecVariant>,
    h: HeaderName,
) -> Seq<SpecCandidate>
    decreases variants.len(),
{
    if variants.len() == 0 {
        Seq::empty()
    } else {
        union_variant_candidates(variants.drop_last(), h) + variant_candidates(
            variants.last(),
            variants.len() - 1,
            h,
        )
    }
}

/// The candidates of the first variant, from position `i` on, that offers
/// more than one candidate for `h`.
pub open spec fn first_variant_conflict_from(
    variants: Seq<SpecVariant>,
    i: int,
    h: HeaderName,
) -> Option<Seq<SpecCandidate>>
    decreases variants.len() - i,
{
    if i < 0 || i >= variants.len() {
        None
    } else {
        let c = variant_candidates(variants[i], i, h);
        if c.len() >= 2 {
            Some(c)
        } else {
            first_variant_conflict_from(variants, i + 1, h)
        }
    }
}

/// The candidates of the first variant in declaration order that offers more
/// than one candidate for `h`, if any does.
pub open spec fn first_variant_conflict(
    variants: Seq<SpecVariant>,
    h: HeaderName,
) -> Option<Seq<SpecCandidate>> {
    first_variant_conflict_from(variants, 0, h)
}

/// The names of the variants that offer no candidate for `h`, in declaration
/// order.
pub open spec fn missing_variant_names(variants: Seq<SpecVariant>, h: HeaderName) -> Seq<
    Seq<char>,
>
    decreases variants.len(),
{
    if variants.len() == 0 {
        Seq::empty()
    } else {
        let prefix = missing_variant_names(variants.drop_last(), h);
        if variant_candidates(variants.last(), variants.len() - 1, h).len() == 0 {
            prefix.push(variants.last().name)
        } else {
            prefix
        }
    }
}

/// The dispatch table of a union whose every variant offers exactly one
/// candidate for `h`: variant name to that candidate's source, in
/// declaration order.
pub open spec fn spec_dispatch(variants: Seq<SpecVariant>, h: HeaderName) -> Seq<SpecDispatchArm> {
    Seq::new(
        variants.len(),
        |i: int|
            SpecDispatchArm {
                variant_name: variants[i].name,
                source: variant_candidates(variants[i], i, h)[0].source,
            },
    )
}

/// The sites of a candidate list.
pub open spec fn candidate_sites(c: Seq<SpecCandidate>) -> Seq<SpecSiteRef> {
    Seq::new(c.len(), |i: int| c[i].site)
}

/// Resolution of one header over a record: all candidates over the root and
/// the fields together; none is a missing value, one wins, several conflict.
pub open spec fn spec_resolve_record(
    fields: Seq<SpecField>,
    anns: Seq<SpecAnnotation>,
    h: HeaderName,
) -> Result<SpecResolvedHeader, SpecGenError> {
    let cands = root_candidates(anns, None, h) + fields_candidates(fields, None, h);
    if cands.len() == 0 {
        Err(SpecGenError::MissingValue { header: h })
    } else if cands.len() == 1 {
        Ok(SpecResolvedHeader::Value(cands[0].source))
    } else {
        Err(SpecGenError::Conflict { header: h, sites: candidate_sites(cands) })
    }
}

/// Resolution of one header over a union: a root fixed value must stand
/// alone; otherwise every variant must offer exactly one candidate, and the
/// dispatch table is built; a variant with several candidates conflicts, and
/// partial coverage is incomplete.
pub open spec fn spec_resolve_union(
    variants: Seq<SpecVariant>,
    anns: Seq<SpecAnnotation>,
    h: HeaderName,
) -> Result<SpecResolvedHeader, SpecGenError> {
    let roots = root_candidates(anns, None, h);
    let vcands = union_variant_candidates(variants, h);
    if roots.len() > 0 {
        if roots.len() == 1 && vcands.len() == 0 {
            Ok(SpecResolvedHeader::Value(roots[0].source))
        } else {
            Err(SpecGenError::Conflict { header: h, sites: candidate_sites(roots + vcands) })
        }
    } else {
        match first_variant_conflict(variants, h) {
            Some(c) => Err(SpecGenError::Conflict { header: h, sites: candidate_sites(c) }),
            None => if vcands.len() == 0 {
                Err(SpecGenError::MissingValue { header: h })
            } else if missing_variant_names(variants, h).len() > 0 {
                Err(
                    SpecGenError::Incomplete {
                        header: h,
                        missing_variants: missing_variant_names(variants, h),
                    },
                )
            } else {
                Ok(SpecResolvedHeader::Dispatch(spec_dispatch(variants, h)))
            },
        }
    }
}

/// What `resolve_header` returns for a schema and a header.
pub open spec fn spec_resolve_header(s: SpecSchema, h: HeaderName) -> Result<
    SpecResolvedHeader,
    SpecGenError,
> {
    match s {
        SpecSchema::Record { fields, annotations } => spec_resolve_record(fields, annotations, h),
        SpecSchema::Union { variants, annotations } => spec_resolve_union(variants, annotations, h),
    }
}

/// A first conflict holds at least two candidates.
proof fn lemma_first_conflict_len(variants: Seq<SpecVariant>, i: int, h: HeaderName)
    ensures
        match first_variant_conflict_from(variants, i, h) {
            Some(c) => c.len() >= 2,
            None => true,
        },
    decreases variants.len() - i,
{
    if 0 <= i < variants.len() {
        if variant_candidates(variants[i], i, h).len() < 2 {
            lemma_first_conflict_len(variants, i + 1, h);
        }
    }
}

/// Without a first conflict, every variant from `i` on offers at most one
/// candidate.
proof fn lemma_no_conflict_all_single(variants: Seq<SpecVariant>, i: int, h: HeaderName)
    requires
        0 <= i,
        first_variant_conflict_from(variants, i, h) is None,
    ensures
        forall|j: int|
            i <= j < variants.len() ==> #[trigger] variant_candidates(variants[j], j, h).len()
                <= 1,
    decreases variants.len() - i,
{
    if i < variants.len() {
        lemma_no_conflict_all_single(variants, i + 1, h);
    }
}

/// With no variant reported missing, every variant offers a candidate.
proof fn lemma_no_missing_all_covered(variants: Seq<SpecVariant>, h: HeaderName)
    requires
        missing_variant_names(variants, h).len() == 0,
    ensures
        forall|j: int|
            0 <= j < variants.len() ==> #[trigger] variant_candidates(variants[j], j, h).len()
                != 0,
    decreases variants.len(),
{
    if variants.len() > 0 {
        lemma_no_missing_all_covered(variants.drop_last(), h);
        assert(forall|j: int|
            0 <= j < variants.len() - 1 ==> variants.drop_last()[j] == #[trigger] variants[j]);
    }
}

/// The candidates any one variant offers are among the union's.
proof fn lemma_union_cands_cover(variants: Seq<SpecVariant>, h: HeaderName, i: int)
    requires
        0 <= i < variants.len(),
    ensures
        union_variant_candidates(variants, h).len() >= variant_candidates(
            variants[i],
            i,
            h,
        ).len(),
    decreases variants.len(),
{
    if i < variants.len() - 1 {
        lemma_union_cands_cover(variants.drop_last(), h, i);
        assert(variants.drop_last()[i] == variants[i]);
    }
}

/// Resolution decides, never picks silently: for any schema and header the
/// outcome is exactly one of a missing value; a conflict that names at least
/// two sites; an incomplete union that names at least one variant; or one
/// deterministic source — backed by exactly one candidate at its scope — or
/// one dispatch covering every variant of the union in declaration order,
/// each arm backed by that variant's single candidate.
pub proof fn lemma_resolve_header_exclusive(s: SpecSchema, h: HeaderName)
    ensures
        match spec_resolve_header(s, h) {
            Ok(SpecResolvedHeader::Value(src)) => match s {
                SpecSchema::Record { fields, annotations } => {
                    let cands = root_candidates(annotations, None, h) + fields_candidates(
                        fields,
                        None,
                        h,
                    );
                    cands.len() == 1 && src == cands[0].source
                },
                SpecSchema::Union { variants, annotations } => {
                    let roots = root_candidates(annotations, None, h);
                    roots.len() == 1 && union_variant_candidates(variants, h).len() == 0 && src
                        == roots[0].source
                },
            },
            Ok(SpecResolvedHeader::Dispatch(arms)) => {
                let variants = s->Union_variants;
                &&& s is Union
                &&& arms.len() == variants.len()
                &&& forall|i: int|
                    0 <= i < arms.len() ==> #[trigger] arms[i].variant_name == variants[i].name
                        && variant_candidates(variants[i], i, h).len() == 1 && arms[i].source
                        == variant_candidates(variants[i], i, h)[0].source
            },
            Err(SpecGenError::MissingValue { header }) => header == h,
            Err(SpecGenError::Conflict { header, sites }) => header == h && sites.len() >= 2,
            Err(SpecGenError::Incomplete { header, missing_variants }) => header == h
                && missing_variants.len() >= 1 && s is Union,
            Err(SpecGenError::MalformedAnnotation { .. }) => false,
        },
{
    match s {
        SpecSchema::Record { fields, annotations } => {},
        SpecSchema::Union { variants, annotations } => {
            let roots = root_candidates(annotations, None, h);
            if roots.len() == 0 {
                lemma_first_conflict_len(variants, 0, h);
                match first_variant_conflict(variants, h) {
                    Some(_) => {},
                    None => {
                        if union_variant_candidates(variants, h).len() != 0
                            && missing_variant_names(variants, h).len() == 0 {
                            lemma_no_conflict_all_single(variants, 0, h);
                            lemma_no_missing_all_covered(variants, h);
                        }
                    },
                }
            }
        },
    }
}

/// A union whose variants all but one supply a header — and whose root does
/// not — fails as incomplete, naming exactly the one variant without it.
/// (With a single variant that supplies nothing, the header is missing at
/// the union's scope instead.)
pub proof fn lemma_union_incomplete_names_missing(
    variants: Seq<SpecVariant>,
    anns: Seq<SpecAnnotation>,
    h: HeaderName,
    m: int,
)
    requires
        variants.len() >= 2,
        0 <= m < variants.len(),
        root_candidates(anns, None, h).len() == 0,
        variant_candidates(variants[m], m, h).len() == 0,
        forall|i: int|
            0 <= i < variants.len() && i != m ==> #[trigger] variant_candidates(
                variants[i],
                i,
                h,
            ).len() == 1,
    ensures
        spec_resolve_union(variants, anns, h) == Err::<SpecResolvedHeader, SpecGenError>(
            SpecGenError::Incomplete { header: h, missing_variants: seq![variants[m].name] },
        ),
{
    lemma_no_variant_conflict(variants, 0, h, m);
    let other: int = if m == 0 {
        1
    } else {
        0
    };
    lemma_union_cands_cover(variants, h, other);
    lemma_missing_exactly(variants, h, m);
}

/// With every variant offering at most one candidate, no conflict is found
/// from any starting point.
proof fn lemma_no_variant_conflict(variants: Seq<SpecVariant>, i: int, h: HeaderName, m: int)
    requires
        0 <= i,
        variant_candidates(variants[m], m, h).len() == 0,
        forall|j: int|
            0 <= j < variants.len() && j != m ==> #[trigger] variant_candidates(
                variants[j],
                j,
                h,
            ).len() == 1,
    ensures
        first_variant_conflict_from(variants, i, h) is None,
    decreases variants.len() - i,
{
    if i < variants.len() {
        lemma_no_variant_conflict(variants, i + 1, h, m);
    }
}

/// With exactly the variant at `m` offering no candidate, the missing list
/// holds exactly its name.
proof fn lemma_missing_exactly(variants: Seq<SpecVariant>, h: HeaderName, m: int)
    requires
        0 <= m < variants.len(),
        variant_candidates(variants[m], m, h).len() == 0,
        forall|i: int|
            0 <= i < variants.len() && i != m ==> #[trigger] variant_candidates(
                variants[i],
                i,
                h,
            ).len() != 0,
    ensures
        missing_variant_names(variants, h) == seq![variants[m].name],
    decreases variants.len(),
{
    let prefix = variants.drop_last();
    assert(forall|j: int| 0 <= j < variants.len() - 1 ==> prefix[j] == #[trigger] variants[j]);
    if m == variants.len() - 1 {
        lemma_missing_none(prefix, h);
        assert(missing_variant_names(variants, h) =~= seq![variants[m].name]);
    } else {
        lemma_missing_exactly(prefix, h, m);
    }
}

/// With every variant offering a candidate, nothing is missing.
proof fn lemma_missing_none(variants: Seq<SpecVariant>, h: HeaderName)
    requires
        forall|i: int|
            0 <= i < variants.len() ==> #[trigger] variant_candidates(variants[i], i, h).len()
                != 0,
    ensures
        missing_variant_names(variants, h).len() == 0,
    decreases variants.len(),
{
    if variants.len() > 0 {
        let prefix = variants.drop_last();
        assert(forall|j: int| 0 <= j < variants.len() - 1 ==> prefix[j] == #[trigger] variants[j]);
        lemma_missing_none(prefix, h);
    }
}

/// A copy of a field identity with the same view.
fn clone_field_ident(f: &FieldIdent) -> (r: FieldIdent)
    ensures
        r@ == f@,
{
    match f {
        FieldIdent::Named(n) => FieldIdent::Named(n.clone()),
        FieldIdent::Positional(i) => FieldIdent::Positional(*i),
    }
}

/// A copy of a header source with the same view.
fn clone_header_source(s: &HeaderSource) -> (r: HeaderSource)
    ensures
        r@ == s@,
{
    match s {
        HeaderSource::Fixed(v) => HeaderSource::Fixed(v.clone()),
        HeaderSource::Inherit(f) => HeaderSource::Inherit(clone_field_ident(f)),
        HeaderSource::Display(f) => HeaderSource::Display(clone_field_ident(f)),
    }
}

/// A copy of a candidate list with the same view.
fn clone_candidates(c: &Vec<Candidate>) -> (r: Vec<Candidate>)
    ensures
        seq_view(r@) == seq_view(c@),
{
    let mut r: Vec<Candidate> = Vec::new();
    let n = c.len();
    let mut i: usize = 0;
    while i < n
        invariant
            0 <= i <= n,
            n == c@.len(),
            seq_view(r@) == seq_view(c@).take(i as int),
        decreases n - i,
    {
        r.push(Candidate { site: c[i].site, source: clone_header_source(&c[i].source) });
        proof {
            assert(seq_view(c@).take(i + 1) =~= seq_view(c@).take(i as int).push(c@[i as int]@));
        }
        i = i + 1;
    }
    proof {
        assert(seq_view(c@).take(n as int) =~= seq_view(c@));
    }
    r
}

/// The sites of a candidate list, as values.
fn candidate_sites_exec(c: &Vec<Candidate>) -> (r: Vec<SiteRef>)
    ensures
        seq_view(r@) == candidate_sites(seq_view(c@)),
{
    let mut r: Vec<SiteRef> = Vec::new();
    let n = c.len();
    let mut i: usize = 0;
    while i < n
        invariant
            0 <= i <= n,
            n == c@.len(),
            seq_view(r@) == candidate_sites(seq_view(c@)).take(i as int),
        decreases n - i,
    {
        r.push(c[i].site);
        proof {
            assert(candidate_sites(seq_view(c@)).take(i + 1) =~= candidate_sites(
                seq_view(c@),
            ).take(i as int).push(c@[i as int]@.site));
        }
        i = i + 1;
    }
    proof {
        assert(candidate_sites(seq_view(c@)).take(n as int) =~= candidate_sites(seq_view(c@)));
    }
    r
}

/// Collects the fixed-value candidates for `h` among root annotations.
fn root_fixed_candidates(anns: &Vec<Annotation>, variant: Option<usize>, h: HeaderName) -> (r: Vec<
    Candidate,
>)
    ensures
        seq_view(r@) == root_candidates(seq_view(anns@), opt_index_view(variant), h),
{
    let mut r: Vec<Candidate> = Vec::new();
    let n = anns.len();
    let mut i: usize = 0;
    while i < n
        invariant
            0 <= i <= n,
            n == anns@.len(),
            seq_view(r@) == root_candidates(seq_view(anns@).take(i as int), opt_index_view(variant), h),
        decreases n - i,
    {
        proof {
            assert(seq_view(anns@).take(i + 1).drop_last() =~= seq_view(anns@).take(i as int));
            assert(seq_view(anns@).take(i + 1).last() == anns@[i as int]@);
        }
        match &anns[i] {
            Annotation::FixedValue { target, literal } => {
                if *target == h {
                    r.push(
                        Candidate {
                            site: SiteRef { variant, field: None, annotation: i },
                            source: HeaderSource::Fixed(literal.clone()),
                        },
                    );
                }
            },
            _ => {},
        }
        i = i + 1;
    }
    proof {
        assert(seq_view(anns@).take(n as int) =~= seq_view(anns@));
    }
    r
}

/// Collects the candidates for `h` among one field's annotations.
fn field_header_candidates(f: &Field, variant: Option<usize>, field_index: usize, h: HeaderName) -> (r:
    Vec<Candidate>)
    ensures
        seq_view(r@) == field_candidates(
            seq_view(f.annotations@),
            f.identity@,
            opt_index_view(variant),
            field_index as int,
            h,
        ),
{
    let mut r: Vec<Candidate> = Vec::new();
    let n = f.annotations.len();
    let mut i: usize = 0;
    while i < n
        invariant
            0 <= i <= n,
            n == f.annotations@.len(),
            seq_view(r@) == field_candidates(
                seq_view(f.annotations@).take(i as int),
                f.identity@,
                opt_index_view(variant),
                field_index as int,
                h,
            ),
        decreases n - i,
    {
        proof {
            assert(seq_view(f.annotations@).take(i + 1).drop_last() =~= seq_view(
                f.annotations@,
            ).take(i as int));
            assert(seq_view(f.annotations@).take(i + 1).last() == f.annotations@[i as int]@);
        }
        match &f.annotations[i] {
            Annotation::Inherit { target } => {
                if *target == h {
                    r.push(
                        Candidate {
                            site: SiteRef { variant, field: Some(field_index), annotation: i },
                            source: HeaderSource::Inherit(clone_field_ident(&f.identity)),
                        },
                    );
                }
            },
            Annotation::Display { target } => {
                if *target == h {
                    r.push(
                        Candidate {
                            site: SiteRef { variant, field: Some(field_index), annotation: i },
                            source: HeaderSource::Display(clone_field_ident(&f.identity)),
                        },
                    );
                }
            },
            _ => {},
        }
        i = i + 1;
    }
    proof {
        assert(seq_view(f.annotations@).take(n as int) =~= seq_view(f.annotations@));
    }
    r
}

/// Collects the candidates for `h` among a whole field list.
fn fields_header_candidates(fields: &Vec<Field>, variant: Option<usize>, h: HeaderName) -> (r: Vec<
    Candidate,
>)
    ensures
        seq_view(r@) == fields_candidates(seq_view(fields@), opt_index_view(variant), h),
{
    let mut r: Vec<Candidate> = Vec::new();
    let n = fields.len();
    let mut i: usize = 0;
    while i < n
        invariant
            0 <= i <= n,
            n == fields@.len(),
            seq_view(r@) == fields_candidates(
                seq_view(fields@).take(i as int),
                opt_index_view(variant),
                h,
            ),
        decreases n - i,
    {
        let ghost pre = seq_view(r@);
        let mut c = field_header_candidates(&fields[i], variant, i, h);
        let ghost cv = seq_view(c@);
        r.append(&mut c);
        proof {
            assert(seq_view(r@) =~= pre + cv);
            assert(seq_view(fields@).take(i + 1).drop_last() =~= seq_view(fields@).take(i as int));
            assert(seq_view(fields@).take(i + 1).last() == fields@[i as int]@);
        }
        i = i + 1;
    }
    proof {
        assert(seq_view(fields@).take(n as int) =~= seq_view(fields@));
    }
    r
}

/// Collects the candidates one variant offers for `h`.
fn variant_header_candidates(v: &Variant, vi: usize, h: HeaderName) -> (r: Vec<Candidate>)
    ensures
        seq_view(r@) == variant_candidates(v@, vi as int, h),
{
    let mut r = root_fixed_candidates(&v.annotations, Some(vi), h);
    let ghost pre = seq_view(r@);
    let mut fc = fields_header_candidates(&v.fields, Some(vi), h);
    let ghost fcv = seq_view(fc@);
    r.append(&mut fc);
    proof {
        assert(seq_view(r@) =~= pre + fcv);
    }
    r
}

/// Appending one variant moves the first conflict no earlier: an existing
/// first conflict stays, and otherwise only the new variant can bring one.
proof fn lemma_first_conflict_from_push(
    variants: Seq<SpecVariant>,
    v: SpecVariant,
    i: int,
    h: HeaderName,
)
    requires
        0 <= i <= variants.len(),
    ensures
        first_variant_conflict_from(variants.push(v), i, h) == match first_variant_conflict_from(
            variants,
            i,
            h,
        ) {
            Some(c) => Some(c),
            None => {
                let c = variant_candidates(v, variants.len() as int, h);
                if c.len() >= 2 {
                    Some(c)
                } else {
                    None
                }
            },
        },
    decreases variants.len() - i,
{
    let p = variants.push(v);
    if i == variants.len() {
        assert(p[i] == v);
    } else {
        assert(p[i] == variants[i]);
        lemma_first_conflict_from_push(variants, v, i + 1, h);
    }
}

/// Resolves one header over a schema: exactly one of a missing value, a
/// conflict listing at least two sites, an incomplete union naming the
/// variants without the header, or one deterministic source or dispatch.
pub fn resolve_header(schema: &TypeSchema, h: HeaderName) -> (r: Result<ResolvedHeader, GenError>)
    ensures
        res_view(r) == spec_resolve_header(schema@, h),
{
    match schema {
        TypeSchema::Record { fields, annotations } => {
            let mut cands = root_fixed_candidates(annotations, None, h);
            let ghost rootv = seq_view(cands@);
            let mut fc = fields_header_candidates(fields, None, h);
            let ghost fcv = seq_view(fc@);
            cands.append(&mut fc);
            proof {
                assert(seq_view(cands@) =~= rootv + fcv);
            }
            if cands.len() == 0 {
                Err(GenError::MissingValue { header: h })
            } else if cands.len() == 1 {
                match cands.pop() {
                    Some(c) => Ok(ResolvedHeader::Value(c.source)),
                    None => Err(GenError::MissingValue { header: h }),
                }
            } else {
                let sites = candidate_sites_exec(&cands);
                Err(GenError::Conflict { header: h, sites })
            }
        },
        TypeSchema::Union { variants, annotations } => {
            let roots = root_fixed_candidates(annotations, None, h);
            let mut vcands: Vec<Candidate> = Vec::new();
            let mut conflict: Option<Vec<Candidate>> = None;
            let mut missing: Vec<String> = Vec::new();
            let mut dispatch: Vec<DispatchArm> = Vec::new();
            let ghost sv = seq_view(variants@);
            let n = variants.len();
            let mut vi: usize = 0;
            while vi < n
                invariant
                    0 <= vi <= n,
                    n == variants@.len(),
                    sv == seq_view(variants@),
                    seq_view(vcands@) == union_variant_candidates(sv.take(vi as int), h),
                    match conflict {
                        Some(c) => first_variant_conflict(sv.take(vi as int), h) == Some(
                            seq_view(c@),
                        ),
                        None => first_variant_conflict(sv.take(vi as int), h) is None,
                    },
                    seq_view(missing@) == missing_variant_names(sv.take(vi as int), h),
                    (conflict is None && missing@.len() == 0) ==> seq_view(dispatch@)
                        == spec_dispatch(sv.take(vi as int), h),
                decreases n - vi,
            {
                let mut c = variant_header_candidates(&variants[vi], vi, h);
                let ghost cv = seq_view(c@);
                proof {
                    assert(sv.take(vi as int).push(variants@[vi as int]@) =~= sv.take(vi + 1));
                    lemma_first_conflict_from_push(sv.take(vi as int), variants@[vi as int]@, 0, h);
                    assert(sv.take(vi as int).len() == vi as int);
                    assert(cv == variant_candidates(sv[vi as int], vi as int, h));
                    assert(sv.take(vi + 1).drop_last() =~= sv.take(vi as int));
                    assert(sv.take(vi + 1).last() == sv[vi as int]);
                }
                let ghost old_dispatch = seq_view(dispatch@);
                let ghost old_missing_len = missing@.len();
                let ghost old_conflict_none = conflict is None;
                if c.len() >= 2 && conflict.is_none() {
                    conflict = Some(clone_candidates(&c));
                }
                if c.len() == 0 {
                    missing.push(variants[vi].name.clone());
                }
                if c.len() == 1 {
                    dispatch.push(
                        DispatchArm {
                            variant_name: variants[vi].name.clone(),
                            source: clone_header_source(&c[0].source),
                        },
                    );
                }
                let ghost pre = seq_view(vcands@);
                vcands.append(&mut c);
                proof {
                    assert(seq_view(vcands@) =~= pre + cv);
                    if old_conflict_none && old_missing_len == 0 && cv.len() == 1 {
                        assert(seq_view(dispatch@) =~= spec_dispatch(sv.take(vi + 1), h)) by {
                            assert(forall|j: int|
                                0 <= j < vi as int ==> sv.take(vi + 1)[j] == #[trigger] sv.take(
                                    vi as int,
                                )[j]);
                            assert(seq_view(dispatch@) == old_dispatch.push(
                                SpecDispatchArm {
                                    variant_name: sv[vi as int].name,
                                    source: cv[0].source,
                                },
                            ));
                        }
                    }
                    if cv.len() == 0 {
                        assert(seq_view(missing@) =~= missing_variant_names(sv.take(vi + 1), h));
                    } else {
                        assert(seq_view(missing@) == missing_variant_names(sv.take(vi + 1), h));
                    }
                }
                vi = vi + 1;
            }
            proof {
                assert(sv.take(n as int) =~= sv);
            }
            if roots.len() > 0 {
                if roots.len() == 1 && vcands.len() == 0 {
                    let mut roots = roots;
                    match roots.pop() {
                        Some(c) => Ok(ResolvedHeader::Value(c.source)),
                        None => Err(GenError::MissingValue { header: h }),
                    }
                } else {
                    let mut all = roots;
                    let ghost rootv = seq_view(all@);
                    let ghost vcv = seq_view(vcands@);
                    let mut vcands = vcands;
                    all.append(&mut vcands);
                    proof {
                        assert(seq_view(all@) =~= rootv + vcv);
                    }
                    let sites = candidate_sites_exec(&all);
                    Err(GenError::Conflict { header: h, sites })
                }
            } else {
                match conflict {
                    Some(c) => {
                        let sites = candidate_sites_exec(&c);
                        Err(GenError::Conflict { header: h, sites })
                    },
                    None => {
                        if vcands.len() == 0 {
                            Err(GenError::MissingValue { header: h })
                        } else if missing.len() > 0 {
                            Err(GenError::Incomplete { header: h, missing_variants: missing })
                        } else {
                            Ok(ResolvedHeader::Dispatch(dispatch))
                        }
                    },
                }
            }
        },
    }
}

} // verus!
