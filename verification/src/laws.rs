//! Properties that tie resolution and composition together: a type whose
//! headers all carry fixed values and whose extensions are empty composes to
//! a line of exactly six separating bars and a trailing empty extensions
//! field.

use vstd::prelude::*;

use crate::HeaderName;
use crate::resolve::spec_resolve_header;
use crate::runtime::{spec_cef_line, spec_extensions_string};
use crate::schema::{SpecHeaderSource, SpecResolvedHeader, SpecSchema};

verus! {

/// How often a character occurs in a sequence.
pub open spec fn count_char(s: Seq<char>, c: char) -> nat
    decreases s.len(),
{
    if s.len() == 0 {
        0
    } else {
        count_char(s.drop_last(), c) + (if s.last() == c {
            1nat
        } else {
            0nat
        })
    }
}

/// Occurrences add up over concatenation.
pub proof fn lemma_count_concat(a: Seq<char>, b: Seq<char>, c: char)
    ensures
        count_char(a + b, c) == count_char(a, c) + count_char(b, c),
    decreases b.len(),
{
    if b.len() == 0 {
        assert(a + b =~= a);
    } else {
        lemma_count_concat(a, b.drop_last(), c);
        assert((a + b).drop_last() =~= a + b.drop_last());
        assert((a + b).last() == b.last());
    }
}

/// The separator count of the fixed literals.
proof fn lemma_literal_counts()
    ensures
        count_char("CEF:"@, '|') == 0,
        count_char("|"@, '|') == 1,
{
    reveal_strlit("CEF:");
    reveal_strlit("|");
    assert(count_char("CEF:"@, '|') == 0) by {
        reveal_with_fuel(count_char, 5);
    }
    assert(count_char("|"@, '|') == 1) by {
        reveal_with_fuel(count_char, 2);
    }
}

/// Round trip: a type whose every header resolves to a fixed literal free of
/// separators, with no extension entries, composes to a line holding exactly
/// seven `|` characters — six separating the seven headers and one trailing
/// `|` with the empty extensions field after it — and the line is precisely
/// the `CEF:` prefix, the seven literals and the separators.
pub proof fn lemma_fixed_round_trip(
    s: SpecSchema,
    v1: Seq<char>,
    v2: Seq<char>,
    v3: Seq<char>,
    v4: Seq<char>,
    v5: Seq<char>,
    v6: Seq<char>,
    v7: Seq<char>,
)
    requires
        spec_resolve_header(s, HeaderName::Version) == Ok::<_, crate::schema::SpecGenError>(
            SpecResolvedHeader::Value(SpecHeaderSource::Fixed(v1)),
        ),
        spec_resolve_header(s, HeaderName::DeviceVendor) == Ok::<_, crate::schema::SpecGenError>(
            SpecResolvedHeader::Value(SpecHeaderSource::Fixed(v2)),
        ),
        spec_resolve_header(s, HeaderName::DeviceProduct) == Ok::<_, crate::schema::SpecGenError>(
            SpecResolvedHeader::Value(SpecHeaderSource::Fixed(v3)),
        ),
        spec_resolve_header(s, HeaderName::DeviceVersion) == Ok::<_, crate::schema::SpecGenError>(
            SpecResolvedHeader::Value(SpecHeaderSource::Fixed(v4)),
        ),
        spec_resolve_header(s, HeaderName::DeviceEventClassID) == Ok::<
            _,
            crate::schema::SpecGenError,
        >(SpecResolvedHeader::Value(SpecHeaderSource::Fixed(v5))),
        spec_resolve_header(s, HeaderName::Name) == Ok::<_, crate::schema::SpecGenError>(
            SpecResolvedHeader::Value(SpecHeaderSource::Fixed(v6)),
        ),
        spec_resolve_header(s, HeaderName::Severity) == Ok::<_, crate::schema::SpecGenError>(
            SpecResolvedHeader::Value(SpecHeaderSource::Fixed(v7)),
        ),
        count_char(v1, '|') == 0,
        count_char(v2, '|') == 0,
        count_char(v3, '|') == 0,
        count_char(v4, '|') == 0,
        count_char(v5, '|') == 0,
        count_char(v6, '|') == 0,
        count_char(v7, '|') == 0,
    ensures
        spec_cef_line(v1, v2, v3, v4, v5, v6, v7, Seq::empty()) == "CEF:"@ + v1 + "|"@ + v2 + "|"@
            + v3 + "|"@ + v4 + "|"@ + v5 + "|"@ + v6 + "|"@ + v7 + "|"@,
        count_char(spec_cef_line(v1, v2, v3, v4, v5, v6, v7, Seq::empty()), '|') == 7,
        spec_cef_line(v1, v2, v3, v4, v5, v6, v7, Seq::empty()).last() == '|',
{
    lemma_literal_counts();
    let line = spec_cef_line(v1, v2, v3, v4, v5, v6, v7, Seq::empty());
    assert(spec_extensions_string(Seq::empty()) == Seq::<char>::empty());
    let prefix = "CEF:"@ + v1 + "|"@ + v2 + "|"@ + v3 + "|"@ + v4 + "|"@ + v5 + "|"@ + v6 + "|"@
        + v7 + "|"@;
    assert(line =~= prefix);
    lemma_count_concat("CEF:"@, v1, '|');
    lemma_count_concat("CEF:"@ + v1, "|"@, '|');
    lemma_count_concat("CEF:"@ + v1 + "|"@, v2, '|');
    lemma_count_concat("CEF:"@ + v1 + "|"@ + v2, "|"@, '|');
    lemma_count_concat("CEF:"@ + v1 + "|"@ + v2 + "|"@, v3, '|');
    lemma_count_concat("CEF:"@ + v1 + "|"@ + v2 + "|"@ + v3, "|"@, '|');
    lemma_count_concat("CEF:"@ + v1 + "|"@ + v2 + "|"@ + v3 + "|"@, v4, '|');
    lemma_count_concat("CEF:"@ + v1 + "|"@ + v2 + "|"@ + v3 + "|"@ + v4, "|"@, '|');
    lemma_count_concat("CEF:"@ + v1 + "|"@ + v2 + "|"@ + v3 + "|"@ + v4 + "|"@, v5, '|');
    lemma_count_concat("CEF:"@ + v1 + "|"@ + v2 + "|"@ + v3 + "|"@ + v4 + "|"@ + v5, "|"@, '|');
    lemma_count_concat("CEF:"@ + v1 + "|"@ + v2 + "|"@ + v3 + "|"@ + v4 + "|"@ + v5 + "|"@, v6, '|');
    lemma_count_concat(
        "CEF:"@ + v1 + "|"@ + v2 + "|"@ + v3 + "|"@ + v4 + "|"@ + v5 + "|"@ + v6,
        "|"@,
        '|',
    );
    lemma_count_concat(
        "CEF:"@ + v1 + "|"@ + v2 + "|"@ + v3 + "|"@ + v4 + "|"@ + v5 + "|"@ + v6 + "|"@,
        v7,
        '|',
    );
    lemma_count_concat(
        "CEF:"@ + v1 + "|"@ + v2 + "|"@ + v3 + "|"@ + v4 + "|"@ + v5 + "|"@ + v6 + "|"@ + v7,
        "|"@,
        '|',
    );
    assert(count_char(prefix, '|') == 7);
    assert(prefix.last() == "|"@[0]) by {
        assert(("|"@).len() == 1) by {
            reveal_strlit("|");
        }
    }
    assert(("|"@)[0] == '|') by {
        reveal_strlit("|");
    }
}

} // verus!
