//! Extension support for timestamps: a point in time contributes one `rt`
//! extension entry holding the milliseconds since the Unix epoch, as CEF's
//! integer time format asks.

use vstd::prelude::*;

use crate::runtime::{CefExtensions, CefExtensionsResult, ExtensionsCollector, spec_insert};
use crate::text::{push_char, spec_decimal, u128_to_decimal};

verus! {

#[verifier::external_type_specification]
#[verifier::external_body]
pub struct ExOffsetDateTime(time::OffsetDateTime);

/// Relies on time::OffsetDateTime::unix_timestamp_nanos for the number of
/// nanoseconds since the Unix epoch; nothing is assumed of the value.
pub assume_specification[ time::OffsetDateTime::unix_timestamp_nanos ](
    t: time::OffsetDateTime,
) -> i128;

/// The decimal rendering of an integer: a minus sign in front of the
/// magnitude when it is negative.
pub open spec fn spec_signed_decimal(n: int) -> Seq<char> {
    if n >= 0 {
        spec_decimal(n as nat)
    } else {
        seq!['-'] + spec_decimal((-n) as nat)
    }
}

/// The milliseconds in a nanosecond count, rounding toward zero.
pub open spec fn spec_millis(nanos: int) -> int {
    if nanos >= 0 {
        nanos / 1000000
    } else {
        -((-nanos) / 1000000)
    }
}

/// Renders a nanosecond count as whole milliseconds, rounding toward zero.
pub fn millis_decimal(nanos: i128) -> (r: String)
    ensures
        r@ == spec_signed_decimal(spec_millis(nanos as int)),
{
    if nanos >= 0 {
        u128_to_decimal((nanos as u128) / 1000000)
    } else {
        let magnitude: u128 = ((-(nanos + 1)) as u128) + 1;
        assert(magnitude == -(nanos as int));
        let m = magnitude / 1000000;
        if m == 0 {
            u128_to_decimal(0)
        } else {
            let mut s = String::new();
            push_char(&mut s, '-');
            let digits = u128_to_decimal(m);
            let r = s.concat(digits.as_str());
            assert(r@ =~= spec_signed_decimal(spec_millis(nanos as int)));
            r
        }
    }
}

/// A timestamp's extension entries: one `rt` entry holding the milliseconds
/// since the Unix epoch, as time::OffsetDateTime reports them. Whatever
/// nanosecond count the timestamp yields, exactly one entry is stored, under
/// `rt`, holding that count in whole milliseconds.
impl CefExtensions for time::OffsetDateTime {
    fn cef_extensions(&self, collector: &mut ExtensionsCollector) -> (r: CefExtensionsResult)
        ensures
            r is Ok,
            exists|n: int|
                final(collector)@ == spec_insert(
                    old(collector)@,
                    "rt"@,
                    spec_signed_decimal(spec_millis(n)),
                ),
    {
        let nanos = (*self).unix_timestamp_nanos();
        collector.insert("rt", millis_decimal(nanos));
        proof {
            assert(collector@ == spec_insert(
                old(collector)@,
                "rt"@,
                spec_signed_decimal(spec_millis(nanos as int)),
            ));
        }
        Ok(())
    }
}

} // verus!
