//! The runtime side of the library: the conversion error, the extensions
//! collector, the composer that joins the seven header values and the
//! rendered extensions into one CEF line, and the traits that generated
//! accessor logic implements.

use vstd::prelude::*;

use crate::text::{seq_lt, str_compare, lemma_seq_lt_total, lemma_seq_lt_asymmetric,
    lemma_seq_lt_transitive};

verus! {

/// The error used by every conversion at runtime. Arbitrary failures carry
/// their message in `Unexpected`.
#[derive(Debug, Clone, PartialEq, Eq)]
pub enum CefConversionError {
    Unexpected(String),
}

/// What `message` returns for an error.
pub open spec fn spec_error_message(e: CefConversionError) -> Seq<char> {
    match e {
        CefConversionError::Unexpected(m) => "CefConversionError::Unexpected "@ + m@,
    }
}

impl CefConversionError {
    /// The human-readable rendering of the error.
    pub fn message(&self) -> (r: String)
        ensures
            r@ == spec_error_message(*self),
    {
        match self {
            CefConversionError::Unexpected(m) => {
                let s = String::from_str("CefConversionError::Unexpected ");
                s.concat(m.as_str())
            },
        }
    }
}

/// The result type of every header accessor and of the composer.
pub type CefResult = Result<String, CefConversionError>;

/// The result type of extension collection: nothing on success, the error
/// that aborts the conversion otherwise.
pub type CefExtensionsResult = Result<(), CefConversionError>;

/// Keys strictly ascending: sorted, and no key twice.
pub open spec fn ext_sorted(s: Seq<(Seq<char>, Seq<char>)>) -> bool {
    forall|i: int, j: int| 0 <= i < j < s.len() ==> seq_lt(s[i].0, s[j].0)
}

/// Insertion into a key-sorted entry sequence; an entry with the same key is
/// replaced, so the later write wins.
pub open spec fn spec_insert(
    s: Seq<(Seq<char>, Seq<char>)>,
    k: Seq<char>,
    v: Seq<char>,
) -> Seq<(Seq<char>, Seq<char>)>
    decreases s.len(),
{
    if s.len() == 0 {
        seq![(k, v)]
    } else if seq_lt(k, s[0].0) {
        seq![(k, v)] + s
    } else if k == s[0].0 {
        seq![(k, v)] + s.drop_first()
    } else {
        seq![s[0]] + spec_insert(s.drop_first(), k, v)
    }
}

/// The value stored under a key, if any.
pub open spec fn spec_lookup(s: Seq<(Seq<char>, Seq<char>)>, k: Seq<char>) -> Option<Seq<char>>
    decreases s.len(),
{
    if s.len() == 0 {
        None
    } else if s[0].0 == k {
        Some(s[0].1)
    } else {
        spec_lookup(s.drop_first(), k)
    }
}

/// A key is never below itself.
proof fn lemma_seq_lt_irreflexive(a: Seq<char>)
    ensures
        !seq_lt(a, a),
{
    if seq_lt(a, a) {
        lemma_seq_lt_asymmetric(a, a);
    }
}

/// Inserting stores the value: looking the key up right after finds it.
pub proof fn lemma_lookup_insert(s: Seq<(Seq<char>, Seq<char>)>, k: Seq<char>, v: Seq<char>)
    ensures
        spec_lookup(spec_insert(s, k, v), k) == Some(v),
    decreases s.len(),
{
    if s.len() == 0 {
    } else if seq_lt(k, s[0].0) {
        assert(spec_insert(s, k, v)[0] == (k, v));
    } else if k == s[0].0 {
        assert(spec_insert(s, k, v)[0] == (k, v));
    } else {
        lemma_lookup_insert(s.drop_first(), k, v);
        let r = spec_insert(s, k, v);
        assert(r[0] == s[0]);
        lemma_seq_lt_total(k, s[0].0);
        assert(s[0].0 != k);
        assert(r.drop_first() =~= spec_insert(s.drop_first(), k, v));
    }
}

/// Inserting one key leaves every other key's value alone.
pub proof fn lemma_lookup_insert_other(
    s: Seq<(Seq<char>, Seq<char>)>,
    k: Seq<char>,
    v: Seq<char>,
    k2: Seq<char>,
)
    requires
        k2 != k,
    ensures
        spec_lookup(spec_insert(s, k, v), k2) == spec_lookup(s, k2),
    decreases s.len(),
{
    if s.len() == 0 {
        let r = spec_insert(s, k, v);
        assert(r[0] == (k, v));
        assert(r[0].0 == k);
        assert(r.drop_first() =~= Seq::<(Seq<char>, Seq<char>)>::empty());
        assert(spec_lookup(r, k2) == spec_lookup(r.drop_first(), k2));
    } else if seq_lt(k, s[0].0) {
        let r = spec_insert(s, k, v);
        assert(r[0] == (k, v));
        assert(r[0].0 == k);
        assert(r.drop_first() =~= s);
        assert(spec_lookup(r, k2) == spec_lookup(s, k2));
    } else if k == s[0].0 {
        let r = spec_insert(s, k, v);
        assert(r[0] == (k, v));
        assert(r[0].0 == k);
        assert(r.drop_first() =~= s.drop_first());
        assert(spec_lookup(r, k2) == spec_lookup(s.drop_first(), k2));
        assert(s[0].0 != k2);
        assert(spec_lookup(s, k2) == spec_lookup(s.drop_first(), k2));
    } else {
        lemma_lookup_insert_other(s.drop_first(), k, v, k2);
        let r = spec_insert(s, k, v);
        assert(r[0] == s[0]);
        assert(r.drop_first() =~= spec_insert(s.drop_first(), k, v));
        if s[0].0 == k2 {
            assert(spec_lookup(r, k2) == Some(r[0].1));
            assert(spec_lookup(s, k2) == Some(s[0].1));
        } else {
            assert(spec_lookup(r, k2) == spec_lookup(spec_insert(s.drop_first(), k, v), k2));
            assert(spec_lookup(s, k2) == spec_lookup(s.drop_first(), k2));
        }
    }
}

/// Two contributions to the same key never fail: the later write wins, and a
/// lookup of that key afterwards sees exactly the later value.
pub proof fn lemma_extension_last_write_wins(
    s: Seq<(Seq<char>, Seq<char>)>,
    k: Seq<char>,
    v1: Seq<char>,
    v2: Seq<char>,
)
    ensures
        spec_lookup(spec_insert(spec_insert(s, k, v1), k, v2), k) == Some(v2),
{
    lemma_lookup_insert(spec_insert(s, k, v1), k, v2);
}

/// A lookup that found no match among the first `i` entries continues in the
/// remainder.
proof fn lemma_lookup_skip(s: Seq<(Seq<char>, Seq<char>)>, k: Seq<char>, i: int)
    requires
        0 <= i <= s.len(),
        forall|j: int| 0 <= j < i ==> s[j].0 != k,
    ensures
        spec_lookup(s, k) == spec_lookup(s.skip(i), k),
    decreases i,
{
    if i == 0 {
        assert(s.skip(0) =~= s);
    } else {
        lemma_lookup_skip(s.drop_first(), k, i - 1);
        assert(s.drop_first().skip(i - 1) =~= s.skip(i));
    }
}

/// Where an insertion lands, given the number `i` of keys strictly below the
/// new one: the result is the old entries around the new entry, the old entry
/// with the same key gone.
proof fn lemma_spec_insert_split(
    s: Seq<(Seq<char>, Seq<char>)>,
    k: Seq<char>,
    v: Seq<char>,
    i: int,
)
    requires
        0 <= i <= s.len(),
        forall|j: int| 0 <= j < i ==> seq_lt(s[j].0, k),
        i < s.len() ==> !seq_lt(s[i].0, k),
    ensures
        (i < s.len() && s[i].0 == k) ==> spec_insert(s, k, v) == s.take(i) + seq![(k, v)]
            + s.skip(i + 1),
        (i == s.len() || s[i].0 != k) ==> spec_insert(s, k, v) == s.take(i) + seq![(k, v)]
            + s.skip(i),
    decreases i,
{
    if i == 0 {
        if s.len() == 0 {
            assert(spec_insert(s, k, v) =~= s.take(0) + seq![(k, v)] + s.skip(0));
        } else if s[0].0 == k {
            lemma_seq_lt_irreflexive(k);
            assert(spec_insert(s, k, v) =~= s.take(0) + seq![(k, v)] + s.skip(1));
        } else {
            lemma_seq_lt_total(k, s[0].0);
            assert(seq_lt(k, s[0].0));
            assert(spec_insert(s, k, v) =~= s.take(0) + seq![(k, v)] + s.skip(0));
        }
    } else {
        assert(seq_lt(s[0].0, k));
        lemma_seq_lt_asymmetric(s[0].0, k);
        lemma_seq_lt_irreflexive(k);
        assert(s[0].0 != k);
        let t = s.drop_first();
        assert(forall|j: int| 0 <= j < i - 1 ==> t[j].0 == s[j + 1].0 && seq_lt(#[trigger] t[j].0, k));
        lemma_spec_insert_split(t, k, v, i - 1);
        if i < s.len() && s[i].0 == k {
            assert(t[i - 1].0 == k);
            assert(spec_insert(s, k, v) =~= s.take(i) + seq![(k, v)] + s.skip(i + 1));
        } else {
            assert(i - 1 < t.len() ==> t[i - 1] == s[i]);
            assert(spec_insert(s, k, v) =~= s.take(i) + seq![(k, v)] + s.skip(i));
        }
    }
}

/// The rendering of one entry: `key=value`.
pub open spec fn spec_kv(e: (Seq<char>, Seq<char>)) -> Seq<char> {
    e.0 + "="@ + e.1
}

/// The rendering of an entry sequence: `key=value` pairs joined by single
/// spaces, in the order of the sequence; empty when there is no entry.
pub open spec fn spec_extensions_string(s: Seq<(Seq<char>, Seq<char>)>) -> Seq<char>
    decreases s.len(),
{
    if s.len() == 0 {
        Seq::empty()
    } else if s.len() == 1 {
        spec_kv(s[0])
    } else {
        spec_extensions_string(s.drop_last()) + " "@ + spec_kv(s.last())
    }
}

/// An unordered collection of `key=value` extension entries with
/// last-write-wins insertion, kept sorted by key so that rendering is
/// deterministic.
pub struct ExtensionsCollector {
    entries: Vec<(String, String)>,
}

impl View for ExtensionsCollector {
    type V = Seq<(Seq<char>, Seq<char>)>;

    closed spec fn view(&self) -> Seq<(Seq<char>, Seq<char>)> {
        Seq::new(self.entries@.len(), |i: int| (self.entries@[i].0@, self.entries@[i].1@))
    }
}

impl ExtensionsCollector {
    /// Well-formedness: the entries are strictly sorted by key, so each key
    /// appears at most once and rendering is deterministic. Every constructor
    /// establishes this and every mutation preserves it.
    pub open spec fn wf(&self) -> bool {
        ext_sorted(self@)
    }

    /// An empty collection.
    pub fn new() -> (r: Self)
        ensures
            r@ == Seq::<(Seq<char>, Seq<char>)>::empty(),
            r.wf(),
    {
        let r = ExtensionsCollector { entries: Vec::new() };
        proof {
            assert(r@ =~= Seq::<(Seq<char>, Seq<char>)>::empty());
        }
        r
    }

    /// How many entries the collection holds.
    pub fn len(&self) -> (r: usize)
        ensures
            r == self@.len(),
    {
        self.entries.len()
    }

    /// Stores `value` under `key`. A value already stored under the same key
    /// is replaced: the later write wins, never an error.
    pub fn insert(&mut self, key: &str, value: String)
        requires
            old(self).wf(),
        ensures
            final(self)@ == spec_insert(old(self)@, key@, value@),
            final(self).wf(),
    {
        let ghost s0 = self@;
        let n = self.entries.len();
        let mut i: usize = 0;
        while i < n && str_compare(self.entries[i].0.as_str(), key) == -1
            invariant
                0 <= i <= n,
                n == self@.len(),
                self@ == s0,
                ext_sorted(s0),
                forall|j: int| 0 <= j < i ==> seq_lt(s0[j].0, key@),
            decreases n - i,
        {
            i = i + 1;
        }
        proof {
            lemma_spec_insert_split(s0, key@, value@, i as int);
        }
        if i < n {
            let c = str_compare(self.entries[i].0.as_str(), key);
            if c == 0 {
                self.entries.remove(i);
                self.entries.insert(i, (key.to_owned(), value));
                proof {
                    assert(self@ =~= s0.take(i as int) + seq![(key@, value@)] + s0.skip(
                        i as int + 1,
                    ));
                    lemma_insert_form_sorted(s0, key@, value@, i as int, true);
                }
            } else {
                self.entries.insert(i, (key.to_owned(), value));
                proof {
                    assert(self@ =~= s0.take(i as int) + seq![(key@, value@)] + s0.skip(i as int));
                    lemma_insert_form_sorted(s0, key@, value@, i as int, false);
                }
            }
        } else {
            self.entries.push((key.to_owned(), value));
            proof {
                assert(self@ =~= s0.take(i as int) + seq![(key@, value@)] + s0.skip(i as int));
                lemma_insert_form_sorted(s0, key@, value@, i as int, false);
            }
        }
    }

    /// The value stored under `key`, if any.
    pub fn get(&self, key: &str) -> (r: Option<&String>)
        ensures
            match r {
                Some(v) => spec_lookup(self@, key@) == Some(v@),
                None => spec_lookup(self@, key@) is None,
            },
    {
        let n = self.entries.len();
        let mut i: usize = 0;
        while i < n
            invariant
                0 <= i <= n,
                n == self@.len(),
                forall|j: int| 0 <= j < i ==> self@[j].0 != key@,
            decreases n - i,
        {
            if str_compare(self.entries[i].0.as_str(), key) == 0 {
                proof {
                    lemma_lookup_skip(self@, key@, i as int);
                    assert(self@.skip(i as int)[0] == self@[i as int]);
                }
                return Some(&self.entries[i].1);
            }
            i = i + 1;
        }
        proof {
            lemma_lookup_skip(self@, key@, n as int);
            assert(self@.skip(n as int) =~= Seq::<(Seq<char>, Seq<char>)>::empty());
        }
        None
    }

    /// Renders the entries as `key=value` pairs sorted by key, joined by
    /// single spaces; the empty string when there is no entry.
    pub fn extensions_string(&self) -> (r: String)
        ensures
            r@ == spec_extensions_string(self@),
    {
        let n = self.entries.len();
        let mut r = String::new();
        let mut i: usize = 0;
        while i < n
            invariant
                0 <= i <= n,
                n == self@.len(),
                r@ == spec_extensions_string(self@.take(i as int)),
            decreases n - i,
        {
            if i > 0 {
                r.append(" ");
            }
            r.append(self.entries[i].0.as_str());
            r.append("=");
            r.append(self.entries[i].1.as_str());
            proof {
                assert(self@.take(i + 1).drop_last() =~= self@.take(i as int));
                assert(self@.take(i + 1).last() == self@[i as int]);
                assert(r@ =~= spec_extensions_string(self@.take(i + 1)));
            }
            i = i + 1;
        }
        proof {
            assert(self@.take(n as int) =~= self@);
        }
        r
    }
}

/// Sortedness of the entry sequence around a fresh entry, given that
/// everything before lies strictly below the new key and everything kept
/// after lies strictly above.
proof fn lemma_insert_form_sorted(
    s: Seq<(Seq<char>, Seq<char>)>,
    k: Seq<char>,
    v: Seq<char>,
    i: int,
    replaced: bool,
)
    requires
        ext_sorted(s),
        0 <= i <= s.len(),
        forall|j: int| 0 <= j < i ==> seq_lt(s[j].0, k),
        i < s.len() ==> !seq_lt(s[i].0, k),
        replaced ==> i < s.len() && s[i].0 == k,
        !replaced ==> i == s.len() || s[i].0 != k,
    ensures
        ext_sorted(s.take(i) + seq![(k, v)] + s.skip(if replaced { i + 1 } else { i })),
{
    let rest = if replaced {
        i + 1
    } else {
        i
    };
    let r = s.take(i) + seq![(k, v)] + s.skip(rest);
    assert forall|p: int, q: int| 0 <= p < q < r.len() implies seq_lt(r[p].0, r[q].0) by {
        if i < s.len() && s[i].0 != k {
            lemma_seq_lt_total(s[i as int].0, k);
            assert(seq_lt(k, s[i as int].0));
        }
        if q > i && r[q].0 != k {
            assert(r[q] == s[q - 1 - i + rest]);
            if rest > i {
                assert(seq_lt(s[i as int].0, s[q - 1 - i + rest].0));
            } else if i < s.len() {
                if q - 1 - i + rest > i {
                    assert(seq_lt(s[i as int].0, s[q - 1 - i + rest].0));
                }
                assert(seq_lt(k, s[i as int].0) || s[i as int].0 == k);
                if q - 1 - i + rest == i {
                    assert(seq_lt(k, r[q].0));
                } else {
                    lemma_seq_lt_transitive(k, s[i as int].0, s[q - 1 - i + rest].0);
                }
            }
        }
        if p < i && q > i {
            assert(r[p] == s[p]);
            assert(seq_lt(s[p].0, k));
            if r[q].0 != k {
                lemma_seq_lt_transitive(s[p].0, k, r[q].0);
            }
        }
    }
}

/// What a composed CEF line is: the `CEF:` prefix, the seven header values
/// joined by `|`, one more `|`, and the rendered extensions.
pub open spec fn spec_cef_line(
    version: Seq<char>,
    device_vendor: Seq<char>,
    device_product: Seq<char>,
    device_version: Seq<char>,
    device_event_class_id: Seq<char>,
    name: Seq<char>,
    severity: Seq<char>,
    extensions: Seq<(Seq<char>, Seq<char>)>,
) -> Seq<char> {
    "CEF:"@ + version + "|"@ + device_vendor + "|"@ + device_product + "|"@ + device_version
        + "|"@ + device_event_class_id + "|"@ + name + "|"@ + severity + "|"@
        + spec_extensions_string(extensions)
}

/// Joins the seven header values and the extension entries into one CEF
/// line, exactly as `spec_cef_line` lays it out.
pub fn compose_cef_line(
    version: &str,
    device_vendor: &str,
    device_product: &str,
    device_version: &str,
    device_event_class_id: &str,
    name: &str,
    severity: &str,
    extensions: &ExtensionsCollector,
) -> (r: String)
    ensures
        r@ == spec_cef_line(
            version@,
            device_vendor@,
            device_product@,
            device_version@,
            device_event_class_id@,
            name@,
            severity@,
            extensions@,
        ),
{
    let ext = extensions.extensions_string();
    let mut r = String::new();
    r.append("CEF:");
    r.append(version);
    r.append("|");
    r.append(device_vendor);
    r.append("|");
    r.append(device_product);
    r.append("|");
    r.append(device_version);
    r.append("|");
    r.append(device_event_class_id);
    r.append("|");
    r.append(name);
    r.append("|");
    r.append(severity);
    r.append("|");
    r.append(ext.as_str());
    proof {
        assert(r@ =~= spec_cef_line(
            version@,
            device_vendor@,
            device_product@,
            device_version@,
            device_event_class_id@,
            name@,
            severity@,
            extensions@,
        ));
    }
    r
}

/// Supplies the `Version` CEF header.
pub trait CefHeaderVersion {
    fn cef_header_version(&self) -> CefResult;
}

/// Supplies the `DeviceVendor` CEF header.
pub trait CefHeaderDeviceVendor {
    fn cef_header_device_vendor(&self) -> CefResult;
}

/// Supplies the `DeviceProduct` CEF header.
pub trait CefHeaderDeviceProduct {
    fn cef_header_device_product(&self) -> CefResult;
}

/// Supplies the `DeviceVersion` CEF header.
pub trait CefHeaderDeviceVersion {
    fn cef_header_device_version(&self) -> CefResult;
}

/// Supplies the `DeviceEventClassID` CEF header.
pub trait CefHeaderDeviceEventClassID {
    fn cef_header_device_event_class_id(&self) -> CefResult;
}

/// Supplies the `Name` CEF header.
pub trait CefHeaderName {
    fn cef_header_name(&self) -> CefResult;
}

/// Supplies the `Severity` CEF header.
pub trait CefHeaderSeverity {
    fn cef_header_severity(&self) -> CefResult;
}

/// Adds extension entries to a collector; a roll-up that is expected to also
/// cover extensions contributed by nested values.
pub trait CefExtensions {
    fn cef_extensions(&self, collector: &mut ExtensionsCollector) -> (r: CefExtensionsResult)
        requires
            old(collector).wf(),
        ensures
            final(collector).wf(),
    ;
}

/// The first failure among the accessor outcomes, in evaluation order: the
/// extensions step first, then the headers in their CEF order.
pub open spec fn spec_first_failure(
    extensions_result: CefExtensionsResult,
    version: CefResult,
    device_vendor: CefResult,
    device_product: CefResult,
    device_version: CefResult,
    device_event_class_id: CefResult,
    name: CefResult,
    severity: CefResult,
) -> Option<CefConversionError> {
    if extensions_result is Err {
        Some(extensions_result->Err_0)
    } else if version is Err {
        Some(version->Err_0)
    } else if device_vendor is Err {
        Some(device_vendor->Err_0)
    } else if device_product is Err {
        Some(device_product->Err_0)
    } else if device_version is Err {
        Some(device_version->Err_0)
    } else if device_event_class_id is Err {
        Some(device_event_class_id->Err_0)
    } else if name is Err {
        Some(name->Err_0)
    } else if severity is Err {
        Some(severity->Err_0)
    } else {
        None
    }
}

/// Settles a conversion from the eight accessor outcomes: the first failure
/// in evaluation order is returned unchanged — never swallowed, never
/// wrapped — and only when every accessor succeeded is the line composed,
/// exactly as `spec_cef_line` lays it out over the returned header values
/// and the collected extensions. No partial line is ever produced.
pub fn compose_outcomes(
    extensions_result: CefExtensionsResult,
    extensions: &ExtensionsCollector,
    version: CefResult,
    device_vendor: CefResult,
    device_product: CefResult,
    device_version: CefResult,
    device_event_class_id: CefResult,
    name: CefResult,
    severity: CefResult,
) -> (r: CefResult)
    ensures
        match spec_first_failure(
            extensions_result,
            version,
            device_vendor,
            device_product,
            device_version,
            device_event_class_id,
            name,
            severity,
        ) {
            Some(e) => r == Err::<String, CefConversionError>(e),
            None => r is Ok && r->Ok_0@ == spec_cef_line(
                version->Ok_0@,
                device_vendor->Ok_0@,
                device_product->Ok_0@,
                device_version->Ok_0@,
                device_event_class_id->Ok_0@,
                name->Ok_0@,
                severity->Ok_0@,
                extensions@,
            ),
        },
{
    if let Err(err) = extensions_result {
        return Err(err);
    }
    let version = match version {
        Ok(v) => v,
        Err(e) => {
            return Err(e);
        },
    };
    let device_vendor = match device_vendor {
        Ok(v) => v,
        Err(e) => {
            return Err(e);
        },
    };
    let device_product = match device_product {
        Ok(v) => v,
        Err(e) => {
            return Err(e);
        },
    };
    let device_version = match device_version {
        Ok(v) => v,
        Err(e) => {
            return Err(e);
        },
    };
    let device_event_class_id = match device_event_class_id {
        Ok(v) => v,
        Err(e) => {
            return Err(e);
        },
    };
    let name = match name {
        Ok(v) => v,
        Err(e) => {
            return Err(e);
        },
    };
    let severity = match severity {
        Ok(v) => v,
        Err(e) => {
            return Err(e);
        },
    };
    Ok(
        compose_cef_line(
            version.as_str(),
            device_vendor.as_str(),
            device_product.as_str(),
            device_version.as_str(),
            device_event_class_id.as_str(),
            name.as_str(),
            severity.as_str(),
            extensions,
        ),
    )
}

/// Produces the full CEF line from the seven header accessors and the
/// extensions. Each accessor runs once; the first failure in evaluation
/// order — extensions first, then the headers in their CEF order — is
/// returned unchanged, and no partial line is ever produced. A successful
/// result of the provided composition is always a line of `spec_cef_line`
/// shape over some header values and a key-sorted extension set.
pub trait ToCef: CefHeaderVersion + CefHeaderDeviceVendor + CefHeaderDeviceProduct
    + CefHeaderDeviceVersion + CefHeaderDeviceEventClassID + CefHeaderName + CefHeaderSeverity
    + CefExtensions {
    fn to_cef(&self) -> (r: CefResult)
        default_ensures
            r is Ok ==> exists|
                version: Seq<char>,
                device_vendor: Seq<char>,
                device_product: Seq<char>,
                device_version: Seq<char>,
                device_event_class_id: Seq<char>,
                name: Seq<char>,
                severity: Seq<char>,
                extensions: Seq<(Seq<char>, Seq<char>)>,
            |
                r->Ok_0@ == spec_cef_line(
                    version,
                    device_vendor,
                    device_product,
                    device_version,
                    device_event_class_id,
                    name,
                    severity,
                    extensions,
                ) && ext_sorted(extensions),
    {
        let mut extensions = ExtensionsCollector::new();
        let extensions_result = self.cef_extensions(&mut extensions);
        let version = self.cef_header_version();
        let device_vendor = self.cef_header_device_vendor();
        let device_product = self.cef_header_device_product();
        let device_version = self.cef_header_device_version();
        let device_event_class_id = self.cef_header_device_event_class_id();
        let name = self.cef_header_name();
        let severity = self.cef_header_severity();
        let r = compose_outcomes(
            extensions_result,
            &extensions,
            version,
            device_vendor,
            device_product,
            device_version,
            device_event_class_id,
            name,
            severity,
        );
        proof {
            if r is Ok {
                assert(r->Ok_0@ == spec_cef_line(
                    version->Ok_0@,
                    device_vendor->Ok_0@,
                    device_product->Ok_0@,
                    device_version->Ok_0@,
                    device_event_class_id->Ok_0@,
                    name->Ok_0@,
                    severity->Ok_0@,
                    extensions@,
                ) && ext_sorted(extensions@));
            }
        }
        r
    }
}

} // verus!
