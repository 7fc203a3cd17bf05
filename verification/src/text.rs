//! Character-sequence utilities shared by the resolver, the emitter and the
//! runtime composer: lexicographic ordering of keys, decimal rendering of
//! indices and timestamps, and escaping of string literals in emitted code.

use vstd::prelude::*;

verus! {

/// Strict lexicographic order on character sequences, comparing by code point.
pub open spec fn seq_lt(a: Seq<char>, b: Seq<char>) -> bool
    decreases a.len(),
{
    if b.len() == 0 {
        false
    } else if a.len() == 0 {
        true
    } else if (a[0] as u32) < (b[0] as u32) {
        true
    } else if a[0] == b[0] {
        seq_lt(a.drop_first(), b.drop_first())
    } else {
        false
    }
}

/// Two characters with the same code point are the same character.
proof fn lemma_char_eq(a: char, b: char)
    requires
        a as u32 == b as u32,
    ensures
        a == b,
{
    vstd::utf8::char_u32_cast(a, a as u32);
    vstd::utf8::char_u32_cast(b, b as u32);
}

/// Sequences with equal heads and equal tails are equal.
proof fn lemma_eq_from_parts(a: Seq<char>, b: Seq<char>)
    requires
        a.len() > 0,
        b.len() > 0,
        a[0] == b[0],
        a.drop_first() == b.drop_first(),
    ensures
        a == b,
{
    assert(a.drop_first().len() == a.len() - 1);
    assert(b.drop_first().len() == b.len() - 1);
    assert forall|i: int| 0 <= i < a.len() implies a[i] == b[i] by {
        if i >= 1 {
            assert(a[i] == a.drop_first()[i - 1]);
            assert(b[i] == b.drop_first()[i - 1]);
        }
    }
    assert(a =~= b);
}

/// Of two distinct sequences, one is strictly below the other.
pub proof fn lemma_seq_lt_total(a: Seq<char>, b: Seq<char>)
    ensures
        seq_lt(a, b) || seq_lt(b, a) || a == b,
    decreases a.len(),
{
    if b.len() == 0 {
        if a.len() == 0 {
            assert(a =~= b);
        }
    } else if a.len() == 0 {
    } else if (a[0] as u32) < (b[0] as u32) || (b[0] as u32) < (a[0] as u32) {
    } else {
        lemma_char_eq(a[0], b[0]);
        lemma_seq_lt_total(a.drop_first(), b.drop_first());
        if a.drop_first() == b.drop_first() {
            lemma_eq_from_parts(a, b);
        }
    }
}

/// The order is asymmetric.
pub proof fn lemma_seq_lt_asymmetric(a: Seq<char>, b: Seq<char>)
    requires
        seq_lt(a, b),
    ensures
        !seq_lt(b, a),
    decreases a.len(),
{
    if a.len() > 0 && b.len() > 0 && a[0] == b[0] {
        lemma_seq_lt_asymmetric(a.drop_first(), b.drop_first());
    }
}

/// The order is transitive.
pub proof fn lemma_seq_lt_transitive(a: Seq<char>, b: Seq<char>, c: Seq<char>)
    requires
        seq_lt(a, b),
        seq_lt(b, c),
    ensures
        seq_lt(a, c),
    decreases a.len(),
{
    if a.len() > 0 && b.len() > 0 && c.len() > 0 && a[0] == b[0] && b[0] == c[0] {
        lemma_seq_lt_transitive(a.drop_first(), b.drop_first(), c.drop_first());
    }
}

/// Equal prefixes of length `i` leave the comparison to the remainders.
proof fn lemma_seq_lt_skip(a: Seq<char>, b: Seq<char>, i: int)
    requires
        0 <= i <= a.len(),
        i <= b.len(),
        forall|j: int| 0 <= j < i ==> a[j] == b[j],
    ensures
        seq_lt(a, b) == seq_lt(a.skip(i), b.skip(i)),
        (a == b) == (a.skip(i) == b.skip(i)),
    decreases i,
{
    if i == 0 {
        assert(a.skip(0) =~= a);
        assert(b.skip(0) =~= b);
    } else {
        assert(a.len() > 0 && b.len() > 0 && a[0] == b[0]);
        lemma_seq_lt_skip(a.drop_first(), b.drop_first(), i - 1);
        assert(a.drop_first().skip(i - 1) =~= a.skip(i));
        assert(b.drop_first().skip(i - 1) =~= b.skip(i));
        if a.drop_first() == b.drop_first() {
            lemma_eq_from_parts(a, b);
        }
        if a == b {
            assert(a.drop_first() =~= b.drop_first());
        }
    }
}

/// Three-way lexicographic comparison of two strings, by code point.
pub fn str_compare(a: &str, b: &str) -> (r: i32)
    ensures
        (r == -1 <==> seq_lt(a@, b@)),
        (r == 0 <==> a@ == b@),
        (r == 1 <==> seq_lt(b@, a@)),
{
    let a_len = a.unicode_len();
    let b_len = b.unicode_len();
    let min: usize = if a_len < b_len { a_len } else { b_len };
    let mut i: usize = 0;
    while i < min
        invariant
            0 <= i <= min,
            min <= a_len == a@.len(),
            min <= b_len == b@.len(),
            forall|j: int| 0 <= j < i ==> a@[j] == b@[j],
        decreases min - i,
    {
        let ca = a.get_char(i);
        let cb = b.get_char(i);
        if (ca as u32) < (cb as u32) {
            proof {
                lemma_seq_lt_skip(a@, b@, i as int);
                lemma_seq_lt_skip(b@, a@, i as int);
                lemma_seq_lt_asymmetric(a@.skip(i as int), b@.skip(i as int));
            }
            return -1;
        }
        if (cb as u32) < (ca as u32) {
            proof {
                lemma_seq_lt_skip(a@, b@, i as int);
                lemma_seq_lt_skip(b@, a@, i as int);
                lemma_seq_lt_asymmetric(b@.skip(i as int), a@.skip(i as int));
            }
            return 1;
        }
        proof {
            lemma_char_eq(ca, cb);
        }
        i = i + 1;
    }
    proof {
        lemma_seq_lt_skip(a@, b@, min as int);
        lemma_seq_lt_skip(b@, a@, min as int);
    }
    if a_len < b_len {
        proof {
            lemma_seq_lt_asymmetric(a@.skip(min as int), b@.skip(min as int));
        }
        -1
    } else if b_len < a_len {
        proof {
            lemma_seq_lt_asymmetric(b@.skip(min as int), a@.skip(min as int));
        }
        1
    } else {
        assert(a@.skip(min as int) =~= b@.skip(min as int));
        0
    }
}

/// Whether two strings hold the same characters.
pub fn str_eq(a: &str, b: &str) -> (r: bool)
    ensures
        r == (a@ == b@),
{
    str_compare(a, b) == 0
}

/// Relies on String::push: appends exactly the given character.
#[verifier::external_body]
pub fn push_char(s: &mut String, c: char)
    ensures
        final(s)@ == old(s)@.push(c),
{
    s.push(c);
}

/// The decimal digit for a value below ten.
pub open spec fn digit_char(d: nat) -> char
    recommends
        d < 10,
{
    ((48 + d) as u8) as char
}

/// The decimal rendering of a natural number, most significant digit first.
pub open spec fn spec_decimal(n: nat) -> Seq<char>
    decreases n,
{
    if n < 10 {
        seq![digit_char(n)]
    } else {
        spec_decimal(n / 10).push(digit_char(n % 10))
    }
}

/// Renders a number in decimal.
pub fn u128_to_decimal(n: u128) -> (r: String)
    ensures
        r@ == spec_decimal(n as nat),
    decreases n,
{
    let d: u8 = (n % 10) as u8;
    if n < 10 {
        let mut s = String::new();
        push_char(&mut s, (48 + d) as char);
        assert(s@ =~= spec_decimal(n as nat));
        s
    } else {
        let mut s = u128_to_decimal(n / 10);
        push_char(&mut s, (48 + d) as char);
        s
    }
}

/// Renders a machine-sized index in decimal.
pub fn usize_to_decimal(n: usize) -> (r: String)
    ensures
        r@ == spec_decimal(n as nat),
{
    u128_to_decimal(n as u128)
}

/// How one character appears inside an emitted string literal.
pub open spec fn escape_char(c: char) -> Seq<char> {
    if c == '"' || c == '\\' {
        seq!['\\', c]
    } else {
        seq![c]
    }
}

/// How a value appears inside an emitted string literal: quotes and
/// backslashes carry a backslash in front.
pub open spec fn spec_escape(s: Seq<char>) -> Seq<char>
    decreases s.len(),
{
    if s.len() == 0 {
        Seq::empty()
    } else {
        spec_escape(s.drop_last()) + escape_char(s.last())
    }
}

/// Escapes a value for splicing into an emitted string literal.
pub fn escape_literal(s: &str) -> (r: String)
    ensures
        r@ == spec_escape(s@),
{
    let n = s.unicode_len();
    let mut r = String::new();
    let mut i: usize = 0;
    while i < n
        invariant
            0 <= i <= n,
            n == s@.len(),
            r@ == spec_escape(s@.take(i as int)),
        decreases n - i,
    {
        let c = s.get_char(i);
        if c == '"' || c == '\\' {
            push_char(&mut r, '\\');
        }
        push_char(&mut r, c);
        proof {
            assert(s@.take(i + 1).drop_last() =~= s@.take(i as int));
            assert(s@.take(i + 1).last() == s@[i as int]);
        }
        i = i + 1;
    }
    proof {
        assert(s@.take(n as int) =~= s@);
    }
    r
}

} // verus!
