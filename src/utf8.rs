//! UTF-8 well-formedness, complete and partial.
use vstd::prelude::*;

verus! {

/// How many bytes the encoded scalar value led by `lead` takes, or 0 when
/// `lead` cannot begin one.
pub open spec fn utf8_width(lead: u8) -> nat {
    if lead <= 0x7f {
        1
    } else if 0xc2 <= lead <= 0xdf {
        2
    } else if 0xe0 <= lead <= 0xef {
        3
    } else if 0xf0 <= lead <= 0xf4 {
        4
    } else {
        0
    }
}

/// The range allowed for the byte after `lead`; it excludes overlong forms,
/// surrogates and values past U+10FFFF.
pub open spec fn second_byte_ok(lead: u8, b: u8) -> bool {
    if lead == 0xe0 {
        0xa0 <= b <= 0xbf
    } else if lead == 0xed {
        0x80 <= b <= 0x9f
    } else if lead == 0xf0 {
        0x90 <= b <= 0xbf
    } else if lead == 0xf4 {
        0x80 <= b <= 0x8f
    } else {
        0x80 <= b <= 0xbf
    }
}

/// `s` is the whole or a beginning of one well-formed encoded scalar value.
pub open spec fn char_start_ok(s: Seq<u8>) -> bool {
    &&& 0 < s.len() <= utf8_width(s[0])
    &&& s.len() >= 2 ==> second_byte_ok(s[0], s[1])
    &&& forall|i: int| 2 <= i < s.len() ==> 0x80 <= #[trigger] s[i] <= 0xbf
}

/// `s` is well-formed UTF-8.
pub open spec fn valid_utf8(s: Seq<u8>) -> bool
    decreases s.len(),
{
    if s.len() == 0 {
        true
    } else {
        let w = utf8_width(s[0]) as int;
        &&& 0 < w <= s.len()
        &&& char_start_ok(s.take(w))
        &&& valid_utf8(s.skip(w))
    }
}

/// `s` is well-formed UTF-8 but for a last scalar value that may be cut
/// short: some continuation of `s` is well-formed.
pub open spec fn valid_utf8_prefix(s: Seq<u8>) -> bool
    decreases s.len(),
{
    if s.len() == 0 {
        true
    } else {
        let w = utf8_width(s[0]) as int;
        if w <= s.len() {
            &&& 0 < w
            &&& char_start_ok(s.take(w))
            &&& valid_utf8_prefix(s.skip(w))
        } else {
            char_start_ok(s)
        }
    }
}

/// What a scan of bytes as UTF-8 finds.
#[derive(Clone, Copy, Debug, PartialEq, Eq, Structural)]
pub enum Utf8Scan {
    /// Well-formed throughout.
    Valid,
    /// Well-formed but for a last scalar value that the input cuts short.
    Incomplete,
    /// Holds a byte that no continuation can make well-formed.
    Invalid,
}

/// Relies on std::str::from_utf8, which succeeds exactly on well-formed
/// UTF-8, and on Utf8Error::error_len, which is `None` exactly when the
/// input ended inside a scalar value that was well-formed so far.
#[verifier::external_body]
pub(crate) fn scan_utf8(b: &[u8]) -> (r: Utf8Scan)
    ensures
        (r == Utf8Scan::Valid) == valid_utf8(b@),
        (r == Utf8Scan::Invalid) == !valid_utf8_prefix(b@),
{
    match std::str::from_utf8(b) {
        Ok(_) => Utf8Scan::Valid,
        Err(e) => match e.error_len() {
            None => Utf8Scan::Incomplete,
            Some(_) => Utf8Scan::Invalid,
        },
    }
}

/// Whether `b` is well-formed UTF-8.
pub fn is_valid_utf8(b: &[u8]) -> (r: bool)
    ensures
        r == valid_utf8(b@),
{
    scan_utf8(b) == Utf8Scan::Valid
}

/// Whether some continuation of `b` is well-formed UTF-8.
pub fn is_valid_utf8_prefix(b: &[u8]) -> (r: bool)
    ensures
        r == valid_utf8_prefix(b@),
{
    scan_utf8(b) != Utf8Scan::Invalid
}

/// Well-formed UTF-8 is also a well-formed beginning.
pub proof fn lemma_valid_is_prefix(s: Seq<u8>)
    requires
        valid_utf8(s),
    ensures
        valid_utf8_prefix(s),
    decreases s.len(),
{
    if s.len() > 0 {
        let w = utf8_width(s[0]) as int;
        lemma_valid_is_prefix(s.skip(w));
    }
}

/// Once bytes cannot begin well-formed UTF-8, no bytes appended to them
/// can mend that.
pub proof fn lemma_invalid_prefix_stays_invalid(a: Seq<u8>, b: Seq<u8>)
    requires
        !valid_utf8_prefix(a),
    ensures
        !valid_utf8_prefix(a + b),
    decreases a.len(),
{
    let s = a + b;
    let w = utf8_width(a[0]) as int;
    assert(s[0] == a[0]);
    if w <= a.len() {
        assert(s.take(w) =~= a.take(w));
        assert(s.skip(w) =~= a.skip(w) + b);
        if 0 < w && char_start_ok(a.take(w)) {
            lemma_invalid_prefix_stays_invalid(a.skip(w), b);
        }
    } else {
        // `a` is a cut-short scalar value that has already gone wrong
        assert(!char_start_ok(a));
        if w <= s.len() {
            assert(s.take(w).take(a.len() as int) =~= a);
            if char_start_ok(s.take(w)) {
                let t = s.take(w);
                assert(a.len() >= 2 ==> a[1] == t[1]);
                assert forall|i: int| 2 <= i < a.len() implies 0x80 <= #[trigger] a[i] <= 0xbf by {
                    assert(a[i] == t[i]);
                }
            }
        } else {
            assert(s.len() >= 2 ==> a.len() >= 2 || s[1] == b[0]);
            if char_start_ok(s) {
                assert(a.len() >= 2 ==> a[1] == s[1]);
                assert forall|i: int| 2 <= i < a.len() implies 0x80 <= #[trigger] a[i] <= 0xbf by {
                    assert(a[i] == s[i]);
                }
            }
        }
    }
}

} // verus!
