//! Byte order and equality of text.
//!
//! Text is ordered by its UTF-8 bytes, lexicographically. The order is what keeps a set of keys in
//! one canonical sequence, so that two equal sets are equal sequences.

use vstd::prelude::*;

verus! {

/// The two byte strings agree before `at`, and at `at` the first one either ends or holds the
/// smaller byte.
pub open spec fn splits_at(a: Seq<u8>, b: Seq<u8>, at: int) -> bool {
    &&& 0 <= at <= a.len()
    &&& at < b.len()
    &&& forall|i: int| #![trigger a[i]] #![trigger b[i]] 0 <= i < at ==> a[i] == b[i]
    &&& at < a.len() ==> a[at] < b[at]
}

/// Lexicographic order of byte strings.
pub open spec fn bytes_before(a: Seq<u8>, b: Seq<u8>) -> bool {
    exists|at: int| splits_at(a, b, at)
}

/// Lexicographic order of text by its UTF-8 bytes.
pub open spec fn text_before(a: Seq<char>, b: Seq<char>) -> bool {
    bytes_before(vstd::utf8::encode_utf8(a), vstd::utf8::encode_utf8(b))
}

/// Where one piece of text stands relative to another.
#[derive(Clone, Copy, Debug, PartialEq, Eq, Structural)]
pub enum TextOrder {
    Before,
    Same,
    After,
}

/// No text comes before itself.
pub proof fn text_before_irreflexive(a: Seq<char>)
    ensures
        !text_before(a, a),
{
}

/// The order of text is transitive.
pub proof fn text_before_transitive(a: Seq<char>, b: Seq<char>, c: Seq<char>)
    requires
        text_before(a, b),
        text_before(b, c),
    ensures
        text_before(a, c),
{
    let (x, y, z) = (
        vstd::utf8::encode_utf8(a),
        vstd::utf8::encode_utf8(b),
        vstd::utf8::encode_utf8(c),
    );
    let i = choose|at: int| splits_at(x, y, at);
    let j = choose|at: int| splits_at(y, z, at);
    assert(splits_at(x, z, if i <= j { i } else { j }));
}

/// Text is determined by its UTF-8 bytes.
pub proof fn utf8_injective(a: Seq<char>, b: Seq<char>)
    requires
        vstd::utf8::encode_utf8(a) == vstd::utf8::encode_utf8(b),
    ensures
        a == b,
{
    vstd::utf8::encode_utf8_decode_utf8(a);
    vstd::utf8::encode_utf8_decode_utf8(b);
}

/// The character zero is the least.
proof fn no_char_is_below_zero(c: char)
    ensures
        '\0' <= c,
{
}

/// Text none of whose characters is beyond the ASCII range is ASCII text.
pub proof fn ascii_by_range(chars: Seq<char>)
    requires
        forall|i: int| 0 <= i < chars.len() ==> #[trigger] chars[i] <= '\u{7f}',
    ensures
        vstd::utf8::is_ascii_chars(chars),
{
    assert forall|i: int| 0 <= i < chars.len() implies '\0' <= #[trigger] chars[i] <= '\u{7f}' by {
        no_char_is_below_zero(chars[i]);
    }
}

/// Compares two pieces of text by their UTF-8 bytes.
pub fn compare_text(a: &str, b: &str) -> (order: TextOrder)
    ensures
        order == TextOrder::Before <==> text_before(a@, b@),
        order == TextOrder::Same <==> a@ == b@,
        order == TextOrder::After <==> text_before(b@, a@),
{
    let x = a.as_bytes();
    let y = b.as_bytes();
    let mut at: usize = 0;
    proof {
        text_before_irreflexive(a@);
        if text_before(a@, b@) && text_before(b@, a@) {
            text_before_transitive(a@, b@, a@);
        }
    }
    while at < x.len() && at < y.len() && x[at] == y[at]
        invariant
            at <= x.len(),
            at <= y.len(),
            forall|i: int| #![trigger x@[i]] #![trigger y@[i]] 0 <= i < at ==> x@[i] == y@[i],
        decreases x.len() - at,
    {
        at += 1;
    }
    if at < x.len() && at < y.len() {
        if x[at] < y[at] {
            assert(splits_at(x@, y@, at as int));
            TextOrder::Before
        } else {
            assert(splits_at(y@, x@, at as int));
            TextOrder::After
        }
    } else if at < y.len() {
        assert(splits_at(x@, y@, at as int));
        TextOrder::Before
    } else if at < x.len() {
        assert(splits_at(y@, x@, at as int));
        TextOrder::After
    } else {
        assert(x@ =~= y@);
        proof {
            utf8_injective(a@, b@);
        }
        TextOrder::Same
    }
}

/// Whether two pieces of text are the same.
pub fn same_text(a: &str, b: &str) -> (same: bool)
    ensures
        same == (a@ == b@),
{
    match compare_text(a, b) {
        TextOrder::Same => true,
        _ => false,
    }
}

} // verus!
