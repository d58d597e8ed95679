//! Which names may be runtime keys.
//!
//! A runtime key is an uppercase environment-style name. A name that looks as if it named a secret
//! is never one, wherever in the name the marker stands.

use vstd::prelude::*;

verus! {

/// What a runtime key may begin with.
pub open spec fn is_key_start(c: char) -> bool {
    'A' <= c <= 'Z' || c == '_'
}

/// What a runtime key may hold.
pub open spec fn is_key_char(c: char) -> bool {
    is_key_start(c) || '0' <= c <= '9'
}

/// An uppercase environment-style name.
pub open spec fn is_environment_name(key: Seq<char>) -> bool {
    &&& key.len() > 0
    &&& is_key_start(key[0])
    &&& forall|i: int| 0 <= i < key.len() ==> is_key_char(#[trigger] key[i])
}

/// `part` stands in `whole` from the place `at` on.
pub open spec fn stands_at(part: Seq<char>, whole: Seq<char>, at: int) -> bool {
    0 <= at && at + part.len() <= whole.len() && whole.subrange(at, at + part.len()) == part
}

/// `part` stands somewhere in `whole`.
pub open spec fn occurs_in(part: Seq<char>, whole: Seq<char>) -> bool {
    exists|at: int| stands_at(part, whole, at)
}

/// The name holds a word that marks a secret.
pub open spec fn is_secret_bearing(key: Seq<char>) -> bool {
    ||| occurs_in("SECRET"@, key)
    ||| occurs_in("TOKEN"@, key)
    ||| occurs_in("PASSWORD"@, key)
    ||| occurs_in("CREDENTIAL"@, key)
    ||| occurs_in("PRIVATE_KEY"@, key)
    ||| occurs_in("DATABASE_URL"@, key)
}

/// The names that may be runtime keys.
pub open spec fn key_allowed(key: Seq<char>) -> bool {
    is_environment_name(key) && !is_secret_bearing(key)
}

/// Whether `part` stands in the ASCII text `whole`.
fn occurs(part: &str, whole: &str) -> (found: bool)
    requires
        vstd::string::is_ascii(whole),
    ensures
        found == occurs_in(part@, whole@),
{
    proof {
        vstd::utf8::is_ascii_chars_encode_utf8(whole@);
    }
    if !part.is_ascii() {
        proof {
            if occurs_in(part@, whole@) {
                let at = choose|at: int| stands_at(part@, whole@, at);
                assert forall|i: int| 0 <= i < part@.len() implies #[trigger] part@[i]
                    <= '\u{7f}' by {
                    assert(whole@.subrange(at, at + part@.len())[i] == whole@[at + i]);
                }
                crate::text::ascii_by_range(part@);
            }
        }
        return false;
    }
    proof {
        vstd::utf8::is_ascii_chars_encode_utf8(part@);
    }
    let inner = part.as_bytes();
    let outer = whole.as_bytes();
    let size: usize = outer.len();
    let mut at: usize = 0;
    while inner.len() <= size - at
        invariant
            inner@.len() == part@.len(),
            outer@.len() == whole@.len(),
            size == outer@.len(),
            at <= size,
            vstd::utf8::is_ascii_chars(part@),
            vstd::utf8::is_ascii_chars(whole@),
            forall|i: int| 0 <= i < part@.len() ==> part@[i] as u8 == #[trigger] inner@[i],
            forall|i: int| 0 <= i < whole@.len() ==> whole@[i] as u8 == #[trigger] outer@[i],
            forall|a: int| 0 <= a < at ==> !stands_at(part@, whole@, a),
        decreases size - at,
    {
        let mut matched: usize = 0;
        while matched < inner.len() && outer[at + matched] == inner[matched]
            invariant
                inner@.len() == part@.len(),
                outer@.len() == whole@.len(),
                at + inner@.len() <= size,
                size == outer@.len(),
                matched <= inner@.len(),
                vstd::utf8::is_ascii_chars(part@),
                vstd::utf8::is_ascii_chars(whole@),
                forall|i: int| 0 <= i < part@.len() ==> part@[i] as u8 == #[trigger] inner@[i],
                forall|i: int| 0 <= i < whole@.len() ==> whole@[i] as u8 == #[trigger] outer@[i],
                forall|i: int| 0 <= i < matched ==> #[trigger] part@[i] == whole@[at + i],
            decreases inner.len() - matched,
        {
            assert(inner@[matched as int] == outer@[at + matched]);
            matched += 1;
        }
        let ghost window = whole@.subrange(at as int, at + part@.len());
        if matched == inner.len() {
            assert(window =~= part@);
            assert(stands_at(part@, whole@, at as int));
            return true;
        }
        assert(inner@[matched as int] != outer@[at + matched]);
        assert(window[matched as int] == whole@[at + matched]);
        assert(window != part@);
        at += 1;
    }
    assert forall|a: int| !stands_at(part@, whole@, a) by {}
    false
}

/// Whether `key` may be a runtime key.
pub fn is_runtime_key_allowed(key: &str) -> (allowed: bool)
    ensures
        allowed == key_allowed(key@),
{
    if !key.is_ascii() {
        proof {
            if is_environment_name(key@) {
                crate::text::ascii_by_range(key@);
            }
        }
        return false;
    }
    proof {
        vstd::utf8::is_ascii_chars_encode_utf8(key@);
    }
    let bytes = key.as_bytes();
    if bytes.len() == 0 {
        return false;
    }
    assert(key@[0] as u8 == bytes@[0]);
    // `A` to `Z` are 0x41 to 0x5a, `_` is 0x5f, and `0` to `9` are 0x30 to 0x39.
    if !(0x41 <= bytes[0] && bytes[0] <= 0x5a) && bytes[0] != 0x5f {
        return false;
    }
    let mut at: usize = 0;
    while at < bytes.len()
        invariant
            at <= bytes@.len(),
            bytes@.len() == key@.len(),
            vstd::utf8::is_ascii_chars(key@),
            forall|i: int| 0 <= i < key@.len() ==> key@[i] as u8 == #[trigger] bytes@[i],
            forall|i: int| 0 <= i < at ==> is_key_char(#[trigger] key@[i]),
        decreases bytes.len() - at,
    {
        let b = bytes[at];
        assert(key@[at as int] as u8 == b);
        if !(0x41 <= b && b <= 0x5a) && b != 0x5f && !(0x30 <= b && b <= 0x39) {
            assert(!is_key_char(key@[at as int]));
            return false;
        }
        assert(is_key_char(key@[at as int]));
        at += 1;
    }
    !occurs("SECRET", key) && !occurs("TOKEN", key) && !occurs("PASSWORD", key) && !occurs(
        "CREDENTIAL",
        key,
    ) && !occurs("PRIVATE_KEY", key) && !occurs("DATABASE_URL", key)
}

} // verus!
