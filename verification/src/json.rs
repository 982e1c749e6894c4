use vstd::prelude::*;
use vstd::string::StrSliceExecFns;

verus! {

/// The library's own model of a JSON document.
///
/// Numbers are kept as their decimal text rather than as machine numbers:
/// the remote system encodes the same logical field sometimes as a JSON
/// number and sometimes as a string holding digits, and keeping the text
/// lets one parser normalize both encodings while payloads that are only
/// carried through lose nothing.
#[derive(Debug)]
pub enum JsonValue {
    Null,
    Boolean(bool),
    Number(String),
    Text(String),
    Array(Vec<JsonValue>),
    Object(Vec<JsonMember>),
}

/// One `key: value` entry of a JSON object, in document order.
#[derive(Debug)]
pub struct JsonMember {
    pub key: String,
    pub value: JsonValue,
}

/// The value under `key` in an object's member list: the first entry with
/// that key wins, as in a map built by inserting the members in order
/// without overwriting.
pub open spec fn lookup(ms: Seq<JsonMember>, key: Seq<char>) -> Option<JsonValue>
    decreases ms.len(),
{
    if ms.len() == 0 {
        None
    } else if ms[0].key@ == key {
        Some(ms[0].value)
    } else {
        lookup(ms.drop_first(), key)
    }
}

proof fn lemma_lookup_found(ms: Seq<JsonMember>, key: Seq<char>, i: int)
    requires
        0 <= i < ms.len(),
        ms[i].key@ == key,
        forall|j: int| 0 <= j < i ==> ms[j].key@ != key,
    ensures
        lookup(ms, key) == Some(ms[i].value),
    decreases i,
{
    if i > 0 {
        lemma_lookup_found(ms.drop_first(), key, i - 1);
    }
}

proof fn lemma_lookup_absent(ms: Seq<JsonMember>, key: Seq<char>)
    requires
        forall|j: int| 0 <= j < ms.len() ==> ms[j].key@ != key,
    ensures
        lookup(ms, key) is None,
    decreases ms.len(),
{
    if ms.len() > 0 {
        lemma_lookup_absent(ms.drop_first(), key);
    }
}

proof fn lemma_lookup_remove_other(ms: Seq<JsonMember>, i: int, key: Seq<char>)
    requires
        0 <= i < ms.len(),
        ms[i].key@ != key,
    ensures
        lookup(ms.remove(i), key) == lookup(ms, key),
    decreases ms.len(),
{
    if i == 0 {
        assert(ms.remove(0) =~= ms.drop_first());
    } else {
        if ms[0].key@ == key {
            assert(ms.remove(i)[0] == ms[0]);
        } else {
            lemma_lookup_remove_other(ms.drop_first(), i - 1, key);
            assert(ms.remove(i).drop_first() =~= ms.drop_first().remove(i - 1));
            assert(ms.remove(i)[0] == ms[0]);
        }
    }
}

/// Character-by-character string equality, so that member keys and
/// configured names can be compared without trusting anything.
pub fn str_eq(a: &str, b: &str) -> (r: bool)
    ensures
        r == (a@ == b@),
{
    let alen = a.unicode_len();
    let blen = b.unicode_len();
    if alen != blen {
        return false;
    }
    let mut i: usize = 0;
    while i < alen
        invariant
            alen == a@.len(),
            alen == b@.len(),
            0 <= i <= alen,
            forall|j: int| 0 <= j < i ==> a@[j] == b@[j],
        decreases alen - i,
    {
        if a.get_char(i) != b.get_char(i) {
            return false;
        }
        i += 1;
    }
    proof {
        assert(a@ =~= b@);
    }
    true
}

/// Removes the first member named `key` from an object's member list and
/// hands its value out; every other key still looks up to the same value.
pub fn take_field(ms: Vec<JsonMember>, key: &str) -> (r: (Option<JsonValue>, Vec<JsonMember>))
    ensures
        r.0 == lookup(ms@, key@),
        forall|k: Seq<char>| k != key@ ==> #[trigger] lookup(r.1@, k) == lookup(ms@, k),
{
    let mut rest = ms;
    let mut i: usize = 0;
    while i < rest.len()
        invariant
            0 <= i <= rest.len(),
            rest@ == ms@,
            forall|j: int| 0 <= j < i ==> rest@[j].key@ != key@,
        decreases rest.len() - i,
    {
        let mk: &String = &rest[i].key;
        if str_eq(mk.as_str(), key) {
            let ghost before = rest@;
            let m = rest.remove(i);
            proof {
                lemma_lookup_found(before, key@, i as int);
                assert forall|k: Seq<char>| k != key@ implies #[trigger] lookup(rest@, k)
                    == lookup(before, k) by {
                    lemma_lookup_remove_other(before, i as int, k);
                }
            }
            return (Some(m.value), rest);
        }
        i += 1;
    }
    proof {
        lemma_lookup_absent(rest@, key@);
    }
    (None, rest)
}

/// A digit between `'0'` and `'9'`.
pub open spec fn is_digit(c: char) -> bool {
    '0' <= c && c <= '9'
}

pub open spec fn digit_val(c: char) -> int {
    c as int - '0' as int
}

/// A non-empty string of decimal digits: the only numeral shape the remote
/// system uses for the fields this library reads.
pub open spec fn is_dec_digits(s: Seq<char>) -> bool {
    s.len() > 0 && forall|i: int| 0 <= i < s.len() ==> is_digit(#[trigger] s[i])
}

/// The value of a string of decimal digits, most significant first.
pub open spec fn dec_val(s: Seq<char>) -> int
    decreases s.len(),
{
    if s.len() == 0 {
        0
    } else {
        dec_val(s.drop_last()) * 10 + digit_val(s.last())
    }
}

proof fn lemma_dec_val_extend(s: Seq<char>, j: int)
    requires
        0 <= j < s.len(),
    ensures
        dec_val(s.subrange(0, j + 1)) == dec_val(s.subrange(0, j)) * 10 + digit_val(s[j]),
{
    assert(s.subrange(0, j + 1).drop_last() =~= s.subrange(0, j));
    assert(s.subrange(0, j + 1).last() == s[j]);
}

proof fn lemma_dec_val_prefix_le(s: Seq<char>, i: int)
    requires
        0 <= i <= s.len(),
        forall|j: int| 0 <= j < s.len() ==> is_digit(#[trigger] s[j]),
        dec_val(s.subrange(0, i)) >= 0,
    ensures
        dec_val(s) >= dec_val(s.subrange(0, i)),
    decreases s.len() - i,
{
    if i == s.len() {
        assert(s.subrange(0, i) =~= s);
    } else {
        lemma_dec_val_extend(s, i);
        lemma_dec_val_prefix_le(s, i + 1);
    }
}

/// Reads a non-negative integer out of a string of decimal digits; refuses
/// anything else, and anything above `u32::MAX`.
pub fn parse_u32_digits(s: &str) -> (r: Option<u32>)
    ensures
        match r {
            Some(n) => is_dec_digits(s@) && dec_val(s@) == n as int,
            None => !(is_dec_digits(s@) && dec_val(s@) <= u32::MAX),
        },
{
    let len = s.unicode_len();
    if len == 0 {
        return None;
    }
    let mut i: usize = 0;
    let mut acc: u64 = 0;
    while i < len
        invariant
            0 <= i <= len,
            len == s@.len(),
            forall|j: int| 0 <= j < i ==> is_digit(#[trigger] s@[j]),
            acc as int == dec_val(s@.subrange(0, i as int)),
            acc <= u32::MAX as u64,
        decreases len - i,
    {
        let c = s.get_char(i);
        if c < '0' || c > '9' {
            return None;
        }
        let d: u32 = (c as u32) - ('0' as u32);
        let next: u64 = acc * 10 + d as u64;
        proof {
            lemma_dec_val_extend(s@, i as int);
        }
        if next > u32::MAX as u64 {
            proof {
                if is_dec_digits(s@) {
                    lemma_dec_val_prefix_le(s@, i + 1);
                }
            }
            return None;
        }
        acc = next;
        i += 1;
    }
    proof {
        assert(s@.subrange(0, len as int) =~= s@);
    }
    Some(acc as u32)
}

} // verus!
