//! Text helpers: numbers and lists as text, and the few string operations
//! of the standard library that the rest of the crate needs and that carry
//! no specification of their own.

use vstd::prelude::*;
use vstd::string::StringExecFns;
use vstd::utf8::{decode_utf8, valid_utf8};

verus! {

/// Equality of string slices, `<str as PartialEq>::eq`: two slices are equal
/// exactly when they hold the same characters.
pub assume_specification[ <str as PartialEq>::eq ](a: &str, b: &str) -> (r: bool)
    ensures
        r == (a@ == b@),
;

/// The character that writes one decimal digit.
pub open spec fn digit_char(d: nat) -> char {
    if d == 0 {
        '0'
    } else if d == 1 {
        '1'
    } else if d == 2 {
        '2'
    } else if d == 3 {
        '3'
    } else if d == 4 {
        '4'
    } else if d == 5 {
        '5'
    } else if d == 6 {
        '6'
    } else if d == 7 {
        '7'
    } else if d == 8 {
        '8'
    } else {
        '9'
    }
}

/// A natural number in decimal, most significant digit first, without
/// leading zeros (zero is written `0`).
pub open spec fn decimal_text(n: nat) -> Seq<char>
    decreases n,
{
    if n < 10 {
        seq![digit_char(n)]
    } else {
        decimal_text(n / 10).push(digit_char(n % 10))
    }
}

/// The items of a list of numbers, each in decimal, separated by a comma and
/// a space.
pub open spec fn list_items_text(v: Seq<u64>) -> Seq<char>
    decreases v.len(),
{
    if v.len() == 0 {
        Seq::empty()
    } else if v.len() == 1 {
        decimal_text(v[0] as nat)
    } else {
        list_items_text(v.drop_last()) + seq![',', ' '] + decimal_text(v.last() as nat)
    }
}

/// A list of numbers as the standard debug formatter writes it: the items
/// between square brackets.
pub open spec fn list_text(v: Seq<u64>) -> Seq<char> {
    seq!['['] + list_items_text(v) + seq![']']
}

/// The items of a list of bytes, each in decimal, separated by a comma and
/// a space.
pub open spec fn list_items_text_u8(v: Seq<u8>) -> Seq<char>
    decreases v.len(),
{
    if v.len() == 0 {
        Seq::empty()
    } else if v.len() == 1 {
        decimal_text(v[0] as nat)
    } else {
        list_items_text_u8(v.drop_last()) + seq![',', ' '] + decimal_text(v.last() as nat)
    }
}

/// A list of bytes as the standard debug formatter writes it.
pub open spec fn list_text_u8(v: Seq<u8>) -> Seq<char> {
    seq!['['] + list_items_text_u8(v) + seq![']']
}

/// One decimal digit as text.
fn digit_text(d: u64) -> (t: &'static str)
    requires
        d < 10,
    ensures
        t@ == seq![digit_char(d as nat)],
{
    proof {
        reveal_strlit("0");
        reveal_strlit("1");
        reveal_strlit("2");
        reveal_strlit("3");
        reveal_strlit("4");
        reveal_strlit("5");
        reveal_strlit("6");
        reveal_strlit("7");
        reveal_strlit("8");
        reveal_strlit("9");
    }
    let t = if d == 0 {
        "0"
    } else if d == 1 {
        "1"
    } else if d == 2 {
        "2"
    } else if d == 3 {
        "3"
    } else if d == 4 {
        "4"
    } else if d == 5 {
        "5"
    } else if d == 6 {
        "6"
    } else if d == 7 {
        "7"
    } else if d == 8 {
        "8"
    } else {
        "9"
    };
    assert(t@ =~= seq![digit_char(d as nat)]);
    t
}

/// An unsigned integer in decimal, without sign, padding or leading zeros.
pub(crate) fn u64_to_text(v: u64) -> (s: String)
    ensures
        s@ == decimal_text(v as nat),
    decreases v,
{
    if v < 10 {
        digit_text(v).to_string()
    } else {
        let mut s = u64_to_text(v / 10);
        s.append(digit_text(v % 10));
        s
    }
}

/// A byte in decimal.
pub(crate) fn u8_to_text(v: u8) -> (s: String)
    ensures
        s@ == decimal_text(v as nat),
{
    u64_to_text(v as u64)
}

/// An unsigned integer of 32 bits in decimal.
pub(crate) fn u32_to_text(v: u32) -> (s: String)
    ensures
        s@ == decimal_text(v as nat),
{
    u64_to_text(v as u64)
}

/// A list of bytes as text: an opening bracket, the bytes in decimal
/// separated by a comma and a space, a closing bracket.
pub(crate) fn u8_list_to_text(v: &[u8]) -> (s: String)
    ensures
        s@ == list_text_u8(v@),
{
    proof {
        reveal_strlit("[");
        reveal_strlit("]");
        reveal_strlit(", ");
    }
    let mut s = "[".to_string();
    let mut i: usize = 0;
    assert(s@ =~= seq!['['] + list_items_text_u8(v@.subrange(0, 0)));
    while i < v.len()
        invariant
            i <= v.len(),
            s@ == seq!['['] + list_items_text_u8(v@.subrange(0, i as int)),
            ", "@ == seq![',', ' '],
        decreases v.len() - i,
    {
        let ghost before = v@.subrange(0, i as int);
        let ghost now = v@.subrange(0, i + 1);
        if i > 0 {
            s.append(", ");
        }
        let item = u8_to_text(v[i]);
        s.append(item.as_str());
        proof {
            assert(now.drop_last() =~= before);
            assert(now.last() == v@[i as int]);
            if i == 0 {
                assert(list_items_text_u8(before) =~= Seq::<char>::empty());
            }
            assert(s@ =~= seq!['['] + list_items_text_u8(now));
        }
        i += 1;
    }
    assert(v@.subrange(0, v@.len() as int) =~= v@);
    s.append("]");
    assert(s@ =~= list_text_u8(v@));
    s
}

/// A list of numbers as text: an opening bracket, the numbers in decimal
/// separated by a comma and a space, a closing bracket.
pub(crate) fn u64_list_to_text(v: &Vec<u64>) -> (s: String)
    ensures
        s@ == list_text(v@),
{
    proof {
        reveal_strlit("[");
        reveal_strlit("]");
        reveal_strlit(", ");
    }
    let mut s = "[".to_string();
    let mut i: usize = 0;
    assert(s@ =~= seq!['['] + list_items_text(v@.subrange(0, 0)));
    while i < v.len()
        invariant
            i <= v.len(),
            s@ == seq!['['] + list_items_text(v@.subrange(0, i as int)),
            ", "@ == seq![',', ' '],
        decreases v.len() - i,
    {
        let ghost before = v@.subrange(0, i as int);
        let ghost now = v@.subrange(0, i + 1);
        if i > 0 {
            s.append(", ");
        }
        let item = u64_to_text(v[i]);
        s.append(item.as_str());
        proof {
            assert(now.drop_last() =~= before);
            assert(now.last() == v@[i as int]);
            if i == 0 {
                assert(list_items_text(before) =~= Seq::<char>::empty());
            }
            assert(s@ =~= seq!['['] + list_items_text(now));
        }
        i += 1;
    }
    assert(v@.subrange(0, v@.len() as int) =~= v@);
    s.append("]");
    assert(s@ =~= list_text(v@));
    s
}

/// Whether `x` occurs in `v`.
pub fn contains_id(v: &Vec<u64>, x: u64) -> (found: bool)
    ensures
        found == v@.contains(x),
{
    let mut i: usize = 0;
    while i < v.len()
        invariant
            i <= v.len(),
            forall|j: int| 0 <= j < i ==> v@[j] != x,
        decreases v.len() - i,
    {
        if v[i] == x {
            return true;
        }
        i += 1;
    }
    false
}

/// The view of an optional string.
pub open spec fn opt_text(a: Option<String>) -> Option<Seq<char>> {
    match a {
        None => None,
        Some(x) => Some(x@),
    }
}

/// The view of an optional byte vector.
pub open spec fn opt_bytes(a: Option<Vec<u8>>) -> Option<Seq<u8>> {
    match a {
        None => None,
        Some(x) => Some(x@),
    }
}

/// Compares two optional strings by their characters.
pub fn same_opt_text(a: &Option<String>, b: &Option<String>) -> (r: bool)
    ensures
        r == (opt_text(*a) == opt_text(*b)),
{
    match (a, b) {
        (None, None) => true,
        (Some(x), Some(y)) => *x == *y,
        _ => false,
    }
}

/// Compares two optional byte vectors by their contents.
pub fn same_opt_bytes(a: &Option<Vec<u8>>, b: &Option<Vec<u8>>) -> (r: bool)
    ensures
        r == (opt_bytes(*a) == opt_bytes(*b)),
{
    match (a, b) {
        (None, None) => true,
        (Some(x), Some(y)) => {
            let r = *x == *y;
            proof {
                if r {
                    assert(x@ =~= y@);
                }
            }
            r
        },
        _ => false,
    }
}

/// Compares two lists of ids element by element.
pub fn same_ids(a: &Vec<u64>, b: &Vec<u64>) -> (r: bool)
    ensures
        r == (a@ == b@),
{
    let r = *a == *b;
    proof {
        if r {
            assert(a@ =~= b@);
        }
    }
    r
}

/// What the standard library says of bytes that are no UTF-8: the text of
/// the error that `String::from_utf8` returns for them.
pub uninterp spec fn utf8_error_text(bytes: Seq<u8>) -> Seq<char>;

/// `String::from_utf8`: the bytes as text where they are valid UTF-8, else
/// the error, in the words that its `Display` gives.
#[verifier::external_body]
pub(crate) fn text_from_utf8(bytes: Vec<u8>) -> (r: Result<String, String>)
    ensures
        match r {
            Ok(t) => valid_utf8(bytes@) && t@ == decode_utf8(bytes@),
            Err(e) => !valid_utf8(bytes@) && e@ == utf8_error_text(bytes@),
        },
{
    match String::from_utf8(bytes) {
        Ok(t) => Ok(t),
        Err(e) => Err(e.to_string()),
    }
}

/// Two texts, one after the other.
pub(crate) fn join_text(a: &str, b: &str) -> (s: String)
    ensures
        s@ == a@ + b@,
{
    a.to_string().concat(b)
}

/// A copy of a list of ids.
pub fn copy_ids(v: &Vec<u64>) -> (copy: Vec<u64>)
    ensures
        copy@ == v@,
{
    let mut copy: Vec<u64> = Vec::new();
    let mut i: usize = 0;
    while i < v.len()
        invariant
            i <= v.len(),
            copy@ == v@.subrange(0, i as int),
        decreases v.len() - i,
    {
        copy.push(v[i]);
        i += 1;
        assert(copy@ =~= v@.subrange(0, i as int));
    }
    assert(v@.subrange(0, v@.len() as int) =~= v@);
    copy
}

/// A copy of a byte string.
pub fn copy_bytes(v: &[u8]) -> (copy: Vec<u8>)
    ensures
        copy@ == v@,
{
    let mut copy: Vec<u8> = Vec::new();
    let mut i: usize = 0;
    while i < v.len()
        invariant
            i <= v.len(),
            copy@ == v@.subrange(0, i as int),
        decreases v.len() - i,
    {
        copy.push(v[i]);
        i += 1;
        assert(copy@ =~= v@.subrange(0, i as int));
    }
    assert(v@.subrange(0, v@.len() as int) =~= v@);
    copy
}

/// A copy of an optional text.
pub fn copy_opt_text(v: &Option<String>) -> (copy: Option<String>)
    ensures
        opt_text(copy) == opt_text(*v),
{
    match v {
        Some(t) => Some(t.clone()),
        None => None,
    }
}

/// A copy of an optional byte string.
pub fn copy_opt_bytes(v: &Option<Vec<u8>>) -> (copy: Option<Vec<u8>>)
    ensures
        opt_bytes(copy) == opt_bytes(*v),
{
    match v {
        Some(b) => Some(copy_bytes(b.as_slice())),
        None => None,
    }
}

/// Whether a text ends with another.
pub open spec fn ends_with(text: Seq<char>, suffix: Seq<char>) -> bool {
    text.len() >= suffix.len() && text.subrange(text.len() - suffix.len(), text.len() as int)
        == suffix
}

/// `str::ends_with` for a string pattern: whether the pattern is a suffix
/// of the text.
#[verifier::external_body]
pub(crate) fn text_ends_with(text: &str, suffix: &str) -> (r: bool)
    ensures
        r == ends_with(text@, suffix@),
{
    text.ends_with(suffix)
}

/// A text in lower case, as the standard library maps it.
pub uninterp spec fn lowercase_text(text: Seq<char>) -> Seq<char>;

/// `str::to_lowercase`: the text with every character in lower case. The
/// result depends on the text alone.
#[verifier::external_body]
pub(crate) fn to_lowercase(text: &str) -> (s: String)
    ensures
        s@ == lowercase_text(text@),
{
    text.to_lowercase()
}

/// What bytes read as text where what is no UTF-8 is replaced by the
/// replacement character.
pub uninterp spec fn lossy_text(bytes: Seq<u8>) -> Seq<char>;

/// `String::from_utf8_lossy`: the bytes as text, with the replacement
/// character in place of what is no UTF-8. Bytes that are UTF-8 read as the
/// text they encode.
#[verifier::external_body]
pub(crate) fn text_from_utf8_lossy(bytes: &[u8]) -> (s: String)
    ensures
        s@ == lossy_text(bytes@),
        valid_utf8(bytes@) ==> s@ == decode_utf8(bytes@),
{
    String::from_utf8_lossy(bytes).into_owned()
}

} // verus!
