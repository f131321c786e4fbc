//! Text: decimal numbers, comparison, ordering and UTF-8.

use vstd::arithmetic::power::pow;
use vstd::prelude::*;
use vstd::relations::{sorted_by, total_ordering};
use vstd::slice::slice_subrange;
use vstd::string::StringExecFns;
use vstd::utf8::{
    char_u32_cast, decode_utf8, encode_scalar, encode_utf8, encode_utf8_decode_utf8, valid_utf8,
};

verus! {

// ---------------------------------------------------------------------------
// Decimal numbers
// ---------------------------------------------------------------------------

/// The character of a decimal digit.
pub open spec fn digit_char(d: nat) -> char {
    (48 + d) as char
}

/// A natural number in decimal, without leading zeros.
pub open spec fn decimal_nat(n: nat) -> Seq<char>
    decreases n,
{
    if n < 10 {
        seq![digit_char(n)]
    } else {
        decimal_nat(n / 10).push(digit_char(n % 10))
    }
}

/// An integer in decimal, with a minus sign when it is negative.
pub open spec fn decimal(n: int) -> Seq<char> {
    if n < 0 {
        seq!['-'] + decimal_nat((-n) as nat)
    } else {
        decimal_nat(n as nat)
    }
}

fn digit_text(d: u64) -> (t: &'static str)
    requires
        d < 10,
    ensures
        t@ == seq![digit_char(d as nat)],
{
    proof {
        reveal_strlit("0");
        reveal_strlit("1");
        reveal_strlit("2");
        reveal_strlit("3");
        reveal_strlit("4");
        reveal_strlit("5");
        reveal_strlit("6");
        reveal_strlit("7");
        reveal_strlit("8");
        reveal_strlit("9");
    }
    match d {
        0 => "0",
        1 => "1",
        2 => "2",
        3 => "3",
        4 => "4",
        5 => "5",
        6 => "6",
        7 => "7",
        8 => "8",
        _ => "9",
    }
}

/// The decimal text of an unsigned number.
pub fn unsigned_text(n: u64) -> (t: String)
    ensures
        t@ == decimal(n as int),
    decreases n,
{
    if n < 10 {
        digit_text(n).to_owned()
    } else {
        let mut t = unsigned_text(n / 10);
        t.append(digit_text(n % 10));
        t
    }
}

/// The decimal text of a signed number.
pub fn signed_text(n: i64) -> (t: String)
    ensures
        t@ == decimal(n as int),
{
    if n >= 0 {
        unsigned_text(n as u64)
    } else {
        proof {
            reveal_strlit("-");
        }
        let magnitude: u64 = (-(n as i128)) as u64;
        let mut t = "-".to_owned();
        let digits = unsigned_text(magnitude);
        t.append(digits.as_str());
        assert("-"@ =~= seq!['-']);
        t
    }
}

/// A non-empty run of ASCII digits.
pub open spec fn all_digits(s: Seq<u8>) -> bool {
    s.len() > 0 && forall|i: int| 0 <= i < s.len() ==> 48 <= #[trigger] s[i] <= 57
}

/// The number that a run of digits denotes.
pub open spec fn digits_value(s: Seq<u8>) -> nat
    decreases s.len(),
{
    if s.len() == 0 {
        0
    } else {
        digits_value(s.drop_last()) * 10 + (s.last() - 48) as nat
    }
}

/// The integer that a text denotes: an optional sign, then digits.
pub open spec fn integer_value(s: Seq<u8>) -> Option<int> {
    let signed = s.len() > 0 && (s[0] == 43 || s[0] == 45);
    let digits = if signed {
        s.skip(1)
    } else {
        s
    };
    if !all_digits(digits) {
        None
    } else if s[0] == 45 {
        Some(-(digits_value(digits) as int))
    } else {
        Some(digits_value(digits) as int)
    }
}

/// The 64-bit integer that a text denotes, if it denotes one that fits.
pub open spec fn long_value(s: Seq<u8>) -> Option<i64> {
    match integer_value(s) {
        Some(v) => if i64::MIN <= v <= i64::MAX {
            Some(v as i64)
        } else {
            None
        },
        None => None,
    }
}

/// Reads a decimal 64-bit integer with an optional sign.
pub fn parse_long(text: &str) -> (r: Option<i64>)
    ensures
        r == long_value(encode_utf8(text@)),
{
    let bytes = text.as_bytes();
    let ghost s = bytes@;
    let signed: bool = bytes.len() > 0 && (bytes[0] == 43 || bytes[0] == 45);
    let start: usize = if signed {
        1
    } else {
        0
    };
    if bytes.len() == start {
        return None;
    }
    let ghost digits = s.skip(start as int);
    proof {
        assert(s.skip(0) =~= s);
    }
    let mut value: u128 = 0;
    let mut i: usize = start;
    while i < bytes.len()
        invariant
            start <= i <= bytes.len(),
            start <= 1,
            bytes@ == s,
            s == encode_utf8(text@),
            signed == (s.len() > 0 && (s[0] == 43 || s[0] == 45)),
            start == (if signed { 1int } else { 0int }),
            s.skip(0) == s,
            digits == s.skip(start as int),
            forall|k: int| 0 <= k < i - start ==> 48 <= #[trigger] digits[k] <= 57,
            value <= 0x8000_0000_0000_0001,
            value <= 0x8000_0000_0000_0000 ==> value == digits_value(digits.take(i - start)),
            value > 0x8000_0000_0000_0000 ==> digits_value(digits.take(i - start)) > 0x8000_0000_0000_0000,
        decreases bytes.len() - i,
    {
        let b = bytes[i];
        proof {
            assert(digits[i - start] == b);
            assert(digits.take(i + 1 - start).drop_last() =~= digits.take(i - start));
        }
        if b < 48 || b > 57 {
            proof {
                assert(!all_digits(digits));
            }
            return None;
        }
        if value <= 0x8000_0000_0000_0000 {
            let next: u128 = value * 10 + (b - 48) as u128;
            value = if next > 0x8000_0000_0000_0000 {
                0x8000_0000_0000_0001
            } else {
                next
            };
        }
        i = i + 1;
    }
    proof {
        assert(digits.take(i - start) =~= digits);
        assert(all_digits(digits));
    }
    if signed && bytes[0] == 45 {
        if value <= 0x8000_0000_0000_0000 {
            Some((-(value as i128)) as i64)
        } else {
            None
        }
    } else if value < 0x8000_0000_0000_0000 {
        Some(value as i64)
    } else {
        None
    }
}


// ---------------------------------------------------------------------------
// Equality
// ---------------------------------------------------------------------------

/// Two texts are the same when their UTF-8 bytes are.
pub proof fn lemma_same_bytes(a: Seq<char>, b: Seq<char>)
    ensures
        encode_utf8(a) == encode_utf8(b) <==> a == b,
{
    encode_utf8_decode_utf8(a);
    encode_utf8_decode_utf8(b);
}

/// Compares two byte strings.
pub fn bytes_eq(a: &[u8], b: &[u8]) -> (r: bool)
    ensures
        r == (a@ == b@),
{
    if a.len() != b.len() {
        return false;
    }
    let mut i: usize = 0;
    while i < a.len()
        invariant
            i <= a.len(),
            a@.len() == b@.len(),
            forall|k: int| 0 <= k < i ==> a@[k] == b@[k],
        decreases a.len() - i,
    {
        if a[i] != b[i] {
            return false;
        }
        i = i + 1;
    }
    assert(a@ =~= b@);
    true
}

/// Compares two texts.
pub fn text_eq(a: &str, b: &str) -> (r: bool)
    ensures
        r == (a@ == b@),
{
    proof {
        lemma_same_bytes(a@, b@);
    }
    bytes_eq(a.as_bytes(), b.as_bytes())
}

/// Whether one byte string stands somewhere in another.
pub open spec fn has_part(bytes: Seq<u8>, part: Seq<u8>) -> bool {
    exists|i: int|
        0 <= i <= bytes.len() - part.len() && #[trigger] bytes.subrange(i, i + part.len()) == part
}

/// Whether one text stands somewhere in another.
pub fn text_has(text: &str, part: &str) -> (r: bool)
    ensures
        r == has_part(encode_utf8(text@), encode_utf8(part@)),
{
    let bytes = text.as_bytes();
    let wanted = part.as_bytes();
    if wanted.len() > bytes.len() {
        return false;
    }
    let last: usize = bytes.len() - wanted.len();
    let mut i: usize = 0;
    loop
        invariant
            bytes@ == encode_utf8(text@),
            wanted@ == encode_utf8(part@),
            last == bytes@.len() - wanted@.len(),
            bytes@.len() <= usize::MAX,
            i <= last,
            forall|k: int|
                0 <= k < i ==> #[trigger] bytes@.subrange(k, k + wanted@.len()) != wanted@,
        decreases last - i,
    {
        if bytes_eq(slice_subrange(bytes, i, i + wanted.len()), wanted) {
            assert(bytes@.subrange(i as int, i + wanted@.len()) == wanted@);
            return true;
        }
        if i == last {
            return false;
        }
        i = i + 1;
    }
}

/// Two texts one after the other.
pub fn joined(a: &str, b: &str) -> (r: String)
    ensures
        r@ == a@ + b@,
{
    let mut t = a.to_owned();
    t.append(b);
    t
}

/// A list of texts with commas between them.
pub open spec fn comma_list(parts: Seq<Seq<char>>) -> Seq<char>
    decreases parts.len(),
{
    if parts.len() == 0 {
        Seq::empty()
    } else if parts.len() == 1 {
        parts[0]
    } else {
        comma_list(parts.drop_last()).push(',') + parts.last()
    }
}

/// Writes a list of texts with commas between them.
pub fn join_with_commas(list: &Vec<String>) -> (r: String)
    ensures
        r@ == comma_list(texts(list@)),
{
    let mut out = String::new();
    let mut i: usize = 0;
    let ghost all = texts(list@);
    proof {
        reveal_strlit(",");
        assert(all.take(0) =~= Seq::<Seq<char>>::empty());
    }
    while i < list.len()
        invariant
            i <= list.len(),
            all == texts(list@),
            ","@ == seq![','],
            out@ == comma_list(all.take(i as int)),
        decreases list.len() - i,
    {
        proof {
            assert(all.take(i + 1).drop_last() =~= all.take(i as int));
            assert(all.take(i + 1).last() == list@[i as int]@);
        }
        let ghost before = out@;
        if i > 0 {
            out.append(",");
            assert(out@ =~= before.push(','));
        } else {
            assert(all.take(1)[0] == list@[0]@);
            assert(before + list@[0]@ =~= list@[0]@);
        }
        out.append(list[i].as_str());
        i = i + 1;
    }
    assert(all.take(i as int) =~= all);
    out
}

// ---------------------------------------------------------------------------
// Order
// ---------------------------------------------------------------------------

/// The lexicographic order of byte strings.
pub open spec fn bytes_le(a: Seq<u8>, b: Seq<u8>) -> bool
    decreases a.len(),
{
    if a.len() == 0 {
        true
    } else if b.len() == 0 {
        false
    } else if a[0] != b[0] {
        a[0] < b[0]
    } else {
        bytes_le(a.skip(1), b.skip(1))
    }
}

/// The order of texts: that of their UTF-8 bytes.
pub open spec fn text_le(a: Seq<char>, b: Seq<char>) -> bool {
    bytes_le(encode_utf8(a), encode_utf8(b))
}

/// [`text_le`] as a relation.
pub open spec fn text_order() -> spec_fn(Seq<char>, Seq<char>) -> bool {
    |a: Seq<char>, b: Seq<char>| text_le(a, b)
}

proof fn lemma_bytes_le_reflexive(a: Seq<u8>)
    ensures
        bytes_le(a, a),
    decreases a.len(),
{
    if a.len() > 0 {
        lemma_bytes_le_reflexive(a.skip(1));
    }
}

proof fn lemma_bytes_le_total(a: Seq<u8>, b: Seq<u8>)
    ensures
        bytes_le(a, b) || bytes_le(b, a),
    decreases a.len(),
{
    if a.len() > 0 && b.len() > 0 && a[0] == b[0] {
        lemma_bytes_le_total(a.skip(1), b.skip(1));
    }
}

proof fn lemma_bytes_le_antisymmetric(a: Seq<u8>, b: Seq<u8>)
    requires
        bytes_le(a, b),
        bytes_le(b, a),
    ensures
        a == b,
    decreases a.len(),
{
    if a.len() == 0 {
        assert(b.len() == 0);
        assert(a =~= b);
    } else {
        lemma_bytes_le_antisymmetric(a.skip(1), b.skip(1));
        assert(a =~= seq![a[0]] + a.skip(1));
        assert(b =~= seq![b[0]] + b.skip(1));
    }
}

proof fn lemma_bytes_le_transitive(a: Seq<u8>, b: Seq<u8>, c: Seq<u8>)
    requires
        bytes_le(a, b),
        bytes_le(b, c),
    ensures
        bytes_le(a, c),
    decreases a.len(),
{
    if a.len() > 0 && a[0] == b[0] && b[0] == c[0] {
        lemma_bytes_le_transitive(a.skip(1), b.skip(1), c.skip(1));
    }
}

/// The order of texts is a total order.
pub proof fn lemma_text_order_is_total()
    ensures
        total_ordering(text_order()),
{
    let le = text_order();
    assert forall|x: Seq<char>| #[trigger] le(x, x) by {
        lemma_bytes_le_reflexive(encode_utf8(x));
    }
    assert forall|x: Seq<char>, y: Seq<char>| #[trigger] le(x, y) && #[trigger] le(y, x) implies x
        == y by {
        lemma_bytes_le_antisymmetric(encode_utf8(x), encode_utf8(y));
        lemma_same_bytes(x, y);
    }
    assert forall|x: Seq<char>, y: Seq<char>, z: Seq<char>| #[trigger]
        le(x, y) && #[trigger] le(y, z) implies le(x, z) by {
        lemma_bytes_le_transitive(encode_utf8(x), encode_utf8(y), encode_utf8(z));
    }
    assert forall|x: Seq<char>, y: Seq<char>| #[trigger] le(x, y) || #[trigger] le(y, x) by {
        lemma_bytes_le_total(encode_utf8(x), encode_utf8(y));
    }
}

fn bytes_at_most(a: &[u8], b: &[u8]) -> (r: bool)
    ensures
        r == bytes_le(a@, b@),
{
    let mut i: usize = 0;
    proof {
        assert(a@.skip(0) =~= a@);
        assert(b@.skip(0) =~= b@);
    }
    while i < a.len()
        invariant
            i <= a.len(),
            i <= b.len(),
            bytes_le(a@, b@) == bytes_le(a@.skip(i as int), b@.skip(i as int)),
        decreases a.len() - i,
    {
        if i >= b.len() {
            return false;
        }
        if a[i] != b[i] {
            return a[i] < b[i];
        }
        proof {
            assert(a@.skip(i as int).skip(1) =~= a@.skip(i + 1));
            assert(b@.skip(i as int).skip(1) =~= b@.skip(i + 1));
        }
        i = i + 1;
    }
    true
}

/// The views of a list of texts.
pub open spec fn texts(v: Seq<String>) -> Seq<Seq<char>> {
    v.map_values(|s: String| s@)
}

/// Adds a text to a list unless it is there.
pub(crate) fn add_text(list: &mut Vec<String>, text: String)
    requires
        texts(old(list)@).no_duplicates(),
    ensures
        texts(final(list)@).no_duplicates(),
        texts(final(list)@).to_set() == texts(old(list)@).to_set().insert(text@),
{
    let ghost before = texts(list@);
    let mut i: usize = 0;
    while i < list.len()
        invariant
            i <= list.len(),
            before == texts(list@),
            before.no_duplicates(),
            forall|k: int| 0 <= k < i ==> #[trigger] before[k] != text@,
        decreases list.len() - i,
    {
        assert(before[i as int] == list@[i as int]@);
        if text_eq(list[i].as_str(), text.as_str()) {
            proof {
                assert(before.to_set().contains(text@));
                assert(before.to_set().insert(text@) =~= before.to_set());
            }
            return;
        }
        i = i + 1;
    }
    list.push(text);
    proof {
        let after = texts(list@);
        assert(after =~= before.push(text@));
        assert forall|k: int, j: int|
            0 <= k < after.len() && 0 <= j < after.len() && k != j implies after[k] != after[j] by {
            if k < before.len() {
                assert(after[k] == before[k]);
            }
            if j < before.len() {
                assert(after[j] == before[j]);
            }
        }
        assert forall|t: Seq<char>| #[trigger]
            after.to_set().contains(t) <==> before.to_set().insert(text@).contains(t) by {
            if before.contains(t) {
                let k = choose|k: int| 0 <= k < before.len() && before[k] == t;
                assert(after[k] == t);
            }
            assert(after[before.len() as int] == text@);
            if after.contains(t) {
                let k = choose|k: int| 0 <= k < after.len() && after[k] == t;
                if k < before.len() {
                    assert(before[k] == t);
                }
            }
        }
        assert(after.to_set() =~= before.to_set().insert(text@));
    }
}

/// Sorts a list of texts.
pub fn sort_texts(list: Vec<String>) -> (sorted: Vec<String>)
    ensures
        texts(sorted@) == texts(list@).sort_by(text_order()),
{
    let ghost le = text_order();
    let ghost input = list@;
    let mut rest = list;
    let mut done: Vec<String> = Vec::new();
    proof {
        lemma_text_order_is_total();
        assert(texts(done@) =~= Seq::<Seq<char>>::empty());
        assert(texts(input).to_multiset().add(texts(done@).to_multiset()) =~= texts(
            input,
        ).to_multiset()) by {
            broadcast use vstd::seq_lib::group_to_multiset_ensures;
        }
    }
    while rest.len() > 0
        invariant
            le == text_order(),
            total_ordering(le),
            sorted_by(texts(done@), le),
            texts(rest@).to_multiset().add(texts(done@).to_multiset()) == texts(
                input,
            ).to_multiset(),
        decreases rest.len(),
    {
        let ghost before_rest = rest@;
        let ghost before_done = done@;
        match rest.pop() {
            Some(item) => {
                let mut at: usize = done.len();
                while at > 0 && !bytes_at_most(
                    done[at - 1].as_str().as_bytes(),
                    item.as_str().as_bytes(),
                )
                    invariant
                        at <= done.len(),
                        forall|k: int| at <= k < done.len() ==> !text_le(#[trigger] done@[k]@, item@),
                    decreases at,
                {
                    at = at - 1;
                }
                let ghost view = item@;
                done.insert(at, item);
                proof {
                    let old = texts(before_done);
                    let new = texts(done@);
                    assert(new =~= old.insert(at as int, view));
                    assert forall|i: int, j: int| 0 <= i < j < new.len() implies #[trigger] le(
                        new[i],
                        new[j],
                    ) by {
                        assert(forall|k: int| 0 <= k < old.len() ==> old[k] == before_done[k]@);
                        if i < at && j < at {
                            assert(le(old[i], old[j]));
                        } else if i < at && j == at {
                            assert(le(old[at - 1], view));
                            if i < at - 1 {
                                assert(le(old[i], old[at - 1]));
                            }
                        } else if i < at {
                            assert(le(old[i], old[j - 1]));
                        } else if i == at {
                            assert(!text_le(before_done[j - 1]@, view));
                            assert(!le(old[j - 1], view));
                            assert(le(view, old[j - 1]));
                        } else {
                            assert(le(old[i - 1], old[j - 1]));
                        }
                    }
                    broadcast use vstd::seq_lib::group_to_multiset_ensures;
                    assert(texts(before_rest) =~= texts(rest@).push(view));
                    vstd::seq_lib::to_multiset_insert(old, at as int, view);
                    assert(texts(rest@).to_multiset().add(new.to_multiset()) =~= texts(
                        before_rest,
                    ).to_multiset().add(old.to_multiset()));
                }
            },
            None => {},
        }
    }
    proof {
        broadcast use vstd::seq_lib::group_to_multiset_ensures;
        assert(texts(rest@) =~= Seq::<Seq<char>>::empty());
        assert(texts(done@).to_multiset() =~= texts(input).to_multiset());
        texts(input).lemma_sort_by_ensures(le);
        vstd::seq_lib::lemma_sorted_unique(texts(done@), texts(input).sort_by(le), le);
    }
    done
}

// ---------------------------------------------------------------------------
// UTF-8
// ---------------------------------------------------------------------------

/// The text that a byte string holds, if it is UTF-8.
///
/// Calls `std::str::from_utf8`. Taken on trust: it accepts exactly the byte
/// strings that are valid UTF-8 and hands back the characters they encode.
#[verifier::external_body]
pub(crate) fn utf8_text(bytes: &[u8]) -> (r: Option<String>)
    ensures
        r is Some <==> valid_utf8(bytes@),
        r matches Some(t) ==> t@ == decode_utf8(bytes@),
{
    std::str::from_utf8(bytes).ok().map(|t| t.to_owned())
}

/// What `String::from_utf8_lossy` reads from a byte string that is not UTF-8.
pub uninterp spec fn lossy_utf8(bytes: Seq<u8>) -> Seq<char>;

/// The text that a byte string holds, with replacement characters where it
/// is not UTF-8.
pub open spec fn byte_text(bytes: Seq<u8>) -> Seq<char> {
    if valid_utf8(bytes) {
        decode_utf8(bytes)
    } else {
        lossy_utf8(bytes)
    }
}

/// The text that a byte string holds, with replacement characters where it
/// is not UTF-8.
///
/// Calls `String::from_utf8_lossy`. Taken on trust: valid UTF-8 is read
/// unchanged, and what is read of anything else depends on the bytes alone.
#[verifier::external_body]
pub(crate) fn lossy_text(bytes: &[u8]) -> (r: String)
    ensures
        valid_utf8(bytes@) ==> r@ == decode_utf8(bytes@),
        !valid_utf8(bytes@) ==> r@ == lossy_utf8(bytes@),
{
    String::from_utf8_lossy(bytes).into_owned()
}

/// Text whose UTF-8 bytes are all ASCII has a byte for each character.
pub proof fn lemma_ascii_text(text: Seq<char>)
    requires
        forall|i: int| 0 <= i < encode_utf8(text).len() ==> #[trigger] encode_utf8(text)[i] < 128,
    ensures
        encode_utf8(text).len() == text.len(),
        forall|i: int| 0 <= i < text.len() ==> #[trigger] encode_utf8(text)[i] as char == text[i],
    decreases text.len(),
{
    if text.len() > 0 {
        let c = text[0] as u32;
        let bytes = encode_utf8(text);
        let rest = text.drop_first();
        assert(bytes[0] == encode_scalar(c)[0]);
        if c >= 128 {
            assert(0xC0u8 | ((c >> 6) & 0x1F) as u8 >= 128) by (bit_vector);
            assert(0xE0u8 | ((c >> 12) & 0xF) as u8 >= 128) by (bit_vector);
            assert(0xF0u8 | ((c >> 18) & 0x7) as u8 >= 128) by (bit_vector);
            assert(bytes[0] >= 128);
        }
        assert((c & 0x7F) as u8 == c) by (bit_vector)
            requires
                c < 128,
        ;
        assert(encode_scalar(c) == seq![(c & 0x7F) as u8]);
        assert(bytes[0] == c);
        char_u32_cast(text[0], c);
        assert(bytes[0] as char == c as char);
        assert forall|i: int| 0 <= i < encode_utf8(rest).len() implies #[trigger] encode_utf8(
            rest,
        )[i] < 128 by {
            assert(bytes[i + 1] == encode_utf8(rest)[i]);
        }
        lemma_ascii_text(rest);
        assert forall|i: int| 0 <= i < text.len() implies #[trigger] bytes[i] as char
            == text[i] by {
            if i > 0 {
                assert(bytes[i] == encode_utf8(rest)[i - 1]);
                assert(rest[i - 1] == text[i]);
            }
        }
    }
}

// ---------------------------------------------------------------------------
// Laws
// ---------------------------------------------------------------------------

/// A run of digits denotes the sum of its digits, each times the power of ten
/// of its place.
pub proof fn law_digits_have_place_value(s: Seq<u8>, t: Seq<u8>, d: u8)
    requires
        all_digits(t),
        48 <= d <= 57,
    ensures
        digits_value(Seq::empty()) == 0,
        digits_value(s + t) == digits_value(s) * pow(10, t.len()) + digits_value(t),
        digits_value(seq![d]) == d - 48,
    decreases t.len(),
{
    let last = t.last();
    let front = t.drop_last();
    assert((s + t).drop_last() =~= s + front);
    assert((s + t).last() == last);
    assert(seq![d].drop_last() =~= Seq::<u8>::empty());
    reveal_with_fuel(digits_value, 2);
    assert(48 <= t[t.len() - 1] <= 57);
    reveal(pow);
    if front.len() == 0 {
        assert(s + front =~= s);
        assert(front =~= Seq::<u8>::empty());
        vstd::arithmetic::power::lemma_pow1(10);
    } else {
        assert forall|i: int| 0 <= i < front.len() implies 48 <= #[trigger] front[i] <= 57 by {
            assert(front[i] == t[i]);
        }
        law_digits_have_place_value(s, front, d);
        let a = digits_value(s) as int;
        let p = pow(10, front.len());
        let b = digits_value(front) as int;
        assert((a * p + b) * 10 == a * (10 * p) + b * 10) by (nonlinear_arith);
        assert(pow(10, t.len()) == 10 * p);
    }
}

proof fn lemma_number_bytes(n: nat)
    ensures
        all_digits(encode_utf8(decimal_nat(n))),
        encode_utf8(decimal_nat(n)).len() == decimal_nat(n).len(),
        digits_value(encode_utf8(decimal_nat(n))) == n,
        forall|i: int|
            0 <= i < decimal_nat(n).len() ==> '0' <= #[trigger] decimal_nat(n)[i] <= '9',
        n > 0 ==> decimal_nat(n)[0] != '0',
    decreases n,
{
    let text = decimal_nat(n);
    if n >= 10 {
        lemma_number_bytes(n / 10);
        assert(decimal_nat(n / 10).len() > 0);
    }
    let d = n % 10;
    assert(text.last() == digit_char(d));
    assert forall|i: int| 0 <= i < text.len() implies '0' <= #[trigger] text[i] <= '9' by {
        if i < text.len() - 1 {
            assert(text[i] == decimal_nat(n / 10)[i]);
        }
    }
    assert(vstd::utf8::is_ascii_chars(text));
    vstd::utf8::is_ascii_chars_encode_utf8(text);
    let bytes = encode_utf8(text);
    assert forall|i: int| 0 <= i < bytes.len() implies 48 <= #[trigger] bytes[i] <= 57 by {
        assert(bytes[i] == text[i] as u8);
    }
    assert(bytes.last() == 48 + d);
    reveal_with_fuel(digits_value, 2);
    if n >= 10 {
        let front = decimal_nat(n / 10);
        assert(vstd::utf8::is_ascii_chars(front));
        vstd::utf8::is_ascii_chars_encode_utf8(front);
        assert(bytes.drop_last() =~= encode_utf8(front)) by {
            assert forall|i: int| 0 <= i < front.len() implies bytes[i] == encode_utf8(front)[i] by {
                assert(text[i] == front[i]);
            }
        }
    } else {
        assert(bytes.drop_last() =~= Seq::<u8>::empty());
    }
}

/// A number as text is written in digits, with no zero in front and a minus
/// sign where it is negative, and reading the text gives the number back.
pub proof fn law_numbers_are_read_back(n: i64)
    ensures
        long_value(encode_utf8(decimal(n as int))) == Some(n),
        n > 0 ==> decimal(n as int)[0] != '0',
        n < 0 ==> decimal(n as int) == seq!['-'] + decimal(-n),
        n >= 0 ==> forall|i: int|
            0 <= i < decimal(n as int).len() ==> '0' <= #[trigger] decimal(n as int)[i] <= '9',
{
    let m: nat = if n < 0 {
        (-n) as nat
    } else {
        n as nat
    };
    lemma_number_bytes(m);
    let digits = encode_utf8(decimal_nat(m));
    if n < 0 {
        let text = decimal(n as int);
        assert(vstd::utf8::is_ascii_chars(text)) by {
            assert forall|i: int| 0 <= i < text.len() implies (#[trigger] text[i] as nat) < 128 by {
                if i > 0 {
                    assert(text[i] == decimal_nat(m)[i - 1]);
                }
            }
        }
        vstd::utf8::is_ascii_chars_encode_utf8(text);
        assert(vstd::utf8::is_ascii_chars(decimal_nat(m)));
        vstd::utf8::is_ascii_chars_encode_utf8(decimal_nat(m));
        let bytes = encode_utf8(text);
        assert(bytes[0] == text[0] as u8);
        assert(bytes.skip(1) =~= digits) by {
            assert forall|i: int| 0 <= i < digits.len() implies bytes[i + 1] == digits[i] by {
                assert(text[i + 1] == decimal_nat(m)[i]);
                assert(bytes[i + 1] == text[i + 1] as u8);
                assert(digits[i] == decimal_nat(m)[i] as u8);
            }
        }
    } else {
        assert(48 <= digits[0] <= 57);
    }
}

/// A text is a number only when it has the form of one: an optional sign and
/// digits, at least one. It is then the number that the digits denote, where
/// that fits 64 bits, and none where it does not.
pub proof fn law_text_is_a_number(s: Seq<u8>)
    ensures
        all_digits(s) ==> long_value(s) == if digits_value(s) <= i64::MAX {
            Some(digits_value(s) as i64)
        } else {
            None
        },
        s.len() > 0 && s[0] == 43 ==> long_value(s) == if all_digits(s.skip(1)) && digits_value(
            s.skip(1),
        ) <= i64::MAX {
            Some(digits_value(s.skip(1)) as i64)
        } else {
            None
        },
        s.len() > 0 && s[0] == 45 ==> long_value(s) == if all_digits(s.skip(1)) && digits_value(
            s.skip(1),
        ) <= i64::MAX + 1 {
            Some((-digits_value(s.skip(1))) as i64)
        } else {
            None
        },
        s.len() == 0 ==> long_value(s) is None,
        s.len() > 0 && !(48 <= s[0] <= 57) && s[0] != 43 && s[0] != 45 ==> long_value(s) is None,
        s.len() > 1 && (exists|i: int| 1 <= i < s.len() && !(48 <= #[trigger] s[i] <= 57))
            ==> long_value(s) is None,
{
    if all_digits(s) {
        assert(48 <= s[0] <= 57);
    }
    if s.len() > 1 && (exists|i: int| 1 <= i < s.len() && !(48 <= #[trigger] s[i] <= 57)) {
        let i = choose|i: int| 1 <= i < s.len() && !(48 <= #[trigger] s[i] <= 57);
        assert(s.skip(1)[i - 1] == s[i]);
        assert(!all_digits(s));
        assert(!all_digits(s.skip(1)));
    }
}

/// Lists of texts without commas in them are told apart by their comma lists:
/// each text is found again at its place.
pub proof fn law_comma_lists_are_told_apart(a: Seq<Seq<char>>, b: Seq<Seq<char>>)
    requires
        forall|i: int| 0 <= i < a.len() ==> comma_free(#[trigger] a[i]),
        forall|i: int| 0 <= i < b.len() ==> comma_free(#[trigger] b[i]),
        comma_list(a) == comma_list(b),
    ensures
        a == b,
    decreases a.len(),
{
    lemma_comma_list_parts(a);
    lemma_comma_list_parts(b);
    let text = comma_list(a);
    if a.len() == 0 {
        if b.len() == 1 {
            assert(b[0].len() > 0);
        }
        assert(a =~= b);
    } else if b.len() == 0 {
        if a.len() == 1 {
            assert(a[0].len() > 0);
        }
    } else if a.len() == 1 || b.len() == 1 {
        if a.len() == 1 && b.len() == 1 {
            assert(a =~= b);
        } else if a.len() == 1 {
            let at = comma_list(b.drop_last()).len() as int;
            assert(text[at] == ',');
            assert(comma_free(a[0]));
        } else {
            let at = comma_list(a.drop_last()).len() as int;
            assert(text[at] == ',');
            assert(comma_free(b[0]));
        }
    } else {
        let x = comma_list(a.drop_last());
        let y = comma_list(b.drop_last());
        assert(text[x.len() as int] == ',');
        assert(text[y.len() as int] == ',');
        assert(comma_free(a[a.len() - 1]));
        assert(comma_free(b[b.len() - 1]));
        if x.len() < y.len() {
            assert(text[y.len() as int] == a.last()[y.len() - x.len() - 1]);
        } else if y.len() < x.len() {
            assert(text[x.len() as int] == b.last()[x.len() - y.len() - 1]);
        }
        assert(x =~= text.take(x.len() as int));
        assert(y =~= text.take(y.len() as int));
        assert(a.last() =~= text.skip(x.len() as int + 1));
        assert(b.last() =~= text.skip(y.len() as int + 1));
        assert forall|i: int| 0 <= i < a.len() - 1 implies comma_free(
            #[trigger] a.drop_last()[i],
        ) by {
            assert(a.drop_last()[i] == a[i]);
        }
        assert forall|i: int| 0 <= i < b.len() - 1 implies comma_free(
            #[trigger] b.drop_last()[i],
        ) by {
            assert(b.drop_last()[i] == b[i]);
        }
        law_comma_lists_are_told_apart(a.drop_last(), b.drop_last());
        assert(a =~= a.drop_last().push(a.last()));
        assert(b =~= b.drop_last().push(b.last()));
        assert(a.len() == b.len());
    }
}

/// Whether a text is not empty and has no comma in it.
pub open spec fn comma_free(text: Seq<char>) -> bool {
    text.len() > 0 && forall|i: int| 0 <= i < text.len() ==> #[trigger] text[i] != ','
}

proof fn lemma_comma_list_parts(parts: Seq<Seq<char>>)
    requires
        forall|i: int| 0 <= i < parts.len() ==> comma_free(#[trigger] parts[i]),
    ensures
        parts.len() > 0 ==> comma_list(parts).len() > 0,
{
    if parts.len() == 1 {
        assert(comma_free(parts[0]));
    }
}

/// The order of texts is that of their bytes: where two byte strings first
/// differ the smaller byte decides, and a byte string comes before what it
/// begins.
pub proof fn law_bytes_decide_the_order(a: Seq<u8>, b: Seq<u8>, n: int)
    requires
        0 <= n <= a.len(),
        n <= b.len(),
        a.take(n) == b.take(n),
    ensures
        n < a.len() && n < b.len() && a[n] < b[n] ==> bytes_le(a, b) && !bytes_le(b, a),
        n == a.len() ==> bytes_le(a, b),
        n == a.len() && n < b.len() ==> !bytes_le(b, a),
    decreases n,
{
    if n > 0 {
        assert(a.take(n)[0] == a[0]);
        assert(b.take(n)[0] == b[0]);
        reveal_with_fuel(bytes_le, 2);
        if n < a.len() {
            assert(a.skip(1)[n - 1] == a[n]);
        }
        if n < b.len() {
            assert(b.skip(1)[n - 1] == b[n]);
        }
        assert(a.skip(1).take(n - 1) =~= a.take(n).skip(1));
        assert(b.skip(1).take(n - 1) =~= b.take(n).skip(1));
        law_bytes_decide_the_order(a.skip(1), b.skip(1), n - 1);
    }
}

/// Valid UTF-8 is read as the text with exactly its bytes.
pub proof fn law_utf8_is_read_as_it_is(bytes: Seq<u8>)
    requires
        valid_utf8(bytes),
    ensures
        encode_utf8(byte_text(bytes)) == bytes,
{
    vstd::utf8::decode_utf8_encode_utf8(bytes);
}

/// A list joined with commas holds every text of it as it is: one text is
/// itself, and one more text comes behind a comma.
pub proof fn law_comma_lists_hold_every_part(parts: Seq<Seq<char>>, part: Seq<char>)
    ensures
        comma_list(Seq::empty()).len() == 0,
        comma_list(seq![part]) == part,
        parts.len() > 0 ==> comma_list(parts.push(part)) == comma_list(parts) + seq![','] + part,
    decreases parts.len(),
{
    reveal_strlit(",");
    assert(","@ =~= seq![',']);
    reveal_with_fuel(comma_list, 2);
    if parts.len() > 0 {
        assert(parts.push(part).drop_last() =~= parts);
    }
    assert(comma_list(seq![part]) =~= part);
}

/// A string of digits is one that is not empty and holds digits alone, however
/// many they are and whichever comes first.
pub proof fn law_strings_of_digits(s: Seq<u8>)
    ensures
        all_digits(s) <==> s.len() > 0 && forall|i: int|
            0 <= i < s.len() ==> 48 <= #[trigger] s[i] && s[i] <= 57,
{
}

/// A list of texts is seen text by text, and bytes that are not UTF-8 as the
/// text that stands for them.
pub proof fn law_texts_are_seen_whole(list: Seq<String>, i: int, bytes: Seq<u8>)
    ensures
        texts(list).len() == list.len(),
        0 <= i < list.len() ==> texts(list)[i] == list[i]@,
        !valid_utf8(bytes) ==> byte_text(bytes) == lossy_utf8(bytes),
{
}

/// Texts are ordered by their bytes.
pub proof fn law_texts_are_ordered_by_bytes(a: Seq<char>, b: Seq<char>)
    ensures
        text_order()(a, b) <==> bytes_le(encode_utf8(a), encode_utf8(b)),
{
}

} // verus!
