//! Canonical forms of the strings that credentials carry: a trimmed,
//! uppercased string, a two-letter nationality code, and a sorted list of
//! nationality codes.
use vstd::prelude::*;
use vstd::relations::{sorted_by, total_ordering};
use vstd::utf8::{decode_utf8, encode_utf8, valid_utf8};
use crate::status::FfiError;
use crate::types::{buffer_from_vec, read_byte_slice, BbsByteBuffer, BbsByteSlice};
use std::str::Utf8Error;

verus! {

/// Error returned by the nationality canonicalization helpers.
#[derive(Debug, Clone, Copy, PartialEq, Eq, Structural)]
pub enum UtilsError {
    InvalidLength,
}

impl UtilsError {
    /// The library error that a canonicalization error is reported as.
    pub fn into_ffi(self) -> (r: FfiError)
        ensures
            r == FfiError::InvalidLength,
    {
        match self {
            UtilsError::InvalidLength => FfiError::InvalidLength,
        }
    }
}

/// Whether a character has the Unicode `White_Space` property
/// (PropList.txt of the Unicode Character Database).
pub open spec fn is_white_space(c: char) -> bool {
    let v = c as u32;
    ||| 0x09 <= v <= 0x0d
    ||| v == 0x20
    ||| v == 0x85
    ||| v == 0xa0
    ||| v == 0x1680
    ||| 0x2000 <= v <= 0x200a
    ||| v == 0x2028
    ||| v == 0x2029
    ||| v == 0x202f
    ||| v == 0x205f
    ||| v == 0x3000
}

/// How many whitespace characters lead the sequence.
pub open spec fn leading_white_space(s: Seq<char>) -> nat
    decreases s.len(),
{
    if s.len() > 0 && is_white_space(s[0]) {
        1 + leading_white_space(s.drop_first())
    } else {
        0
    }
}

/// How many whitespace characters end the sequence.
pub open spec fn trailing_white_space(s: Seq<char>) -> nat
    decreases s.len(),
{
    if s.len() > 0 && is_white_space(s.last()) {
        1 + trailing_white_space(s.drop_last())
    } else {
        0
    }
}

/// The sequence with its leading and trailing whitespace removed.
pub open spec fn trimmed(s: Seq<char>) -> Seq<char> {
    let rest = s.skip(leading_white_space(s) as int);
    rest.take(rest.len() - trailing_white_space(rest))
}

/// The uppercase mapping that `str::to_uppercase` gives a character that is
/// not ASCII (that of `char::to_uppercase`): one or more characters.
pub uninterp spec fn non_ascii_uppercase(c: char) -> Seq<char>;

/// The ASCII uppercase of a character: `a` to `z` become `A` to `Z`, and every
/// other character stays as it is.
pub open spec fn ascii_upper(c: char) -> char {
    if 'a' <= c <= 'z' {
        ((c as u32) - 32) as char
    } else {
        c
    }
}

/// Whether a character is one of U+00C0 to U+00DE: the Latin-1 capital
/// letters and the multiplication sign, none of which has an uppercase
/// mapping other than itself.
pub open spec fn is_latin1_capital(c: char) -> bool {
    0xc0 <= (c as u32) <= 0xde
}

/// The uppercase mapping of one character: an ASCII character maps to its
/// ASCII uppercase, a Latin-1 capital to itself, any other to its Unicode
/// uppercase mapping.
pub open spec fn char_uppercase(c: char) -> Seq<char> {
    if (c as u32) < 0x80 {
        seq![ascii_upper(c)]
    } else if is_latin1_capital(c) {
        seq![c]
    } else {
        non_ascii_uppercase(c)
    }
}

/// What `str::to_uppercase` returns for a string: the uppercase mapping of
/// each character, in order, where one character may map to several.
pub open spec fn unicode_uppercase(s: Seq<char>) -> Seq<char> {
    s.map_values(|c: char| char_uppercase(c)).flatten()
}

/// The canonical form of a string: trimmed, then uppercased.
pub open spec fn canonical(s: Seq<char>) -> Seq<char> {
    unicode_uppercase(trimmed(s))
}

/// Whether a character is one of the ASCII letters `A` to `Z`.
pub open spec fn is_ascii_upper(c: char) -> bool {
    'A' <= c <= 'Z'
}

/// Whether a string is a nationality code: exactly two letters `A` to `Z`.
pub open spec fn is_nationality_code(s: Seq<char>) -> bool {
    s.len() == 2 && is_ascii_upper(s[0]) && is_ascii_upper(s[1])
}

/// `str::trim`: the string slice without leading and trailing characters that
/// have the Unicode `White_Space` property. The contract restates that.
#[verifier::external_body]
fn trim_str(s: &str) -> (r: &str)
    ensures
        r@ == trimmed(s@),
{
    s.trim()
}

/// `str::to_uppercase`: the Unicode uppercase equivalent of the string, each
/// character mapped in turn (the mapping has no context-dependent case for
/// uppercase). Of the mapping the contract states what std documents for
/// ASCII (`a` to `z` become `A` to `Z`, other ASCII characters are unchanged)
/// and that a character without an uppercase mapping, as U+00C0 to U+00DE are
/// in the Unicode Character Database, is kept; that of other characters is
/// named by `non_ascii_uppercase`.
#[verifier::external_body]
fn to_uppercase_str(s: &str) -> (r: String)
    ensures
        r@ == s@.map_values(
            |c: char|
                if (c as u32) < 0x80 {
                    seq![ascii_upper(c)]
                } else if 0xc0 <= (c as u32) <= 0xde {
                    seq![c]
                } else {
                    non_ascii_uppercase(c)
                },
        ).flatten(),
{
    s.to_uppercase()
}

/// Trims leading and trailing whitespace, then uppercases the string.
pub fn canonical_string(value: &str) -> (r: String)
    ensures
        r@ == canonical(value@),
{
    let t = trim_str(value);
    let r = to_uppercase_str(t);
    assert(t@.map_values(
        |c: char|
            if (c as u32) < 0x80 {
                seq![ascii_upper(c)]
            } else if 0xc0 <= (c as u32) <= 0xde {
                seq![c]
            } else {
                non_ascii_uppercase(c)
            },
    ) =~= t@.map_values(|c: char| char_uppercase(c)));
    r
}

/// Any two ASCII letters, in either case and with no surrounding space, are
/// a nationality code: their canonical form is the two letters uppercased
/// (`a` to `z` become `A` to `Z`, capitals stay), and every such pair is
/// accepted, whichever letters they are.
pub proof fn lemma_two_letters_are_a_code(c0: char, c1: char)
    requires
        'a' <= c0 <= 'z' || 'A' <= c0 <= 'Z',
        'a' <= c1 <= 'z' || 'A' <= c1 <= 'Z',
    ensures
        canonical(seq![c0, c1]) == seq![ascii_upper(c0), ascii_upper(c1)],
        'A' <= ascii_upper(c0) <= 'Z',
        'A' <= ascii_upper(c1) <= 'Z',
        ('A' <= c0 <= 'Z' ==> ascii_upper(c0) == c0) && ('A' <= c1 <= 'Z' ==> ascii_upper(c1) == c1),
        ('a' <= c0 <= 'z' ==> ascii_upper(c0) as u32 == c0 as u32 - 32),
        ('a' <= c1 <= 'z' ==> ascii_upper(c1) as u32 == c1 as u32 - 32),
        is_nationality_code(canonical(seq![c0, c1])),
{
    let c = seq![c0, c1];
    assert(!is_white_space(c0) && !is_white_space(c1));
    assert(leading_white_space(c) == 0);
    assert(c.skip(0) =~= c);
    assert(trailing_white_space(c) == 0);
    assert(c.take(c.len() as int) =~= c);
    assert(trimmed(c) == c);
    let m = c.map_values(|ch: char| char_uppercase(ch));
    assert(m[0] == seq![ascii_upper(c0)]);
    assert(m[1] == seq![ascii_upper(c1)]);
    reveal_with_fuel(Seq::flatten, 3);
    assert(m.drop_first().drop_first() =~= Seq::<Seq<char>>::empty());
    assert(m.drop_first().first() == seq![ascii_upper(c1)]);
    assert(m.flatten() =~= seq![ascii_upper(c0), ascii_upper(c1)]);
}

/// A nationality code is its own canonical form: a value whose canonical form
/// is a code canonicalizes, again, to that same code.
pub proof fn lemma_code_fixed_point(value: Seq<char>)
    requires
        is_nationality_code(canonical(value)),
    ensures
        canonical(canonical(value)) == canonical(value),
        is_nationality_code(canonical(canonical(value))),
{
    let c = canonical(value);
    assert(leading_white_space(c) == 0);
    assert(c.skip(0) =~= c);
    assert(trailing_white_space(c) == 0);
    assert(c.take(c.len() as int) =~= c);
    assert(trimmed(c) == c);
    let m = c.map_values(|ch: char| char_uppercase(ch));
    assert(m[0] == seq![c[0]]);
    assert(m[1] == seq![c[1]]);
    reveal_with_fuel(Seq::flatten, 3);
    assert(m.drop_first().drop_first() =~= Seq::<Seq<char>>::empty());
    assert(m.drop_first().first() == seq![c[1]]);
    assert(m.flatten() =~= c);
}

/// Canonicalizes a nationality code to exactly two ASCII letters `A`-`Z`.
pub fn canonical_nationality(value: &str) -> (r: Result<String, UtilsError>)
    ensures
        is_nationality_code(canonical(value@)) <==> r is Ok,
        r is Ok <==> canonical(value@).len() == 2 && forall|i: int|
            0 <= i < 2 ==> 'A' <= #[trigger] canonical(value@)[i] <= 'Z',
        r matches Ok(s) ==> s@ == canonical(value@),
        r matches Err(e) ==> e == UtilsError::InvalidLength,
{
    let canonical = canonical_string(value);
    let s = canonical.as_str();
    if s.unicode_len() == 2 {
        let c0 = s.get_char(0);
        let c1 = s.get_char(1);
        if 'A' <= c0 && c0 <= 'Z' && 'A' <= c1 && c1 <= 'Z' {
            return Ok(canonical);
        }
    }
    Err(UtilsError::InvalidLength)
}


/// The two letters of a nationality code.
pub open spec fn code_pair(c: Seq<char>) -> (char, char) {
    (c[0], c[1])
}

/// Lexicographic order on pairs of characters, by code point.
pub open spec fn pair_leq(a: (char, char), b: (char, char)) -> bool {
    ||| (a.0 as u32) < (b.0 as u32)
    ||| (a.0 as u32) == (b.0 as u32) && (a.1 as u32) <= (b.1 as u32)
}

/// The order in which nationality codes are listed.
pub open spec fn code_order() -> spec_fn((char, char), (char, char)) -> bool {
    |a: (char, char), b: (char, char)| pair_leq(a, b)
}

/// The string that a pair of letters spells.
pub open spec fn pair_chars(p: (char, char)) -> Seq<char> {
    seq![p.0, p.1]
}

/// The strings spelled by a sequence of pairs, concatenated.
pub open spec fn joined(pairs: Seq<(char, char)>) -> Seq<char> {
    pairs.map_values(|p: (char, char)| pair_chars(p)).flatten()
}

/// The views of a sequence of string slices.
pub open spec fn str_views(values: Seq<&str>) -> Seq<Seq<char>> {
    values.map_values(|v: &str| v@)
}

/// The letters of the canonical form of each value.
pub open spec fn canonical_codes(values: Seq<Seq<char>>) -> Seq<(char, char)> {
    values.map_values(|v: Seq<char>| code_pair(canonical(v)))
}

/// Whether every value canonicalizes to a nationality code.
pub open spec fn all_nationality_codes(values: Seq<Seq<char>>) -> bool {
    forall|i: int| 0 <= i < values.len() ==> #[trigger] is_nationality_code(canonical(values[i]))
}

/// The canonical nationality codes of the values, sorted and concatenated.
pub open spec fn nationality_list(values: Seq<Seq<char>>) -> Seq<char> {
    joined(canonical_codes(values).sort_by(code_order()))
}

/// The order on pairs of letters is a total order.
pub proof fn lemma_code_order_total()
    ensures
        total_ordering(code_order()),
{
    let r = code_order();
    assert forall|a: (char, char)| #[trigger] r(a, a) by {}
    assert forall|a: (char, char), b: (char, char)| #[trigger] r(a, b) && #[trigger] r(b, a)
        implies a == b by {
        assert(pair_leq(a, b) && pair_leq(b, a));
        assert((a.0 as u32) == (b.0 as u32));
        assert((a.1 as u32) == (b.1 as u32));
        lemma_char_u32_injective(a.0, b.0);
        lemma_char_u32_injective(a.1, b.1);
    }
    assert forall|a: (char, char), b: (char, char), c: (char, char)| #[trigger] r(a, b)
        && #[trigger] r(b, c) implies r(a, c) by {
        assert(pair_leq(a, b) && pair_leq(b, c));
        assert(pair_leq(a, c));
    }
    assert forall|a: (char, char), b: (char, char)| #[trigger] r(a, b) || #[trigger] r(b, a) by {
        assert(pair_leq(a, b) || pair_leq(b, a));
    }
}

/// Characters with the same code point are the same character.
proof fn lemma_char_u32_injective(a: char, b: char)
    requires
        (a as u32) == (b as u32),
    ensures
        a == b,
{
}

/// The two letters at the `k`-th code of a concatenation of codes.
pub open spec fn code_at(s: Seq<char>, k: int) -> (char, char) {
    (s[2 * k], s[2 * k + 1])
}

/// The string that a sequence of pairs spells holds the letters of the
/// `k`-th pair at positions `2k` and `2k + 1`.
proof fn lemma_joined(pairs: Seq<(char, char)>)
    ensures
        joined(pairs).len() == 2 * pairs.len(),
        forall|k: int| 0 <= k < pairs.len() ==> #[trigger] code_at(joined(pairs), k) == pairs[k],
    decreases pairs.len(),
{
    if pairs.len() == 0 {
        assert(joined(pairs) =~= Seq::<char>::empty());
    } else {
        let rest = pairs.drop_first();
        lemma_joined(rest);
        let m = pairs.map_values(|p: (char, char)| pair_chars(p));
        assert(m.drop_first() =~= rest.map_values(|p: (char, char)| pair_chars(p)));
        assert(joined(pairs) == m.first() + m.drop_first().flatten());
        assert(joined(pairs) =~= pair_chars(pairs[0]) + joined(rest));
        assert forall|k: int| 0 <= k < pairs.len() implies #[trigger] code_at(joined(pairs), k)
            == pairs[k] by {
            if k > 0 {
                assert(code_at(joined(rest), k - 1) == rest[k - 1]);
                assert(rest[k - 1] == pairs[k]);
            }
        }
    }
}

/// The list of nationality codes comes out sorted as strings: it holds, in
/// ascending order of code point by first letter and then by second letter,
/// exactly the canonical codes of the values, one for each value.
pub proof fn lemma_nationality_list_sorted(values: Seq<Seq<char>>)
    ensures
        nationality_list(values).len() == 2 * values.len(),
        forall|i: int, j: int|
            0 <= i < j < values.len() ==> {
                let a = #[trigger] code_at(nationality_list(values), i);
                let b = #[trigger] code_at(nationality_list(values), j);
                (a.0 as u32) < (b.0 as u32) || (a.0 == b.0 && (a.1 as u32) <= (b.1 as u32))
            },
        Seq::new(values.len(), |k: int| code_at(nationality_list(values), k)).to_multiset()
            == values.map_values(|v: Seq<char>| (canonical(v)[0], canonical(v)[1])).to_multiset(),
{
    broadcast use vstd::seq_lib::group_to_multiset_ensures;

    lemma_code_order_total();
    let codes = canonical_codes(values);
    codes.lemma_sort_by_ensures(code_order());
    let sorted = codes.sort_by(code_order());
    assert(sorted.len() == codes.len()) by {
        assert(sorted.to_multiset().len() == codes.to_multiset().len());
    }
    lemma_joined(sorted);
    let out = nationality_list(values);
    assert forall|i: int, j: int| 0 <= i < j < values.len() implies {
        let a = #[trigger] code_at(out, i);
        let b = #[trigger] code_at(out, j);
        (a.0 as u32) < (b.0 as u32) || (a.0 == b.0 && (a.1 as u32) <= (b.1 as u32))
    } by {
        assert(code_at(out, i) == sorted[i]);
        assert(code_at(out, j) == sorted[j]);
        assert(code_order()(sorted[i], sorted[j]));
        assert(pair_leq(sorted[i], sorted[j]));
        let (x, y) = (sorted[i], sorted[j]);
        if (x.0 as u32) >= (y.0 as u32) {
            lemma_char_u32_injective(x.0, y.0);
        }
    }
    assert(Seq::new(values.len(), |k: int| code_at(out, k)) =~= sorted);
    assert(values.map_values(|v: Seq<char>| (canonical(v)[0], canonical(v)[1])) =~= codes);
}

/// Whether one pair of letters comes before or equals another.
fn pair_precedes(a: (char, char), b: (char, char)) -> (r: bool)
    ensures
        r == pair_leq(a, b),
{
    (a.0 as u32) < (b.0 as u32) || ((a.0 as u32) == (b.0 as u32) && (a.1 as u32) <= (b.1 as u32))
}

/// Reads the two letters of a nationality code held in a string.
fn code_letters(s: &String) -> (r: (char, char))
    requires
        is_nationality_code(s@),
    ensures
        r == code_pair(s@),
{
    let t = s.as_str();
    (t.get_char(0), t.get_char(1))
}

/// Canonicalizes nationality codes, sorts them alphabetically, and concatenates.
pub fn canonical_nationality_list(values: &[&str]) -> (r: Result<String, UtilsError>)
    ensures
        all_nationality_codes(str_views(values@)) <==> r is Ok,
        r matches Ok(s) ==> s@ == nationality_list(str_views(values@)),
        r matches Err(e) ==> e == UtilsError::InvalidLength,
{
    let ghost views = str_views(values@);
    let ghost codes = canonical_codes(views);
    // The canonical codes read so far, kept in sorted order.
    let mut items: Vec<String> = Vec::new();
    let mut i: usize = 0;
    proof {
        assert(items@.map_values(|s: String| code_pair(s@)) =~= Seq::<(char, char)>::empty());
        assert(codes.take(0) =~= Seq::<(char, char)>::empty());
        broadcast use vstd::seq_lib::group_to_multiset_ensures;
        assert(Seq::<(char, char)>::empty().to_multiset() =~= vstd::multiset::Multiset::empty());
    }
    while i < values.len()
        invariant
            i <= values.len(),
            views == str_views(values@),
            codes == canonical_codes(views),
            forall|j: int| 0 <= j < i ==> #[trigger] is_nationality_code(canonical(views[j])),
            forall|k: int| 0 <= k < items.len() ==> #[trigger] is_nationality_code(items[k]@),
            sorted_by(items@.map_values(|s: String| code_pair(s@)), code_order()),
            items@.map_values(|s: String| code_pair(s@)).to_multiset()
                == codes.take(i as int).to_multiset(),
        decreases values.len() - i,
    {
        let item = match canonical_nationality(values[i]) {
            Ok(s) => s,
            Err(e) => {
                assert(!is_nationality_code(canonical(views[i as int])));
                return Err(e);
            },
        };
        let letters = code_letters(&item);
        let ghost pairs = items@.map_values(|s: String| code_pair(s@));
        let mut pos: usize = 0;
        while pos < items.len() && pair_precedes(code_letters(&items[pos]), letters)
            invariant
                pos <= items.len(),
                pairs == items@.map_values(|s: String| code_pair(s@)),
                forall|k: int| 0 <= k < items.len() ==> #[trigger] is_nationality_code(items[k]@),
                forall|k: int| 0 <= k < pos ==> pair_leq(#[trigger] pairs[k], letters),
            decreases items.len() - pos,
        {
            pos = pos + 1;
        }
        proof {
            lemma_code_order_total();
            if pos < items.len() {
                assert(!pair_leq(pairs[pos as int], letters));
            }
        }
        items.insert(pos, item);
        proof {
            let new_pairs = items@.map_values(|s: String| code_pair(s@));
            assert(new_pairs =~= pairs.insert(pos as int, letters));
            vstd::seq_lib::to_multiset_insert(pairs, pos as int, letters);
            assert(codes.take(i + 1) =~= codes.take(i as int).push(codes[i as int]));
            vstd::seq_lib::to_multiset_build(codes.take(i as int), codes[i as int]);
            assert(codes[i as int] == letters);
            let r = code_order();
            if pos < pairs.len() {
                assert(pair_leq(letters, pairs[pos as int]));
                assert(r(letters, pairs[pos as int]));
            }
            assert forall|a: int, b: int| 0 <= a < b < new_pairs.len() implies #[trigger] r(
                new_pairs[a],
                new_pairs[b],
            ) by {
                if b < pos {
                    assert(new_pairs[a] == pairs[a] && new_pairs[b] == pairs[b]);
                    assert(r(pairs[a], pairs[b]));
                } else if b == pos {
                    assert(new_pairs[a] == pairs[a]);
                    assert(pair_leq(pairs[a], letters));
                } else {
                    // b > pos, so new_pairs[b] == pairs[b - 1] and letters <= pairs[pos] <= pairs[b - 1]
                    assert(new_pairs[b] == pairs[b - 1]);
                    let hi = pairs[b - 1];
                    if b - 1 > pos {
                        assert(r(pairs[pos as int], pairs[b - 1]));
                    }
                    assert(r(letters, hi));
                    if a == pos {
                        assert(new_pairs[a] == letters);
                    } else if a < pos {
                        assert(new_pairs[a] == pairs[a]);
                        assert(pair_leq(pairs[a], letters));
                        assert(r(pairs[a], letters));
                        assert(r(pairs[a], hi));
                    } else {
                        assert(new_pairs[a] == pairs[a - 1]);
                        assert(r(pairs[a - 1], pairs[b - 1]));
                    }
                }
            }
        }
        i = i + 1;
    }
    proof {
        assert(codes.take(values.len() as int) =~= codes);
        lemma_code_order_total();
        codes.lemma_sort_by_ensures(code_order());
        vstd::seq_lib::lemma_sorted_unique(
            items@.map_values(|s: String| code_pair(s@)),
            codes.sort_by(code_order()),
            code_order(),
        );
    }
    let ghost sorted = items@.map_values(|s: String| code_pair(s@));
    let mut out = String::new();
    let mut k: usize = 0;
    while k < items.len()
        invariant
            k <= items.len(),
            sorted == items@.map_values(|s: String| code_pair(s@)),
            forall|j: int| 0 <= j < items.len() ==> #[trigger] is_nationality_code(items[j]@),
            out@ == joined(sorted.take(k as int)),
        decreases items.len() - k,
    {
        out.append(items[k].as_str());
        proof {
            let pk = sorted.take(k as int);
            assert(sorted.take(k + 1) =~= pk.push(sorted[k as int]));
            assert(pk.push(sorted[k as int]).map_values(|p: (char, char)| pair_chars(p))
                =~= pk.map_values(|p: (char, char)| pair_chars(p)).push(pair_chars(sorted[k as int])));
            pk.map_values(|p: (char, char)| pair_chars(p)).lemma_flatten_push(pair_chars(sorted[k as int]));
            assert(is_nationality_code(items[k as int]@));
            assert(sorted[k as int] == code_pair(items[k as int]@));
            assert(pair_chars(sorted[k as int]) =~= items[k as int]@);
        }
        k = k + 1;
    }
    assert(sorted.take(items.len() as int) =~= sorted);
    Ok(out)
}


/// Applying a function to the elements of two sequences with the same
/// elements gives two sequences with the same elements.
proof fn lemma_map_values_multiset<A, B>(a: Seq<A>, b: Seq<A>, f: spec_fn(A) -> B)
    requires
        a.to_multiset() == b.to_multiset(),
    ensures
        a.map_values(f).to_multiset() == b.map_values(f).to_multiset(),
    decreases a.len(),
{
    broadcast use vstd::seq_lib::group_to_multiset_ensures;
    broadcast use vstd::multiset::group_multiset_axioms;

    vstd::seq_lib::to_multiset_len(a);
    vstd::seq_lib::to_multiset_len(b);
    if a.len() == 0 {
        assert(a.map_values(f) =~= Seq::<B>::empty());
        assert(b.map_values(f) =~= Seq::<B>::empty());
    } else {
        let x = a[0];
        assert(a.to_multiset().count(x) > 0) by {
            vstd::seq_lib::to_multiset_contains(a, x);
        }
        assert(b.contains(x)) by {
            vstd::seq_lib::to_multiset_contains(b, x);
        }
        let j = choose|j: int| 0 <= j < b.len() && b[j] == x;
        let a1 = a.drop_first();
        let b1 = b.remove(j);
        vstd::seq_lib::to_multiset_remove(a, 0);
        assert(a.remove(0) =~= a1);
        vstd::seq_lib::to_multiset_remove(b, j);
        lemma_map_values_multiset(a1, b1, f);
        let am = a.map_values(f);
        let bm = b.map_values(f);
        vstd::seq_lib::to_multiset_remove(am, 0);
        assert(am.remove(0) =~= a1.map_values(f));
        vstd::seq_lib::to_multiset_remove(bm, j);
        assert(bm.remove(j) =~= b1.map_values(f));
        vstd::seq_lib::to_multiset_contains(am, f(x));
        vstd::seq_lib::to_multiset_contains(bm, f(x));
        assert(am.to_multiset() =~= am.to_multiset().remove(f(x)).insert(f(x)));
        assert(bm.to_multiset() =~= bm.to_multiset().remove(f(x)).insert(f(x)));
    }
}

/// The nationality list does not depend on the order of its entries: two
/// inputs that hold the same strings, each as often, are both accepted or
/// both refused, and when accepted give the same list.
pub proof fn lemma_nationality_list_order_independent(a: Seq<Seq<char>>, b: Seq<Seq<char>>)
    requires
        a.to_multiset() == b.to_multiset(),
    ensures
        all_nationality_codes(a) == all_nationality_codes(b),
        nationality_list(a) == nationality_list(b),
{
    broadcast use vstd::seq_lib::group_to_multiset_ensures;

    lemma_code_order_total();
    lemma_map_values_multiset(a, b, |v: Seq<char>| code_pair(canonical(v)));
    let ca = canonical_codes(a);
    let cb = canonical_codes(b);
    ca.lemma_sort_by_ensures(code_order());
    cb.lemma_sort_by_ensures(code_order());
    vstd::seq_lib::lemma_sorted_unique(ca.sort_by(code_order()), cb.sort_by(code_order()), code_order());
    assert forall|i: int| 0 <= i < a.len() && !is_nationality_code(canonical(a[i]))
        implies !all_nationality_codes(b) by {
        assert(a.contains(a[i]));
        vstd::seq_lib::to_multiset_contains(a, a[i]);
        vstd::seq_lib::to_multiset_contains(b, a[i]);
        assert(b.contains(a[i]));
        let j = choose|j: int| 0 <= j < b.len() && b[j] == a[i];
        assert(!is_nationality_code(canonical(b[j])));
    }
    assert forall|i: int| 0 <= i < b.len() && !is_nationality_code(canonical(b[i]))
        implies !all_nationality_codes(a) by {
        assert(b.contains(b[i]));
        vstd::seq_lib::to_multiset_contains(a, b[i]);
        vstd::seq_lib::to_multiset_contains(b, b[i]);
        assert(a.contains(b[i]));
        let j = choose|j: int| 0 <= j < a.len() && a[j] == b[i];
        assert(!is_nationality_code(canonical(a[j])));
    }
}


/// A list of one nationality is that nationality's canonical code.
pub proof fn lemma_nationality_list_single(v: Seq<char>)
    requires
        is_nationality_code(canonical(v)),
    ensures
        all_nationality_codes(seq![v]),
        nationality_list(seq![v]) == canonical(v),
{
    broadcast use vstd::seq_lib::group_to_multiset_ensures;

    let codes = canonical_codes(seq![v]);
    assert(codes =~= seq![code_pair(canonical(v))]);
    lemma_code_order_total();
    codes.lemma_sort_by_ensures(code_order());
    assert(sorted_by(codes, code_order()));
    vstd::seq_lib::lemma_sorted_unique(codes, codes.sort_by(code_order()), code_order());
    let parts = codes.map_values(|p: (char, char)| pair_chars(p));
    assert(parts =~= seq![pair_chars(code_pair(canonical(v)))]);
    parts.lemma_flatten_singleton();
    assert(pair_chars(code_pair(canonical(v))) =~= canonical(v));
}

/// `std::str::Utf8Error`, the error of reading bytes as UTF-8.
#[verifier::external_type_specification]
#[verifier::external_body]
pub struct ExUtf8Error(Utf8Error);

/// `std::str::from_utf8`: the bytes as a string slice when they are valid
/// UTF-8, an error otherwise.
#[verifier::external_body]
fn str_from_utf8(bytes: &[u8]) -> (r: Result<&str, Utf8Error>)
    ensures
        r is Ok <==> valid_utf8(bytes@),
        r matches Ok(s) ==> s@ == decode_utf8(bytes@),
{
    std::str::from_utf8(bytes)
}

/// The UTF-8 bytes of a string.
fn string_bytes(s: &String) -> (r: Vec<u8>)
    ensures
        r@ == encode_utf8(s@),
{
    vstd::slice::slice_to_vec(s.as_str().as_bytes())
}

/// The error that reading a UTF-8 input gives, if any.
pub open spec fn text_error(bytes: Option<Vec<u8>>) -> Option<FfiError> {
    match bytes {
        None => Some(FfiError::NullPointer),
        Some(b) => if valid_utf8(b@) {
            None
        } else {
            Some(FfiError::Deserialize)
        },
    }
}

/// Reads an input slice as UTF-8 text.
pub fn utf8_from_byte_slice(input: &BbsByteSlice) -> (r: Result<&str, FfiError>)
    ensures
        match text_error(input.data) {
            Some(e) => r == Err::<&str, FfiError>(e),
            None => r matches Ok(s) && s@ == decode_utf8(input.data->0@),
        },
{
    let bytes = read_byte_slice(input)?;
    match str_from_utf8(bytes) {
        Ok(s) => Ok(s),
        Err(_) => Err(FfiError::Deserialize),
    }
}

/// Canonicalizes UTF-8 text (trim, then uppercase), handed back as UTF-8 bytes.
pub fn bbs_canonical_string(input: &BbsByteSlice) -> (r: Result<BbsByteBuffer, FfiError>)
    ensures
        match text_error(input.data) {
            Some(e) => r == Err::<BbsByteBuffer, FfiError>(e),
            None => r matches Ok(b) && b.data@ == encode_utf8(
                canonical(decode_utf8(input.data->0@)),
            ),
        },
{
    let value = utf8_from_byte_slice(input)?;
    let canonical = canonical_string(value);
    Ok(buffer_from_vec(string_bytes(&canonical)))
}

/// Canonicalizes a UTF-8 nationality code to two letters `A`-`Z`, handed back
/// as UTF-8 bytes.
pub fn bbs_canonical_nationality(input: &BbsByteSlice) -> (r: Result<BbsByteBuffer, FfiError>)
    ensures
        match text_error(input.data) {
            Some(e) => r == Err::<BbsByteBuffer, FfiError>(e),
            None => if is_nationality_code(canonical(decode_utf8(input.data->0@))) {
                r matches Ok(b) && b.data@ == encode_utf8(canonical(decode_utf8(input.data->0@)))
            } else {
                r == Err::<BbsByteBuffer, FfiError>(FfiError::InvalidLength)
            },
        },
{
    let value = utf8_from_byte_slice(input)?;
    match canonical_nationality(value) {
        Ok(canonical) => Ok(buffer_from_vec(string_bytes(&canonical))),
        Err(e) => Err(e.into_ffi()),
    }
}

/// The first error that reading the first `n` texts gives.
pub open spec fn texts_prefix_error(items: Seq<Option<Vec<u8>>>, n: nat) -> Option<FfiError>
    decreases n,
{
    if n == 0 {
        None
    } else if texts_prefix_error(items, (n - 1) as nat) is Some {
        texts_prefix_error(items, (n - 1) as nat)
    } else {
        text_error(items[n - 1])
    }
}

/// The error that reading a list of UTF-8 texts gives, if any.
pub open spec fn texts_error(items: Option<Vec<Option<Vec<u8>>>>) -> Option<FfiError> {
    match items {
        None => Some(FfiError::NullPointer),
        Some(v) => texts_prefix_error(v@, v@.len()),
    }
}

/// The text that each item decodes to.
pub open spec fn decoded_texts(items: Seq<Option<Vec<u8>>>) -> Seq<Seq<char>> {
    items.map_values(|x: Option<Vec<u8>>| decode_utf8(x->0@))
}

/// Once reading a list of texts fails, it fails with the same error however
/// many more texts follow.
proof fn lemma_texts_error_stops(items: Seq<Option<Vec<u8>>>, n: nat, m: nat)
    requires
        n <= m,
        texts_prefix_error(items, n) is Some,
    ensures
        texts_prefix_error(items, m) == texts_prefix_error(items, n),
    decreases m - n,
{
    if n < m {
        lemma_texts_error_stops(items, n, (m - 1) as nat);
    }
}

/// Canonicalizes UTF-8 nationality codes, sorts and concatenates them, handed
/// back as UTF-8 bytes.
pub fn bbs_canonical_nationality_list(items: &Option<Vec<Option<Vec<u8>>>>) -> (r: Result<
    BbsByteBuffer,
    FfiError,
>)
    ensures
        match texts_error(*items) {
            Some(e) => r == Err::<BbsByteBuffer, FfiError>(e),
            None => if all_nationality_codes(decoded_texts(items->0@)) {
                r matches Ok(b) && b.data@ == encode_utf8(
                    nationality_list(decoded_texts(items->0@)),
                )
            } else {
                r == Err::<BbsByteBuffer, FfiError>(FfiError::InvalidLength)
            },
        },
{
    if items.is_none() {
        return Err(FfiError::NullPointer);
    }
    let v = items.as_ref().unwrap();
    let mut values: Vec<&str> = Vec::new();
    let mut i: usize = 0;
    while i < v.len()
        invariant
            i <= v.len(),
            *items == Some(*v),
            texts_prefix_error(v@, i as nat) is None,
            str_views(values@) == decoded_texts(v@.take(i as int)),
        decreases v.len() - i,
    {
        match &v[i] {
            None => {
                proof {
                    lemma_texts_error_stops(v@, (i + 1) as nat, v@.len());
                }
                return Err(FfiError::NullPointer);
            },
            Some(bytes) => {
                match str_from_utf8(bytes.as_slice()) {
                    Ok(s) => {
                        let ghost prev = values@;
                        values.push(s);
                        proof {
                            assert(v@[i as int] == Some(*bytes));
                            assert(str_views(values@) =~= str_views(prev).push(s@));
                            assert(decoded_texts(v@.take(i + 1)) =~= decoded_texts(
                                v@.take(i as int),
                            ).push(decode_utf8(bytes@)));
                        }
                    },
                    Err(_) => {
                        proof {
                            assert(v@[i as int] == Some(*bytes));
                            lemma_texts_error_stops(v@, (i + 1) as nat, v@.len());
                        }
                        return Err(FfiError::Deserialize);
                    },
                }
            },
        }
        i = i + 1;
    }
    assert(v@.take(v.len() as int) =~= v@);
    match canonical_nationality_list(values.as_slice()) {
        Ok(list) => Ok(buffer_from_vec(string_bytes(&list))),
        Err(e) => Err(e.into_ffi()),
    }
}

} // verus!
