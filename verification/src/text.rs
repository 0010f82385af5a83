//! Character-level helpers: sequences of characters, their concatenation,
//! Unicode character classes that the editor needs, and string building.
use vstd::prelude::*;

verus! {

/// The concatenation of a sequence of character sequences.
pub open spec fn concat_all(parts: Seq<Seq<char>>) -> Seq<char>
    decreases parts.len(),
{
    if parts.len() == 0 {
        Seq::<char>::empty()
    } else {
        concat_all(parts.drop_last()) + parts.last()
    }
}

/// Concatenating one more part at the end appends that part.
pub proof fn lemma_concat_push(parts: Seq<Seq<char>>, part: Seq<char>)
    ensures
        concat_all(parts.push(part)) == concat_all(parts) + part,
{
    assert(parts.push(part).drop_last() =~= parts);
}

/// Extending a window of parts by its next part appends that part.
pub proof fn lemma_concat_subrange_step(parts: Seq<Seq<char>>, a: int, b: int)
    requires
        0 <= a <= b < parts.len(),
    ensures
        concat_all(parts.subrange(a, b + 1)) == concat_all(parts.subrange(a, b)) + parts[b],
{
    assert(parts.subrange(a, b + 1) =~= parts.subrange(a, b).push(parts[b]));
    lemma_concat_push(parts.subrange(a, b), parts[b]);
}

/// The concatenation of two sequences of parts is the concatenation of their
/// concatenations.
pub proof fn lemma_concat_append(p: Seq<Seq<char>>, q: Seq<Seq<char>>)
    ensures
        concat_all(p + q) == concat_all(p) + concat_all(q),
    decreases q.len(),
{
    if q.len() == 0 {
        assert(p + q =~= p);
        assert(concat_all(p) + concat_all(q) =~= concat_all(p));
    } else {
        let q0 = q.drop_last();
        assert((p + q).drop_last() =~= p + q0);
        lemma_concat_append(p, q0);
        assert((p + q).last() == q.last());
        assert(concat_all(p) + concat_all(q0) + q.last() =~= concat_all(p) + (concat_all(q0)
            + q.last()));
    }
}

/// Splitting a sequence of parts at `k` splits its concatenation.
pub proof fn lemma_concat_split(parts: Seq<Seq<char>>, k: int)
    requires
        0 <= k <= parts.len(),
    ensures
        concat_all(parts) == concat_all(parts.subrange(0, k)) + concat_all(
            parts.subrange(k, parts.len() as int),
        ),
{
    assert(parts =~= parts.subrange(0, k) + parts.subrange(k, parts.len() as int));
    lemma_concat_append(parts.subrange(0, k), parts.subrange(k, parts.len() as int));
}

/// The concatenation of one part is that part.
pub proof fn lemma_concat_single(part: Seq<char>)
    ensures
        concat_all(seq![part]) == part,
{
    let s = seq![part];
    assert(s.drop_last() =~= Seq::<Seq<char>>::empty());
    assert(concat_all(s.drop_last()) == Seq::<char>::empty());
    assert(s.last() == part);
    assert(Seq::<char>::empty() + part =~= part);
}

/// The concatenation of non-empty parts has at least as many characters as
/// there are parts.
pub proof fn lemma_concat_len_nonempty(parts: Seq<Seq<char>>)
    requires
        forall|k: int| 0 <= k < parts.len() ==> (#[trigger] parts[k]).len() > 0,
    ensures
        concat_all(parts).len() >= parts.len(),
    decreases parts.len(),
{
    if parts.len() > 0 {
        lemma_concat_len_nonempty(parts.drop_last());
    }
}

/// Parts that are the single characters of `t`, in order, concatenate to `t`.
pub proof fn lemma_concat_singles(parts: Seq<Seq<char>>, t: Seq<char>)
    requires
        parts.len() == t.len(),
        forall|k: int| 0 <= k < parts.len() ==> #[trigger] parts[k] == seq![t[k]],
    ensures
        concat_all(parts) == t,
    decreases parts.len(),
{
    if parts.len() > 0 {
        let n = parts.len() - 1;
        lemma_concat_singles(parts.drop_last(), t.take(n));
        assert(t.take(n).push(t[n]) =~= t);
    }
}

/// A printable ASCII character: space through `~`.
pub open spec fn is_printable_ascii(c: char) -> bool {
    0x20 <= (c as u32) <= 0x7E
}

/// Every character of `s` is printable ASCII.
pub open spec fn all_printable_ascii(s: Seq<char>) -> bool {
    forall|i: int| 0 <= i < s.len() ==> is_printable_ascii(#[trigger] s[i])
}

/// Characters with the Unicode `White_Space` property.
pub open spec fn is_white_space_spec(c: char) -> bool {
    let u = c as u32;
    ||| 0x09 <= u <= 0x0D
    ||| u == 0x20
    ||| u == 0x85
    ||| u == 0xA0
    ||| u == 0x1680
    ||| 0x2000 <= u <= 0x200A
    ||| u == 0x2028
    ||| u == 0x2029
    ||| u == 0x202F
    ||| u == 0x205F
    ||| u == 0x3000
}

/// Characters of the Unicode general category `Cc` (control characters).
pub open spec fn is_control_spec(c: char) -> bool {
    let u = c as u32;
    u <= 0x1F || (0x7F <= u <= 0x9F)
}

/// Every character of `s` is white space; such a text trims to nothing.
pub open spec fn all_white_space(s: Seq<char>) -> bool {
    forall|i: int| 0 <= i < s.len() ==> is_white_space_spec(#[trigger] s[i])
}

/// Whether `c` has the Unicode `White_Space` property.
pub fn is_white_space(c: char) -> (r: bool)
    ensures
        r == is_white_space_spec(c),
{
    let u = c as u32;
    (0x09 <= u && u <= 0x0D) || u == 0x20 || u == 0x85 || u == 0xA0 || u == 0x1680 || (0x2000 <= u
        && u <= 0x200A) || u == 0x2028 || u == 0x2029 || u == 0x202F || u == 0x205F || u == 0x3000
}

/// Whether `c` is a control character (general category `Cc`).
pub fn is_control(c: char) -> (r: bool)
    ensures
        r == is_control_spec(c),
{
    let u = c as u32;
    u <= 0x1F || (0x7F <= u && u <= 0x9F)
}

/// Whether every character of `s` is white space.
pub fn is_all_white_space(s: &str) -> (r: bool)
    ensures
        r == all_white_space(s@),
{
    let n = s.unicode_len();
    let mut i: usize = 0;
    while i < n
        invariant
            n == s@.len(),
            i <= n,
            forall|j: int| 0 <= j < i ==> is_white_space_spec(#[trigger] s@[j]),
        decreases n - i,
    {
        if !is_white_space(s.get_char(i)) {
            return false;
        }
        i = i + 1;
    }
    true
}

/// Whether `s` consists of exactly the one character `c`.
pub fn is_just(s: &str, c: char) -> (r: bool)
    ensures
        r == (s@ == seq![c]),
{
    let n = s.unicode_len();
    if n != 1 {
        proof {
            if s@ == seq![c] {
                assert(s@.len() == 1);
            }
        }
        return false;
    }
    let first = s.get_char(0);
    proof {
        if first == c {
            assert(s@ =~= seq![c]);
        }
    }
    first == c
}

/// Appends one character (`String::push`).
#[verifier::external_body]
pub(crate) fn push_char(s: &mut String, c: char)
    ensures
        final(s)@ == old(s)@.push(c),
{
    s.push(c);
}

/// The text made of the one character `c`.
pub(crate) fn char_to_string(c: char) -> (r: String)
    ensures
        r@ == seq![c],
{
    let mut s = String::new();
    push_char(&mut s, c);
    proof {
        assert(Seq::<char>::empty().push(c) =~= seq![c]);
    }
    s
}

/// The `Debug` rendering of a character (quoted, with escapes).
pub uninterp spec fn char_debug(c: char) -> Seq<char>;

/// The `Debug` rendering of a text (quoted, with escapes).
pub uninterp spec fn str_debug(s: Seq<char>) -> Seq<char>;

/// Calls `format!("{:?}", c)`, std's `Debug` for `char`. Claims only that the
/// result is `char_debug(c)`; the escaping rules are left unsaid.
#[verifier::external_body]
pub(crate) fn debug_char(c: char) -> (r: String)
    ensures
        r@ == char_debug(c),
{
    format!("{:?}", c)
}

/// Calls `format!("{:?}", s)`, std's `Debug` for `str`. Claims only that the
/// result is `str_debug(s@)`; the escaping rules are left unsaid.
#[verifier::external_body]
pub(crate) fn debug_str(s: &str) -> (r: String)
    ensures
        r@ == str_debug(s@),
{
    format!("{:?}", s)
}

/// `n` copies of `c`.
pub open spec fn repeat_char(c: char, n: nat) -> Seq<char> {
    Seq::new(n, |_i: int| c)
}

} // verus!
