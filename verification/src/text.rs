//! Character-level helpers shared by the parsers of this crate.
//!
//! Text is handled as a sequence of characters. The executable functions work
//! on a `Vec<char>` and on index ranges into it, so that a parser can walk a
//! text once without copying; the specifications speak of `Seq<char>`.

use vstd::prelude::*;
use vstd::std_specs::iter::IteratorSpec;

verus! {

/// `String::push` appends one character.
pub assume_specification[ String::push ](s: &mut String, ch: char)
    ensures
        final(s)@ == old(s)@.push(ch),
;

/// The characters of `s`, in order.
pub fn chars_of(s: &str) -> (v: Vec<char>)
    ensures
        v@ == s@,
{
    let mut v: Vec<char> = Vec::new();
    let mut it = s.chars();
    loop
        invariant
            it.obeys_prophetic_iter_laws(),
            it.decrease() is Some,
            v@ + it.remaining() == s@,
        ensures
            v@ == s@,
        decreases it.decrease()->0,
    {
        match it.next() {
            Some(c) => {
                v.push(c);
            },
            None => {
                break ;
            },
        }
    }
    v
}

/// The string made of the characters `v[from..to]`.
pub fn string_of(v: &Vec<char>, from: usize, to: usize) -> (s: String)
    requires
        from <= to <= v.len(),
    ensures
        s@ == v@.subrange(from as int, to as int),
{
    let mut s = String::new();
    let mut i: usize = from;
    while i < to
        invariant
            from <= i <= to <= v.len(),
            s@ == v@.subrange(from as int, i as int),
        decreases to - i,
    {
        s.push(v[i]);
        i += 1;
    }
    s
}

/// Whether `c` is white space: a character with the Unicode property
/// `White_Space`.
pub open spec fn is_space(c: char) -> bool {
    let u = c as u32;
    ||| 0x09 <= u <= 0x0D
    ||| u == 0x20
    ||| u == 0x85
    ||| u == 0xA0
    ||| u == 0x1680
    ||| 0x2000 <= u <= 0x200A
    ||| u == 0x2028
    ||| u == 0x2029
    ||| u == 0x202F
    ||| u == 0x205F
    ||| u == 0x3000
}

/// Whether `c` is white space.
pub fn is_whitespace(c: char) -> (r: bool)
    ensures
        r == is_space(c),
{
    let u: u32 = c as u32;
    (0x09 <= u && u <= 0x0D) || u == 0x20 || u == 0x85 || u == 0xA0 || u == 0x1680 || (0x2000 <= u
        && u <= 0x200A) || u == 0x2028 || u == 0x2029 || u == 0x202F || u == 0x205F || u == 0x3000
}

/// The characters that are stripped from the ends of a text: white space
/// from a line, quotation marks from a quoted word.
#[derive(Clone, Copy, PartialEq, Eq, Structural, Debug)]
pub enum CharClass {
    Space,
    Quote,
}

/// Whether `c` belongs to `class`.
pub open spec fn in_class(c: char, class: CharClass) -> bool {
    match class {
        CharClass::Space => is_space(c),
        CharClass::Quote => c == '"' || c == '\'',
    }
}

/// Whether `c` belongs to `class`.
pub fn has_class(c: char, class: CharClass) -> (r: bool)
    ensures
        r == in_class(c, class),
{
    match class {
        CharClass::Space => is_whitespace(c),
        CharClass::Quote => c == '"' || c == '\'',
    }
}

/// `s` without its leading characters of `class`.
pub open spec fn strip_start(s: Seq<char>, class: CharClass) -> Seq<char>
    decreases s.len(),
{
    if s.len() > 0 && in_class(s[0], class) {
        strip_start(s.drop_first(), class)
    } else {
        s
    }
}

/// `s` without its trailing characters of `class`.
pub open spec fn strip_end(s: Seq<char>, class: CharClass) -> Seq<char>
    decreases s.len(),
{
    if s.len() > 0 && in_class(s.last(), class) {
        strip_end(s.drop_last(), class)
    } else {
        s
    }
}

/// `s` without its leading and trailing characters of `class`.
pub open spec fn stripped(s: Seq<char>, class: CharClass) -> Seq<char> {
    strip_end(strip_start(s, class), class)
}

/// `s` without its leading and trailing white space.
pub open spec fn trimmed(s: Seq<char>) -> Seq<char> {
    stripped(s, CharClass::Space)
}

/// A text that neither starts nor ends with a character of `class`.
pub open spec fn is_stripped(s: Seq<char>, class: CharClass) -> bool {
    s.len() > 0 ==> !in_class(s[0], class) && !in_class(s.last(), class)
}

/// A text that neither starts nor ends with white space.
pub open spec fn is_trimmed(s: Seq<char>) -> bool {
    is_stripped(s, CharClass::Space)
}

/// Stripping removes nothing from a text that is already stripped.
pub proof fn lemma_stripped_fixed(s: Seq<char>, class: CharClass)
    requires
        is_stripped(s, class),
    ensures
        stripped(s, class) == s,
{
}

/// What stripping leaves neither starts nor ends with a character of the
/// class, so that stripping it again changes nothing.
pub proof fn lemma_stripped_is_stripped(s: Seq<char>, class: CharClass)
    ensures
        is_stripped(stripped(s, class), class),
        stripped(stripped(s, class), class) == stripped(s, class),
{
    lemma_strip_start_shape(s, class);
    lemma_strip_end_shape(strip_start(s, class), class);
    let t = strip_start(s, class);
    let u = strip_end(t, class);
    if u.len() > 0 {
        assert(u[0] == t[0]);
    }
    lemma_stripped_fixed(u, class);
}

/// `strip_start(s, class)` is a suffix of `s` that does not start with a
/// character of `class`, and everything before it is of `class`.
pub proof fn lemma_strip_start_shape(s: Seq<char>, class: CharClass)
    ensures
        strip_start(s, class).len() <= s.len(),
        strip_start(s, class) == s.skip(s.len() - strip_start(s, class).len()),
        strip_start(s, class).len() > 0 ==> !in_class(strip_start(s, class)[0], class),
        forall|i: int|
            0 <= i < s.len() - strip_start(s, class).len() ==> in_class(#[trigger] s[i], class),
    decreases s.len(),
{
    if s.len() > 0 && in_class(s[0], class) {
        let r = s.drop_first();
        lemma_strip_start_shape(r, class);
        let k = r.len() - strip_start(r, class).len();
        assert(r.skip(k) =~= s.skip(k + 1));
        assert forall|i: int| 0 <= i < s.len() - strip_start(s, class).len() implies in_class(
            #[trigger] s[i],
            class,
        ) by {
            if i > 0 {
                assert(s[i] == r[i - 1]);
            }
        }
    } else {
        assert(s.skip(0) =~= s);
    }
}

/// `strip_end(s, class)` is a prefix of `s` that does not end with a
/// character of `class`, and everything after it is of `class`.
pub proof fn lemma_strip_end_shape(s: Seq<char>, class: CharClass)
    ensures
        strip_end(s, class).len() <= s.len(),
        strip_end(s, class) == s.take(strip_end(s, class).len() as int),
        strip_end(s, class).len() > 0 ==> !in_class(strip_end(s, class).last(), class),
        forall|i: int|
            strip_end(s, class).len() <= i < s.len() ==> in_class(#[trigger] s[i], class),
    decreases s.len(),
{
    if s.len() > 0 && in_class(s.last(), class) {
        let r = s.drop_last();
        lemma_strip_end_shape(r, class);
        let k = strip_end(r, class).len() as int;
        assert(r.take(k) =~= s.take(k));
        assert forall|i: int| strip_end(s, class).len() <= i < s.len() implies in_class(
            #[trigger] s[i],
            class,
        ) by {
            if i < s.len() - 1 {
                assert(s[i] == r[i]);
            }
        }
    } else {
        assert(s.take(s.len() as int) =~= s);
    }
}

/// Leading characters of the class do not change what stripping leaves.
pub proof fn lemma_stripped_skips_leading(pad: Seq<char>, s: Seq<char>, class: CharClass)
    requires
        forall|i: int| 0 <= i < pad.len() ==> in_class(#[trigger] pad[i], class),
    ensures
        stripped(pad + s, class) == stripped(s, class),
    decreases pad.len(),
{
    if pad.len() == 0 {
        assert(pad + s =~= s);
    } else {
        let t = pad + s;
        assert(t[0] == pad[0]);
        assert(t.drop_first() =~= pad.drop_first() + s);
        lemma_stripped_skips_leading(pad.drop_first(), s, class);
    }
}

/// Trailing characters of the class do not change what stripping leaves.
pub proof fn lemma_stripped_skips_trailing(s: Seq<char>, pad: Seq<char>, class: CharClass)
    requires
        forall|i: int| 0 <= i < pad.len() ==> in_class(#[trigger] pad[i], class),
    ensures
        stripped(s + pad, class) == stripped(s, class),
    decreases pad.len(),
{
    if pad.len() == 0 {
        assert(s + pad =~= s);
    } else {
        lemma_stripped_push(s + pad.drop_last(), pad.last(), class);
        assert((s + pad.drop_last()).push(pad.last()) =~= s + pad);
        lemma_stripped_skips_trailing(s, pad.drop_last(), class);
    }
}

/// One more character of the class at the end does not change what stripping
/// leaves.
proof fn lemma_stripped_push(s: Seq<char>, c: char, class: CharClass)
    requires
        in_class(c, class),
    ensures
        stripped(s.push(c), class) == stripped(s, class),
    decreases s.len(),
{
    if s.len() > 0 && in_class(s[0], class) {
        assert(s.push(c)[0] == s[0]);
        assert(s.push(c).drop_first() =~= s.drop_first().push(c));
        lemma_stripped_push(s.drop_first(), c, class);
    } else if s.len() > 0 {
        assert(s.push(c)[0] == s[0]);
        assert(strip_start(s.push(c), class) == s.push(c));
        assert(s.push(c).drop_last() =~= s);
    } else {
        assert(s.push(c).drop_first() =~= s);
        assert(s.push(c)[0] == c);
    }
}

/// The bounds of `v[from..to]` without its leading and trailing characters of
/// `class`.
pub fn strip_range(v: &Vec<char>, from: usize, to: usize, class: CharClass) -> (r: (usize, usize))
    requires
        from <= to <= v.len(),
    ensures
        from <= r.0 <= r.1 <= to,
        v@.subrange(r.0 as int, r.1 as int) == stripped(
            v@.subrange(from as int, to as int),
            class,
        ),
{
    let mut a: usize = from;
    while a < to && has_class(v[a], class)
        invariant
            from <= a <= to <= v.len(),
            strip_start(v@.subrange(from as int, to as int), class) == strip_start(
                v@.subrange(a as int, to as int),
                class,
            ),
        decreases to - a,
    {
        proof {
            let s = v@.subrange(a as int, to as int);
            assert(s[0] == v@[a as int]);
            assert(s.drop_first() =~= v@.subrange(a + 1, to as int));
        }
        a += 1;
    }
    proof {
        let s = v@.subrange(a as int, to as int);
        if a < to {
            assert(s[0] == v@[a as int]);
        }
        assert(strip_start(s, class) == s);
    }
    let mut b: usize = to;
    while b > a && has_class(v[b - 1], class)
        invariant
            a <= b <= to <= v.len(),
            strip_end(v@.subrange(a as int, to as int), class) == strip_end(
                v@.subrange(a as int, b as int),
                class,
            ),
        decreases b - a,
    {
        proof {
            let s = v@.subrange(a as int, b as int);
            assert(s.last() == v@[b - 1]);
            assert(s.drop_last() =~= v@.subrange(a as int, b - 1));
        }
        b -= 1;
    }
    proof {
        let s = v@.subrange(a as int, b as int);
        if b > a {
            assert(s.last() == v@[b - 1]);
        }
        assert(strip_end(s, class) == s);
    }
    (a, b)
}

/// The index of the first `c` in `s`, or the length of `s` where it has none.
pub open spec fn find_char(s: Seq<char>, c: char) -> int
    decreases s.len(),
{
    if s.len() == 0 || s[0] == c {
        0
    } else {
        1 + find_char(s.drop_first(), c)
    }
}

/// `find_char` gives the first index that holds `c`.
pub proof fn lemma_find_char(s: Seq<char>, c: char)
    ensures
        0 <= find_char(s, c) <= s.len(),
        find_char(s, c) < s.len() ==> s[find_char(s, c)] == c,
        forall|i: int| 0 <= i < find_char(s, c) ==> #[trigger] s[i] != c,
    decreases s.len(),
{
    if s.len() == 0 || s[0] == c {
    } else {
        let r = s.drop_first();
        lemma_find_char(r, c);
        assert forall|i: int| 0 <= i < find_char(s, c) implies #[trigger] s[i] != c by {
            if i > 0 {
                assert(s[i] == r[i - 1]);
            }
        }
    }
}

/// An index with no `c` before it, that holds `c` or is the end of `s`, is
/// the one that `find_char` gives.
pub proof fn lemma_find_char_is(s: Seq<char>, c: char, k: int)
    requires
        0 <= k <= s.len(),
        forall|i: int| 0 <= i < k ==> #[trigger] s[i] != c,
        k < s.len() ==> s[k] == c,
    ensures
        find_char(s, c) == k,
{
    lemma_find_char(s, c);
    let f = find_char(s, c);
    if f < k {
        assert(s[f] != c);
    } else if f > k {
        assert(s[k] != c);
    }
}

/// The first index at or after `from`, and before `to`, that holds `c`; `to`
/// where there is none.
pub fn find_in_range(v: &Vec<char>, c: char, from: usize, to: usize) -> (r: usize)
    requires
        from <= to <= v.len(),
    ensures
        from <= r <= to,
        r - from == find_char(v@.subrange(from as int, to as int), c),
{
    let mut i: usize = from;
    while i < to && v[i] != c
        invariant
            from <= i <= to <= v.len(),
            forall|j: int| from <= j < i ==> v@[j] != c,
        decreases to - i,
    {
        i += 1;
    }
    proof {
        let s = v@.subrange(from as int, to as int);
        assert forall|j: int| 0 <= j < i - from implies #[trigger] s[j] != c by {
            assert(s[j] == v@[from + j]);
        }
        lemma_find_char_is(s, c, i - from);
    }
    i
}

/// Whether `s` starts with `p`.
pub open spec fn has_prefix(s: Seq<char>, p: Seq<char>) -> bool {
    p.len() <= s.len() && s.take(p.len() as int) == p
}

/// Whether `v[from..to]` starts with `p`.
pub fn starts_with_at(v: &Vec<char>, from: usize, to: usize, p: &Vec<char>) -> (r: bool)
    requires
        from <= to <= v.len(),
    ensures
        r == has_prefix(v@.subrange(from as int, to as int), p@),
{
    let ghost s = v@.subrange(from as int, to as int);
    if p.len() > to - from {
        return false;
    }
    let mut i: usize = 0;
    while i < p.len()
        invariant
            from <= to <= v.len(),
            p.len() <= to - from,
            0 <= i <= p.len(),
            s == v@.subrange(from as int, to as int),
            forall|j: int| 0 <= j < i ==> s[j] == p@[j],
        decreases p.len() - i,
    {
        if v[from + i] != p[i] {
            proof {
                assert(s[i as int] == v@[from + i]);
                assert(s.take(p.len() as int)[i as int] != p@[i as int]);
            }
            return false;
        }
        proof {
            assert(s[i as int] == v@[from + i]);
        }
        i += 1;
    }
    proof {
        assert(s.take(p.len() as int) =~= p@);
    }
    true
}

/// The index at which `p` first occurs in `s`, or the length of `s` where it
/// does not occur.
pub open spec fn find_text(s: Seq<char>, p: Seq<char>) -> int
    decreases s.len(),
{
    if has_prefix(s, p) {
        0
    } else if s.len() == 0 {
        0
    } else {
        1 + find_text(s.drop_first(), p)
    }
}

/// `find_text` gives an index within `s`, and `p` occurs there unless the
/// index is the length of `s`.
pub proof fn lemma_find_text(s: Seq<char>, p: Seq<char>)
    ensures
        0 <= find_text(s, p) <= s.len(),
        find_text(s, p) < s.len() ==> has_prefix(s.skip(find_text(s, p)), p),
        forall|i: int| 0 <= i < find_text(s, p) ==> !has_prefix(#[trigger] s.skip(i), p),
    decreases s.len(),
{
    if has_prefix(s, p) {
        assert(s.skip(0) =~= s);
    } else if s.len() == 0 {
    } else {
        let r = s.drop_first();
        lemma_find_text(r, p);
        let f = find_text(r, p);
        assert(r.skip(f) =~= s.skip(f + 1));
        assert forall|i: int| 0 <= i < find_text(s, p) implies !has_prefix(
            #[trigger] s.skip(i),
            p,
        ) by {
            if i == 0 {
                assert(s.skip(0) =~= s);
            } else {
                assert(r.skip(i - 1) =~= s.skip(i));
            }
        }
    }
}

/// The first index at or after `from` at which `p` occurs in `v[from..to]`;
/// `to` where it does not occur.
pub fn find_text_in_range(v: &Vec<char>, p: &Vec<char>, from: usize, to: usize) -> (r: usize)
    requires
        from <= to <= v.len(),
    ensures
        from <= r <= to,
        r - from == find_text(v@.subrange(from as int, to as int), p@),
{
    let mut i: usize = from;
    loop
        invariant
            from <= i <= to <= v.len(),
            find_text(v@.subrange(from as int, to as int), p@) == (i - from) + find_text(
                v@.subrange(i as int, to as int),
                p@,
            ),
        ensures
            from <= i <= to,
            i - from == find_text(v@.subrange(from as int, to as int), p@),
        decreases to - i,
    {
        if starts_with_at(v, i, to, p) {
            break ;
        }
        if i == to {
            break ;
        }
        proof {
            let s = v@.subrange(i as int, to as int);
            assert(s.drop_first() =~= v@.subrange(i + 1, to as int));
        }
        i += 1;
    }
    i
}

/// The lower-case form of an ASCII capital letter; any other character is kept.
pub open spec fn lower_char(c: char) -> char {
    if 'A' <= c <= 'Z' {
        ((c as u8) + 32) as char
    } else {
        c
    }
}

/// `s` with its ASCII capital letters in lower case.
pub open spec fn lowercase(s: Seq<char>) -> Seq<char> {
    Seq::new(s.len(), |i: int| lower_char(s[i]))
}

/// The decimal digit that stands for `d`.
pub open spec fn digit_char(d: nat) -> char
    recommends
        d < 10,
{
    ((48 + d) as u8) as char
}

/// The decimal numeral of `n`, without leading zeros.
pub open spec fn decimal(n: nat) -> Seq<char>
    decreases n,
{
    if n < 10 {
        seq![digit_char(n)]
    } else {
        decimal(n / 10).push(digit_char(n % 10))
    }
}

/// Appends the decimal numeral of `n` to `out`.
pub fn push_decimal(out: &mut String, n: u64)
    ensures
        final(out)@ == old(out)@ + decimal(n as nat),
    decreases n,
{
    if n >= 10 {
        push_decimal(out, n / 10);
    }
    let d: u8 = (n % 10) as u8;
    let c: char = (48 + d) as char;
    out.push(c);
    proof {
        if n < 10 {
            assert(old(out)@.push(c) =~= old(out)@ + seq![c]);
        } else {
            assert((old(out)@ + decimal((n / 10) as nat)).push(c) =~= old(out)@ + decimal(
                (n / 10) as nat,
            ).push(c));
        }
    }
}

/// Appends the characters of `s` to `out`.
pub fn push_text(out: &mut String, s: &str)
    ensures
        final(out)@ == old(out)@ + s@,
{
    out.append(s);
}

/// What follows the last `/` of `s`; all of `s` where it has none.
pub open spec fn last_segment(s: Seq<char>) -> Seq<char>
    decreases s.len(),
{
    if s.len() == 0 || s.last() == '/' {
        Seq::empty()
    } else {
        last_segment(s.drop_last()).push(s.last())
    }
}

/// The last segment of a text holds no `/`.
pub proof fn lemma_last_segment(s: Seq<char>)
    ensures
        forall|i: int| 0 <= i < last_segment(s).len() ==> #[trigger] last_segment(s)[i] != '/',
    decreases s.len(),
{
    if s.len() > 0 && s.last() != '/' {
        lemma_last_segment(s.drop_last());
        let before = last_segment(s.drop_last());
        assert forall|i: int| 0 <= i < last_segment(s).len() implies #[trigger] last_segment(
            s,
        )[i] != '/' by {
            if i < before.len() {
                assert(last_segment(s)[i] == before[i]);
            }
        }
    }
}

} // verus!
