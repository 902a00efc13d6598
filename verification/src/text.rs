//! Text helpers over the character view of strings.
use vstd::prelude::*;

verus! {

/// `pattern` stands in `text` at position `at`.
pub open spec fn occurs_at(text: Seq<char>, pattern: Seq<char>, at: int) -> bool {
    &&& 0 <= at
    &&& at + pattern.len() <= text.len()
    &&& text.subrange(at, at + pattern.len()) == pattern
}

/// `pattern` stands somewhere in `text`.
pub open spec fn contains_text(text: Seq<char>, pattern: Seq<char>) -> bool {
    exists|at: int| occurs_at(text, pattern, at)
}

/// `text` ends with `suffix`.
pub open spec fn has_suffix(text: Seq<char>, suffix: Seq<char>) -> bool {
    occurs_at(text, suffix, text.len() - suffix.len())
}

/// `text` with every occurrence of `pattern` taken out, found from the left
/// and without overlap. An empty pattern takes nothing out.
pub open spec fn without_all(text: Seq<char>, pattern: Seq<char>) -> Seq<char>
    decreases text.len(),
{
    if pattern.len() == 0 || text.len() < pattern.len() {
        text
    } else if occurs_at(text, pattern, 0) {
        without_all(text.subrange(pattern.len() as int, text.len() as int), pattern)
    } else {
        seq![text[0]] + without_all(text.drop_first(), pattern)
    }
}

/// The characters with the Unicode property White_Space.
pub open spec fn is_space(c: char) -> bool {
    let n = c as u32;
    ||| 0x09 <= n <= 0x0D
    ||| n == 0x20
    ||| n == 0x85
    ||| n == 0xA0
    ||| n == 0x1680
    ||| 0x2000 <= n <= 0x200A
    ||| n == 0x2028
    ||| n == 0x2029
    ||| n == 0x202F
    ||| n == 0x205F
    ||| n == 0x3000
}

/// `text` without the white space at its two ends.
pub open spec fn trimmed(text: Seq<char>) -> Seq<char>
    decreases text.len(),
{
    if text.len() == 0 {
        text
    } else if is_space(text[0]) {
        trimmed(text.drop_first())
    } else if is_space(text.last()) {
        trimmed(text.drop_last())
    } else {
        text
    }
}

/// The upper-case form of an ASCII lower-case letter; any other character as it is.
pub open spec fn ascii_upper(c: char) -> char {
    if 'a' <= c <= 'z' {
        ((c as u8) - 32) as u8 as char
    } else {
        c
    }
}

/// `text` with its first character in upper case.
pub open spec fn capitalized(text: Seq<char>) -> Seq<char> {
    if text.len() == 0 {
        text
    } else {
        text.update(0, ascii_upper(text[0]))
    }
}

/// `text` with the ending `suffix` exchanged for `replacement`; unchanged
/// where it does not end so.
pub open spec fn with_suffix_replaced(
    text: Seq<char>,
    suffix: Seq<char>,
    replacement: Seq<char>,
) -> Seq<char> {
    if has_suffix(text, suffix) {
        text.subrange(0, text.len() - suffix.len()) + replacement
    } else {
        text
    }
}

pub assume_specification[ String::push ](s: &mut String, c: char)
    ensures
        final(s)@ == old(s)@.push(c),
;

/// The characters of a string, in order.
pub fn chars_of(text: &str) -> (r: Vec<char>)
    ensures
        r@ == text@,
{
    let n = text.unicode_len();
    let mut out: Vec<char> = Vec::new();
    let mut i: usize = 0;
    while i < n
        invariant
            n == text@.len(),
            i <= n,
            out@ == text@.subrange(0, i as int),
        decreases n - i,
    {
        out.push(text.get_char(i));
        i += 1;
    }
    out
}

/// The string made of the given characters.
pub fn string_of(chars: &Vec<char>) -> (r: String)
    ensures
        r@ == chars@,
{
    let mut out = String::new();
    let mut i: usize = 0;
    while i < chars.len()
        invariant
            i <= chars.len(),
            out@ == chars@.subrange(0, i as int),
        decreases chars.len() - i,
    {
        out.push(chars[i]);
        i += 1;
    }
    out
}

/// Whether `pattern` stands in `text` at position `at`.
pub fn matches_at(text: &Vec<char>, pattern: &Vec<char>, at: usize) -> (r: bool)
    ensures
        r == occurs_at(text@, pattern@, at as int),
{
    if at > text.len() || pattern.len() > text.len() - at {
        return false;
    }
    let mut k: usize = 0;
    while k < pattern.len()
        invariant
            k <= pattern.len(),
            at + pattern.len() <= text.len(),
            forall|j: int| 0 <= j < k ==> text@[at + j] == pattern@[j],
        decreases pattern.len() - k,
    {
        if text[at + k] != pattern[k] {
            proof {
                let window = text@.subrange(at as int, at + pattern.len());
                assert(window[k as int] == text@[at + k]);
            }
            return false;
        }
        k += 1;
    }
    assert(text@.subrange(at as int, at + pattern.len()) =~= pattern@);
    true
}

/// Whether two strings hold the same characters.
pub fn same_text(a: &str, b: &str) -> (r: bool)
    ensures
        r == (a@ == b@),
{
    let x = chars_of(a);
    let y = chars_of(b);
    if x.len() != y.len() {
        return false;
    }
    let r = matches_at(&x, &y, 0);
    proof {
        assert(x@.subrange(0, x@.len() as int) =~= x@);
    }
    r
}

/// Whether `text` ends with `suffix`.
pub fn ends_with(text: &str, suffix: &str) -> (r: bool)
    ensures
        r == has_suffix(text@, suffix@),
{
    let t = chars_of(text);
    let p = chars_of(suffix);
    if p.len() > t.len() {
        return false;
    }
    matches_at(&t, &p, t.len() - p.len())
}

/// Whether `pattern` stands somewhere in `text`.
pub fn contains(text: &str, pattern: &str) -> (r: bool)
    ensures
        r == contains_text(text@, pattern@),
{
    let t = chars_of(text);
    let p = chars_of(pattern);
    if p.len() > t.len() {
        return false;
    }
    let last: usize = t.len() - p.len();
    let mut i: usize = 0;
    while i < last
        invariant
            t@ == text@,
            p@ == pattern@,
            last == t.len() - p.len(),
            i <= last,
            forall|at: int| 0 <= at < i ==> !occurs_at(t@, p@, at),
        decreases last - i,
    {
        if matches_at(&t, &p, i) {
            return true;
        }
        i += 1;
    }
    matches_at(&t, &p, last)
}

/// Unfolds `without_all` at position `at` of a text that is being walked.
proof fn lemma_without_all_step(text: Seq<char>, pattern: Seq<char>, at: int)
    requires
        0 <= at < text.len(),
        pattern.len() > 0,
    ensures
        occurs_at(text, pattern, at) ==> without_all(text.subrange(at, text.len() as int), pattern)
            == without_all(text.subrange(at + pattern.len(), text.len() as int), pattern),
        !occurs_at(text, pattern, at) ==> without_all(text.subrange(at, text.len() as int), pattern)
            == seq![text[at]] + without_all(text.subrange(at + 1, text.len() as int), pattern),
{
    let rest = text.subrange(at, text.len() as int);
    if at + pattern.len() <= text.len() {
        assert(rest.subrange(0, pattern.len() as int) =~= text.subrange(at, at + pattern.len()));
    }
    if occurs_at(text, pattern, at) {
        assert(occurs_at(rest, pattern, 0));
        assert(rest.subrange(pattern.len() as int, rest.len() as int) =~= text.subrange(
            at + pattern.len(),
            text.len() as int,
        ));
    } else {
        assert(!occurs_at(rest, pattern, 0));
        assert(rest.drop_first() =~= text.subrange(at + 1, text.len() as int));
        if rest.len() < pattern.len() {
            lemma_without_all_short(text.subrange(at + 1, text.len() as int), pattern);
            assert(rest =~= seq![text[at]] + text.subrange(at + 1, text.len() as int));
        }
    }
}

/// A text shorter than the pattern holds no occurrence of it.
proof fn lemma_without_all_short(text: Seq<char>, pattern: Seq<char>)
    requires
        text.len() < pattern.len(),
    ensures
        without_all(text, pattern) == text,
{
}

/// `text` with every occurrence of `pattern` removed.
pub fn remove_all(text: &str, pattern: &str) -> (r: String)
    ensures
        r@ == without_all(text@, pattern@),
{
    let t = chars_of(text);
    let p = chars_of(pattern);
    if p.len() == 0 {
        return string_of(&t);
    }
    let mut out: Vec<char> = Vec::new();
    let mut i: usize = 0;
    assert(t@.subrange(0, t@.len() as int) =~= t@);
    while i < t.len()
        invariant
            i <= t.len(),
            p.len() > 0,
            without_all(t@, p@) == out@ + without_all(t@.subrange(i as int, t@.len() as int), p@),
        decreases t.len() - i,
    {
        proof {
            lemma_without_all_step(t@, p@, i as int);
        }
        if matches_at(&t, &p, i) {
            i += p.len();
        } else {
            let ghost before = out@;
            out.push(t[i]);
            assert(out@ + without_all(t@.subrange(i + 1, t@.len() as int), p@) =~= before + (seq![
                t@[i as int],
            ] + without_all(t@.subrange(i + 1, t@.len() as int), p@)));
            i += 1;
        }
    }
    assert(t@.subrange(i as int, t@.len() as int) =~= Seq::<char>::empty());
    assert(out@ + Seq::<char>::empty() =~= out@);
    string_of(&out)
}

/// Whether a character is white space.
pub fn is_space_char(c: char) -> (r: bool)
    ensures
        r == is_space(c),
{
    let n: u32 = c as u32;
    (0x09 <= n && n <= 0x0D) || n == 0x20 || n == 0x85 || n == 0xA0 || n == 0x1680 || (0x2000 <= n
        && n <= 0x200A) || n == 0x2028 || n == 0x2029 || n == 0x202F || n == 0x205F || n == 0x3000
}

/// `text` without the white space at its two ends.
pub fn trim(text: &str) -> (r: String)
    ensures
        r@ == trimmed(text@),
{
    let t = chars_of(text);
    let n = t.len();
    let mut i: usize = 0;
    assert(t@.subrange(0, n as int) =~= t@);
    while i < n && is_space_char(t[i])
        invariant
            n == t.len(),
            i <= n,
            trimmed(t@) == trimmed(t@.subrange(i as int, n as int)),
        decreases n - i,
    {
        assert(t@.subrange(i as int, n as int).drop_first() =~= t@.subrange(i + 1, n as int));
        i += 1;
    }
    let mut j: usize = n;
    while i < j && is_space_char(t[j - 1])
        invariant
            n == t.len(),
            i <= j <= n,
            i < n ==> !is_space(t@[i as int]),
            trimmed(t@) == trimmed(t@.subrange(i as int, j as int)),
        decreases j - i,
    {
        assert(t@.subrange(i as int, j as int).drop_last() =~= t@.subrange(i as int, j - 1));
        j -= 1;
    }
    let mut out: Vec<char> = Vec::new();
    let mut k: usize = i;
    while k < j
        invariant
            i <= k <= j <= t.len(),
            out@ == t@.subrange(i as int, k as int),
        decreases j - k,
    {
        out.push(t[k]);
        k += 1;
    }
    string_of(&out)
}

/// The upper-case form of an ASCII lower-case letter; any other character as it is.
pub fn to_ascii_upper(c: char) -> (r: char)
    ensures
        r == ascii_upper(c),
{
    if 'a' <= c && c <= 'z' {
        let b: u8 = c as u8;
        (b - 32) as char
    } else {
        c
    }
}

/// `text` with its first character in upper case.
pub fn capitalize_first_letter(text: &str) -> (r: String)
    ensures
        r@ == capitalized(text@),
{
    let mut t = chars_of(text);
    if t.len() > 0 {
        let c = to_ascii_upper(t[0]);
        t.set(0, c);
    }
    string_of(&t)
}

/// `text` with the ending `suffix` exchanged for `replacement`; unchanged
/// where it does not end so.
pub fn replace_suffix(text: &str, suffix: &str, replacement: &str) -> (r: String)
    ensures
        r@ == with_suffix_replaced(text@, suffix@, replacement@),
{
    let t = chars_of(text);
    if !ends_with(text, suffix) {
        return string_of(&t);
    }
    let p = chars_of(suffix);
    let keep: usize = t.len() - p.len();
    let mut out: Vec<char> = Vec::new();
    let mut k: usize = 0;
    while k < keep
        invariant
            k <= keep <= t.len(),
            out@ == t@.subrange(0, k as int),
        decreases keep - k,
    {
        out.push(t[k]);
        k += 1;
    }
    let mut head = string_of(&out);
    head.append(replacement);
    head
}

/// The two texts one after the other.
pub fn join(a: &str, b: &str) -> (r: String)
    ensures
        r@ == a@ + b@,
{
    let mut out = a.to_owned();
    out.append(b);
    out
}

} // verus!
