//! Text: character classes, trimming, splitting, numbers in decimal, and the
//! two conversions between bytes and text that the connector needs.
//!
//! Text is modelled by its sequence of characters. The functions that walk a
//! text do so on a slice of characters, which [`chars_of`] makes in one pass.

use vstd::prelude::*;
use vstd::string::StringExecFns;
use vstd::utf8::{decode_utf8, encode_utf8, valid_utf8};

verus! {

// ---------------------------------------------------------------------------
// Standard library calls
// ---------------------------------------------------------------------------

/// `String::push` appends one character to the end of the string.
pub assume_specification[ String::push ](s: &mut String, c: char)
    ensures
        final(s)@ == old(s)@.push(c),
;

/// Calls `String::from_utf8`. It succeeds exactly on well-formed UTF-8, and
/// then the string holds the characters that the bytes encode.
#[verifier::external_body]
pub(crate) fn string_from_utf8(bytes: Vec<u8>) -> (result: Option<String>)
    ensures
        result is Some <==> valid_utf8(bytes@),
        result matches Some(text) ==> text@ == decode_utf8(bytes@),
{
    String::from_utf8(bytes).ok()
}

/// The text that `String::from_utf8_lossy` gives for some bytes.
pub uninterp spec fn lossy_text(bytes: Seq<u8>) -> Seq<char>;

/// Calls `String::from_utf8_lossy`. On well-formed UTF-8 the text is the one
/// that the bytes encode; how ill-formed bytes are replaced is left to the
/// name [`lossy_text`].
#[verifier::external_body]
pub(crate) fn string_from_utf8_lossy(bytes: &[u8]) -> (text: String)
    ensures
        text@ == lossy_text(bytes@),
        valid_utf8(bytes@) ==> text@ == decode_utf8(bytes@),
{
    String::from_utf8_lossy(bytes).into_owned()
}

// ---------------------------------------------------------------------------
// Building and comparing
// ---------------------------------------------------------------------------

/// The characters of a text.
pub fn chars_of(s: &str) -> (chars: Vec<char>)
    ensures
        chars@ == s@,
{
    let mut chars: Vec<char> = Vec::new();
    for c in it: s.chars()
        invariant
            it.seq() == s@,
            chars@ == s@.take(it.index() as int),
    {
        chars.push(c);
        assert(s@.take(it.index() + 1) =~= s@.take(it.index() as int).push(c));
    }
    assert(chars@ =~= s@);
    chars
}

/// The text made of the given characters.
pub fn text_of(chars: &[char]) -> (text: String)
    ensures
        text@ == chars@,
{
    let mut text = String::new();
    for i in 0..chars.len()
        invariant
            text@ == chars@.take(i as int),
    {
        text.push(chars[i]);
        assert(chars@.take(i + 1) =~= chars@.take(i as int).push(chars@[i as int]));
    }
    assert(text@ =~= chars@);
    text
}

/// Whether two texts are equal.
pub fn same_text(a: &str, b: &str) -> (same: bool)
    ensures
        same == (a@ == b@),
{
    let x = a.as_bytes();
    let y = b.as_bytes();
    proof {
        vstd::utf8::encode_utf8_decode_utf8(a@);
        vstd::utf8::encode_utf8_decode_utf8(b@);
    }
    if x.len() != y.len() {
        return false;
    }
    for i in 0..x.len()
        invariant
            x@ == encode_utf8(a@),
            y@ == encode_utf8(b@),
            x@.len() == y@.len(),
            x@.take(i as int) == y@.take(i as int),
    {
        if x[i] != y[i] {
            assert(x@[i as int] != y@[i as int]);
            return false;
        }
        assert(x@.take(i + 1) =~= x@.take(i as int).push(x@[i as int]));
        assert(y@.take(i + 1) =~= y@.take(i as int).push(y@[i as int]));
    }
    assert(x@ =~= x@.take(x@.len() as int));
    assert(y@ =~= y@.take(y@.len() as int));
    true
}

/// Two texts, one behind the other.
pub fn concat2(a: &str, b: &str) -> (text: String)
    ensures
        text@ == a@ + b@,
{
    let mut text = a.to_string();
    text.append(b);
    text
}

/// Three texts, one behind the other.
pub fn concat3(a: &str, b: &str, c: &str) -> (text: String)
    ensures
        text@ == a@ + b@ + c@,
{
    let mut text = a.to_string();
    text.append(b);
    text.append(c);
    text
}

/// The texts of some strings.
pub open spec fn string_texts(strings: Seq<String>) -> Seq<Seq<char>> {
    strings.map_values(|s: String| s@)
}

/// The text of a string that may be absent.
pub open spec fn optional_text(text: Option<String>) -> Option<Seq<char>> {
    match text {
        Some(text) => Some(text@),
        None => None,
    }
}

/// A text or an error as a reader of texts sees it.
pub open spec fn text_result(result: Result<String, String>) -> Result<Seq<char>, Seq<char>> {
    match result {
        Ok(text) => Ok(text@),
        Err(error) => Err(error@),
    }
}

/// The outcome of an attempt as a reader of texts sees it.
pub open spec fn attempt_view(result: Result<(), String>) -> Result<(), Seq<char>> {
    match result {
        Ok(_) => Ok(()),
        Err(message) => Err(message@),
    }
}

// ---------------------------------------------------------------------------
// Character classes
// ---------------------------------------------------------------------------

/// The characters with the Unicode property `White_Space`.
pub open spec fn whitespace(c: char) -> bool {
    let n = c as u32;
    ||| 0x9 <= n <= 0xd
    ||| n == 0x20
    ||| n == 0x85
    ||| n == 0xa0
    ||| n == 0x1680
    ||| 0x2000 <= n <= 0x200a
    ||| n == 0x2028
    ||| n == 0x2029
    ||| n == 0x202f
    ||| n == 0x205f
    ||| n == 0x3000
}

/// Whether a character is white space.
pub fn is_whitespace(c: char) -> (r: bool)
    ensures
        r == whitespace(c),
{
    let n: u32 = c as u32;
    (0x9 <= n && n <= 0xd) || n == 0x20 || n == 0x85 || n == 0xa0 || n == 0x1680 || (0x2000 <= n
        && n <= 0x200a) || n == 0x2028 || n == 0x2029 || n == 0x202f || n == 0x205f || n == 0x3000
}

/// The control characters of Unicode: general category `Cc`.
pub open spec fn control(c: char) -> bool {
    let n = c as u32;
    n <= 0x1f || 0x7f <= n <= 0x9f
}

/// Whether a character is a control character.
pub fn is_control(c: char) -> (r: bool)
    ensures
        r == control(c),
{
    let n: u32 = c as u32;
    n <= 0x1f || (0x7f <= n && n <= 0x9f)
}

/// The letters and digits of ASCII.
pub open spec fn ascii_alphanumeric(c: char) -> bool {
    ||| 'a' <= c && c <= 'z'
    ||| 'A' <= c && c <= 'Z'
    ||| '0' <= c && c <= '9'
}

/// Whether a character is an ASCII letter or digit.
pub fn is_ascii_alphanumeric(c: char) -> (r: bool)
    ensures
        r == ascii_alphanumeric(c),
{
    ('a' <= c && c <= 'z') || ('A' <= c && c <= 'Z') || ('0' <= c && c <= '9')
}

/// The small letter of an ASCII capital; every other character as it is.
pub open spec fn lower_char(c: char) -> char {
    if 'A' <= c && c <= 'Z' {
        ((c as u8) + 32) as char
    } else {
        c
    }
}

/// A text with its ASCII capitals made small.
pub open spec fn lowercase(s: Seq<char>) -> Seq<char> {
    s.map_values(|c: char| lower_char(c))
}

/// Makes the ASCII capitals of a text small.
pub fn to_ascii_lowercase(s: &str) -> (text: String)
    ensures
        text@ == lowercase(s@),
{
    let chars = chars_of(s);
    let mut text = String::new();
    for i in 0..chars.len()
        invariant
            chars@ == s@,
            text@ == lowercase(s@).take(i as int),
    {
        let c = chars[i];
        let low = if 'A' <= c && c <= 'Z' {
            ((c as u8) + 32) as char
        } else {
            c
        };
        text.push(low);
        assert(lowercase(s@).take(i + 1) =~= lowercase(s@).take(i as int).push(
            lowercase(s@)[i as int],
        ));
    }
    assert(text@ =~= lowercase(s@));
    text
}

// ---------------------------------------------------------------------------
// Trimming
// ---------------------------------------------------------------------------

/// A text without the white space at its start.
pub open spec fn trim_start(s: Seq<char>) -> Seq<char>
    decreases s.len(),
{
    if s.len() > 0 && whitespace(s[0]) {
        trim_start(s.drop_first())
    } else {
        s
    }
}

/// A text without the white space at its end.
pub open spec fn trim_end(s: Seq<char>) -> Seq<char>
    decreases s.len(),
{
    if s.len() > 0 && whitespace(s.last()) {
        trim_end(s.drop_last())
    } else {
        s
    }
}

/// A text without the white space at its two ends.
pub open spec fn trimmed(s: Seq<char>) -> Seq<char> {
    trim_end(trim_start(s))
}

/// How many characters of white space a text starts with.
fn leading_whitespace(chars: &[char]) -> (start: usize)
    ensures
        start <= chars@.len(),
        trim_start(chars@) == chars@.skip(start as int),
        forall|i: int| 0 <= i < start ==> whitespace(#[trigger] chars@[i]),
        start < chars@.len() ==> !whitespace(chars@[start as int]),
{
    let mut start: usize = 0;
    assert(chars@.skip(0) =~= chars@);
    while start < chars.len() && is_whitespace(chars[start])
        invariant
            start <= chars@.len(),
            trim_start(chars@) == trim_start(chars@.skip(start as int)),
            forall|i: int| 0 <= i < start ==> whitespace(#[trigger] chars@[i]),
        decreases chars@.len() - start,
    {
        assert(chars@.skip(start as int).drop_first() =~= chars@.skip(start + 1));
        assert(chars@.skip(start as int)[0] == chars@[start as int]);
        start = start + 1;
    }
    if start < chars.len() {
        assert(chars@.skip(start as int)[0] == chars@[start as int]);
    }
    start
}

/// The bounds of a text without the white space at its two ends.
fn trim_bounds(chars: &[char]) -> (bounds: (usize, usize))
    ensures
        bounds.0 <= bounds.1 <= chars@.len(),
        trimmed(chars@) == chars@.subrange(bounds.0 as int, bounds.1 as int),
{
    let start = leading_whitespace(chars);
    let mut end: usize = chars.len();
    assert(chars@.subrange(start as int, end as int) =~= chars@.skip(start as int));
    while start < end && is_whitespace(chars[end - 1])
        invariant
            start <= end <= chars@.len(),
            trimmed(chars@) == trim_end(chars@.subrange(start as int, end as int)),
        decreases end - start,
    {
        let ghost part = chars@.subrange(start as int, end as int);
        assert(part.last() == chars@[end - 1]);
        assert(part.drop_last() =~= chars@.subrange(start as int, end - 1));
        end = end - 1;
    }
    if start < end {
        assert(chars@.subrange(start as int, end as int).last() == chars@[end - 1]);
    }
    (start, end)
}

/// The part of a text without the white space at its two ends.
pub fn trim(s: &str) -> (text: &str)
    ensures
        text@ == trimmed(s@),
{
    let chars = chars_of(s);
    let (start, end) = trim_bounds(chars.as_slice());
    s.substring_char(start, end)
}

/// The part of a slice of characters without the white space at its two ends.
pub fn trim_chars(chars: &[char]) -> (part: &[char])
    ensures
        part@ == trimmed(chars@),
{
    let (start, end) = trim_bounds(chars);
    &chars[start..end]
}

/// Trimming takes white space off the two ends of a text and nothing else:
/// what is left neither starts nor ends with white space, and what was taken
/// off is white space.
pub proof fn trimmed_is_the_core(s: Seq<char>)
    ensures
        exists|a: int, b: int|
            #![trigger s.subrange(a, b)]
            {
                &&& 0 <= a <= b <= s.len()
                &&& trimmed(s) == s.subrange(a, b)
                &&& forall|i: int| 0 <= i < a || b <= i < s.len() ==> whitespace(#[trigger] s[i])
            },
        trimmed(s).len() > 0 ==> !whitespace(trimmed(s)[0]) && !whitespace(trimmed(s).last()),
{
    let a = trim_start_at(s);
    let rest = trim_start(s);
    let n = trim_end_at(rest);
    assert(trimmed(s) =~= s.subrange(a, a + n));
    assert forall|i: int| 0 <= i < a || a + n <= i < s.len() implies whitespace(
        #[trigger] s[i],
    ) by {
        if a + n <= i {
            assert(rest[i - a] == s[i]);
        }
    }
}

/// Where the text that [`trim_start`] leaves begins.
proof fn trim_start_at(s: Seq<char>) -> (a: int)
    ensures
        0 <= a <= s.len(),
        trim_start(s) == s.skip(a),
        forall|i: int| 0 <= i < a ==> whitespace(#[trigger] s[i]),
        a < s.len() ==> !whitespace(s[a]),
    decreases s.len(),
{
    if s.len() > 0 && whitespace(s[0]) {
        let rest = s.drop_first();
        let a = trim_start_at(rest);
        assert(rest.skip(a) =~= s.skip(a + 1));
        assert forall|i: int| 0 <= i < a + 1 implies whitespace(#[trigger] s[i]) by {
            if i > 0 {
                assert(rest[i - 1] == s[i]);
            }
        }
        if a + 1 < s.len() {
            assert(rest[a] == s[a + 1]);
        }
        a + 1
    } else {
        assert(s.skip(0) =~= s);
        0
    }
}

/// Where the text that [`trim_end`] leaves ends.
proof fn trim_end_at(s: Seq<char>) -> (n: int)
    ensures
        0 <= n <= s.len(),
        trim_end(s) == s.take(n),
        forall|i: int| n <= i < s.len() ==> whitespace(#[trigger] s[i]),
        n > 0 ==> !whitespace(s[n - 1]),
    decreases s.len(),
{
    if s.len() > 0 && whitespace(s.last()) {
        let rest = s.drop_last();
        let n = trim_end_at(rest);
        assert(rest.take(n) =~= s.take(n));
        assert forall|i: int| n <= i < s.len() implies whitespace(#[trigger] s[i]) by {
            if i < rest.len() {
                assert(rest[i] == s[i]);
            }
        }
        n
    } else {
        assert(s.take(s.len() as int) =~= s);
        s.len() as int
    }
}

// ---------------------------------------------------------------------------
// Searching and splitting
// ---------------------------------------------------------------------------

/// Whether `pattern` stands in `s` at position `i`.
pub open spec fn occurs_at<T>(s: Seq<T>, pattern: Seq<T>, i: int) -> bool {
    &&& 0 <= i
    &&& i + pattern.len() <= s.len()
    &&& s.subrange(i, i + pattern.len()) == pattern
}

/// Where `pattern` first occurs in `s`.
pub open spec fn find<T>(s: Seq<T>, pattern: Seq<T>) -> Option<nat>
    decreases s.len(),
{
    if occurs_at(s, pattern, 0) {
        Some(0)
    } else if s.len() == 0 {
        None
    } else {
        match find(s.drop_first(), pattern) {
            Some(i) => Some(i + 1),
            None => None,
        }
    }
}

/// [`find`] gives the first occurrence, and none only where there is none.
pub proof fn find_is_first<T>(s: Seq<T>, pattern: Seq<T>)
    ensures
        match find(s, pattern) {
            Some(i) => occurs_at(s, pattern, i as int) && forall|j: int|
                0 <= j < i ==> !#[trigger] occurs_at(s, pattern, j),
            None => forall|j: int| !#[trigger] occurs_at(s, pattern, j),
        },
    decreases s.len(),
{
    if !occurs_at(s, pattern, 0) && s.len() > 0 {
        let rest = s.drop_first();
        find_is_first(rest, pattern);
        assert forall|j: int| 0 < j implies #[trigger] occurs_at(s, pattern, j) == occurs_at(
            rest,
            pattern,
            j - 1,
        ) by {
            if j + pattern.len() <= s.len() {
                assert(s.subrange(j, j + pattern.len()) =~= rest.subrange(
                    j - 1,
                    j - 1 + pattern.len(),
                ));
            }
        }
    }
}

/// The first occurrence is the only position that is an occurrence with none
/// before it.
pub proof fn first_is_find<T>(s: Seq<T>, pattern: Seq<T>, i: int)
    requires
        occurs_at(s, pattern, i),
        forall|j: int| 0 <= j < i ==> !#[trigger] occurs_at(s, pattern, j),
    ensures
        find(s, pattern) == Some(i as nat),
{
    find_is_first(s, pattern);
    match find(s, pattern) {
        Some(k) => {
            if k < i {
                assert(!occurs_at(s, pattern, k as int));
            } else if i < k {
                assert(!occurs_at(s, pattern, i));
            }
        },
        None => {},
    }
}

/// An occurrence in a sequence is one in its extensions, and the first stays
/// the first.
pub proof fn find_in_extension<T>(s: Seq<T>, more: Seq<T>, pattern: Seq<T>)
    requires
        find(s, pattern) is Some,
    ensures
        find(s + more, pattern) == find(s, pattern),
{
    find_is_first(s, pattern);
    let i = find(s, pattern)->0 as int;
    let whole = s + more;
    assert(whole.subrange(i, i + pattern.len()) =~= s.subrange(i, i + pattern.len()));
    assert forall|j: int| 0 <= j < i implies !#[trigger] occurs_at(whole, pattern, j) by {
        assert(whole.subrange(j, j + pattern.len()) =~= s.subrange(j, j + pattern.len()));
        assert(!occurs_at(s, pattern, j));
    }
    first_is_find(whole, pattern, i);
}

/// Where `pattern` first occurs in `s`.
pub fn find_chars(s: &[char], pattern: &[char]) -> (at: Option<usize>)
    ensures
        match at {
            Some(i) => find(s@, pattern@) == Some(i as nat),
            None => find(s@, pattern@) is None,
        },
{
    if s.len() < pattern.len() {
        proof {
            find_is_first(s@, pattern@);
        }
        return None;
    }
    let total: usize = s.len();
    let last: usize = total - pattern.len();
    let mut i: usize = 0;
    loop
        invariant
            total == s@.len(),
            last == s@.len() - pattern@.len(),
            i <= last,
            forall|j: int| 0 <= j < i ==> !#[trigger] occurs_at(s@, pattern@, j),
        decreases last - i,
    {
        let mut k: usize = 0;
        while k < pattern.len() && s[i + k] == pattern[k]
            invariant
                total == s@.len(),
                i <= last,
                last == s@.len() - pattern@.len(),
                k <= pattern@.len(),
                forall|m: int| 0 <= m < k ==> s@[i + m] == #[trigger] pattern@[m],
            decreases pattern@.len() - k,
        {
            k = k + 1;
        }
        if k == pattern.len() {
            proof {
                assert(s@.subrange(i as int, i + pattern@.len()) =~= pattern@);
                first_is_find(s@, pattern@, i as int);
            }
            return Some(i);
        }
        assert(!occurs_at(s@, pattern@, i as int)) by {
            assert(s@.subrange(i as int, i + pattern@.len())[k as int] == s@[i + k]);
        }
        if i == last {
            proof {
                find_is_first(s@, pattern@);
            }
            return None;
        }
        i = i + 1;
    }
}

/// Where `pattern` first occurs in `s`.
pub fn find_bytes(s: &[u8], pattern: &[u8]) -> (at: Option<usize>)
    ensures
        match at {
            Some(i) => find(s@, pattern@) == Some(i as nat),
            None => find(s@, pattern@) is None,
        },
{
    if s.len() < pattern.len() {
        proof {
            find_is_first(s@, pattern@);
        }
        return None;
    }
    let total: usize = s.len();
    let last: usize = total - pattern.len();
    let mut i: usize = 0;
    loop
        invariant
            total == s@.len(),
            last == s@.len() - pattern@.len(),
            i <= last,
            forall|j: int| 0 <= j < i ==> !#[trigger] occurs_at(s@, pattern@, j),
        decreases last - i,
    {
        let mut k: usize = 0;
        while k < pattern.len() && s[i + k] == pattern[k]
            invariant
                total == s@.len(),
                i <= last,
                last == s@.len() - pattern@.len(),
                k <= pattern@.len(),
                forall|m: int| 0 <= m < k ==> s@[i + m] == #[trigger] pattern@[m],
            decreases pattern@.len() - k,
        {
            k = k + 1;
        }
        if k == pattern.len() {
            proof {
                assert(s@.subrange(i as int, i + pattern@.len()) =~= pattern@);
                first_is_find(s@, pattern@, i as int);
            }
            return Some(i);
        }
        assert(!occurs_at(s@, pattern@, i as int)) by {
            assert(s@.subrange(i as int, i + pattern@.len())[k as int] == s@[i + k]);
        }
        if i == last {
            proof {
                find_is_first(s@, pattern@);
            }
            return None;
        }
        i = i + 1;
    }
}

/// The parts of a text between the occurrences of a separator, the first
/// occurrence first; a text without it is one part.
pub open spec fn split<T>(s: Seq<T>, separator: Seq<T>) -> Seq<Seq<T>>
    decreases s.len(),
{
    match find(s, separator) {
        Some(i) => {
            proof {
                find_is_first(s, separator);
            }
            if separator.len() == 0 {
                seq![s]
            } else {
                seq![s.take(i as int)] + split(s.skip((i + separator.len()) as int), separator)
            }
        },
        None => seq![s],
    }
}

/// The parts of a text, put together again with the separator between them.
pub open spec fn joined<T>(parts: Seq<Seq<T>>, separator: Seq<T>) -> Seq<T>
    decreases parts.len(),
{
    if parts.len() == 0 {
        Seq::empty()
    } else if parts.len() == 1 {
        parts[0]
    } else {
        parts[0] + separator + joined(parts.drop_first(), separator)
    }
}

/// Splitting loses nothing: the parts, joined by the separator, are the text.
pub proof fn split_then_join<T>(s: Seq<T>, separator: Seq<T>)
    ensures
        split(s, separator).len() > 0,
        joined(split(s, separator), separator) == s,
    decreases s.len(),
{
    find_is_first(s, separator);
    match find(s, separator) {
        Some(i) => {
            if separator.len() > 0 {
                let rest = s.skip((i + separator.len()) as int);
                let parts = split(s, separator);
                split_then_join(rest, separator);
                assert(parts.drop_first() =~= split(rest, separator));
                assert(s.take(i as int) + separator + rest =~= s);
            }
        },
        None => {},
    }
}

/// Two texts with a separator of one character between them split into the
/// parts of the first, then those of the second.
pub proof fn split_around<T>(a: Seq<T>, separator: T, b: Seq<T>)
    ensures
        split(a + seq![separator] + b, seq![separator]) == split(a, seq![separator]) + split(
            b,
            seq![separator],
        ),
    decreases a.len(),
{
    let mark = seq![separator];
    let whole = a + mark + b;
    find_is_first(a, mark);
    match find(a, mark) {
        Some(i) => {
            let rest = a.skip((i + 1) as int);
            split_around(rest, separator, b);
            assert(whole =~= a + (mark + b));
            find_in_extension(a, mark + b, mark);
            assert(whole.take(i as int) =~= a.take(i as int));
            assert(whole.skip((i + 1) as int) =~= rest + mark + b);
            assert(split(whole, mark) =~= split(a, mark) + split(b, mark));
        },
        None => {
            let n = a.len() as int;
            assert(whole.subrange(n, n + 1) =~= mark);
            assert(occurs_at(whole, mark, n));
            assert forall|j: int| 0 <= j < n implies !#[trigger] occurs_at(whole, mark, j) by {
                assert(whole.subrange(j, j + 1) =~= a.subrange(j, j + 1));
                assert(!occurs_at(a, mark, j));
            }
            first_is_find(whole, mark, n);
            assert(whole.take(n) =~= a);
            assert(whole.skip(n + 1) =~= b);
        },
    }
}

/// Splits a text at each occurrence of a separator.
pub fn split_chars(s: &[char], separator: &[char]) -> (parts: Vec<Vec<char>>)
    requires
        separator@.len() > 0,
    ensures
        parts@.len() == split(s@, separator@).len(),
        forall|i: int| 0 <= i < parts@.len() ==> (#[trigger] parts@[i])@ == split(s@, separator@)[i],
{
    let mut parts: Vec<Vec<char>> = Vec::new();
    let mut from: usize = 0;
    assert(s@.skip(0) =~= s@);
    loop
        invariant
            separator@.len() > 0,
            from <= s@.len(),
            split(s@, separator@).len() == parts@.len() + split(
                s@.skip(from as int),
                separator@,
            ).len(),
            forall|i: int|
                0 <= i < parts@.len() ==> (#[trigger] parts@[i])@ == split(s@, separator@)[i],
            forall|i: int|
                0 <= i < split(s@.skip(from as int), separator@).len() ==> split(
                    s@,
                    separator@,
                )[parts@.len() + i] == #[trigger] split(s@.skip(from as int), separator@)[i],
        decreases s@.len() - from,
    {
        let rest = &s[from..s.len()];
        let ghost tail = s@.skip(from as int);
        assert(rest@ =~= tail);
        proof {
            find_is_first(tail, separator@);
        }
        match find_chars(rest, separator) {
            Some(i) => {
                let mut part: Vec<char> = Vec::new();
                part.extend_from_slice(&rest[0..i]);
                assert(part@ =~= tail.take(i as int));
                let ghost next = tail.skip(i + separator@.len());
                assert(next =~= s@.skip(from + i + separator@.len()));
                assert(split(tail, separator@) =~= seq![tail.take(i as int)] + split(
                    next,
                    separator@,
                ));
                assert(split(tail, separator@)[0] == part@);
                assert forall|k: int| 0 <= k < split(next, separator@).len() implies split(
                    s@,
                    separator@,
                )[parts@.len() + 1 + k] == #[trigger] split(next, separator@)[k] by {
                    assert(split(tail, separator@)[k + 1] == split(next, separator@)[k]);
                }
                parts.push(part);
                from = from + i + separator.len();
            },
            None => {
                let mut part: Vec<char> = Vec::new();
                part.extend_from_slice(rest);
                assert(part@ =~= tail);
                assert(split(tail, separator@)[0] == part@);
                parts.push(part);
                return parts;
            },
        }
    }
}

/// The first word of a text: what stands before the next white space, once
/// the white space at the start is gone.
pub open spec fn first_word(s: Seq<char>) -> Seq<char> {
    before_whitespace(trim_start(s))
}

/// What follows the first word of a text.
pub open spec fn after_first_word(s: Seq<char>) -> Seq<char> {
    trim_start(s).skip(first_word(s).len() as int)
}

/// The part of a text before its first white space.
pub open spec fn before_whitespace(s: Seq<char>) -> Seq<char>
    decreases s.len(),
{
    if s.len() > 0 && !whitespace(s[0]) {
        seq![s[0]] + before_whitespace(s.drop_first())
    } else {
        Seq::empty()
    }
}

/// The bounds of the first word of a text.
pub fn word_bounds(chars: &[char]) -> (bounds: (usize, usize))
    ensures
        bounds.0 <= bounds.1 <= chars@.len(),
        first_word(chars@) == chars@.subrange(bounds.0 as int, bounds.1 as int),
        after_first_word(chars@) == chars@.skip(bounds.1 as int),
{
    let start = leading_whitespace(chars);
    let ghost rest = chars@.skip(start as int);
    let mut end: usize = start;
    assert(chars@.subrange(start as int, start as int) =~= Seq::empty());
    while end < chars.len() && !is_whitespace(chars[end])
        invariant
            start <= end <= chars@.len(),
            before_whitespace(chars@.skip(start as int)) == chars@.subrange(
                start as int,
                end as int,
            ) + before_whitespace(chars@.skip(end as int)),
        decreases chars@.len() - end,
    {
        let ghost tail = chars@.skip(end as int);
        assert(tail[0] == chars@[end as int]);
        assert(tail.drop_first() =~= chars@.skip(end + 1));
        assert(chars@.subrange(start as int, end as int) + (seq![chars@[end as int]]
            + before_whitespace(chars@.skip(end + 1))) =~= chars@.subrange(start as int, end + 1)
            + before_whitespace(chars@.skip(end + 1)));
        end = end + 1;
    }
    if end < chars.len() {
        assert(chars@.skip(end as int)[0] == chars@[end as int]);
    }
    assert(before_whitespace(chars@.skip(end as int)) =~= Seq::empty());
    assert(first_word(chars@) =~= chars@.subrange(start as int, end as int));
    assert(rest.skip(end - start) =~= chars@.skip(end as int));
    (start, end)
}

/// Whether a text starts with another; then also what follows it.
pub fn strip_prefix<'a>(s: &'a [char], prefix: &[char]) -> (rest: Option<&'a [char]>)
    ensures
        match rest {
            Some(r) => prefix@.is_prefix_of(s@) && r@ == s@.skip(prefix@.len() as int),
            None => !prefix@.is_prefix_of(s@),
        },
{
    if s.len() < prefix.len() {
        return None;
    }
    for i in 0..prefix.len()
        invariant
            prefix@.len() <= s@.len(),
            forall|j: int| 0 <= j < i ==> s@[j] == #[trigger] prefix@[j],
    {
        if s[i] != prefix[i] {
            assert(s@.subrange(0, prefix@.len() as int)[i as int] != prefix@[i as int]);
            return None;
        }
    }
    assert(s@.subrange(0, prefix@.len() as int) =~= prefix@);
    let rest = &s[prefix.len()..s.len()];
    assert(rest@ =~= s@.skip(prefix@.len() as int));
    Some(rest)
}

/// Whether a text ends with another.
pub fn ends_with(s: &[char], suffix: &[char]) -> (r: bool)
    ensures
        r == suffix@.is_suffix_of(s@),
{
    if s.len() < suffix.len() {
        return false;
    }
    let total: usize = s.len();
    let offset: usize = total - suffix.len();
    for i in 0..suffix.len()
        invariant
            total == s@.len(),
            offset == s@.len() - suffix@.len(),
            forall|j: int| 0 <= j < i ==> s@[offset + j] == #[trigger] suffix@[j],
    {
        if s[offset + i] != suffix[i] {
            assert(s@.subrange(offset as int, s@.len() as int)[i as int] != suffix@[i as int]);
            return false;
        }
    }
    assert(s@.subrange(offset as int, s@.len() as int) =~= suffix@);
    true
}

// ---------------------------------------------------------------------------
// Numbers in decimal
// ---------------------------------------------------------------------------

/// The decimal digits.
pub open spec fn digit(c: char) -> bool {
    '0' <= c && c <= '9'
}

/// The number that a digit stands for.
pub open spec fn digit_value(c: char) -> nat {
    (c as nat - '0' as nat) as nat
}

/// The number that a row of digits stands for.
pub open spec fn digits_value(s: Seq<char>) -> nat
    decreases s.len(),
{
    if s.len() == 0 {
        0
    } else {
        digits_value(s.drop_last()) * 10 + digit_value(s.last())
    }
}

/// Whether a text is a row of digits.
pub open spec fn all_digits(s: Seq<char>) -> bool {
    forall|i: int| 0 <= i < s.len() ==> digit(#[trigger] s[i])
}

/// The digits of a number in text: the text behind an optional plus sign.
pub open spec fn unsigned_digits(s: Seq<char>) -> Seq<char> {
    if s.len() > 0 && s[0] == '+' {
        s.drop_first()
    } else {
        s
    }
}

/// The `usize` that a text writes in decimal: an optional plus sign and at
/// least one digit, and a number that fits.
pub open spec fn parsed_usize(s: Seq<char>) -> Option<usize> {
    let digits = unsigned_digits(s);
    if digits.len() > 0 && all_digits(digits) && digits_value(digits) <= usize::MAX {
        Some(digits_value(digits) as usize)
    } else {
        None
    }
}

/// A longer row of digits stands for no smaller number.
proof fn digits_value_grows(s: Seq<char>, n: int)
    requires
        0 <= n <= s.len(),
    ensures
        digits_value(s.take(n)) <= digits_value(s),
    decreases s.len(),
{
    if n == s.len() {
        assert(s.take(n) =~= s);
    } else {
        digits_value_grows(s.drop_last(), n);
        assert(s.drop_last().take(n) =~= s.take(n));
    }
}

/// Reads a `usize` in decimal.
pub fn parse_usize(s: &str) -> (value: Option<usize>)
    ensures
        value == parsed_usize(s@),
{
    let chars = chars_of(s);
    let mut from: usize = 0;
    if chars.len() > 0 && chars[0] == '+' {
        from = 1;
    }
    let ghost digits = unsigned_digits(s@);
    assert(digits =~= s@.skip(from as int));
    if from == chars.len() {
        return None;
    }
    let mut value: usize = 0;
    let mut i: usize = from;
    assert(digits.take(0) =~= Seq::empty());
    while i < chars.len()
        invariant
            chars@ == s@,
            digits == unsigned_digits(s@),
            digits == s@.skip(from as int),
            from <= i <= chars@.len(),
            all_digits(digits.take(i - from)),
            value == digits_value(digits.take(i - from)),
        decreases chars@.len() - i,
    {
        let c = chars[i];
        let ghost n = i - from;
        assert(digits[n] == c);
        assert(digits.take(n + 1).drop_last() =~= digits.take(n));
        assert(digits.take(n + 1).last() == c);
        if !('0' <= c && c <= '9') {
            return None;
        }
        let d: usize = (c as u32 - '0' as u32) as usize;
        proof {
            digits_value_grows(digits, n + 1);
        }
        if value > (usize::MAX - d) / 10 {
            assert(value * 10 + d > usize::MAX);
            return None;
        }
        value = value * 10 + d;
        assert(all_digits(digits.take(n + 1))) by {
            assert forall|k: int| 0 <= k < n + 1 implies digit(#[trigger] digits.take(n + 1)[k]) by {
                if k < n {
                    assert(digits.take(n)[k] == digits[k]);
                }
            }
        }
        i = i + 1;
    }
    assert(digits.take(i - from) =~= digits);
    Some(value)
}

/// The digit that stands for a number below ten.
pub open spec fn digit_char(n: nat) -> char {
    ('0' as nat + n) as char
}

/// A number in decimal, without leading zeros.
pub open spec fn decimal(n: nat) -> Seq<char>
    decreases n,
{
    if n < 10 {
        seq![digit_char(n)]
    } else {
        decimal(n / 10).push(digit_char(n % 10))
    }
}

/// A number, written in decimal and read again, is the same number.
pub proof fn decimal_reads_back(n: nat)
    ensures
        decimal(n).len() > 0,
        all_digits(decimal(n)),
        digits_value(decimal(n)) == n,
    decreases n,
{
    let s = decimal(n);
    if n < 10 {
        assert(s.drop_last() =~= Seq::empty());
        assert(digits_value(s.drop_last()) == 0);
        assert(digit_value(s.last()) == n);
    } else {
        decimal_reads_back(n / 10);
        assert(s.drop_last() =~= decimal(n / 10));
        assert(digit_value(s.last()) == n % 10);
        assert forall|i: int| 0 <= i < s.len() implies digit(#[trigger] s[i]) by {
            if i < s.len() - 1 {
                assert(decimal(n / 10)[i] == s[i]);
            }
        }
    }
}

/// Writes a number in decimal.
pub fn decimal_text(n: u64) -> (text: String)
    ensures
        text@ == decimal(n as nat),
    decreases n,
{
    let mut text = if n < 10 {
        String::new()
    } else {
        decimal_text(n / 10)
    };
    text.push((48u8 + (n % 10) as u8) as char);
    assert(text@ =~= decimal(n as nat));
    text
}

// ---------------------------------------------------------------------------
// Escaping
// ---------------------------------------------------------------------------

/// A text with each character replaced by the text that `f` gives for it.
pub open spec fn expanded(s: Seq<char>, f: spec_fn(char) -> Seq<char>) -> Seq<char>
    decreases s.len(),
{
    if s.len() == 0 {
        Seq::empty()
    } else {
        expanded(s.drop_last(), f) + f(s.last())
    }
}

/// The expansion of a text, from its start.
pub proof fn expanded_from_start(s: Seq<char>, f: spec_fn(char) -> Seq<char>)
    requires
        s.len() > 0,
    ensures
        expanded(s, f) == f(s[0]) + expanded(s.drop_first(), f),
    decreases s.len(),
{
    if s.len() == 1 {
        assert(s.drop_first() =~= Seq::empty());
        assert(s.drop_last() =~= Seq::empty());
        assert(expanded(s.drop_last(), f) =~= Seq::empty());
        assert(expanded(s, f) =~= f(s[0]) + expanded(s.drop_first(), f));
    } else {
        expanded_from_start(s.drop_last(), f);
        assert(s.drop_last().drop_first() =~= s.drop_first().drop_last());
        assert(expanded(s, f) =~= f(s[0]) + expanded(s.drop_first(), f));
    }
}

/// Trimming a text that is trimmed changes nothing.
pub proof fn trimmed_twice(s: Seq<char>)
    ensures
        trimmed(trimmed(s)) == trimmed(s),
{
    trimmed_is_the_core(s);
}

/// Making the capitals of a text small changes the letters from `A` to `Z`, each
/// to its small letter, and nothing else.
pub proof fn lowercase_changes_capitals_only(s: Seq<char>, i: int)
    requires
        0 <= i < s.len(),
    ensures
        lowercase(s).len() == s.len(),
        65 <= s[i] as u32 <= 90 ==> lowercase(s)[i] as u32 == s[i] as u32 + 32,
        !(65 <= s[i] as u32 <= 90) ==> lowercase(s)[i] == s[i],
{
}

/// No part of a split text has the separator in it.
pub proof fn split_parts_are_free(s: Seq<char>, separator: Seq<char>, k: int)
    requires
        separator.len() > 0,
        0 <= k < split(s, separator).len(),
    ensures
        find(split(s, separator)[k], separator) is None,
    decreases s.len(),
{
    find_is_first(s, separator);
    match find(s, separator) {
        Some(i) => {
            let first = s.take(i as int);
            let rest = s.skip((i + separator.len()) as int);
            if k == 0 {
                find_is_first(first, separator);
                if let Some(j) = find(first, separator) {
                    assert(first.subrange(j as int, (j + separator.len()) as int) =~= s.subrange(
                        j as int,
                        (j + separator.len()) as int,
                    ));
                    assert(occurs_at(s, separator, j as int));
                }
            } else {
                split_parts_are_free(rest, separator, k - 1);
                assert(split(s, separator)[k] == split(rest, separator)[k - 1]);
            }
        },
        None => {},
    }
}

/// What stands before the first white space of a text.
proof fn before_whitespace_is_a_word(s: Seq<char>)
    ensures
        before_whitespace(s).is_prefix_of(s),
        before_whitespace(s).len() <= s.len(),
        forall|i: int|
            0 <= i < before_whitespace(s).len() ==> !whitespace(#[trigger] before_whitespace(s)[i]),
        before_whitespace(s).len() < s.len() ==> whitespace(
            s[before_whitespace(s).len() as int],
        ),
    decreases s.len(),
{
    let w = before_whitespace(s);
    if s.len() > 0 && !whitespace(s[0]) {
        let rest = s.drop_first();
        let r = before_whitespace(rest);
        before_whitespace_is_a_word(rest);
        assert forall|i: int| 0 <= i < w.len() implies !whitespace(#[trigger] w[i]) by {
            if i > 0 {
                assert(w[i] == r[i - 1]);
            }
        }
        assert(rest.subrange(0, r.len() as int) == r);
        assert(s.subrange(0, w.len() as int) =~= w) by {
            assert forall|i: int| 0 <= i < w.len() implies s[i] == w[i] by {
                if i > 0 {
                    assert(rest.subrange(0, r.len() as int)[i - 1] == r[i - 1]);
                    assert(rest[i - 1] == s[i]);
                }
            }
        }
        if w.len() < s.len() {
            assert(rest[r.len() as int] == s[w.len() as int]);
        }
    } else {
        assert(s.subrange(0, 0) =~= w);
    }
}

/// Words are cut at white space: a word, with or without white space before it,
/// and behind it the end of the text or white space, is the first word, and
/// what follows it follows.
pub proof fn words_are_cut_at_white_space(blank: Seq<char>, word: Seq<char>, rest: Seq<char>)
    requires
        forall|i: int| 0 <= i < blank.len() ==> whitespace(#[trigger] blank[i]),
        forall|i: int| 0 <= i < word.len() ==> !whitespace(#[trigger] word[i]),
        word.len() > 0,
        rest.len() > 0 ==> whitespace(rest[0]),
    ensures
        first_word(blank + word + rest) == word,
        after_first_word(blank + word + rest) == rest,
{
    let s = blank + word + rest;
    let a = trim_start_at(s);
    let n = blank.len() as int;
    assert(s[n] == word[0]);
    if a < n {
        assert(s[a] == blank[a]);
    } else if a > n {
        assert(whitespace(s[n]));
    }
    let core = s.skip(n);
    assert(core =~= word + rest);
    before_whitespace_is_a_word(core);
    let w = before_whitespace(core);
    if w.len() < word.len() {
        assert(core[w.len() as int] == word[w.len() as int]);
    } else if w.len() > word.len() {
        let m = word.len() as int;
        assert(core.subrange(0, w.len() as int)[m] == w[m]);
        assert(core[m] == rest[0]);
    }
    assert(core.subrange(0, w.len() as int) =~= word);
    assert(core.skip(word.len() as int) =~= rest);
}

/// A text of white space has no word, and nothing follows it.
pub proof fn blank_text_has_no_word(blank: Seq<char>)
    requires
        forall|i: int| 0 <= i < blank.len() ==> whitespace(#[trigger] blank[i]),
    ensures
        first_word(blank) == Seq::<char>::empty(),
        after_first_word(blank) == Seq::<char>::empty(),
{
    let a = trim_start_at(blank);
    if a < blank.len() {
        assert(whitespace(blank[a]));
    }
    assert(blank.skip(a) =~= Seq::empty());
    assert(first_word(blank) =~= Seq::empty());
    assert(after_first_word(blank) =~= Seq::empty());
}

/// A row of digits is read as a number in decimal, with or without a plus sign
/// before it and however many zeros it starts with, as long as the number fits.
pub proof fn digits_are_read(digits: Seq<char>, last: char)
    requires
        digits.len() > 0,
        forall|i: int| 0 <= i < digits.len() ==> '0' <= (#[trigger] digits[i]) && digits[i] <= '9',
        '0' <= last && last <= '9',
    ensures
        digits_value(Seq::empty()) == 0,
        digits_value(digits.push(last)) == 10 * digits_value(digits) + (last as nat - '0' as nat),
        digits_value(digits) <= usize::MAX ==> parsed_usize(digits) == Some(
            digits_value(digits) as usize,
        ) && parsed_usize(seq!['+'] + digits) == Some(digits_value(digits) as usize),
        digits_value(digits) > usize::MAX ==> parsed_usize(digits) is None,
{
    assert(digits.push(last).drop_last() =~= digits);
    assert(all_digits(digits)) by {
        assert forall|i: int| 0 <= i < digits.len() implies digit(#[trigger] digits[i]) by {
            assert('0' <= digits[i] && digits[i] <= '9');
        }
    }
    assert('0' <= digits[0] && digits[0] <= '9');
    assert((seq!['+'] + digits).drop_first() =~= digits);
}

/// A text that is no row of digits is read as no number.
pub proof fn other_texts_are_no_numbers(text: Seq<char>, i: int)
    requires
        0 <= i < text.len(),
        !('0' <= text[i] && text[i] <= '9'),
        i > 0 || text[0] != '+',
    ensures
        parsed_usize(text) is None,
        parsed_usize(Seq::empty()) is None,
{
    if text[0] == '+' {
        assert(text.drop_first()[i - 1] == text[i]);
        assert(!digit(text.drop_first()[i - 1]));
    } else {
        assert(!digit(text[i]));
    }
}

/// A number in decimal starts with no zero, but for zero itself.
pub proof fn decimal_has_no_leading_zero(n: nat)
    ensures
        n > 0 ==> decimal(n)[0] != '0',
        decimal(0) == seq!['0'],
    decreases n,
{
    if n >= 10 {
        decimal_has_no_leading_zero(n / 10);
        decimal_reads_back(n / 10);
        assert(decimal(n)[0] == decimal(n / 10)[0]);
    }
    assert(decimal(0) =~= seq!['0']);
}

/// Replacing the characters of a text goes character by character: that of two
/// texts is that of the first, then that of the second.
pub proof fn expanded_adds_up(a: Seq<char>, b: Seq<char>, f: spec_fn(char) -> Seq<char>)
    ensures
        expanded(a + b, f) == expanded(a, f) + expanded(b, f),
        expanded(Seq::empty(), f) == Seq::<char>::empty(),
        forall|c: char| #[trigger] expanded(seq![c], f) == f(c),
    decreases b.len(),
{
    assert forall|c: char| #[trigger] expanded(seq![c], f) == f(c) by {
        assert(seq![c].drop_last() =~= Seq::empty());
        assert(expanded(seq![c].drop_last(), f) =~= Seq::empty());
        assert(expanded(seq![c], f) =~= f(c));
    }
    if b.len() == 0 {
        assert(a + b =~= a);
        assert(expanded(a, f) + expanded(b, f) =~= expanded(a, f));
    } else {
        expanded_adds_up(a, b.drop_last(), f);
        assert((a + b).drop_last() =~= a + b.drop_last());
        assert(expanded(a + b, f) =~= expanded(a, f) + expanded(b, f));
    }
}

/// A pattern occurs where each of its items stands, and nowhere else.
pub proof fn patterns_occur_item_by_item<T>(s: Seq<T>, pattern: Seq<T>, i: int)
    ensures
        occurs_at(s, pattern, i) <==> 0 <= i && i + pattern.len() <= s.len() && forall|k: int|
            0 <= k < pattern.len() ==> s[i + k] == #[trigger] pattern[k],
{
    if 0 <= i && i + pattern.len() <= s.len() {
        let there = s.subrange(i, i + pattern.len());
        assert forall|k: int| 0 <= k < pattern.len() implies there[k] == s[i + k] by {}
        if forall|k: int| 0 <= k < pattern.len() ==> s[i + k] == #[trigger] pattern[k] {
            assert(there =~= pattern);
        }
        if there == pattern {
            assert forall|k: int| 0 <= k < pattern.len() implies s[i + k]
                == #[trigger] pattern[k] by {
                assert(there[k] == s[i + k]);
            }
        }
    }
}

/// A plus sign alone is no number, and one plus sign is enough.
pub proof fn sign_alone_is_no_number(text: Seq<char>)
    ensures
        parsed_usize(seq!['+']) is None,
        parsed_usize(seq!['+', '+'] + text) is None,
{
    let twice = seq!['+', '+'] + text;
    assert(seq!['+'].drop_first() =~= Seq::empty());
    assert(twice.drop_first()[0] == '+');
}

/// White space and control characters are those of Unicode, told by their code
/// points; of the characters of ASCII these are the space, those from tab to
/// carriage return, and those below the space with the one above the tilde.
pub proof fn characters_are_told_apart(c: char)
    ensures
        (c as u32) < 128 ==> (whitespace(c) <==> c == ' ' || ('\t' <= c && c <= '\r')),
        (c as u32) < 128 ==> (control(c) <==> c < ' ' || c as u32 == 127),
        control(c) ==> (c as u32) < 160,
        128 <= c as u32 && (c as u32) < 160 ==> control(c),
        128 <= c as u32 ==> (whitespace(c) <==> (c as u32 == 133 || c as u32 == 160 || c as u32
            == 5760 || (8192 <= c as u32 && c as u32 <= 8202) || c as u32 == 8232 || c as u32
            == 8233 || c as u32 == 8239 || c as u32 == 8287 || c as u32 == 12288)),
        ascii_alphanumeric(c) <==> (48 <= c as u32 && c as u32 <= 57) || (65 <= c as u32 && c as u32
            <= 90) || (97 <= c as u32 && c as u32 <= 122),
{
}

} // verus!
