//! Text as sequences of characters.
//!
//! Every rule of this crate that looks inside a string is stated over the
//! string's view, a `Seq<char>`. This module holds the vocabulary for those
//! statements (trimming, splitting, lines, decimal numbers) and the functions
//! that compute it. The functions work on character slices; `chars_of` and
//! `string_of` go from strings to characters and back.

use vstd::prelude::*;
use vstd::slice::slice_subrange;

verus! {

/// `String::push`: the character is appended at the end.
pub assume_specification[ String::push ](s: &mut String, c: char)
    ensures
        final(s)@ == old(s)@.push(c),
;

/// The views of a list of strings.
pub open spec fn texts(list: Seq<String>) -> Seq<Seq<char>> {
    Seq::new(list.len(), |i: int| list[i]@)
}

pub open spec fn str_texts(list: Seq<&str>) -> Seq<Seq<char>> {
    Seq::new(list.len(), |i: int| list[i]@)
}

/// The view of an optional text that is borrowed.
pub open spec fn optional_str(value: Option<&str>) -> Option<Seq<char>> {
    match value {
        Some(value) => Some(value@),
        None => None,
    }
}

/// A text that may be absent, where an absent one counts as the empty one.
pub open spec fn text_or_empty(value: Option<Seq<char>>) -> Seq<char> {
    match value {
        Some(value) => value,
        None => Seq::empty(),
    }
}

/// The view of an optional string.
pub open spec fn optional_text(value: Option<String>) -> Option<Seq<char>> {
    match value {
        Some(text) => Some(text@),
        None => None,
    }
}

// ---------------------------------------------------------------------------
// Character classes
// ---------------------------------------------------------------------------

/// The characters with the Unicode property `White_Space`.
pub open spec fn is_space(c: char) -> bool {
    let u = c as u32;
    ||| 0x9 <= u <= 0xd
    ||| u == 0x20
    ||| u == 0x85
    ||| u == 0xa0
    ||| u == 0x1680
    ||| 0x2000 <= u <= 0x200a
    ||| u == 0x2028
    ||| u == 0x2029
    ||| u == 0x202f
    ||| u == 0x205f
    ||| u == 0x3000
}

pub open spec fn is_digit(c: char) -> bool {
    '0' <= c <= '9'
}

pub open spec fn is_ascii_letter_or_digit(c: char) -> bool {
    ||| 'a' <= c <= 'z'
    ||| 'A' <= c <= 'Z'
    ||| is_digit(c)
}

/// The alphabet of Nix hashes: digits and lower-case letters without `e`,
/// `o`, `t` and `u`.
pub open spec fn is_nix_base32(c: char) -> bool {
    ||| is_digit(c)
    ||| 'a' <= c <= 'z' && c != 'e' && c != 'o' && c != 't' && c != 'u'
}

pub open spec fn lower(c: char) -> char {
    if 'A' <= c <= 'Z' {
        ((c as u8 + 32) as u8) as char
    } else {
        c
    }
}

/// ASCII letters in lower case, everything else unchanged.
pub open spec fn lowered(s: Seq<char>) -> Seq<char> {
    Seq::new(s.len(), |i: int| lower(s[i]))
}

pub fn space_char(c: char) -> (r: bool)
    ensures
        r == is_space(c),
{
    let u: u32 = c as u32;
    (0x9 <= u && u <= 0xd) || u == 0x20 || u == 0x85 || u == 0xa0 || u == 0x1680 || (0x2000 <= u
        && u <= 0x200a) || u == 0x2028 || u == 0x2029 || u == 0x202f || u == 0x205f || u == 0x3000
}

pub fn digit_char(c: char) -> (r: bool)
    ensures
        r == is_digit(c),
{
    '0' <= c && c <= '9'
}

pub fn letter_or_digit_char(c: char) -> (r: bool)
    ensures
        r == is_ascii_letter_or_digit(c),
{
    ('a' <= c && c <= 'z') || ('A' <= c && c <= 'Z') || digit_char(c)
}

pub fn nix_base32_char(c: char) -> (r: bool)
    ensures
        r == is_nix_base32(c),
{
    digit_char(c) || ('a' <= c && c <= 'z' && c != 'e' && c != 'o' && c != 't' && c != 'u')
}

pub fn lower_char(c: char) -> (r: char)
    ensures
        r == lower(c),
{
    if 'A' <= c && c <= 'Z' {
        let u: u8 = c as u8;
        (u + 32) as char
    } else {
        c
    }
}

// ---------------------------------------------------------------------------
// Strings and characters
// ---------------------------------------------------------------------------

pub fn chars_of(text: &str) -> (chars: Vec<char>)
    ensures
        chars@ == text@,
{
    let mut chars: Vec<char> = Vec::new();
    for c in it: text.chars()
        invariant
            chars@ == it.seq().take(it.index()),
            it.seq() == text@,
    {
        chars.push(c);
    }
    chars
}

pub fn string_of(chars: &[char]) -> (text: String)
    ensures
        text@ == chars@,
{
    let mut text: String = String::new();
    let mut i: usize = 0;
    while i < chars.len()
        invariant
            i <= chars.len(),
            text@ == chars@.take(i as int),
        decreases chars.len() - i,
    {
        text.push(chars[i]);
        i = i + 1;
    }
    text
}

/// What `std::str::from_utf8` says of bytes that encode no text.
pub uninterp spec fn utf8_error_of(bytes: Seq<u8>) -> Seq<char>;

/// `std::str::from_utf8`: the text that the bytes encode, where they are valid
/// UTF-8, and otherwise what is said of them, which is named.
#[verifier::external_body]
pub(crate) fn text_of_utf8(bytes: &[u8]) -> (r: Result<String, String>)
    ensures
        match r {
            Ok(s) => vstd::utf8::valid_utf8(bytes@) && s@ == vstd::utf8::decode_utf8(bytes@),
            Err(why) => !vstd::utf8::valid_utf8(bytes@) && why@ == utf8_error_of(bytes@),
        },
{
    std::str::from_utf8(bytes).map(|s| s.to_string()).map_err(|e| e.to_string())
}

pub fn same_chars(a: &[char], b: &[char]) -> (r: bool)
    ensures
        r == (a@ == b@),
{
    if a.len() != b.len() {
        return false;
    }
    let mut i: usize = 0;
    while i < a.len()
        invariant
            i <= a.len(),
            a.len() == b.len(),
            forall|j: int| 0 <= j < i ==> a@[j] == b@[j],
        decreases a.len() - i,
    {
        if a[i] != b[i] {
            assert(a@[i as int] != b@[i as int]);
            return false;
        }
        i = i + 1;
    }
    assert(a@ =~= b@);
    true
}

pub fn same_text(a: &str, b: &str) -> (r: bool)
    ensures
        r == (a@ == b@),
{
    let left: Vec<char> = chars_of(a);
    let right: Vec<char> = chars_of(b);
    same_chars(left.as_slice(), right.as_slice())
}

/// Two pieces of text, one after the other.
pub fn concat2(a: &str, b: &str) -> (r: String)
    ensures
        r@ == a@ + b@,
{
    let mut out: String = a.to_string();
    out.append(b);
    out
}

pub fn concat3(a: &str, b: &str, c: &str) -> (r: String)
    ensures
        r@ == a@ + b@ + c@,
{
    let mut out: String = concat2(a, b);
    out.append(c);
    out
}

pub fn concat4(a: &str, b: &str, c: &str, d: &str) -> (r: String)
    ensures
        r@ == a@ + b@ + c@ + d@,
{
    let mut out: String = concat3(a, b, c);
    out.append(d);
    out
}

pub fn concat5(a: &str, b: &str, c: &str, d: &str, e: &str) -> (r: String)
    ensures
        r@ == a@ + b@ + c@ + d@ + e@,
{
    let mut out: String = concat4(a, b, c, d);
    out.append(e);
    out
}

pub fn lowered_chars(s: &[char]) -> (r: Vec<char>)
    ensures
        r@ == lowered(s@),
{
    let mut out: Vec<char> = Vec::new();
    let mut i: usize = 0;
    while i < s.len()
        invariant
            i <= s.len(),
            out@ == lowered(s@).take(i as int),
        decreases s.len() - i,
    {
        out.push(lower_char(s[i]));
        i = i + 1;
    }
    out
}

/// A copy of every string of the list.
pub fn clone_strings(list: &[String]) -> (r: Vec<String>)
    ensures
        r@ == list@,
{
    let mut out: Vec<String> = Vec::new();
    let mut i: usize = 0;
    while i < list.len()
        invariant
            i <= list.len(),
            out@ == list@.take(i as int),
        decreases list.len() - i,
    {
        out.push(list[i].clone());
        i = i + 1;
    }
    out
}

pub fn clone_optional(value: &Option<String>) -> (r: Option<String>)
    ensures
        r == *value,
{
    match value {
        Some(s) => Some(s.clone()),
        None => None,
    }
}

/// A message, cut off after `max` characters where it is longer.
pub open spec fn truncated(message: Seq<char>, max: int) -> Seq<char> {
    if message.len() > max {
        message.take(max) + "\n[truncated]"@
    } else {
        message
    }
}

pub fn truncate_text(message: &str, max: usize) -> (r: String)
    ensures
        r@ == truncated(message@, max as int),
{
    let chars: Vec<char> = chars_of(message);
    if chars.len() > max {
        let kept: &[char] = slice_subrange(chars.as_slice(), 0, max);
        assert(kept@ =~= message@.take(max as int));
        concat2(string_of(kept).as_str(), "\n[truncated]")
    } else {
        message.to_string()
    }
}

/// Where a text stands first in a list.
pub open spec fn place_in(list: Seq<Seq<char>>, item: Seq<char>) -> Option<int>
    decreases list.len(),
{
    if list.len() == 0 {
        None
    } else {
        match place_in(list.drop_last(), item) {
            Some(i) => Some(i),
            None => if list.last() == item {
                Some(list.len() - 1)
            } else {
                None
            },
        }
    }
}

pub proof fn lemma_place_in(list: Seq<Seq<char>>, item: Seq<char>)
    ensures
        match place_in(list, item) {
            Some(i) => 0 <= i < list.len() && list[i] == item && forall|j: int|
                0 <= j < i ==> list[j] != item,
            None => !list.contains(item),
        },
    decreases list.len(),
{
    if list.len() > 0 {
        let shorter = list.drop_last();
        lemma_place_in(shorter, item);
        assert forall|i: int| 0 <= i < shorter.len() implies shorter[i] == list[i] by {}
        match place_in(shorter, item) {
            Some(i) => {
                assert(list[i] == item);
                assert forall|j: int| 0 <= j < i implies list[j] != item by {
                    assert(shorter[j] != item);
                }
            },
            None => {
                assert forall|i: int| 0 <= i < list.len() - 1 implies list[i] != item by {
                    assert(shorter[i] == list[i]);
                    assert(!shorter.contains(item));
                }
            },
        }
    }
}

/// Appends a piece of text to a list.
pub fn push_text(list: &mut Vec<String>, item: &str)
    ensures
        texts(final(list)@) == texts(old(list)@).push(item@),
{
    let ghost earlier = texts(list@);
    list.push(item.to_string());
    assert(texts(list@) =~= earlier.push(item@));
}

/// Appends every text of another list.
pub fn push_texts(list: &mut Vec<String>, items: &[String])
    ensures
        texts(final(list)@) == texts(old(list)@) + texts(items@),
{
    let ghost earlier = texts(list@);
    let mut i: usize = 0;
    assert(earlier + texts(items@).take(0) =~= earlier);
    while i < items.len()
        invariant
            i <= items.len(),
            texts(list@) == earlier + texts(items@).take(i as int),
        decreases items.len() - i,
    {
        push_text(list, items[i].as_str());
        assert(texts(list@) =~= earlier + texts(items@).take(i + 1));
        i = i + 1;
    }
    assert(texts(items@).take(i as int) =~= texts(items@));
}

/// A copy of a list of strings, by their texts.
pub fn strings_of(items: &[&str]) -> (r: Vec<String>)
    ensures
        texts(r@) == str_texts(items@),
{
    let mut out: Vec<String> = Vec::new();
    let mut i: usize = 0;
    assert(texts(out@) =~= str_texts(items@).take(0));
    while i < items.len()
        invariant
            i <= items.len(),
            texts(out@) == str_texts(items@).take(i as int),
        decreases items.len() - i,
    {
        push_text(&mut out, items[i]);
        assert(texts(out@) =~= str_texts(items@).take(i + 1));
        i = i + 1;
    }
    assert(str_texts(items@).take(i as int) =~= str_texts(items@));
    out
}

// ---------------------------------------------------------------------------
// Trimming
// ---------------------------------------------------------------------------

pub open spec fn trim_start(s: Seq<char>) -> Seq<char>
    decreases s.len(),
{
    if s.len() > 0 && is_space(s[0]) {
        trim_start(s.skip(1))
    } else {
        s
    }
}

pub open spec fn trim_end(s: Seq<char>) -> Seq<char>
    decreases s.len(),
{
    if s.len() > 0 && is_space(s.last()) {
        trim_end(s.drop_last())
    } else {
        s
    }
}

/// The text without the white space at its two ends.
pub open spec fn trim(s: Seq<char>) -> Seq<char> {
    trim_end(trim_start(s))
}

pub fn trim_start_chars(s: &[char]) -> (r: &[char])
    ensures
        r@ == trim_start(s@),
{
    let mut i: usize = 0;
    assert(s@.skip(0) =~= s@);
    while i < s.len() && space_char(s[i])
        invariant
            i <= s.len(),
            trim_start(s@) == trim_start(s@.skip(i as int)),
        decreases s.len() - i,
    {
        assert(s@.skip(i as int).skip(1) =~= s@.skip(i + 1));
        i = i + 1;
    }
    assert(s@.skip(i as int) =~= s@.subrange(i as int, s@.len() as int));
    slice_subrange(s, i, s.len())
}

pub fn trim_end_chars(s: &[char]) -> (r: &[char])
    ensures
        r@ == trim_end(s@),
{
    let mut n: usize = s.len();
    assert(s@.take(n as int) =~= s@);
    while n > 0 && space_char(s[n - 1])
        invariant
            n <= s.len(),
            trim_end(s@) == trim_end(s@.take(n as int)),
        decreases n,
    {
        assert(s@.take(n as int).drop_last() =~= s@.take(n - 1));
        n = n - 1;
    }
    assert(s@.take(n as int) =~= s@.subrange(0, n as int));
    slice_subrange(s, 0, n)
}

pub fn trim_chars(s: &[char]) -> (r: &[char])
    ensures
        r@ == trim(s@),
{
    trim_end_chars(trim_start_chars(s))
}

pub fn trim_text(s: &str) -> (r: String)
    ensures
        r@ == trim(s@),
{
    let chars: Vec<char> = chars_of(s);
    string_of(trim_chars(chars.as_slice()))
}

pub proof fn lemma_trim_start_shape(s: Seq<char>)
    ensures
        trim_start(s).len() <= s.len(),
        trim_start(s) == s.skip(s.len() - trim_start(s).len()),
        forall|i: int| 0 <= i < s.len() - trim_start(s).len() ==> is_space(#[trigger] s[i]),
        trim_start(s).len() > 0 ==> !is_space(trim_start(s)[0]),
    decreases s.len(),
{
    if s.len() > 0 && is_space(s[0]) {
        let t = s.skip(1);
        lemma_trim_start_shape(t);
        assert(t.skip(t.len() - trim_start(t).len()) =~= s.skip(s.len() - trim_start(s).len()));
        assert forall|i: int| 0 <= i < s.len() - trim_start(s).len() implies is_space(
            #[trigger] s[i],
        ) by {
            if i > 0 {
                assert(s[i] == t[i - 1]);
            }
        }
    } else {
        assert(s.skip(0) =~= s);
    }
}

pub proof fn lemma_trim_end_shape(s: Seq<char>)
    ensures
        trim_end(s).len() <= s.len(),
        trim_end(s) == s.take(trim_end(s).len() as int),
        forall|i: int| trim_end(s).len() <= i < s.len() ==> is_space(#[trigger] s[i]),
        trim_end(s).len() > 0 ==> !is_space(trim_end(s).last()),
    decreases s.len(),
{
    if s.len() > 0 && is_space(s.last()) {
        let t = s.drop_last();
        lemma_trim_end_shape(t);
        assert(t.take(trim_end(t).len() as int) =~= s.take(trim_end(s).len() as int));
        assert forall|i: int| trim_end(s).len() <= i < s.len() implies is_space(
            #[trigger] s[i],
        ) by {
            if i < s.len() - 1 {
                assert(s[i] == t[i]);
            }
        }
    } else {
        assert(s.take(s.len() as int) =~= s);
    }
}

/// Trimmed text is a stretch of the text, and begins and ends with characters
/// that are no white space.
pub proof fn lemma_trim_shape(s: Seq<char>)
    ensures
        trim(s).len() <= s.len(),
        exists|i: int|
            #![trigger s.subrange(i, i + trim(s).len())]
            0 <= i && i + trim(s).len() <= s.len() && trim(s) == s.subrange(i, i + trim(s).len()),
        trim(s).len() > 0 ==> !is_space(trim(s)[0]) && !is_space(trim(s).last()),
        trim(s).len() == 0 ==> forall|i: int| 0 <= i < s.len() ==> is_space(#[trigger] s[i]),
{
    lemma_trim_start_shape(s);
    let t = trim_start(s);
    lemma_trim_end_shape(t);
    let i = s.len() - t.len();
    assert(trim(s) =~= s.subrange(i, i + trim(s).len()));
    if trim(s).len() == 0 {
        assert forall|j: int| 0 <= j < s.len() implies is_space(#[trigger] s[j]) by {
            if j >= i {
                assert(s[j] == t[j - i]);
            }
        }
    }
}

/// Trimming twice gives what trimming once gives.
pub proof fn law_trim_is_idempotent(s: Seq<char>)
    ensures
        trim(trim(s)) == trim(s),
{
    lemma_trim_shape(s);
}

// ---------------------------------------------------------------------------
// Searching
// ---------------------------------------------------------------------------

/// Where `c` stands first in `s`, or the length of `s` where it does not.
pub open spec fn find(s: Seq<char>, c: char) -> int
    decreases s.len(),
{
    if s.len() == 0 || s[0] == c {
        0
    } else {
        1 + find(s.skip(1), c)
    }
}

pub proof fn lemma_find(s: Seq<char>, c: char)
    ensures
        0 <= find(s, c) <= s.len(),
        find(s, c) < s.len() ==> s[find(s, c)] == c,
        forall|j: int| 0 <= j < find(s, c) ==> s[j] != c,
        s.contains(c) <==> find(s, c) < s.len(),
    decreases s.len(),
{
    if s.len() == 0 || s[0] == c {
    } else {
        let t = s.skip(1);
        lemma_find(t, c);
        assert forall|j: int| 0 <= j < find(s, c) implies s[j] != c by {
            if j > 0 {
                assert(s[j] == t[j - 1]);
            }
        }
        if s.contains(c) {
            let j = choose|j: int| 0 <= j < s.len() && s[j] == c;
            assert(t[j - 1] == c);
        }
        if find(s, c) < s.len() {
            assert(s[find(s, c)] == t[find(t, c)]);
        }
    }
}

/// The first place of a character is the place before which it does not stand.
pub proof fn lemma_find_is(s: Seq<char>, c: char, i: int)
    requires
        0 <= i <= s.len(),
        i < s.len() ==> s[i] == c,
        forall|j: int| 0 <= j < i ==> s[j] != c,
    ensures
        find(s, c) == i,
{
    lemma_find(s, c);
    let f = find(s, c);
    if f < i {
        assert(s[f] != c);
    }
}

pub fn find_char(s: &[char], c: char) -> (r: usize)
    ensures
        r == find(s@, c),
        r <= s.len(),
        r < s.len() ==> s@[r as int] == c,
{
    let mut i: usize = 0;
    while i < s.len()
        invariant
            i <= s.len(),
            forall|j: int| 0 <= j < i ==> s@[j] != c,
        decreases s.len() - i,
    {
        if s[i] == c {
            proof {
                lemma_find_is(s@, c, i as int);
            }
            return i;
        }
        i = i + 1;
    }
    proof {
        lemma_find_is(s@, c, i as int);
    }
    i
}

pub fn contains_char(s: &[char], c: char) -> (r: bool)
    ensures
        r == s@.contains(c),
{
    proof {
        lemma_find(s@, c);
    }
    find_char(s, c) < s.len()
}

/// Whether `needle` stands at `at` in `s`.
pub open spec fn stands_at(s: Seq<char>, needle: Seq<char>, at: int) -> bool {
    &&& 0 <= at
    &&& at + needle.len() <= s.len()
    &&& s.subrange(at, at + needle.len()) == needle
}

/// Whether `needle` stands anywhere in `s`.
pub open spec fn contains_text(s: Seq<char>, needle: Seq<char>) -> bool {
    exists|at: int| stands_at(s, needle, at)
}

pub fn chars_at(s: &[char], needle: &[char], at: usize) -> (r: bool)
    requires
        at <= s.len(),
    ensures
        r == stands_at(s@, needle@, at as int),
{
    if needle.len() > s.len() - at {
        return false;
    }
    let piece: &[char] = slice_subrange(s, at, at + needle.len());
    same_chars(piece, needle)
}

pub fn starts_with(s: &[char], prefix: &str) -> (r: bool)
    ensures
        r == prefix@.is_prefix_of(s@),
{
    let p: Vec<char> = chars_of(prefix);
    let r: bool = chars_at(s, p.as_slice(), 0);
    proof {
        if prefix@.len() <= s@.len() {
            assert(s@.subrange(0, prefix@.len() as int) =~= s@.take(prefix@.len() as int));
        }
    }
    r
}

pub fn ends_with(s: &[char], suffix: &str) -> (r: bool)
    ensures
        r == suffix@.is_suffix_of(s@),
{
    let p: Vec<char> = chars_of(suffix);
    if p.len() > s.len() {
        return false;
    }
    let at: usize = s.len() - p.len();
    chars_at(s, p.as_slice(), at)
}

pub fn contains_str(s: &[char], needle: &str) -> (r: bool)
    ensures
        r == contains_text(s@, needle@),
{
    let p: Vec<char> = chars_of(needle);
    let mut i: usize = 0;
    while i < s.len()
        invariant
            i <= s.len(),
            p@ == needle@,
            forall|at: int| 0 <= at < i ==> !stands_at(s@, needle@, at),
        decreases s.len() - i,
    {
        if chars_at(s, p.as_slice(), i) {
            return true;
        }
        i = i + 1;
    }
    chars_at(s, p.as_slice(), i)
}

/// The text after the prefix, where the text starts with it.
pub open spec fn strip_prefix(s: Seq<char>, prefix: Seq<char>) -> Option<Seq<char>> {
    if prefix.is_prefix_of(s) {
        Some(s.skip(prefix.len() as int))
    } else {
        None
    }
}

/// The text before the suffix, where the text ends with it.
pub open spec fn strip_suffix(s: Seq<char>, suffix: Seq<char>) -> Option<Seq<char>> {
    if suffix.is_suffix_of(s) {
        Some(s.take(s.len() - suffix.len()))
    } else {
        None
    }
}

/// The view of an optional slice of characters.
pub open spec fn slice_view(r: Option<&[char]>) -> Option<Seq<char>> {
    match r {
        Some(s) => Some(s@),
        None => None,
    }
}

pub fn strip_prefix_chars<'a>(s: &'a [char], prefix: &str) -> (r: Option<&'a [char]>)
    ensures
        slice_view(r) == strip_prefix(s@, prefix@),
{
    if starts_with(s, prefix) {
        let p: Vec<char> = chars_of(prefix);
        let rest: &[char] = slice_subrange(s, p.len(), s.len());
        assert(rest@ =~= s@.skip(prefix@.len() as int));
        Some(rest)
    } else {
        None
    }
}

pub fn strip_suffix_chars<'a>(s: &'a [char], suffix: &str) -> (r: Option<&'a [char]>)
    ensures
        slice_view(r) == strip_suffix(s@, suffix@),
{
    if ends_with(s, suffix) {
        let p: Vec<char> = chars_of(suffix);
        let rest: &[char] = slice_subrange(s, 0, s.len() - p.len());
        assert(rest@ =~= s@.take(s@.len() - suffix@.len()));
        Some(rest)
    } else {
        None
    }
}

// ---------------------------------------------------------------------------
// Splitting
// ---------------------------------------------------------------------------

/// The text before and after the first `c`, where there is one.
pub open spec fn split_once(s: Seq<char>, c: char) -> Option<(Seq<char>, Seq<char>)> {
    let i = find(s, c);
    if i < s.len() {
        Some((s.take(i), s.skip(i + 1)))
    } else {
        None
    }
}

pub open spec fn pair_view(r: Option<(&[char], &[char])>) -> Option<(Seq<char>, Seq<char>)> {
    match r {
        Some((a, b)) => Some((a@, b@)),
        None => None,
    }
}

pub fn split_once_chars<'a>(s: &'a [char], c: char) -> (r: Option<(&'a [char], &'a [char])>)
    ensures
        pair_view(r) == split_once(s@, c),
{
    let i: usize = find_char(s, c);
    if i < s.len() {
        let before: &[char] = slice_subrange(s, 0, i);
        let after: &[char] = slice_subrange(s, i + 1, s.len());
        assert(before@ =~= s@.take(i as int));
        assert(after@ =~= s@.skip(i + 1));
        Some((before, after))
    } else {
        None
    }
}

/// The stretches between the places where `c` stands: one more than there are
/// such places.
pub open spec fn split(s: Seq<char>, c: char) -> Seq<Seq<char>>
    decreases s.len(),
    via split_decreases
{
    let i = find(s, c);
    if 0 <= i < s.len() {
        seq![s.take(i)] + split(s.skip(i + 1), c)
    } else {
        seq![s]
    }
}

#[via_fn]
proof fn split_decreases(s: Seq<char>, c: char) {
    lemma_find(s, c);
}

pub open spec fn without_cr(line: Seq<char>) -> Seq<char> {
    if line.len() > 0 && line.last() == '\r' {
        line.drop_last()
    } else {
        line
    }
}

pub proof fn lemma_split_not_empty(s: Seq<char>, c: char)
    ensures
        split(s, c).len() > 0,
{
    reveal_with_fuel(split, 1);
}

/// The lines of a text. A line ends with a line feed, which a carriage return
/// may precede; what follows the last line feed is a line unless it is empty.
pub open spec fn lines(s: Seq<char>) -> Seq<Seq<char>>
    decreases s.len(),
    via lines_decreases
{
    let i = find(s, '\n');
    if s.len() == 0 {
        Seq::empty()
    } else if 0 <= i < s.len() {
        seq![without_cr(s.take(i))] + lines(s.skip(i + 1))
    } else {
        seq![s]
    }
}

#[via_fn]
proof fn lines_decreases(s: Seq<char>) {
    lemma_find(s, '\n');
}

/// Where white space stands first in `s`, or the length of `s`.
pub open spec fn find_space(s: Seq<char>) -> int
    decreases s.len(),
{
    if s.len() == 0 || is_space(s[0]) {
        0
    } else {
        1 + find_space(s.skip(1))
    }
}

pub proof fn lemma_find_space(s: Seq<char>)
    ensures
        0 <= find_space(s) <= s.len(),
        find_space(s) < s.len() ==> is_space(s[find_space(s)]),
        forall|j: int| 0 <= j < find_space(s) ==> !is_space(#[trigger] s[j]),
    decreases s.len(),
{
    if s.len() == 0 || is_space(s[0]) {
    } else {
        let t = s.skip(1);
        lemma_find_space(t);
        assert forall|j: int| 0 <= j < find_space(s) implies !is_space(#[trigger] s[j]) by {
            if j > 0 {
                assert(s[j] == t[j - 1]);
            }
        }
        if find_space(s) < s.len() {
            assert(s[find_space(s)] == t[find_space(t)]);
        }
    }
}

pub fn find_space_char(s: &[char]) -> (r: usize)
    ensures
        r == find_space(s@),
        r <= s.len(),
{
    let mut i: usize = 0;
    assert(s@.skip(0) =~= s@);
    while i < s.len() && !space_char(s[i])
        invariant
            i <= s.len(),
            find_space(s@) == i + find_space(s@.skip(i as int)),
        decreases s.len() - i,
    {
        assert(s@.skip(i as int).skip(1) =~= s@.skip(i + 1));
        i = i + 1;
    }
    i
}

/// The stretches of text between white space, none of them empty.
pub open spec fn words(s: Seq<char>) -> Seq<Seq<char>>
    decreases s.len(),
    via words_decreases
{
    let t = trim_start(s);
    if t.len() == 0 {
        Seq::empty()
    } else {
        let i = find_space(t);
        seq![t.take(i)] + words(t.skip(i))
    }
}

#[via_fn]
proof fn words_decreases(s: Seq<char>) {
    lemma_trim_start_shape(s);
    lemma_find_space(trim_start(s));
    reveal_with_fuel(find_space, 2);
}

pub fn split_chars(s: &[char], c: char) -> (r: Vec<String>)
    ensures
        texts(r@) == split(s@, c),
{
    let mut out: Vec<String> = Vec::new();
    let mut from: usize = 0;
    assert(s@.skip(0) =~= s@);
    assert(texts(out@) + split(s@, c) =~= split(s@, c));
    loop
        invariant
            from <= s.len(),
            texts(out@) + split(s@.skip(from as int), c) == split(s@, c),
        decreases s.len() - from,
    {
        let rest: &[char] = slice_subrange(s, from, s.len());
        assert(rest@ =~= s@.skip(from as int));
        let i: usize = find_char(rest, c);
        if i < rest.len() {
            let piece: &[char] = slice_subrange(rest, 0, i);
            assert(piece@ =~= rest@.take(i as int));
            let ghost before = texts(out@);
            out.push(string_of(piece));
            assert(texts(out@) =~= before.push(piece@));
            assert(rest@.skip(i + 1) =~= s@.skip(from + i + 1));
            assert(texts(out@) + split(s@.skip(from + i + 1), c) =~= before + (seq![piece@] + split(
                s@.skip(from + i + 1),
                c,
            )));
            from = from + i + 1;
        } else {
            let ghost before = texts(out@);
            out.push(string_of(rest));
            assert(texts(out@) =~= before + seq![rest@]);
            return out;
        }
    }
}

pub fn lines_of(s: &[char]) -> (r: Vec<String>)
    ensures
        texts(r@) == lines(s@),
{
    let mut out: Vec<String> = Vec::new();
    let mut from: usize = 0;
    assert(s@.skip(0) =~= s@);
    assert(texts(out@) + lines(s@) =~= lines(s@));
    while from < s.len()
        invariant
            from <= s.len(),
            texts(out@) + lines(s@.skip(from as int)) == lines(s@),
        decreases s.len() - from,
    {
        let rest: &[char] = slice_subrange(s, from, s.len());
        assert(rest@ =~= s@.skip(from as int));
        let i: usize = find_char(rest, '\n');
        let ghost before = texts(out@);
        if i < rest.len() {
            let whole: &[char] = slice_subrange(rest, 0, i);
            assert(whole@ =~= rest@.take(i as int));
            let n: usize = whole.len();
            let line: &[char] = if n > 0 && whole[n - 1] == '\r' {
                let short: &[char] = slice_subrange(whole, 0, n - 1);
                assert(short@ =~= whole@.drop_last());
                short
            } else {
                whole
            };
            out.push(string_of(line));
            assert(texts(out@) =~= before.push(line@));
            assert(rest@.skip(i + 1) =~= s@.skip(from + i + 1));
            assert(texts(out@) + lines(s@.skip(from + i + 1)) =~= before + (seq![line@] + lines(
                s@.skip(from + i + 1),
            )));
            from = from + i + 1;
        } else {
            out.push(string_of(rest));
            assert(s@.skip(s@.len() as int) =~= Seq::<char>::empty());
            assert(texts(out@) + lines(s@.skip(s@.len() as int)) =~= before + seq![rest@]);
            from = s.len();
        }
    }
    assert(s@.skip(from as int) =~= Seq::<char>::empty());
    assert(texts(out@) + Seq::<Seq<char>>::empty() =~= texts(out@));
    out
}

pub fn words_of(s: &[char]) -> (r: Vec<String>)
    ensures
        texts(r@) == words(s@),
{
    let mut out: Vec<String> = Vec::new();
    let mut rest: &[char] = trim_start_chars(s);
    proof {
        lemma_words_skip_space(s@);
        assert(texts(out@) + words(rest@) =~= words(s@));
    }
    while rest.len() > 0
        invariant
            rest@ == trim_start(rest@),
            texts(out@) + words(rest@) == words(s@),
        decreases rest.len(),
    {
        let i: usize = find_space_char(rest);
        proof {
            lemma_find_space(rest@);
            lemma_trim_start_shape(rest@);
            reveal_with_fuel(find_space, 2);
        }
        let word: &[char] = slice_subrange(rest, 0, i);
        let tail: &[char] = slice_subrange(rest, i, rest.len());
        assert(word@ =~= rest@.take(i as int));
        assert(tail@ =~= rest@.skip(i as int));
        let ghost before = texts(out@);
        out.push(string_of(word));
        assert(texts(out@) =~= before.push(word@));
        let next: &[char] = trim_start_chars(tail);
        proof {
            lemma_words_skip_space(tail@);
            lemma_trim_start_shape(tail@);
            assert(texts(out@) + words(next@) =~= before + (seq![word@] + words(tail@)));
        }
        rest = next;
    }
    assert(texts(out@) + Seq::<Seq<char>>::empty() =~= texts(out@));
    out
}

/// White space before the first word does not count.
proof fn lemma_words_skip_space(s: Seq<char>)
    ensures
        trim_start(trim_start(s)) == trim_start(s),
        words(trim_start(s)) == words(s),
{
    lemma_trim_start_shape(s);
}

// ---------------------------------------------------------------------------
// Joining
// ---------------------------------------------------------------------------

/// The pieces in order, with `separator` between each two.
pub open spec fn join(pieces: Seq<Seq<char>>, separator: Seq<char>) -> Seq<char>
    decreases pieces.len(),
{
    if pieces.len() == 0 {
        Seq::empty()
    } else if pieces.len() == 1 {
        pieces[0]
    } else {
        join(pieces.drop_last(), separator) + separator + pieces.last()
    }
}

pub fn join_strings(pieces: &[String], separator: &str) -> (r: String)
    ensures
        r@ == join(texts(pieces@), separator@),
{
    let mut out: String = String::new();
    let mut i: usize = 0;
    let ghost all = texts(pieces@);
    while i < pieces.len()
        invariant
            i <= pieces.len(),
            all == texts(pieces@),
            out@ == join(all.take(i as int), separator@),
        decreases pieces.len() - i,
    {
        if i > 0 {
            out.append(separator);
        }
        out.append(pieces[i].as_str());
        assert(all.take(i + 1).drop_last() =~= all.take(i as int));
        assert(all.take(i + 1).last() == pieces@[i as int]@);
        if i == 0 {
            assert(out@ =~= pieces@[0]@);
        }
        i = i + 1;
    }
    assert(all.take(i as int) =~= all);
    out
}

// ---------------------------------------------------------------------------
// Decimal numbers
// ---------------------------------------------------------------------------

pub open spec fn digit_value(c: char) -> int {
    c as int - '0' as int
}

pub open spec fn all_digits(s: Seq<char>) -> bool {
    forall|i: int| 0 <= i < s.len() ==> is_digit(#[trigger] s[i])
}

/// The number that a sequence of digits writes, most significant digit first.
pub open spec fn digits_value(s: Seq<char>) -> int
    decreases s.len(),
{
    if s.len() == 0 {
        0
    } else {
        10 * digits_value(s.drop_last()) + digit_value(s.last())
    }
}

pub open spec fn digit_of(d: int) -> char {
    (d + '0' as int) as char
}

/// A number in decimal digits, without leading zeros.
pub open spec fn decimal(n: nat) -> Seq<char>
    decreases n,
{
    if n < 10 {
        seq![digit_of(n as int)]
    } else {
        decimal(n / 10).push(digit_of((n % 10) as int))
    }
}

/// The number that a text names: decimal digits, which a plus sign may
/// precede, with a value of at most `max`.
pub open spec fn unsigned_value(s: Seq<char>, max: int) -> Option<int> {
    let digits = if s.len() > 0 && s[0] == '+' {
        s.skip(1)
    } else {
        s
    };
    if digits.len() > 0 && all_digits(digits) && digits_value(digits) <= max {
        Some(digits_value(digits))
    } else {
        None
    }
}

pub proof fn lemma_digits_value_grows(s: Seq<char>, n: int)
    requires
        0 <= n <= s.len(),
        all_digits(s),
    ensures
        0 <= digits_value(s.take(n)) <= digits_value(s),
    decreases s.len() - n,
{
    if n < s.len() {
        lemma_digits_value_grows(s, n + 1);
        assert(s.take(n + 1).drop_last() =~= s.take(n));
        lemma_digits_value_nonnegative(s.take(n));
    } else {
        assert(s.take(n) =~= s);
        lemma_digits_value_nonnegative(s);
    }
}

proof fn lemma_digits_value_nonnegative(s: Seq<char>)
    requires
        all_digits(s),
    ensures
        0 <= digits_value(s),
    decreases s.len(),
{
    if s.len() > 0 {
        assert(all_digits(s.drop_last()));
        lemma_digits_value_nonnegative(s.drop_last());
        assert(is_digit(s.last()));
    }
}

pub fn all_digit_chars(s: &[char]) -> (r: bool)
    ensures
        r == all_digits(s@),
{
    let mut i: usize = 0;
    while i < s.len()
        invariant
            i <= s.len(),
            forall|j: int| 0 <= j < i ==> is_digit(#[trigger] s@[j]),
        decreases s.len() - i,
    {
        if !digit_char(s[i]) {
            assert(!is_digit(s@[i as int]));
            return false;
        }
        i = i + 1;
    }
    true
}

/// The value of a sequence of digits, where it is at most `max`.
pub fn digits_value_of(s: &[char], max: u64) -> (r: Option<u64>)
    requires
        all_digits(s@),
    ensures
        match r {
            Some(v) => v == digits_value(s@) && v <= max,
            None => digits_value(s@) > max,
        },
{
    let mut value: u64 = 0;
    let mut i: usize = 0;
    while i < s.len()
        invariant
            i <= s.len(),
            all_digits(s@),
            value == digits_value(s@.take(i as int)),
            value <= max,
        decreases s.len() - i,
    {
        assert(is_digit(s@[i as int]));
        let d: u64 = s[i] as u64 - '0' as u64;
        proof {
            assert(s@.take(i + 1).drop_last() =~= s@.take(i as int));
            assert(digits_value(s@.take(i + 1)) == 10 * value + d);
            lemma_digits_value_grows(s@, i + 1);
        }
        match value.checked_mul(10) {
            Some(ten) => match ten.checked_add(d) {
                Some(next) => {
                    if next > max {
                        return None;
                    }
                    value = next;
                },
                None => {
                    return None;
                },
            },
            None => {
                return None;
            },
        }
        i = i + 1;
    }
    assert(s@.take(i as int) =~= s@);
    Some(value)
}

/// The number that a text names, where it names one of at most `max`.
pub fn parse_unsigned(s: &[char], max: u64) -> (r: Option<u64>)
    ensures
        match r {
            Some(v) => unsigned_value(s@, max as int) == Some(v as int),
            None => unsigned_value(s@, max as int) is None,
        },
{
    let digits: &[char] = if s.len() > 0 && s[0] == '+' {
        let rest: &[char] = slice_subrange(s, 1, s.len());
        assert(rest@ =~= s@.skip(1));
        rest
    } else {
        s
    };
    if digits.len() == 0 || !all_digit_chars(digits) {
        return None;
    }
    digits_value_of(digits, max)
}

/// What `str::parse::<u64>` says of a text that names no such number.
pub uninterp spec fn u64_error_of(text: Seq<char>) -> Seq<char>;

/// What `str::parse::<usize>` says of a text that names no such number.
pub uninterp spec fn usize_error_of(text: Seq<char>) -> Seq<char>;

/// What `str::parse::<u16>` says of a text that names no such number.
pub uninterp spec fn u16_error_of(text: Seq<char>) -> Seq<char>;

/// `str::parse::<u64>`: what is said of a text that names no number, or one
/// that is too large. The words are named.
#[verifier::external_body]
pub(crate) fn u64_error(text: &str) -> (r: String)
    requires
        unsigned_value(text@, u64::MAX as int) is None,
    ensures
        r@ == u64_error_of(text@),
{
    text.parse::<u64>().err().map(|e| e.to_string()).unwrap_or_default()
}

/// `str::parse::<usize>`: what is said of a text that names no number, or one
/// that is too large. The words are named.
#[verifier::external_body]
pub(crate) fn usize_error(text: &str) -> (r: String)
    requires
        unsigned_value(text@, usize::MAX as int) is None,
    ensures
        r@ == usize_error_of(text@),
{
    text.parse::<usize>().err().map(|e| e.to_string()).unwrap_or_default()
}

/// `str::parse::<u16>`: what is said of a text that names no number, or one
/// that is too large. The words are named.
#[verifier::external_body]
pub(crate) fn u16_error(text: &str) -> (r: String)
    requires
        unsigned_value(text@, u16::MAX as int) is None,
    ensures
        r@ == u16_error_of(text@),
{
    text.parse::<u16>().err().map(|e| e.to_string()).unwrap_or_default()
}

fn digit_char_of(d: u64) -> (c: char)
    requires
        d < 10,
    ensures
        c == digit_of(d as int),
{
    let b: u8 = d as u8 + 48;
    b as char
}

pub fn decimal_string(n: u64) -> (r: String)
    ensures
        r@ == decimal(n as nat),
    decreases n,
{
    if n < 10 {
        let mut out: String = String::new();
        out.push(digit_char_of(n));
        assert(out@ =~= seq![digit_of(n as int)]);
        out
    } else {
        let mut out: String = decimal_string(n / 10);
        out.push(digit_char_of(n % 10));
        out
    }
}

/// Decimal digits name the number that they were written for.
pub proof fn law_decimal_names_its_number(n: nat)
    ensures
        decimal(n).len() > 0,
        all_digits(decimal(n)),
        digits_value(decimal(n)) == n,
        forall|max: int| n <= max ==> unsigned_value(decimal(n), max) == Some(n as int),
    decreases n,
{
    if n < 10 {
        assert(decimal(n).drop_last() =~= Seq::<char>::empty());
        assert(digits_value(Seq::<char>::empty()) == 0);
    } else {
        law_decimal_names_its_number(n / 10);
        assert(decimal(n).drop_last() =~= decimal(n / 10));
        let last = digit_of((n % 10) as int);
        assert(is_digit(last));
        assert forall|i: int| 0 <= i < decimal(n).len() implies is_digit(
            #[trigger] decimal(n)[i],
        ) by {
            if i < decimal(n).len() - 1 {
                assert(decimal(n)[i] == decimal(n / 10)[i]);
            }
        }
    }
    assert(is_digit(decimal(n)[0]));
}

/// Texts as a program prints them, one on a line.
pub open spec fn printed(list: Seq<Seq<char>>) -> Seq<char>
    decreases list.len(),
{
    if list.len() == 0 {
        Seq::empty()
    } else {
        list[0] + "\n"@ + printed(list.skip(1))
    }
}

/// What was printed line by line is read back line by line.
pub proof fn law_lines_are_read_back(list: Seq<Seq<char>>)
    requires
        forall|i: int|
            0 <= i < list.len() ==> !(#[trigger] list[i]).contains('\n') && (list[i].len() > 0
                ==> list[i].last() != '\r'),
    ensures
        lines(printed(list)) == list,
    decreases list.len(),
{
    reveal_strlit("\n");
    if list.len() == 0 {
        assert(lines(printed(list)) =~= list);
    } else {
        let rest = list.skip(1);
        let s = printed(list);
        let n = list[0].len() as int;
        assert forall|i: int| 0 <= i < rest.len() implies !(#[trigger] rest[i]).contains('\n') && (
        rest[i].len() > 0 ==> rest[i].last() != '\r') by {
            assert(rest[i] == list[i + 1]);
        }
        law_lines_are_read_back(rest);
        assert forall|j: int| 0 <= j < n implies s[j] != '\n' by {
            assert(s[j] == list[0][j]);
            if s[j] == '\n' {
                assert(list[0].contains('\n'));
            }
        }
        assert(s[n] == '\n');
        lemma_find_is(s, '\n', n);
        assert(s.take(n) =~= list[0]);
        assert(s.skip(n + 1) =~= printed(rest));
        assert(without_cr(list[0]) == list[0]);
        assert(lines(s) =~= seq![list[0]] + rest);
        assert(seq![list[0]] + rest =~= list);
    }
}

/// Words with a space between each two.
pub open spec fn spaced(list: Seq<Seq<char>>) -> Seq<char>
    decreases list.len(),
{
    if list.len() == 0 {
        Seq::empty()
    } else if list.len() == 1 {
        list[0]
    } else {
        list[0] + " "@ + spaced(list.skip(1))
    }
}

/// Words that stand with spaces between them are found again.
pub proof fn law_words_are_found(list: Seq<Seq<char>>)
    requires
        forall|i: int|
            0 <= i < list.len() ==> (#[trigger] list[i]).len() > 0 && forall|j: int|
                0 <= j < list[i].len() ==> !is_space(#[trigger] list[i][j]),
    ensures
        words(spaced(list)) == list,
    decreases list.len(),
{
    reveal_strlit(" ");
    let s = spaced(list);
    if list.len() == 0 {
        assert(words(s) =~= list);
    } else {
        let rest = list.skip(1);
        let n = list[0].len() as int;
        assert forall|i: int| 0 <= i < rest.len() implies (#[trigger] rest[i]).len() > 0 && (
        forall|j: int| 0 <= j < rest[i].len() ==> !is_space(#[trigger] rest[i][j])) by {
            assert(rest[i] == list[i + 1]);
        }
        law_words_are_found(rest);
        assert(list[0].len() > 0);
        assert forall|j: int| 0 <= j < n implies !is_space(#[trigger] s[j]) by {
            assert(s[j] == list[0][j]);
            assert(!is_space(list[0][j]));
        }
        assert(!is_space(s[0]));
        assert(trim_start(s) == s);
        lemma_find_space_is(s, n);
        assert(s.take(n) =~= list[0]);
        if list.len() == 1 {
            assert(s.skip(n) =~= Seq::<char>::empty());
            assert(words(s.skip(n)) =~= Seq::<Seq<char>>::empty());
            assert(words(s) =~= list);
        } else {
            let later = s.skip(n);
            assert(later =~= " "@ + spaced(rest));
            assert(later.skip(1) =~= spaced(rest));
            assert(is_space(later[0]));
            assert(trim_start(later) == trim_start(spaced(rest)));
            assert(words(later) == words(spaced(rest))) by {
                lemma_words_skip_space(later);
                lemma_words_skip_space(spaced(rest));
            }
            assert(words(s) =~= seq![list[0]] + rest);
            assert(seq![list[0]] + rest =~= list);
        }
    }
}

/// The first white space is the one before which none stands.
proof fn lemma_find_space_is(s: Seq<char>, i: int)
    requires
        0 <= i <= s.len(),
        i < s.len() ==> is_space(s[i]),
        forall|j: int| 0 <= j < i ==> !is_space(#[trigger] s[j]),
    ensures
        find_space(s) == i,
{
    lemma_find_space(s);
    let f = find_space(s);
    if f < i {
        assert(!is_space(s[f]));
    } else if i < f {
        assert(!is_space(s[i]));
    }
}

/// Pieces that were joined by a character which none of them has are found again.
pub proof fn law_joined_pieces_are_split(pieces: Seq<Seq<char>>, c: char)
    requires
        pieces.len() > 0,
        forall|i: int| 0 <= i < pieces.len() ==> !(#[trigger] pieces[i]).contains(c),
    ensures
        split(join(pieces, seq![c]), c) == pieces,
    decreases pieces.len(),
{
    let s = join(pieces, seq![c]);
    let n = pieces[0].len() as int;
    if pieces.len() == 1 {
        lemma_find(s, c);
        assert(split(s, c) =~= pieces);
    } else {
        let rest = pieces.skip(1);
        lemma_join_first(pieces, seq![c]);
        assert forall|i: int| 0 <= i < rest.len() implies !(#[trigger] rest[i]).contains(c) by {
            assert(rest[i] == pieces[i + 1]);
        }
        law_joined_pieces_are_split(rest, c);
        assert forall|j: int| 0 <= j < n implies s[j] != c by {
            assert(s[j] == pieces[0][j]);
            if s[j] == c {
                assert(pieces[0].contains(c));
            }
        }
        assert(s[n] == c);
        lemma_find_is(s, c, n);
        assert(s.take(n) =~= pieces[0]);
        assert(s.skip(n + 1) =~= join(rest, seq![c]));
        assert(seq![pieces[0]] + rest =~= pieces);
    }
}

/// Joining begins with the first piece.
proof fn lemma_join_first(pieces: Seq<Seq<char>>, separator: Seq<char>)
    requires
        pieces.len() > 1,
    ensures
        join(pieces, separator) == pieces[0] + separator + join(pieces.skip(1), separator),
    decreases pieces.len(),
{
    let rest = pieces.skip(1);
    let shorter = pieces.drop_last();
    if pieces.len() == 2 {
        assert(shorter.len() == 1);
        assert(join(shorter, separator) == pieces[0]);
        assert(join(rest, separator) == pieces[1]);
    } else {
        lemma_join_first(shorter, separator);
        assert(shorter.skip(1) =~= rest.drop_last());
        assert(rest.last() == pieces.last());
        assert(join(rest, separator) == join(rest.drop_last(), separator) + separator
            + rest.last());
        assert(join(pieces, separator) =~= pieces[0] + separator + join(rest, separator));
    }
}

/// Capital letters become small ones, twenty-six of them, and nothing else changes.
pub proof fn law_lowering_changes_capitals_only(s: Seq<char>, i: int)
    requires
        0 <= i < s.len(),
    ensures
        lowered(s).len() == s.len(),
        'A' <= s[i] <= 'Z' ==> lowered(s)[i] as int == s[i] as int + 32,
        !('A' <= s[i] <= 'Z') ==> lowered(s)[i] == s[i],
{
    let c = s[i];
    if 'A' <= c <= 'Z' {
        let u = c as u8;
        assert(u as int == c as int);
        assert((u + 32) as u8 as int == c as int + 32);
    }
}

/// A number may have a plus sign before it and zeros in front, and is refused where it
/// is above the limit, is empty, or has anything but digits in it.
pub proof fn law_numbers_are_digits(s: Seq<char>, max: int, i: int)
    ensures
        unsigned_value(Seq::empty(), max) is None,
        unsigned_value(s, max) matches Some(n) ==> n <= max,
        0 < i < s.len() && !('0' <= s[i] <= '9') ==> unsigned_value(s, max) is None,
        s.len() > 0 && s[0] != '+' && !('0' <= s[0] <= '9') ==> unsigned_value(s, max) is None,
        s.len() > 0 && '0' <= s[0] <= '9' ==> unsigned_value(seq!['+'] + s, max) == unsigned_value(
            s,
            max,
        ),
{
    assert((seq!['+'] + s).skip(1) =~= s);
    if 0 < i < s.len() && !('0' <= s[i] <= '9') {
        if s[0] == '+' {
            assert(s.skip(1)[i - 1] == s[i]);
            assert(!is_digit(s.skip(1)[i - 1]));
        } else {
            assert(!is_digit(s[i]));
        }
    }
    if s.len() > 0 && s[0] != '+' && !('0' <= s[0] <= '9') {
        assert(!is_digit(s[0]));
    }
}

/// White space around a text that neither begins nor ends with any is dropped,
/// and nothing else.
pub proof fn law_space_around_is_dropped(before: Seq<char>, s: Seq<char>, after: Seq<char>)
    requires
        forall|i: int| 0 <= i < before.len() ==> is_space(#[trigger] before[i]),
        forall|i: int| 0 <= i < after.len() ==> is_space(#[trigger] after[i]),
        s.len() > 0 ==> !is_space(s[0]) && !is_space(s.last()),
    ensures
        trim(before + s + after) == s,
{
    let whole = before + s + after;
    lemma_trim_start_shape(whole);
    let start = trim_start(whole);
    let from = whole.len() - start.len();
    lemma_trim_end_shape(start);
    let inner = trim(whole);
    let n = before.len() as int;
    if s.len() == 0 {
        assert forall|i: int| 0 <= i < whole.len() implies is_space(#[trigger] whole[i]) by {
            if i < n {
                assert(whole[i] == before[i]);
            } else {
                assert(whole[i] == after[i - n]);
            }
        }
        if inner.len() > 0 {
            assert(inner.last() == whole[from + inner.len() - 1]);
        }
        assert(inner =~= s);
    } else {
        let to = n + s.len();
        assert(whole[n] == s[0]);
        assert(whole[to - 1] == s.last());
        if from < n {
            assert(start[0] == whole[from]);
            assert(whole[from] == before[from]);
        }
        assert(from == n);
        if inner.len() > s.len() {
            assert(inner.last() == whole[from + inner.len() - 1]);
            assert(inner.last() == after[inner.len() - s.len() - 1]);
        }
        if inner.len() < s.len() {
            assert(is_space(start[s.len() - 1]));
            assert(start[s.len() - 1] == whole[to - 1]);
        }
        assert(inner =~= s);
    }
}

/// What counts as white space among the common characters.
pub proof fn law_white_space(c: char)
    ensures
        is_space(' '),
        is_space('\t'),
        is_space('\n'),
        is_space('\r'),
        '!' <= c <= '~' ==> !is_space(c),
{
}

/// White space before words does not count.
pub proof fn law_leading_space_holds_no_words(before: Seq<char>, s: Seq<char>)
    requires
        forall|i: int| 0 <= i < before.len() ==> is_space(#[trigger] before[i]),
    ensures
        words(before + s) == words(s),
    decreases before.len(),
{
    if before.len() == 0 {
        assert(before + s =~= s);
    } else {
        let whole = before + s;
        let rest = before.skip(1);
        assert forall|i: int| 0 <= i < rest.len() implies is_space(#[trigger] rest[i]) by {
            assert(rest[i] == before[i + 1]);
        }
        law_leading_space_holds_no_words(rest, s);
        assert(whole[0] == before[0]);
        assert(whole.skip(1) =~= rest + s);
        lemma_words_skip_space(whole);
        lemma_words_skip_space(rest + s);
    }
}

/// What stands between words is a single space, and the last word ends them.
pub proof fn lemma_spaced_shape(list: Seq<Seq<char>>, i: int)
    requires
        list.len() > 0,
        forall|k: int| 0 <= k < list.len() ==> (#[trigger] list[k]).len() > 0,
        0 <= i < spaced(list).len(),
    ensures
        spaced(list).last() == list.last().last(),
        spaced(list)[i] == ' ' || exists|k: int, j: int|
            #![trigger list[k][j]]
            0 <= k < list.len() && 0 <= j < list[k].len() && list[k][j] == spaced(list)[i],
    decreases list.len(),
{
    reveal_strlit(" ");
    let s = spaced(list);
    let n = list[0].len() as int;
    let rest = list.skip(1);
    if list.len() == 1 {
        assert(list[0][i] == s[i]);
    } else {
        assert(rest[0] == list[1]);
        assert forall|k: int| 0 <= k < rest.len() implies (#[trigger] rest[k]).len() > 0 by {
            assert(rest[k] == list[k + 1]);
        }
        assert(spaced(rest).len() > 0) by {
            assert(rest[0].len() > 0);
        }
        assert(rest.last() == list.last());
        lemma_spaced_shape(
            rest,
            if i > n {
                i - n - 1
            } else {
                0
            },
        );
        assert(s.last() == spaced(rest).last());
        if i < n {
            assert(list[0][i] == s[i]);
        } else if i > n {
            assert(s[i] == spaced(rest)[i - n - 1]);
            if s[i] != ' ' {
                let (k, j) = choose|k: int, j: int|
                    #![trigger rest[k][j]]
                    0 <= k < rest.len() && 0 <= j < rest[k].len() && rest[k][j] == spaced(
                        rest,
                    )[i - n - 1];
                assert(rest[k] == list[k + 1]);
                assert(list[k + 1][j] == s[i]);
            }
        }
    }
}

/// A text is cut to a number of characters where it is longer, and the reader
/// sees that it was.
pub proof fn law_long_texts_are_cut(message: Seq<char>, max: int)
    requires
        0 <= max,
    ensures
        message.len() <= max ==> truncated(message, max) == message,
        message.len() > max ==> truncated(message, max).take(max) == message.take(max) && truncated(
            message,
            max,
        ).skip(max) == "\n[truncated]"@,
{
    if message.len() > max {
        assert(truncated(message, max).take(max) =~= message.take(max));
        assert(truncated(message, max).skip(max) =~= "\n[truncated]"@);
    }
}

/// A text stands where it was put, and what was put before or behind another
/// can be taken off it again.
pub proof fn law_texts_are_found(before: Seq<char>, s: Seq<char>, after: Seq<char>)
    ensures
        stands_at(before + s + after, s, before.len() as int),
        contains_text(before + s + after, s),
        strip_prefix(before + s, before) == Some(s),
        strip_suffix(s + after, after) == Some(s),
{
    let whole = before + s + after;
    let n = before.len() as int;
    assert(whole.subrange(n, n + s.len()) =~= s);
    assert(stands_at(whole, s, n));
    assert(before =~= (before + s).subrange(0, n));
    assert((before + s).skip(n) =~= s);
    let tail = s + after;
    assert(after =~= tail.subrange(tail.len() - after.len(), tail.len() as int));
    assert(tail.take(tail.len() - after.len()) =~= s);
}

/// The characters of Nix hashes are the digits and small letters but four.
pub proof fn law_characters_of_hashes(c: char)
    ensures
        is_nix_base32(c) == (('0' <= c <= '9' || 'a' <= c <= 'z') && !seq!['e', 'o', 't', 'u'].contains(
            c,
        )),
        is_ascii_letter_or_digit(c) == ('0' <= c <= '9' || 'a' <= c <= 'z' || 'A' <= c <= 'Z'),
{
    let left_out = seq!['e', 'o', 't', 'u'];
    assert(left_out[0] == 'e' && left_out[1] == 'o' && left_out[2] == 't' && left_out[3] == 'u');
}

} // verus!
