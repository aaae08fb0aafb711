//! Text as sequences of characters.
//!
//! Every string of the library is specified by its view, a `Seq<char>`; positions in a text are
//! character indices. The functions here move between strings and character vectors.

use vstd::prelude::*;
use vstd::utf8::{decode_utf8, valid_utf8};

verus! {

/// `String::push` appends one character to the end of the string.
pub assume_specification[ String::push ](s: &mut String, ch: char)
    ensures
        final(s)@ == old(s)@.push(ch),
;

/// What `char::is_alphanumeric` answers for a character.
pub uninterp spec fn char_is_alphanumeric(c: char) -> bool;

/// `char::is_alphanumeric` is a function of the character alone; the Unicode tables behind it are
/// not restated here.
pub assume_specification[ char::is_alphanumeric ](c: char) -> (r: bool)
    ensures
        r == char_is_alphanumeric(c),
;

/// The characters with Unicode's `White_Space` property.
pub open spec fn char_is_whitespace(c: char) -> bool {
    let code = c as u32;
    ||| 0x09 <= code <= 0x0d
    ||| code == 0x20 || code == 0x85 || code == 0xa0 || code == 0x1680
    ||| 0x2000 <= code <= 0x200a
    ||| code == 0x2028 || code == 0x2029 || code == 0x202f || code == 0x205f || code == 0x3000
}

/// Whether `c` is white space.
pub fn is_whitespace(c: char) -> (r: bool)
    ensures
        r == char_is_whitespace(c),
{
    let code: u32 = c as u32;
    (0x09 <= code && code <= 0x0d) || code == 0x20 || code == 0x85 || code == 0xa0 || code == 0x1680
        || (0x2000 <= code && code <= 0x200a) || code == 0x2028 || code == 0x2029 || code == 0x202f
        || code == 0x205f || code == 0x3000
}

/// The control characters: the C0 block, DEL and the C1 block.
pub open spec fn char_is_control(c: char) -> bool {
    c as u32 <= 0x1f || 0x7f <= c as u32 <= 0x9f
}

/// Whether `c` is a control character.
pub fn is_control(c: char) -> (r: bool)
    ensures
        r == char_is_control(c),
{
    let code: u32 = c as u32;
    code <= 0x1f || (0x7f <= code && code <= 0x9f)
}

/// The code point of `c`.
pub fn code_point(c: char) -> (r: u32)
    ensures
        r == c as int,
{
    c as u32
}

/// The characters of `text`, in order.
pub fn chars_of(text: &str) -> (r: Vec<char>)
    ensures
        r@ == text@,
{
    let mut out: Vec<char> = Vec::new();
    for c in it: text.chars()
        invariant
            it.seq() == text@,
            out@ == text@.take(it.index() as int),
    {
        out.push(c);
        assert(text@.take(it.index() as int + 1) =~= text@.take(it.index() as int).push(c));
    }
    assert(text@.take(text@.len() as int) =~= text@);
    out
}

/// The string made of the characters `chars[from..to]`.
pub fn string_of(chars: &[char], from: usize, to: usize) -> (r: String)
    requires
        from <= to <= chars@.len(),
    ensures
        r@ == chars@.subrange(from as int, to as int),
{
    let mut out = String::new();
    let mut i: usize = from;
    while i < to
        invariant
            from <= i <= to <= chars@.len(),
            out@ == chars@.subrange(from as int, i as int),
        decreases to - i,
    {
        out.push(chars[i]);
        i += 1;
        assert(chars@.subrange(from as int, i as int) =~= chars@.subrange(
            from as int,
            i - 1,
        ).push(chars@[i - 1]));
    }
    assert(chars@.subrange(from as int, from as int) =~= Seq::<char>::empty());
    out
}

/// Whether two texts hold the same characters.
pub fn same_text(a: &str, b: &str) -> (r: bool)
    ensures
        r == (a@ == b@),
{
    a.to_owned() == b.to_owned()
}

/// The first position at or after `i` that holds no white space.
pub open spec fn space_end(chars: Seq<char>, i: int) -> int
    decreases chars.len() - i,
{
    if i < chars.len() && char_is_whitespace(chars[i]) {
        space_end(chars, i + 1)
    } else {
        i
    }
}

pub proof fn lemma_space_end(chars: Seq<char>, i: int)
    requires
        i <= chars.len(),
    ensures
        i <= space_end(chars, i) <= chars.len(),
        space_end(chars, i) < chars.len() ==> !char_is_whitespace(chars[space_end(chars, i)]),
    decreases chars.len() - i,
{
    if i < chars.len() && char_is_whitespace(chars[i]) {
        lemma_space_end(chars, i + 1);
    }
}

/// The first position at or after `i` that holds white space, or the end.
pub open spec fn token_end(chars: Seq<char>, i: int) -> int
    decreases chars.len() - i,
{
    if i < chars.len() && !char_is_whitespace(chars[i]) {
        token_end(chars, i + 1)
    } else {
        i
    }
}

pub proof fn lemma_token_end(chars: Seq<char>, i: int)
    requires
        i <= chars.len(),
    ensures
        i <= token_end(chars, i) <= chars.len(),
        i < chars.len() && !char_is_whitespace(chars[i]) ==> i < token_end(chars, i),
        forall|k: int| i <= k < token_end(chars, i) ==> !char_is_whitespace(#[trigger] chars[k]),
    decreases chars.len() - i,
{
    if i < chars.len() && !char_is_whitespace(chars[i]) {
        lemma_token_end(chars, i + 1);
    }
}

/// The words of `chars` from position `i` on: its maximal runs free of white space.
pub open spec fn words_from(chars: Seq<char>, i: int) -> Seq<Seq<char>>
    decreases chars.len() - i,
{
    let start = space_end(chars, i);
    let end = token_end(chars, start);
    if i < 0 || start >= chars.len() {
        Seq::empty()
    } else {
        proof {
            lemma_space_end(chars, i);
            lemma_token_end(chars, start);
        }
        seq![chars.subrange(start, end)] + words_from(chars, end)
    }
}

/// The characters of a text that may be missing.
pub open spec fn opt_text(text: Option<String>) -> Option<Seq<char>> {
    match text {
        Some(t) => Some(t@),
        None => None,
    }
}

/// The characters of a borrowed text that may be missing.
pub open spec fn opt_str(text: Option<&str>) -> Option<Seq<char>> {
    match text {
        Some(t) => Some(t@),
        None => None,
    }
}

/// The views of a vector of strings.
pub open spec fn views(v: Seq<String>) -> Seq<Seq<char>> {
    Seq::new(v.len(), |i: int| v[i]@)
}

/// The words of `text`, in order.
pub fn split_words(text: &str) -> (r: Vec<String>)
    ensures
        views(r@) == words_from(text@, 0),
{
    let chars = chars_of(text);
    let len: usize = chars.len();
    let mut out: Vec<String> = Vec::new();
    let mut i: usize = 0;
    loop
        invariant
            i <= len == chars@.len(),
            chars@ == text@,
            views(out@) + words_from(text@, i as int) == words_from(text@, 0),
        decreases len - i,
    {
        let ghost from = i as int;
        let ghost have = views(out@);
        while i < len && is_whitespace(chars[i])
            invariant
                i <= len == chars@.len(),
                chars@ == text@,
                space_end(text@, from) == space_end(text@, i as int),
            decreases len - i,
        {
            i += 1;
        }
        if i == len {
            assert(have + Seq::<Seq<char>>::empty() =~= have);
            return out;
        }
        let start: usize = i;
        while i < len && !is_whitespace(chars[i])
            invariant
                start <= i <= len == chars@.len(),
                chars@ == text@,
                token_end(text@, start as int) == token_end(text@, i as int),
            decreases len - i,
        {
            i += 1;
        }
        proof {
            lemma_space_end(text@, from);
            lemma_token_end(text@, start as int);
        }
        out.push(string_of(chars.as_slice(), start, i));
        assert(views(out@) =~= have.push(text@.subrange(start as int, i as int)));
        assert(views(out@) + words_from(text@, i as int) =~= have + words_from(text@, from));
    }
}

/// The digit for `d`.
pub open spec fn digit_char(d: nat) -> char {
    ('0' as u32 + d) as char
}

/// `n` in decimal.
pub open spec fn decimal(n: nat) -> Seq<char>
    decreases n,
{
    if n < 10 {
        seq![digit_char(n)]
    } else {
        decimal(n / 10).push(digit_char(n % 10))
    }
}

fn digit(d: u64) -> (r: char)
    requires
        d < 10,
    ensures
        r == digit_char(d as nat),
{
    ('0' as u8 + d as u8) as char
}

/// Appends `n` in decimal.
pub fn push_decimal(out: &mut String, n: u64)
    ensures
        final(out)@ == old(out)@ + decimal(n as nat),
    decreases n,
{
    if n >= 10 {
        push_decimal(out, n / 10);
    }
    out.push(digit(n % 10));
    assert(out@ =~= old(out)@ + decimal(n as nat));
}

pub open spec fn is_digit(c: char) -> bool {
    '0' as u32 <= c as u32 <= '9' as u32
}

/// The number that the digits of `s` spell.
pub open spec fn digits_value(s: Seq<char>) -> nat
    decreases s.len(),
{
    if s.len() == 0 {
        0
    } else {
        digits_value(s.drop_last()) * 10 + (s.last() as u32 - '0' as u32) as nat
    }
}

/// What is left of a number behind an optional plus sign.
pub open spec fn unsigned_part(s: Seq<char>) -> Seq<char> {
    if s.len() > 0 && s[0] == '+' {
        s.skip(1)
    } else {
        s
    }
}

/// The value of an unsigned decimal number of at most `max`: an optional plus sign and at least
/// one digit, nothing else.
pub open spec fn parsed_unsigned(s: Seq<char>, max: nat) -> Option<nat> {
    let d = unsigned_part(s);
    if d.len() > 0 && (forall|i: int| 0 <= i < d.len() ==> is_digit(#[trigger] d[i]))
        && digits_value(d) <= max {
        Some(digits_value(d))
    } else {
        None
    }
}

proof fn lemma_digits_value_grows(s: Seq<char>, i: int)
    requires
        0 <= i <= s.len(),
    ensures
        digits_value(s.take(i)) <= digits_value(s),
    decreases s.len() - i,
{
    if i < s.len() {
        lemma_digits_value_grows(s, i + 1);
        assert(s.take(i + 1).drop_last() =~= s.take(i));
    } else {
        assert(s.take(i) =~= s);
    }
}

/// Reads an unsigned decimal number of at most `max`.
pub fn parse_unsigned(text: &str, max: u64) -> (r: Option<u64>)
    ensures
        match (r, parsed_unsigned(text@, max as nat)) {
            (Some(v), Some(n)) => v == n,
            (None, None) => true,
            _ => false,
        },
{
    let chars = chars_of(text);
    let len: usize = chars.len();
    let start: usize = if len > 0 && chars[0] == '+' {
        1
    } else {
        0
    };
    let ghost d = unsigned_part(text@);
    assert(d =~= text@.skip(start as int));
    if start == len {
        return None;
    }
    let mut value: u64 = 0;
    let mut i: usize = start;
    assert(d.take(0) =~= Seq::<char>::empty());
    while i < len
        invariant
            start <= i <= len == chars@.len(),
            chars@ == text@,
            d == unsigned_part(text@),
            d == text@.skip(start as int),
            value == digits_value(d.take(i - start)),
            value <= max,
            forall|k: int| 0 <= k < i - start ==> is_digit(#[trigger] d[k]),
        decreases len - i,
    {
        let c: u32 = chars[i] as u32;
        assert(d[i - start] == chars@[i as int]);
        if c < '0' as u32 || c > '9' as u32 {
            assert(!is_digit(d[i - start]));
            return None;
        }
        let step: u128 = value as u128 * 10 + (c - '0' as u32) as u128;
        assert(d.take(i - start + 1).drop_last() =~= d.take(i - start));
        proof {
            lemma_digits_value_grows(d, i - start + 1);
        }
        if step > max as u128 {
            return None;
        }
        value = step as u64;
        i += 1;
    }
    assert(d.take(i - start) =~= d);
    Some(value)
}

/// `w` is a word: not empty and free of white space.
pub open spec fn is_token(w: Seq<char>) -> bool {
    w.len() > 0 && forall|i: int| 0 <= i < w.len() ==> !char_is_whitespace(#[trigger] w[i])
}

/// Words hold no white space.
pub proof fn lemma_words_are_tokens(chars: Seq<char>, i: int)
    requires
        0 <= i <= chars.len(),
    ensures
        forall|k: int|
            0 <= k < words_from(chars, i).len() ==> is_token(#[trigger] words_from(chars, i)[k]),
    decreases chars.len() - i,
{
    let start = space_end(chars, i);
    lemma_space_end(chars, i);
    if start < chars.len() {
        let end = token_end(chars, start);
        lemma_token_end(chars, start);
        lemma_words_are_tokens(chars, end);
        let word = chars.subrange(start, end);
        let rest = words_from(chars, end);
        assert forall|k: int| 0 <= k < word.len() implies !char_is_whitespace(#[trigger] word[k]) by {
            assert(word[k] == chars[start + k]);
        }
        assert forall|k: int| 0 <= k < words_from(chars, i).len() implies is_token(
            #[trigger] words_from(chars, i)[k],
        ) by {
            if k > 0 {
                assert(words_from(chars, i)[k] == rest[k - 1]);
            }
        }
    }
}

proof fn lemma_token_to_end(s: Seq<char>, i: int)
    requires
        0 <= i <= s.len(),
        forall|k: int| i <= k < s.len() ==> !char_is_whitespace(#[trigger] s[k]),
    ensures
        token_end(s, i) == s.len(),
    decreases s.len() - i,
{
    if i < s.len() {
        lemma_token_to_end(s, i + 1);
    }
}

/// A single word is its own only word.
pub proof fn lemma_words_of_token(w: Seq<char>)
    requires
        is_token(w),
    ensures
        words_from(w, 0) == seq![w],
{
    lemma_token_to_end(w, 0);
    assert(!char_is_whitespace(w[0]));
    assert(w.subrange(0, w.len() as int) =~= w);
    assert(words_from(w, w.len() as int) =~= Seq::<Seq<char>>::empty());
    assert(words_from(w, 0) =~= seq![w]);
}

proof fn lemma_space_end_extended(s: Seq<char>, t: Seq<char>, i: int)
    requires
        0 <= i <= s.len(),
    ensures
        space_end(s, i) < s.len() ==> space_end(s + t, i) == space_end(s, i),
        space_end(s, i) == s.len() ==> space_end(s + t, i) == space_end(s + t, s.len() as int),
    decreases s.len() - i,
{
    if i < s.len() {
        assert((s + t)[i] == s[i]);
        if char_is_whitespace(s[i]) {
            lemma_space_end_extended(s, t, i + 1);
        }
    }
}

proof fn lemma_token_end_extended(s: Seq<char>, t: Seq<char>, i: int)
    requires
        0 <= i <= s.len(),
        t.len() > 0,
        char_is_whitespace(t[0]),
    ensures
        token_end(s + t, i) == token_end(s, i),
    decreases s.len() - i,
{
    if i < s.len() {
        assert((s + t)[i] == s[i]);
        if !char_is_whitespace(s[i]) {
            lemma_token_end_extended(s, t, i + 1);
        }
    } else {
        assert((s + t)[i] == t[0]);
    }
}

/// A word behind a space is one word more.
pub proof fn lemma_words_appended(s: Seq<char>, w: Seq<char>, i: int)
    requires
        0 <= i <= s.len(),
        is_token(w),
    ensures
        words_from(s + seq![' '] + w, i) == words_from(s, i).push(w),
    decreases s.len() - i,
{
    let t = seq![' '] + w;
    let all = s + t;
    assert(s + seq![' '] + w =~= all);
    lemma_space_end(s, i);
    lemma_space_end_extended(s, t, i);
    let start = space_end(s, i);
    if start < s.len() {
        lemma_token_end(s, start);
        lemma_token_end_extended(s, t, start);
        let end = token_end(s, start);
        lemma_words_appended(s, w, end);
        assert(all.subrange(start, end) =~= s.subrange(start, end));
        assert(words_from(all, i) =~= words_from(s, i).push(w));
    } else {
        let at = s.len() as int;
        assert(all[at] == ' ');
        assert(all[at + 1] == w[0]);
        assert(!char_is_whitespace(w[0]));
        assert(space_end(all, at) == at + 1) by {
            reveal_with_fuel(space_end, 3);
        }
        assert forall|k: int| at + 1 <= k < all.len() implies !char_is_whitespace(
            #[trigger] all[k],
        ) by {
            assert(all[k] == w[k - at - 1]);
        }
        lemma_token_to_end(all, at + 1);
        assert(all.subrange(at + 1, all.len() as int) =~= w);
        assert(words_from(all, all.len() as int) =~= Seq::<Seq<char>>::empty());
        assert(words_from(all, i) =~= words_from(s, i).push(w));
    }
}

/// The last place where `c` stands before `end`.
pub open spec fn last_before(s: Seq<char>, end: int, c: char) -> Option<int>
    decreases end,
{
    if end <= 0 {
        None
    } else if s[end - 1] == c {
        Some(end - 1)
    } else {
        last_before(s, end - 1, c)
    }
}

/// The first place where `c` stands at or after `i`.
pub open spec fn first_from(s: Seq<char>, i: int, c: char) -> Option<int>
    decreases s.len() - i,
{
    if i >= s.len() {
        None
    } else if s[i] == c {
        Some(i)
    } else {
        first_from(s, i + 1, c)
    }
}

/// The first place at or after `i` where `pattern` stands.
pub open spec fn pattern_from(s: Seq<char>, i: int, pattern: Seq<char>) -> Option<int>
    decreases s.len() + 1 - i,
{
    if i < 0 || i + pattern.len() > s.len() {
        None
    } else if s.subrange(i, i + pattern.len()) == pattern {
        Some(i)
    } else {
        pattern_from(s, i + 1, pattern)
    }
}

pub open spec fn has_prefix(s: Seq<char>, pattern: Seq<char>) -> bool {
    pattern.len() <= s.len() && s.take(pattern.len() as int) == pattern
}

/// The place, as an index, of an optional position.
pub open spec fn place(o: Option<usize>) -> Option<int> {
    match o {
        Some(i) => Some(i as int),
        None => None,
    }
}

/// The last place where `c` stands before `end`.
pub fn find_last(s: &[char], end: usize, c: char) -> (r: Option<usize>)
    requires
        end <= s@.len(),
    ensures
        place(r) == last_before(s@, end as int, c),
        r matches Some(i) ==> i < end && s@[i as int] == c,
{
    let mut i: usize = end;
    while i > 0
        invariant
            i <= end <= s@.len(),
            last_before(s@, end as int, c) == last_before(s@, i as int, c),
        decreases i,
    {
        if s[i - 1] == c {
            return Some(i - 1);
        }
        i -= 1;
    }
    None
}

/// The first place where `c` stands at or after `from`.
pub fn find_first(s: &[char], from: usize, c: char) -> (r: Option<usize>)
    requires
        from <= s@.len(),
    ensures
        place(r) == first_from(s@, from as int, c),
        r matches Some(i) ==> from <= i < s@.len() && s@[i as int] == c,
{
    let mut i: usize = from;
    while i < s.len()
        invariant
            from <= i <= s@.len(),
            first_from(s@, from as int, c) == first_from(s@, i as int, c),
        decreases s@.len() - i,
    {
        if s[i] == c {
            return Some(i);
        }
        i += 1;
    }
    None
}

/// Whether `pattern` stands at `at`.
pub fn stands_at(s: &[char], at: usize, pattern: &[char]) -> (r: bool)
    requires
        at <= s@.len(),
    ensures
        r == (at + pattern@.len() <= s@.len() && s@.subrange(at as int, at + pattern@.len())
            == pattern@),
{
    if s.len() - at < pattern.len() {
        return false;
    }
    let len: usize = s.len();
    let mut k: usize = 0;
    while k < pattern.len()
        invariant
            k <= pattern@.len(),
            at + pattern@.len() <= len,
            len == s@.len(),
            forall|j: int| 0 <= j < k ==> s@[at + j] == pattern@[j],
        decreases pattern@.len() - k,
    {
        if s[at + k] != pattern[k] {
            assert(s@.subrange(at as int, at + pattern@.len())[k as int] != pattern@[k as int]);
            return false;
        }
        k += 1;
    }
    assert(s@.subrange(at as int, at + pattern@.len()) =~= pattern@);
    true
}

/// The first place at or after `from` where `pattern` stands.
pub fn find_pattern(s: &[char], from: usize, pattern: &[char]) -> (r: Option<usize>)
    requires
        from <= s@.len(),
    ensures
        place(r) == pattern_from(s@, from as int, pattern@),
        r matches Some(i) ==> from <= i && i + pattern@.len() <= s@.len(),
{
    if pattern.len() > s.len() {
        return None;
    }
    let last: usize = s.len() - pattern.len();
    let mut i: usize = from;
    while i <= last
        invariant
            from <= i <= s@.len() + 1,
            last == s@.len() - pattern@.len(),
            pattern_from(s@, from as int, pattern@) == pattern_from(s@, i as int, pattern@),
        decreases s@.len() + 1 - i,
    {
        if stands_at(s, i, pattern) {
            return Some(i);
        }
        if i == last {
            reveal_with_fuel(pattern_from, 2);
            return None;
        }
        i += 1;
    }
    None
}

/// Whether `s` begins with `pattern`.
pub fn begins_with(s: &[char], pattern: &[char]) -> (r: bool)
    ensures
        r == has_prefix(s@, pattern@),
{
    let r = stands_at(s, 0, pattern);
    assert(pattern@.len() <= s@.len() ==> s@.subrange(0, pattern@.len() as int) =~= s@.take(
        pattern@.len() as int,
    ));
    r
}

/// `s` without white space at its ends.
pub open spec fn trimmed(s: Seq<char>) -> Seq<char> {
    let start = space_end(s, 0);
    if start >= s.len() {
        Seq::empty()
    } else {
        s.subrange(start, crate::sexp::space_start(s, s.len() as int))
    }
}

/// All but `a..b` is white space, and its ends are not.
pub open spec fn is_core(s: Seq<char>, a: int, b: int) -> bool {
    &&& 0 <= a <= b <= s.len()
    &&& forall|i: int| 0 <= i < a ==> char_is_whitespace(#[trigger] s[i])
    &&& forall|i: int| b <= i < s.len() ==> char_is_whitespace(#[trigger] s[i])
    &&& a < b ==> !char_is_whitespace(s[a]) && !char_is_whitespace(s[b - 1])
}

proof fn lemma_spaces(s: Seq<char>, i: int)
    requires
        0 <= i <= s.len(),
    ensures
        i <= space_end(s, i) <= s.len(),
        forall|k: int| i <= k < space_end(s, i) ==> char_is_whitespace(#[trigger] s[k]),
        space_end(s, i) < s.len() ==> !char_is_whitespace(s[space_end(s, i)]),
    decreases s.len() - i,
{
    if i < s.len() && char_is_whitespace(s[i]) {
        lemma_spaces(s, i + 1);
    }
}

proof fn lemma_spaces_back(s: Seq<char>, i: int)
    requires
        0 <= i <= s.len(),
    ensures
        ({
            let b = crate::sexp::space_start(s, i);
            &&& 0 <= b <= i
            &&& forall|k: int| b <= k < i ==> char_is_whitespace(#[trigger] s[k])
            &&& b > 0 ==> !char_is_whitespace(s[b - 1])
        }),
    decreases i,
{
    if 0 < i && char_is_whitespace(s[i - 1]) {
        lemma_spaces_back(s, i - 1);
    }
}

/// Trimming takes the white space off both ends and nothing else.
pub proof fn lemma_trimmed(s: Seq<char>)
    ensures
        exists|a: int, b: int| #[trigger] is_core(s, a, b) && trimmed(s) == s.subrange(a, b),
{
    lemma_spaces(s, 0);
    lemma_spaces_back(s, s.len() as int);
    let a = space_end(s, 0);
    let b = crate::sexp::space_start(s, s.len() as int);
    if a >= s.len() {
        assert(is_core(s, 0, 0));
        assert(s.subrange(0, 0) =~= Seq::<char>::empty());
    } else {
        assert(a < b);
        assert(is_core(s, a, b));
    }
}

/// `text` without white space at its ends.
pub fn trim(text: &str) -> (r: String)
    ensures
        r@ == trimmed(text@),
{
    let chars = chars_of(text);
    let len: usize = chars.len();
    let mut start: usize = 0;
    while start < len && is_whitespace(chars[start])
        invariant
            start <= len == chars@.len(),
            chars@ == text@,
            space_end(text@, 0) == space_end(text@, start as int),
        decreases len - start,
    {
        start += 1;
    }
    if start == len {
        return String::new();
    }
    let mut end: usize = len;
    while is_whitespace(chars[end - 1])
        invariant
            start < end <= len == chars@.len(),
            chars@ == text@,
            !char_is_whitespace(text@[start as int]),
            crate::sexp::space_start(text@, len as int) == crate::sexp::space_start(
                text@,
                end as int,
            ),
        decreases end,
    {
        end -= 1;
    }
    string_of(chars.as_slice(), start, end)
}

/// `std::str::from_utf8` reads bytes as UTF-8: it gives the text that they encode, and fails exactly
/// where they are not UTF-8.
#[verifier::external_body]
pub(crate) fn read_utf8(bytes: &[u8]) -> (r: Option<String>)
    ensures
        r is Some == valid_utf8(bytes@),
        r matches Some(text) ==> text@ == decode_utf8(bytes@),
{
    match std::str::from_utf8(bytes) {
        Ok(text) => Some(text.to_owned()),
        Err(_) => None,
    }
}

/// The last place of a character before an end is one that holds it, with none behind it.
pub proof fn the_last_place_is_found(s: Seq<char>, end: int, c: char)
    requires
        0 <= end <= s.len(),
    ensures
        match last_before(s, end, c) {
            Some(at) => 0 <= at < end && s[at] == c && forall|i: int|
                at < i < end ==> #[trigger] s[i] != c,
            None => forall|i: int| 0 <= i < end ==> #[trigger] s[i] != c,
        },
    decreases end,
{
    if end > 0 && s[end - 1] != c {
        the_last_place_is_found(s, end - 1, c);
    }
}

/// The first place of a character from a start on is one that holds it, with none before it.
pub proof fn the_first_place_is_found(s: Seq<char>, start: int, c: char)
    requires
        0 <= start,
    ensures
        match first_from(s, start, c) {
            Some(at) => start <= at < s.len() && s[at] == c && forall|i: int|
                start <= i < at ==> #[trigger] s[i] != c,
            None => forall|i: int| start <= i < s.len() ==> #[trigger] s[i] != c,
        },
    decreases s.len() - start,
{
    if start < s.len() && s[start] != c {
        the_first_place_is_found(s, start + 1, c);
    }
}

/// The first place of a pattern is one where it stands, with none before it.
pub proof fn the_first_pattern_is_found(s: Seq<char>, start: int, pattern: Seq<char>)
    requires
        0 <= start,
    ensures
        match pattern_from(s, start, pattern) {
            Some(at) => start <= at && at + pattern.len() <= s.len() && pattern == s.subrange(
                at,
                at + pattern.len(),
            ) && forall|i: int|
                #![trigger s.subrange(i, i + pattern.len())]
                start <= i < at ==> pattern != s.subrange(i, i + pattern.len()),
            None => forall|i: int|
                #![trigger s.subrange(i, i + pattern.len())]
                start <= i && i + pattern.len() <= s.len() ==> pattern != s.subrange(
                    i,
                    i + pattern.len(),
                ),
        },
    decreases s.len() + 1 - start,
{
    if start + pattern.len() <= s.len() && s.subrange(start, start + pattern.len()) != pattern {
        the_first_pattern_is_found(s, start + 1, pattern);
    }
}

proof fn lemma_decimal_value(n: nat)
    ensures
        decimal(n).len() > 0,
        forall|i: int| 0 <= i < decimal(n).len() ==> is_digit(#[trigger] decimal(n)[i]),
        digits_value(decimal(n)) == n,
        n > 0 ==> decimal(n)[0] != '0',
    decreases n,
{
    reveal_with_fuel(digits_value, 2);
    if n < 10 {
        assert(decimal(n).drop_last() =~= Seq::<char>::empty());
    } else {
        lemma_decimal_value(n / 10);
        assert(decimal(n).drop_last() =~= decimal(n / 10));
        assert(decimal(n)[0] == decimal(n / 10)[0]);
    }
}

/// A number reads back as itself out of its digits, unless it is more than the most there may be;
/// it has no zeros in front.
pub proof fn numbers_read_back(n: nat, max: nat)
    ensures
        parsed_unsigned(decimal(n), max) == (if n <= max {
            Some(n)
        } else {
            None
        }),
        n > 0 ==> decimal(n)[0] != '0',
        forall|i: int|
            0 <= i < decimal(n).len() ==> '0' as u32 <= (#[trigger] decimal(n)[i]) as u32 && decimal(
                n,
            )[i] as u32 <= '9' as u32,
{
    lemma_decimal_value(n);
    let d = decimal(n);
    assert(is_digit(d[0]));
    assert(unsigned_part(d) == d);
}

} // verus!
