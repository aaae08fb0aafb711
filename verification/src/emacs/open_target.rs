//! URLs and files around a point in terminal text.
//!
//! Terminal text is not to be trusted: of URLs only the web's are taken, and a path only counts
//! once it was found. Looking for files is the caller's part: a resolution lists what to look for,
//! and takes what was found.

use crate::text::{
    begins_with, char_is_control, char_is_whitespace, chars_of, code_point, decimal, find_first,
    find_last, find_pattern, first_from, has_prefix, is_control, is_core, is_whitespace, last_before,
    lemma_trimmed, numbers_read_back, parse_unsigned, parsed_unsigned, pattern_from, push_decimal,
    same_text, string_of, the_first_pattern_is_found, the_last_place_is_found, trim, trimmed, views,
};
use vstd::prelude::*;

verus! {

/// What can be opened.
#[derive(Debug, PartialEq, Eq)]
pub enum OpenTarget {
    WebUrl(String),
    Path { path: String, line: Option<u32>, column: Option<u32> },
}

/// A file to look for, and the place in it.
#[derive(Debug, PartialEq, Eq)]
pub struct PathProbe {
    /// The path starts at the home directory rather than where it says or the working directory.
    pub from_home: bool,
    /// The path, without the `~` and separator of one from the home directory.
    pub path: String,
    pub line: Option<u32>,
    pub column: Option<u32>,
}

/// A file to look for, with its path as characters.
#[verifier::ext_equal]
pub struct Probe {
    pub from_home: bool,
    pub path: Seq<char>,
    pub line: Option<u32>,
    pub column: Option<u32>,
}

impl View for PathProbe {
    type V = Probe;

    open spec fn view(&self) -> Probe {
        Probe {
            from_home: self.from_home,
            path: self.path@,
            line: self.line,
            column: self.column,
        }
    }
}

pub open spec fn probe_views(v: Seq<PathProbe>) -> Seq<Probe> {
    Seq::new(v.len(), |i: int| v[i]@)
}

/// A target, with its texts as characters.
#[verifier::ext_equal]
pub enum Target {
    WebUrl(Seq<char>),
    Path { path: Seq<char>, line: Option<u32>, column: Option<u32> },
}

impl View for OpenTarget {
    type V = Target;

    open spec fn view(&self) -> Target {
        match *self {
            OpenTarget::WebUrl(url) => Target::WebUrl(url@),
            OpenTarget::Path { path, line, column } => Target::Path { path: path@, line, column },
        }
    }
}

/// The number of times `c` stands in `s`.
pub open spec fn count_of(s: Seq<char>, c: char) -> nat
    decreases s.len(),
{
    if s.len() == 0 {
        0
    } else {
        count_of(s.drop_last(), c) + (if s.last() == c {
            1nat
        } else {
            0
        })
    }
}

/// The last character of `s` is punctuation of the prose around it: always some, a closing
/// bracket when the text before it holds no more of its opening than of its closing bracket.
pub open spec fn ends_in_prose(s: Seq<char>) -> bool {
    let c = s.last();
    let before = s.drop_last();
    ||| c == '.' || c == ',' || c == ';' || c == ':' || c == '!' || c == '?' || c == '>' || c == '"'
        || c == '\'' || c == '`'
    ||| c == ')' && count_of(before, '(') <= count_of(before, ')')
    ||| c == ']' && count_of(before, '[') <= count_of(before, ']')
    ||| c == '}' && count_of(before, '{') <= count_of(before, '}')
}

/// `s` without the punctuation that prose puts behind it.
pub open spec fn without_prose(s: Seq<char>) -> Seq<char>
    decreases s.len(),
{
    if s.len() > 0 && ends_in_prose(s) {
        without_prose(s.drop_last())
    } else {
        s
    }
}

pub open spec fn opens_wrapping(c: char) -> bool {
    c == '(' || c == '[' || c == '{' || c == '<' || c == '"' || c == '\'' || c == '`'
}

pub open spec fn closes_wrapping(c: char) -> bool {
    c == ')' || c == ']' || c == '}' || c == '>' || c == '"' || c == '\'' || c == '`'
}

pub open spec fn without_openers(s: Seq<char>) -> Seq<char>
    decreases s.len(),
{
    if s.len() > 0 && opens_wrapping(s[0]) {
        without_openers(s.skip(1))
    } else {
        s
    }
}

pub open spec fn without_closers(s: Seq<char>) -> Seq<char>
    decreases s.len(),
{
    if s.len() > 0 && closes_wrapping(s.last()) {
        without_closers(s.drop_last())
    } else {
        s
    }
}

/// `candidates` and `c`, unless it is empty or among them.
pub open spec fn with_unique(candidates: Seq<Seq<char>>, c: Seq<char>) -> Seq<Seq<char>> {
    if c.len() == 0 || candidates.contains(c) {
        candidates
    } else {
        candidates.push(c)
    }
}

/// The characters that a candidate may begin behind.
pub open spec fn separators() -> Seq<char> {
    seq!['(', '[', '{', '<', ',', ';', '!']
}

/// What follows the last separator, as a candidate of its own.
pub open spec fn with_suffix(candidates: Seq<Seq<char>>, s: Seq<char>, separator: char) -> Seq<
    Seq<char>,
> {
    match last_before(s, s.len() as int, separator) {
        Some(i) => with_unique(candidates, without_prose(s.skip(i + 1))),
        None => candidates,
    }
}

pub open spec fn with_suffixes(candidates: Seq<Seq<char>>, s: Seq<char>, n: int) -> Seq<Seq<char>>
    decreases n,
{
    if n <= 0 {
        candidates
    } else {
        with_suffix(with_suffixes(candidates, s, n - 1), s, separators()[n - 1])
    }
}

/// The candidates with the readings of `raw`: as it stands, without what wraps it, without prose
/// punctuation, and what follows each separator.
pub open spec fn with_variants(candidates: Seq<Seq<char>>, raw: Seq<char>) -> Seq<Seq<char>> {
    let bare = trimmed(raw);
    let unwrapped = without_closers(without_openers(bare));
    with_suffixes(
        with_unique(
            with_unique(with_unique(candidates, bare), unwrapped),
            without_prose(unwrapped),
        ),
        unwrapped,
        separators().len() as int,
    )
}

/// A character that parts tokens.
pub open spec fn parts_tokens(c: char) -> bool {
    char_is_whitespace(c) || c == '|'
}

/// The character that a point is on: the one at it, else the one before it, unless that parts
/// tokens.
pub open spec fn probed(text: Seq<char>, point: int) -> Option<int> {
    if point < text.len() && !parts_tokens(text[point]) {
        Some(point)
    } else if point > 0 && !parts_tokens(text[point - 1]) {
        Some(point - 1)
    } else {
        None
    }
}

pub open spec fn token_start_at(text: Seq<char>, i: int) -> int
    decreases i,
{
    if 0 < i && !parts_tokens(text[i - 1]) {
        token_start_at(text, i - 1)
    } else {
        i
    }
}

pub open spec fn token_end_at(text: Seq<char>, i: int) -> int
    decreases text.len() - i,
{
    if i < text.len() && !parts_tokens(text[i]) {
        token_end_at(text, i + 1)
    } else {
        i
    }
}

/// What stands between two quotes around `probe`: the last one before it and the next of the same
/// kind.
pub open spec fn between_quotes(text: Seq<char>, probe: int, quote: char) -> Option<Seq<char>> {
    match last_before(text, probe, quote) {
        Some(open) => match first_from(text, open + 1, quote) {
            Some(close) => if probe < close {
                Some(text.subrange(open + 1, close))
            } else {
                None
            },
            None => None,
        },
        None => None,
    }
}

pub open spec fn quoted_at(text: Seq<char>, probe: int) -> Option<Seq<char>> {
    if between_quotes(text, probe, '"') is Some {
        between_quotes(text, probe, '"')
    } else if between_quotes(text, probe, '\'') is Some {
        between_quotes(text, probe, '\'')
    } else {
        between_quotes(text, probe, '`')
    }
}

/// The candidates with the URL of a scheme that begins in the token at or before the probe.
pub open spec fn with_url(
    candidates: Seq<Seq<char>>,
    token: Seq<char>,
    probe: int,
    scheme: Seq<char>,
) -> Seq<Seq<char>> {
    match pattern_from(token, 0, scheme) {
        Some(i) if i <= probe => with_unique(candidates, without_prose(token.skip(i))),
        _ => candidates,
    }
}

/// The readings of the text around a point, the likeliest first: what is quoted, the URL, the
/// token.
pub open spec fn around_point(text: Seq<char>, point: int) -> Seq<Seq<char>> {
    match probed(text, point) {
        None => Seq::empty(),
        Some(probe) => {
            let start = token_start_at(text, probe);
            let token = text.subrange(start, token_end_at(text, probe));
            let quoted = match quoted_at(text, probe) {
                Some(q) => with_variants(Seq::empty(), q),
                None => Seq::empty(),
            };
            let urls = with_url(
                with_url(quoted, token, probe - start, "https://"@),
                token,
                probe - start,
                "http://"@,
            );
            with_variants(urls, token)
        },
    }
}

pub open spec fn has_control(s: Seq<char>) -> bool {
    exists|i: int| 0 <= i < s.len() && char_is_control(#[trigger] s[i])
}

/// A URL of the web, without control characters.
pub open spec fn safe_web_url(s: Seq<char>) -> bool {
    (has_prefix(s, "http://"@) || has_prefix(s, "https://"@)) && !has_control(s)
}

/// The first of the candidates that is a URL of the web.
pub open spec fn first_url(candidates: Seq<Seq<char>>, i: int) -> Option<Seq<char>>
    decreases candidates.len() - i,
{
    if i >= candidates.len() {
        None
    } else if safe_web_url(candidates[i]) {
        Some(candidates[i])
    } else {
        first_url(candidates, i + 1)
    }
}

/// A positive number.
pub open spec fn positive(s: Seq<char>) -> Option<nat> {
    match parsed_unsigned(s, u32::MAX as nat) {
        Some(n) if n > 0 => Some(n),
        _ => None,
    }
}

/// A path with a line and perhaps a column behind it.
pub open spec fn located(s: Seq<char>) -> Option<(Seq<char>, nat, Option<nat>)> {
    match last_before(s, s.len() as int, ':') {
        None => None,
        Some(i) => match positive(s.skip(i + 1)) {
            None => None,
            Some(last) => {
                let front = s.take(i);
                let inner = match last_before(front, front.len() as int, ':') {
                    Some(j) => match positive(front.skip(j + 1)) {
                        Some(line) => Some((front.take(j), line)),
                        None => None,
                    },
                    None => None,
                };
                match inner {
                    Some((path, line)) => if path.len() > 0 {
                        Some((path, line, Some(last)))
                    } else {
                        None
                    },
                    None => if front.len() > 0 {
                        Some((front, last, None))
                    } else {
                        None
                    },
                }
            },
        },
    }
}

/// Where to look for a path: `~` and what follows it stand for the home directory.
pub open spec fn probe_for(path: Seq<char>, line: Option<u32>, column: Option<u32>) -> Probe {
    if path.len() > 0 && path[0] == '~' && (path.len() == 1 || path[1] == '/' || path[1] == '\\') {
        Probe {
            from_home: true,
            path: if path.len() == 1 {
                Seq::empty()
            } else {
                path.skip(2)
            },
            line,
            column,
        }
    } else {
        Probe { from_home: false, path, line, column }
    }
}

/// The probes for a candidate: the whole of it as a path, then the path of a location.
pub open spec fn probes_of(candidate: Seq<char>) -> Seq<Probe> {
    let whole = probe_for(candidate, None, None);
    match located(candidate) {
        Some((path, line, column)) => seq![
            whole,
            probe_for(
                path,
                Some(line as u32),
                match column {
                    Some(c) => Some(c as u32),
                    None => None,
                },
            ),
        ],
        None => seq![whole],
    }
}

pub open spec fn all_probes(candidates: Seq<Seq<char>>, n: int) -> Seq<Probe>
    decreases n,
{
    if n <= 0 {
        Seq::empty()
    } else if candidates[n - 1].len() > 0 && !has_control(candidates[n - 1]) {
        all_probes(candidates, n - 1) + probes_of(candidates[n - 1])
    } else {
        all_probes(candidates, n - 1)
    }
}

/// What candidates come to: a URL, or files to look for in order.
#[verifier::ext_equal]
pub struct Plan {
    pub url: Option<Seq<char>>,
    pub probes: Seq<Probe>,
}

pub open spec fn plan_of(candidates: Seq<Seq<char>>) -> Plan {
    match first_url(candidates, 0) {
        Some(url) => Plan { url: Some(url), probes: Seq::empty() },
        None => Plan { url: None, probes: all_probes(candidates, candidates.len() as int) },
    }
}

/// The first probe at or after `i` whose file was found, with the path it was found under.
pub open spec fn first_found(probes: Seq<Probe>, found: Seq<Option<Seq<char>>>, i: int) -> Option<
    Target,
>
    decreases probes.len() - i,
{
    if i >= probes.len() || i >= found.len() {
        None
    } else {
        match found[i] {
            Some(path) => Some(
                Target::Path { path, line: probes[i].line, column: probes[i].column },
            ),
            None => first_found(probes, found, i + 1),
        }
    }
}

/// What a plan comes to once the files were looked for.
pub open spec fn decided(plan: Plan, found: Seq<Option<Seq<char>>>) -> Option<Target> {
    match plan.url {
        Some(url) => Some(Target::WebUrl(url)),
        None => first_found(plan.probes, found, 0),
    }
}

/// The number of bytes of a character in UTF-8.
pub open spec fn utf8_width(c: char) -> int {
    if c as int <= 0x7f {
        1
    } else if c as int <= 0x7ff {
        2
    } else if c as int <= 0xffff {
        3
    } else {
        4
    }
}

/// The character from `i` on that holds the byte `byte` bytes further on, or the end.
pub open spec fn char_at_byte(text: Seq<char>, i: int, byte: int) -> int
    decreases text.len() - i,
{
    if i >= text.len() {
        text.len() as int
    } else if byte < utf8_width(text[i]) {
        i
    } else {
        char_at_byte(text, i + 1, byte - utf8_width(text[i]))
    }
}

fn char_index(chars: &[char], byte: usize) -> (r: usize)
    ensures
        r == char_at_byte(chars@, 0, byte as int),
        r <= chars@.len(),
{
    let mut left: usize = byte;
    let mut i: usize = 0;
    while i < chars.len()
        invariant
            i <= chars@.len(),
            char_at_byte(chars@, 0, byte as int) == char_at_byte(chars@, i as int, left as int),
        decreases chars@.len() - i,
    {
        let code: u32 = code_point(chars[i]);
        let width: usize = if code <= 0x7f {
            1
        } else if code <= 0x7ff {
            2
        } else if code <= 0xffff {
            3
        } else {
            4
        };
        if left < width {
            return i;
        }
        left -= width;
        i += 1;
    }
    i
}

fn count_char(s: &[char], c: char) -> (r: usize)
    ensures
        r == count_of(s@, c),
{
    let mut n: usize = 0;
    let mut i: usize = 0;
    assert(s@.take(0) =~= Seq::<char>::empty());
    while i < s.len()
        invariant
            n <= i <= s@.len(),
            n == count_of(s@.take(i as int), c),
        decreases s@.len() - i,
    {
        assert(s@.take(i + 1).drop_last() =~= s@.take(i as int));
        if s[i] == c {
            n += 1;
        }
        i += 1;
    }
    assert(s@.take(i as int) =~= s@);
    n
}

/// Whether `close`, standing behind `before`, closes nothing that `before` opened.
fn unmatched_trailing_closer(before: &[char], open: char, close: char) -> (r: bool)
    ensures
        r == (count_of(before@, open) <= count_of(before@, close)),
{
    count_char(before, open) <= count_char(before, close)
}

/// `raw` without the punctuation that prose puts behind it.
pub fn trim_trailing_prose(raw: &str) -> (r: String)
    ensures
        r@ == without_prose(raw@),
{
    let chars = chars_of(raw);
    let mut end: usize = chars.len();
    assert(raw@.take(end as int) =~= raw@);
    while end > 0
        invariant
            end <= chars@.len(),
            chars@ == raw@,
            without_prose(raw@) == without_prose(raw@.take(end as int)),
        decreases end,
    {
        let c = chars[end - 1];
        let before = vstd::slice::slice_subrange(chars.as_slice(), 0, end - 1);
        assert(before@ =~= raw@.take(end as int).drop_last());
        assert(raw@.take(end as int).drop_last() =~= raw@.take(end - 1));
        let prose = match c {
            '.' | ',' | ';' | ':' | '!' | '?' | '>' | '"' | '\'' | '`' => true,
            ')' => unmatched_trailing_closer(before, '(', ')'),
            ']' => unmatched_trailing_closer(before, '[', ']'),
            '}' => unmatched_trailing_closer(before, '{', '}'),
            _ => false,
        };
        if !prose {
            return string_of(chars.as_slice(), 0, end);
        }
        end -= 1;
    }
    String::new()
}

fn unwrap_candidate(raw: &str) -> (r: String)
    ensures
        r@ == without_closers(without_openers(raw@)),
{
    let chars = chars_of(raw);
    let mut start: usize = 0;
    assert(raw@.skip(0) =~= raw@);
    while start < chars.len() && is_opener(chars[start])
        invariant
            start <= chars@.len(),
            chars@ == raw@,
            without_openers(raw@) == without_openers(raw@.skip(start as int)),
        decreases chars@.len() - start,
    {
        assert(raw@.skip(start as int).skip(1) =~= raw@.skip(start + 1));
        start += 1;
    }
    let ghost inner = raw@.skip(start as int);
    assert(without_openers(raw@) == inner);
    let mut end: usize = chars.len();
    assert(raw@.subrange(start as int, end as int) =~= inner);
    while end > start && is_closer(chars[end - 1])
        invariant
            start <= end <= chars@.len(),
            chars@ == raw@,
            without_closers(inner) == without_closers(raw@.subrange(start as int, end as int)),
        decreases end,
    {
        assert(raw@.subrange(start as int, end as int).drop_last() =~= raw@.subrange(
            start as int,
            end - 1,
        ));
        end -= 1;
    }
    string_of(chars.as_slice(), start, end)
}

fn is_opener(c: char) -> (r: bool)
    ensures
        r == opens_wrapping(c),
{
    c == '(' || c == '[' || c == '{' || c == '<' || c == '"' || c == '\'' || c == '`'
}

fn is_closer(c: char) -> (r: bool)
    ensures
        r == closes_wrapping(c),
{
    c == ')' || c == ']' || c == '}' || c == '>' || c == '"' || c == '\'' || c == '`'
}

fn push_unique(candidates: &mut Vec<String>, candidate: String)
    ensures
        views(final(candidates)@) == with_unique(views(old(candidates)@), candidate@),
{
    if candidate.as_str().is_empty() {
        return;
    }
    let ghost all = views(candidates@);
    let mut i: usize = 0;
    while i < candidates.len()
        invariant
            i <= candidates@.len(),
            all == views(candidates@),
            *candidates == *old(candidates),
            forall|k: int| 0 <= k < i ==> #[trigger] all[k] != candidate@,
        decreases candidates@.len() - i,
    {
        if same_text(candidates[i].as_str(), candidate.as_str()) {
            assert(all[i as int] == candidate@);
            return;
        }
        assert(all[i as int] == candidates@[i as int]@);
        i += 1;
    }
    assert(!all.contains(candidate@));
    candidates.push(candidate);
    assert(views(candidates@) =~= all.push(candidate@));
}

/// Adds the readings of `raw`.
fn push_candidate_variants(candidates: &mut Vec<String>, raw: &str)
    ensures
        views(final(candidates)@) == with_variants(views(old(candidates)@), raw@),
{
    let bare = trim(raw);
    let unwrapped = unwrap_candidate(bare.as_str());
    push_unique(candidates, bare);
    push_unique(candidates, unwrapped.clone());
    push_unique(candidates, trim_trailing_prose(unwrapped.as_str()));
    let ghost base = views(candidates@);
    let chars = chars_of(unwrapped.as_str());
    let marks: Vec<char> = vec!['(', '[', '{', '<', ',', ';', '!'];
    assert(marks@ =~= separators());
    let mut i: usize = 0;
    while i < marks.len()
        invariant
            i <= marks@.len(),
            marks@ == separators(),
            chars@ == unwrapped@,
            views(candidates@) == with_suffixes(base, unwrapped@, i as int),
        decreases marks@.len() - i,
    {
        if let Some(at) = find_last(chars.as_slice(), chars.len(), marks[i]) {
            let suffix = string_of(chars.as_slice(), at + 1, chars.len());
            assert(suffix@ =~= unwrapped@.skip(at + 1));
            push_unique(candidates, trim_trailing_prose(suffix.as_str()));
        }
        i += 1;
    }
}

fn is_parting(c: char) -> (r: bool)
    ensures
        r == parts_tokens(c),
{
    is_whitespace(c) || c == '|'
}

fn probe_char(chars: &[char], point: usize) -> (r: Option<usize>)
    requires
        point <= chars@.len(),
    ensures
        crate::text::place(r) == probed(chars@, point as int),
        r matches Some(i) ==> i < chars@.len(),
{
    if point < chars.len() && !is_parting(chars[point]) {
        return Some(point);
    }
    if point > 0 && !is_parting(chars[point - 1]) {
        Some(point - 1)
    } else {
        None
    }
}

fn quoted_by(chars: &[char], probe: usize, quote: char) -> (r: Option<String>)
    requires
        probe < chars@.len(),
    ensures
        match (r, between_quotes(chars@, probe as int, quote)) {
            (Some(s), Some(q)) => s@ == q,
            (None, None) => true,
            _ => false,
        },
{
    match find_last(chars, probe, quote) {
        Some(open) => match find_first(chars, open + 1, quote) {
            Some(close) => if probe < close {
                Some(string_of(chars, open + 1, close))
            } else {
                None
            },
            None => None,
        },
        None => None,
    }
}

fn quoted_candidate(chars: &[char], probe: usize) -> (r: Option<String>)
    requires
        probe < chars@.len(),
    ensures
        match (r, quoted_at(chars@, probe as int)) {
            (Some(s), Some(q)) => s@ == q,
            (None, None) => true,
            _ => false,
        },
{
    if let Some(q) = quoted_by(chars, probe, '"') {
        return Some(q);
    }
    if let Some(q) = quoted_by(chars, probe, '\'') {
        return Some(q);
    }
    quoted_by(chars, probe, '`')
}

fn push_url(candidates: &mut Vec<String>, token: &[char], probe: usize, scheme: &str)
    ensures
        views(final(candidates)@) == with_url(
            views(old(candidates)@),
            token@,
            probe as int,
            scheme@,
        ),
{
    let pattern = chars_of(scheme);
    if let Some(at) = find_pattern(token, 0, pattern.as_slice()) {
        if at <= probe {
            let url = string_of(token, at, token.len());
            assert(url@ =~= token@.skip(at as int));
            push_unique(candidates, trim_trailing_prose(url.as_str()));
        }
    }
}

/// The readings of the text around the byte `point_byte`.
pub fn candidates_at_point(text: &str, point_byte: usize) -> (r: Vec<String>)
    ensures
        views(r@) == around_point(text@, char_at_byte(text@, 0, point_byte as int)),
{
    let chars = chars_of(text);
    let mut candidates: Vec<String> = Vec::new();
    assert(views(candidates@) =~= Seq::<Seq<char>>::empty());
    let point: usize = char_index(chars.as_slice(), point_byte);
    let Some(probe) = probe_char(chars.as_slice(), point) else {
        return candidates;
    };
    if let Some(quoted) = quoted_candidate(chars.as_slice(), probe) {
        push_candidate_variants(&mut candidates, quoted.as_str());
    }
    let mut start: usize = probe;
    while start > 0 && !is_parting(chars[start - 1])
        invariant
            start <= probe < chars@.len(),
            token_start_at(chars@, probe as int) == token_start_at(chars@, start as int),
        decreases start,
    {
        start -= 1;
    }
    let mut end: usize = probe;
    while end < chars.len() && !is_parting(chars[end])
        invariant
            probe <= end <= chars@.len(),
            token_end_at(chars@, probe as int) == token_end_at(chars@, end as int),
        decreases chars@.len() - end,
    {
        end += 1;
    }
    let token = vstd::slice::slice_subrange(chars.as_slice(), start, end);
    push_url(&mut candidates, token, probe - start, "https://");
    push_url(&mut candidates, token, probe - start, "http://");
    let whole = string_of(chars.as_slice(), start, end);
    push_candidate_variants(&mut candidates, whole.as_str());
    candidates
}

fn any_control(s: &str) -> (r: bool)
    ensures
        r == has_control(s@),
{
    let chars = chars_of(s);
    let mut i: usize = 0;
    while i < chars.len()
        invariant
            i <= chars@.len(),
            chars@ == s@,
            forall|k: int| 0 <= k < i ==> !char_is_control(#[trigger] s@[k]),
        decreases chars@.len() - i,
    {
        if is_control(chars[i]) {
            assert(char_is_control(s@[i as int]));
            return true;
        }
        i += 1;
    }
    false
}

/// Whether `candidate` is a URL of the web.
pub fn is_safe_web_url(candidate: &str) -> (r: bool)
    ensures
        r == safe_web_url(candidate@),
{
    let chars = chars_of(candidate);
    let plain = chars_of("http://");
    let secure = chars_of("https://");
    (begins_with(chars.as_slice(), plain.as_slice()) || begins_with(
        chars.as_slice(),
        secure.as_slice(),
    )) && !any_control(candidate)
}

fn positive_u32(raw: &str) -> (r: Option<u32>)
    ensures
        match (r, positive(raw@)) {
            (Some(v), Some(n)) => v == n,
            (None, None) => true,
            _ => false,
        },
{
    match parse_unsigned(raw, u32::MAX as u64) {
        Some(n) => if n > 0 {
            Some(n as u32)
        } else {
            None
        },
        None => None,
    }
}

/// A path with a line and perhaps a column behind it.
pub fn split_location(candidate: &str) -> (r: Option<(&str, u32, Option<u32>)>)
    ensures
        match (r, located(candidate@)) {
            (Some((path, line, column)), Some((p, l, c))) => path@ == p && line == l && match (
                column,
                c,
            ) {
                (Some(x), Some(y)) => x == y,
                (None, None) => true,
                _ => false,
            },
            (None, None) => true,
            _ => false,
        },
{
    let chars = chars_of(candidate);
    let Some(at) = find_last(chars.as_slice(), chars.len(), ':') else {
        return None;
    };
    let tail = string_of(chars.as_slice(), at + 1, chars.len());
    assert(tail@ =~= candidate@.skip(at + 1));
    let Some(last) = positive_u32(tail.as_str()) else {
        return None;
    };
    let front = candidate.substring_char(0, at);
    assert(front@ =~= candidate@.take(at as int));
    let inner = chars_of(front);
    if let Some(second) = find_last(inner.as_slice(), inner.len(), ':') {
        let middle = string_of(inner.as_slice(), second + 1, inner.len());
        assert(middle@ =~= front@.skip(second + 1));
        if let Some(line) = positive_u32(middle.as_str()) {
            let path = candidate.substring_char(0, second);
            assert(path@ =~= front@.take(second as int));
            return if second > 0 {
                Some((path, line, Some(last)))
            } else {
                None
            };
        }
    }
    if at > 0 {
        Some((front, last, None))
    } else {
        None
    }
}

fn path_probe(path: &str, line: Option<u32>, column: Option<u32>) -> (r: PathProbe)
    ensures
        r@ == probe_for(path@, line, column),
{
    let chars = chars_of(path);
    if chars.len() > 0 && chars[0] == '~' && (chars.len() == 1 || chars[1] == '/' || chars[1]
        == '\\') {
        let rest = if chars.len() == 1 {
            String::new()
        } else {
            string_of(chars.as_slice(), 2, chars.len())
        };
        assert(chars@.len() > 1 ==> rest@ =~= path@.skip(2));
        PathProbe { from_home: true, path: rest, line, column }
    } else {
        PathProbe { from_home: false, path: path.to_owned(), line, column }
    }
}

/// What candidates come to: a URL, or files to look for in order.
#[derive(Debug, PartialEq, Eq)]
pub struct OpenPlan {
    pub url: Option<String>,
    pub probes: Vec<PathProbe>,
}

impl View for OpenPlan {
    type V = Plan;

    open spec fn view(&self) -> Plan {
        Plan {
            url: match self.url {
                Some(url) => Some(url@),
                None => None,
            },
            probes: probe_views(self.probes@),
        }
    }
}

fn plan_candidates(candidates: &Vec<String>) -> (r: OpenPlan)
    ensures
        r@ == plan_of(views(candidates@)),
{
    let ghost all = views(candidates@);
    let mut i: usize = 0;
    while i < candidates.len()
        invariant
            i <= candidates@.len(),
            all == views(candidates@),
            first_url(all, 0) == first_url(all, i as int),
        decreases candidates@.len() - i,
    {
        assert(all[i as int] == candidates@[i as int]@);
        if is_safe_web_url(candidates[i].as_str()) {
            let r = OpenPlan { url: Some(candidates[i].clone()), probes: Vec::new() };
            assert(r@.probes =~= Seq::<Probe>::empty());
            return r;
        }
        i += 1;
    }
    let mut probes: Vec<PathProbe> = Vec::new();
    assert(probe_views(probes@) =~= Seq::<Probe>::empty());
    let mut n: usize = 0;
    while n < candidates.len()
        invariant
            n <= candidates@.len(),
            all == views(candidates@),
            probe_views(probes@) == all_probes(all, n as int),
        decreases candidates@.len() - n,
    {
        let candidate = candidates[n].as_str();
        assert(all[n as int] == candidate@);
        if !candidate.is_empty() && !any_control(candidate) {
            let ghost before = probe_views(probes@);
            probes.push(path_probe(candidate, None, None));
            assert(probe_views(probes@) =~= before.push(probe_for(candidate@, None, None)));
            if let Some((path, line, column)) = split_location(candidate) {
                let ghost middle = probe_views(probes@);
                probes.push(path_probe(path, Some(line), column));
                assert(probe_views(probes@) =~= middle.push(
                    probe_for(path@, Some(line), column),
                ));
            }
            assert(probe_views(probes@) =~= before + probes_of(candidate@));
        }
        n += 1;
    }
    OpenPlan { url: None, probes }
}

/// What a plan comes to once its files were looked for: `found` holds, for each probe, the path of
/// the file if there is one.
pub fn decide(plan: OpenPlan, found: &[Option<String>]) -> (r: Option<OpenTarget>)
    ensures
        match (r, decided(plan@, found_views(found@))) {
            (Some(t), Some(target)) => t@ == target,
            (None, None) => true,
            _ => false,
        },
{
    let ghost probes = probe_views(plan.probes@);
    let ghost paths = found_views(found@);
    let ghost target = decided(plan@, paths);
    if let Some(url) = plan.url {
        return Some(OpenTarget::WebUrl(url));
    }
    let mut i: usize = 0;
    while i < plan.probes.len() && i < found.len()
        invariant
            i <= plan.probes@.len(),
            i <= found@.len(),
            probes == probe_views(plan.probes@),
            paths == found_views(found@),
            target == first_found(probes, paths, i as int),
            target == decided(plan@, found_views(found@)),
        decreases plan.probes@.len() - i,
    {
        if let Some(path) = &found[i] {
            return Some(
                OpenTarget::Path {
                    path: path.clone(),
                    line: plan.probes[i].line,
                    column: plan.probes[i].column,
                },
            );
        }
        i += 1;
    }
    None
}

pub open spec fn found_views(found: Seq<Option<String>>) -> Seq<Option<Seq<char>>> {
    Seq::new(
        found.len(),
        |i: int|
            match found[i] {
                Some(path) => Some(path@),
                None => None,
            },
    )
}

/// The candidates that a selection stands for; none for an empty one or one with control
/// characters, such as several lines.
pub open spec fn selection_candidates(selection: Seq<char>) -> Seq<Seq<char>> {
    let bare = trimmed(selection);
    if bare.len() == 0 || has_control(bare) {
        Seq::empty()
    } else {
        with_variants(Seq::empty(), bare)
    }
}

/// What to look for to open a selection.
pub fn plan_selection(selection: &str) -> (r: OpenPlan)
    ensures
        r@ == plan_of(selection_candidates(selection@)),
{
    let bare = trim(selection);
    let mut candidates: Vec<String> = Vec::new();
    assert(views(candidates@) =~= Seq::<Seq<char>>::empty());
    if !bare.as_str().is_empty() && !any_control(bare.as_str()) {
        push_candidate_variants(&mut candidates, bare.as_str());
    }
    plan_candidates(&candidates)
}

/// What to look for to open what a point is on.
pub fn plan_at_point(text: &str, point_byte: usize) -> (r: OpenPlan)
    ensures
        r@ == plan_of(around_point(text@, char_at_byte(text@, 0, point_byte as int))),
{
    let candidates = candidates_at_point(text, point_byte);
    plan_candidates(&candidates)
}

/// What a selection opens, given what was found of the files that its plan lists.
pub fn resolve_selection(selection: &str, found: &[Option<String>]) -> (r: Option<OpenTarget>)
    ensures
        match (
            r,
            decided(plan_of(selection_candidates(selection@)), found_views(found@)),
        ) {
            (Some(t), Some(target)) => t@ == target,
            (None, None) => true,
            _ => false,
        },
{
    decide(plan_selection(selection), found)
}

/// What a point opens, given what was found of the files that its plan lists.
pub fn resolve_at_point(text: &str, point_byte: usize, found: &[Option<String>]) -> (r: Option<
    OpenTarget,
>)
    ensures
        match (
            r,
            decided(
                plan_of(around_point(text@, char_at_byte(text@, 0, point_byte as int))),
                found_views(found@),
            ),
        ) {
            (Some(t), Some(target)) => t@ == target,
            (None, None) => true,
            _ => false,
        },
{
    decide(plan_at_point(text, point_byte), found)
}

/// The Emacs Lisp escape of a character.
pub open spec fn elisp_char(c: char) -> Seq<char> {
    match c {
        '\\' => seq!['\\', '\\'],
        '"' => seq!['\\', '"'],
        '\n' => seq!['\\', 'n'],
        '\r' => seq!['\\', 'r'],
        '\t' => seq!['\\', 't'],
        _ => seq![c],
    }
}

pub open spec fn elisp_escaped(s: Seq<char>) -> Seq<char>
    decreases s.len(),
{
    if s.len() == 0 {
        Seq::empty()
    } else {
        elisp_escaped(s.drop_last()) + elisp_char(s.last())
    }
}

/// `value` as an Emacs Lisp string.
pub fn elisp_string(value: &str) -> (r: String)
    ensures
        r@ == seq!['"'] + elisp_escaped(value@) + seq!['"'],
{
    let chars = chars_of(value);
    let mut escaped = String::new();
    escaped.push('"');
    let mut i: usize = 0;
    assert(value@.take(0) =~= Seq::<char>::empty());
    assert(escaped@ =~= seq!['"'] + elisp_escaped(value@.take(0)));
    while i < chars.len()
        invariant
            i <= chars@.len(),
            chars@ == value@,
            escaped@ == seq!['"'] + elisp_escaped(value@.take(i as int)),
        decreases chars@.len() - i,
    {
        let ghost before = escaped@;
        assert(value@.take(i + 1).drop_last() =~= value@.take(i as int));
        match chars[i] {
            '\\' => {
                escaped.push('\\');
                escaped.push('\\');
            },
            '"' => {
                escaped.push('\\');
                escaped.push('"');
            },
            '\n' => {
                escaped.push('\\');
                escaped.push('n');
            },
            '\r' => {
                escaped.push('\\');
                escaped.push('r');
            },
            '\t' => {
                escaped.push('\\');
                escaped.push('t');
            },
            c => escaped.push(c),
        }
        assert(escaped@ =~= before + elisp_char(value@[i as int]));
        assert(escaped@ =~= seq!['"'] + elisp_escaped(value@.take(i + 1)));
        i += 1;
    }
    assert(value@.take(i as int) =~= value@);
    escaped.push('"');
    escaped
}

/// The command line that opens a target in Emacs.
pub open spec fn argv_for(target: Target) -> Seq<Seq<char>> {
    let common = seq!["emacsclient"@, "--alternate-editor="@, "--tty"@];
    match target {
        Target::WebUrl(url) => common + seq![
            "--eval"@,
            "(progn (require 'eww) (eww "@ + (seq!['"'] + elisp_escaped(url) + seq!['"']) + "))"@,
        ],
        Target::Path { path, line, column } => common + (match line {
            Some(l) => seq![
                seq!['+'] + decimal(l as nat) + (match column {
                    Some(c) => seq![':'] + decimal(c as nat),
                    None => seq![],
                }),
            ],
            None => seq![],
        }) + seq!["--"@, path],
    }
}

/// The command line that opens `target` in Emacs: a URL in its browser, a file at its place.
pub fn emacsclient_argv(target: &OpenTarget) -> (r: Vec<String>)
    ensures
        views(r@) == argv_for(target@),
{
    let mut argv: Vec<String> = vec![
        "emacsclient".to_owned(),
        "--alternate-editor=".to_owned(),
        "--tty".to_owned(),
    ];
    match target {
        OpenTarget::WebUrl(url) => {
            argv.push("--eval".to_owned());
            let mut call = "(progn (require 'eww) (eww ".to_owned();
            call.append(elisp_string(url.as_str()).as_str());
            call.append("))");
            argv.push(call);
        },
        OpenTarget::Path { path, line, column } => {
            if let Some(line) = line {
                let mut place = String::new();
                place.push('+');
                push_decimal(&mut place, *line as u64);
                if let Some(column) = column {
                    place.push(':');
                    push_decimal(&mut place, *column as u64);
                }
                assert(place@ =~= seq!['+'] + decimal(*line as nat) + (match *column {
                    Some(c) => seq![':'] + decimal(c as nat),
                    None => seq![],
                }));
                argv.push(place);
            }
            argv.push("--".to_owned());
            argv.push(path.clone());
        },
    }
    assert(views(argv@) =~= argv_for(target@));
    argv
}

/// Nothing but URLs of the web is opened as a URL.
pub proof fn only_web_urls_open(candidates: Seq<Seq<char>>, found: Seq<Option<Seq<char>>>)
    ensures
        decided(plan_of(candidates), found) matches Some(Target::WebUrl(url)) ==> safe_web_url(url),
{
    lemma_first_url_is_safe(candidates, 0);
    lemma_found_is_path(plan_of(candidates).probes, found, 0);
}

proof fn lemma_first_url_is_safe(candidates: Seq<Seq<char>>, i: int)
    ensures
        first_url(candidates, i) matches Some(url) ==> safe_web_url(url),
    decreases candidates.len() - i,
{
    if i < candidates.len() && !safe_web_url(candidates[i]) {
        lemma_first_url_is_safe(candidates, i + 1);
    }
}

proof fn lemma_found_is_path(probes: Seq<Probe>, found: Seq<Option<Seq<char>>>, i: int)
    requires
        0 <= i,
    ensures
        first_found(probes, found, i) matches Some(target) ==> target is Path && exists|k: int|
            0 <= k < found.len() && #[trigger] found[k] == Some(target->path),
    decreases probes.len() - i,
{
    if i < probes.len() && i < found.len() {
        if found[i] is None {
            lemma_found_is_path(probes, found, i + 1);
        } else {
            assert(found[i] == Some(found[i]->0));
        }
    }
}

/// Only files that were found are opened, under the path they were found by.
pub proof fn only_found_files_open(candidates: Seq<Seq<char>>, found: Seq<Option<Seq<char>>>)
    ensures
        decided(plan_of(candidates), found) matches Some(Target::Path { path, .. }) ==> exists|
            k: int,
        | 0 <= k < found.len() && #[trigger] found[k] == Some(path),
{
    lemma_found_is_path(plan_of(candidates).probes, found, 0);
}

/// Reading an Emacs Lisp string behind its opening quote: the value, and what follows the closing
/// quote.
pub open spec fn elisp_read(s: Seq<char>) -> Option<(Seq<char>, Seq<char>)>
    decreases s.len(),
{
    if s.len() == 0 {
        None
    } else if s[0] == '"' {
        Some((Seq::empty(), s.skip(1)))
    } else if s[0] == '\\' {
        if s.len() < 2 {
            None
        } else {
            match elisp_read(s.skip(2)) {
                Some((value, rest)) => Some(
                    (
                        seq![
                            if s[1] == 'n' {
                                '\n'
                            } else if s[1] == 'r' {
                                '\r'
                            } else if s[1] == 't' {
                                '\t'
                            } else {
                                s[1]
                            },
                        ] + value,
                        rest,
                    ),
                ),
                None => None,
            }
        }
    } else {
        match elisp_read(s.skip(1)) {
            Some((value, rest)) => Some((seq![s[0]] + value, rest)),
            None => None,
        }
    }
}

proof fn lemma_escaped_front(s: Seq<char>)
    requires
        s.len() > 0,
    ensures
        elisp_escaped(s) == elisp_char(s[0]) + elisp_escaped(s.skip(1)),
    decreases s.len(),
{
    if s.len() == 1 {
        assert(s.drop_last() =~= Seq::<char>::empty());
        assert(s.skip(1) =~= Seq::<char>::empty());
        assert(elisp_escaped(s) =~= elisp_char(s[0]) + elisp_escaped(s.skip(1)));
    } else {
        lemma_escaped_front(s.drop_last());
        assert(s.drop_last().skip(1) =~= s.skip(1).drop_last());
        assert(elisp_escaped(s) =~= elisp_char(s[0]) + elisp_escaped(s.skip(1)));
    }
}

/// An escaped text reads back as itself: whatever it holds, it ends where its string ends.
pub proof fn elisp_strings_read_back(s: Seq<char>, rest: Seq<char>)
    ensures
        elisp_read(elisp_escaped(s) + seq!['"'] + rest) == Some((s, rest)),
    decreases s.len(),
{
    let all = elisp_escaped(s) + seq!['"'] + rest;
    if s.len() == 0 {
        assert(all.skip(1) =~= rest);
        assert(s =~= Seq::<char>::empty());
    } else {
        lemma_escaped_front(s);
        elisp_strings_read_back(s.skip(1), rest);
        let tail = elisp_escaped(s.skip(1)) + seq!['"'] + rest;
        let n = elisp_char(s[0]).len() as int;
        assert(all.skip(n) =~= tail);
        assert(seq![s[0]] + s.skip(1) =~= s);
    }
}

/// A character of a plain word: a letter, a digit, a slash, a hyphen or an underscore.
pub open spec fn of_a_word(c: char) -> bool {
    ||| 'a' as int <= c as int <= 'z' as int
    ||| 'A' as int <= c as int <= 'Z' as int
    ||| '0' as int <= c as int <= '9' as int
    ||| c == '/' || c == '-' || c == '_'
}

proof fn lemma_word_bounds(text: Seq<char>, a: int, b: int, i: int)
    requires
        0 <= a <= i <= b <= text.len(),
        forall|k: int| a <= k < b ==> !parts_tokens(#[trigger] text[k]),
        a > 0 ==> parts_tokens(text[a - 1]),
        b < text.len() ==> parts_tokens(text[b]),
    ensures
        token_start_at(text, i) == a,
        token_end_at(text, i) == b,
    decreases b - a,
{
    lemma_word_start(text, a, i);
    lemma_word_end(text, b, i);
}

proof fn lemma_word_start(text: Seq<char>, a: int, i: int)
    requires
        0 <= a <= i <= text.len(),
        forall|k: int| a <= k < i ==> !parts_tokens(#[trigger] text[k]),
        a > 0 ==> parts_tokens(text[a - 1]),
    ensures
        token_start_at(text, i) == a,
    decreases i - a,
{
    if a < i {
        lemma_word_start(text, a, i - 1);
    }
}

proof fn lemma_word_end(text: Seq<char>, b: int, i: int)
    requires
        0 <= i <= b <= text.len(),
        forall|k: int| i <= k < b ==> !parts_tokens(#[trigger] text[k]),
        b < text.len() ==> parts_tokens(text[b]),
    ensures
        token_end_at(text, i) == b,
    decreases b - i,
{
    if i < b {
        lemma_word_end(text, b, i + 1);
    }
}

proof fn lemma_bare(word: Seq<char>)
    requires
        forall|k: int| 0 <= k < word.len() ==> of_a_word(#[trigger] word[k]),
    ensures
        trimmed(word) == word,
{
    lemma_trimmed(word);
    let (a, b) = choose|a: int, b: int| #[trigger]
        is_core(word, a, b) && trimmed(word) == word.subrange(a, b);
    if word.len() > 0 {
        assert(of_a_word(word[0]));
        assert(of_a_word(word[word.len() - 1]));
        assert(a == 0) by {
            if a > 0 {
                assert(char_is_whitespace(word[0]));
            }
        }
        assert(b == word.len()) by {
            if b < word.len() {
                assert(char_is_whitespace(word[word.len() - 1]));
            }
        }
    }
    assert(word.subrange(0, word.len() as int) =~= word);
    assert(trimmed(word) =~= word);
}

proof fn lemma_no_suffixes(candidates: Seq<Seq<char>>, word: Seq<char>, n: int)
    requires
        forall|k: int| 0 <= k < word.len() ==> of_a_word(#[trigger] word[k]),
        n <= separators().len(),
    ensures
        with_suffixes(candidates, word, n) == candidates,
    decreases n,
{
    if n > 0 {
        lemma_no_suffixes(candidates, word, n - 1);
        let separator = separators()[n - 1];
        the_last_place_is_found(word, word.len() as int, separator);
        if let Some(at) = last_before(word, word.len() as int, separator) {
            assert(of_a_word(word[at]));
        }
    }
}

proof fn lemma_word_variants(candidates: Seq<Seq<char>>, word: Seq<char>)
    requires
        word.len() > 0,
        forall|k: int| 0 <= k < word.len() ==> of_a_word(#[trigger] word[k]),
    ensures
        with_variants(candidates, word) == with_unique(candidates, word),
{
    lemma_bare(word);
    assert(of_a_word(word[0]) && of_a_word(word[word.len() - 1]));
    assert(without_closers(without_openers(word)) == word);
    assert(without_prose(word) == word);
    let once = with_unique(candidates, word);
    if !candidates.contains(word) {
        assert(once[candidates.len() as int] == word);
    }
    assert(once.contains(word));
    lemma_no_suffixes(once, word, separators().len() as int);
}

/// With the point anywhere on a plain word, at its end too, that word is what may be opened: just
/// the word, from one blank or bar to the next, wherever it stands in a text without quotes.
pub proof fn the_word_at_the_point_is_read(
    before: Seq<char>,
    word: Seq<char>,
    behind: Seq<char>,
    point: int,
)
    requires
        word.len() > 0,
        forall|k: int| 0 <= k < word.len() ==> of_a_word(#[trigger] word[k]),
        before.len() > 0 ==> (char_is_whitespace(before.last()) || before.last() == '|'),
        behind.len() > 0 ==> (char_is_whitespace(behind[0]) || behind[0] == '|'),
        forall|k: int|
            0 <= k < before.len() ==> #[trigger] before[k] != '"' && before[k] != '\'' && before[k]
                != '`',
        before.len() <= point <= before.len() + word.len(),
    ensures
        around_point(before + word + behind, point) == seq![word],
{
    let text = before + word + behind;
    let a = before.len() as int;
    let b = a + word.len();
    assert forall|k: int| a <= k < b implies !parts_tokens(#[trigger] text[k]) by {
        assert(of_a_word(word[k - a]));
    }
    if a > 0 {
        assert(text[a - 1] == before.last());
    }
    if b < text.len() {
        assert(text[b] == behind[0]);
    }
    let probe = if point < b {
        point
    } else {
        point - 1
    };
    assert(probed(text, point) == Some(probe)) by {
        if point == b {
            assert(!parts_tokens(text[b - 1]));
        }
    }
    lemma_word_bounds(text, a, b, probe);
    assert(text.subrange(a, b) =~= word);
    assert forall|quote: char| quote == '"' || quote == '\'' || quote == '`' implies #[trigger]
        between_quotes(text, probe, quote) is None by {
        the_last_place_is_found(text, probe, quote);
        if let Some(at) = last_before(text, probe, quote) {
            if at < a {
                assert(before[at] == quote);
            } else {
                assert(of_a_word(word[at - a]));
            }
        }
    }
    assert(quoted_at(text, probe) is None);
    let none = Seq::<Seq<char>>::empty();
    lemma_no_scheme(word, "https://"@, 5);
    lemma_no_scheme(word, "http://"@, 4);
    lemma_word_variants(none, word);
    assert(with_unique(none, word) =~= seq![word]);
}

proof fn lemma_no_scheme(word: Seq<char>, scheme: Seq<char>, colon: int)
    requires
        forall|k: int| 0 <= k < word.len() ==> of_a_word(#[trigger] word[k]),
        scheme == "https://"@ && colon == 5 || scheme == "http://"@ && colon == 4,
    ensures
        pattern_from(word, 0, scheme) is None,
{
    reveal_strlit("https://");
    reveal_strlit("http://");
    assert(scheme[colon] == ':' && 0 <= colon < scheme.len());
    the_first_pattern_is_found(word, 0, scheme);
    if let Some(at) = pattern_from(word, 0, scheme) {
        assert(word.subrange(at, at + scheme.len())[colon] == word[at + colon]);
        assert(of_a_word(word[at + colon]));
    }
}

/// Nothing may be opened with the point among blanks.
pub proof fn blanks_open_nothing(text: Seq<char>, point: int)
    requires
        0 <= point <= text.len(),
        point < text.len() ==> (char_is_whitespace(text[point]) || text[point] == '|'),
        point > 0 ==> (char_is_whitespace(text[point - 1]) || text[point - 1] == '|'),
    ensures
        around_point(text, point) == Seq::<Seq<char>>::empty(),
{
}

/// The first URL of the web among the readings is opened, whatever files there are: one that begins
/// with the scheme of the web and holds no control character.
pub proof fn the_first_url_is_opened(
    candidates: Seq<Seq<char>>,
    found: Seq<Option<Seq<char>>>,
    k: int,
)
    requires
        0 <= k < candidates.len(),
        "http://"@.is_prefix_of(candidates[k]) || "https://"@.is_prefix_of(candidates[k]),
        forall|i: int| 0 <= i < candidates[k].len() ==> !char_is_control(#[trigger] candidates[k][i]),
        forall|j: int|
            0 <= j < k ==> !"http://"@.is_prefix_of(#[trigger] candidates[j])
                && !"https://"@.is_prefix_of(candidates[j]),
    ensures
        decided(plan_of(candidates), found) == Some(Target::WebUrl(candidates[k])),
        plan_of(candidates).probes.len() == 0,
{
    let url = candidates[k];
    assert(url.take("http://"@.len() as int) =~= url.subrange(0, "http://"@.len() as int)
        || url.len() < "http://"@.len());
    assert(url.take("https://"@.len() as int) =~= url.subrange(0, "https://"@.len() as int)
        || url.len() < "https://"@.len());
    assert("http://"@.is_prefix_of(url) ==> has_prefix(url, "http://"@)) by {
        if "http://"@.is_prefix_of(url) {
            assert("http://"@ =~= url.take("http://"@.len() as int));
        }
    }
    assert("https://"@.is_prefix_of(url) ==> has_prefix(url, "https://"@)) by {
        if "https://"@.is_prefix_of(url) {
            assert("https://"@ =~= url.take("https://"@.len() as int));
        }
    }
    assert(safe_web_url(url));
    assert forall|j: int| 0 <= j < k implies !safe_web_url(#[trigger] candidates[j]) by {
        let c = candidates[j];
        if has_prefix(c, "http://"@) {
            assert("http://"@ =~= c.subrange(0, "http://"@.len() as int));
        }
        if has_prefix(c, "https://"@) {
            assert("https://"@ =~= c.subrange(0, "https://"@.len() as int));
        }
    }
    lemma_first_url_at(candidates, 0, k);
}

proof fn lemma_first_url_at(candidates: Seq<Seq<char>>, i: int, k: int)
    requires
        0 <= i <= k < candidates.len(),
        safe_web_url(candidates[k]),
        forall|j: int| i <= j < k ==> !safe_web_url(#[trigger] candidates[j]),
    ensures
        first_url(candidates, i) == Some(candidates[k]),
    decreases k - i,
{
    if i < k {
        lemma_first_url_at(candidates, i + 1, k);
    }
}

/// The first file that was found is opened, at the line and column that were written behind it.
pub proof fn the_first_file_is_opened(plan: Plan, found: Seq<Option<Seq<char>>>, k: int)
    requires
        plan.url is None,
        0 <= k < plan.probes.len() && k < found.len(),
        found[k] is Some,
        forall|j: int| 0 <= j < k ==> (#[trigger] found[j]) is None,
    ensures
        decided(plan, found) == Some(
            Target::Path {
                path: found[k]->0,
                line: plan.probes[k].line,
                column: plan.probes[k].column,
            },
        ),
{
    lemma_first_found_at(plan.probes, found, 0, k);
}

proof fn lemma_first_found_at(probes: Seq<Probe>, found: Seq<Option<Seq<char>>>, i: int, k: int)
    requires
        0 <= i <= k < probes.len() && k < found.len(),
        found[k] is Some,
        forall|j: int| i <= j < k ==> (#[trigger] found[j]) is None,
    ensures
        first_found(probes, found, i) == Some(
            Target::Path { path: found[k]->0, line: probes[k].line, column: probes[k].column },
        ),
    decreases k - i,
{
    if i < k {
        lemma_first_found_at(probes, found, i + 1, k);
    }
}

/// A file is looked for under the whole of what was read and, where a line stands behind it, under
/// what stands before the line, to be opened at that line.
pub proof fn places_are_looked_for(path: Seq<char>, line: u32, column: u32)
    requires
        path.len() > 0,
        path[0] != '~',
        line > 0,
        column > 0,
        forall|k: int| 0 <= k < path.len() ==> #[trigger] path[k] != ':',
    ensures
        probes_of(path) == seq![
            (Probe { from_home: false, path, line: None, column: None }),
        ],
        probes_of(path + seq![':'] + decimal(line as nat)) == seq![
            (Probe {
                from_home: false,
                path: path + seq![':'] + decimal(line as nat),
                line: None,
                column: None,
            }),
            (Probe { from_home: false, path, line: Some(line), column: None }),
        ],
        probes_of(path + seq![':'] + decimal(line as nat) + seq![':'] + decimal(column as nat))[1] == (
        Probe { from_home: false, path, line: Some(line), column: Some(column) }),
{
    let l = decimal(line as nat);
    let c = decimal(column as nat);
    numbers_read_back(line as nat, u32::MAX as nat);
    numbers_read_back(column as nat, u32::MAX as nat);
    the_last_place_is_found(path, path.len() as int, ':');
    let one = path + seq![':'] + l;
    let n = path.len() as int;
    the_last_place_is_found(one, one.len() as int, ':');
    assert(one[n] == ':');
    assert forall|i: int| n < i < one.len() implies #[trigger] one[i] != ':' by {
        assert(one[i] == l[i - n - 1]);
    }
    assert(last_before(one, one.len() as int, ':') == Some(n));
    assert(one.skip(n + 1) =~= l);
    assert(one.take(n) =~= path);
    let two = one + seq![':'] + c;
    let m = one.len() as int;
    the_last_place_is_found(two, two.len() as int, ':');
    assert(two[m] == ':');
    assert forall|i: int| m < i < two.len() implies #[trigger] two[i] != ':' by {
        assert(two[i] == c[i - m - 1]);
    }
    assert(last_before(two, two.len() as int, ':') == Some(m));
    assert(two.skip(m + 1) =~= c);
    assert(two.take(m) =~= one);
    assert(two =~= path + seq![':'] + l + seq![':'] + c);
}

/// A path at home is looked for there.
pub proof fn home_paths_are_looked_for_at_home(rest: Seq<char>)
    requires
        forall|k: int| 0 <= k < rest.len() ==> #[trigger] rest[k] != ':',
    ensures
        probes_of(seq!['~', '/'] + rest) == seq![
            (Probe { from_home: true, path: rest, line: None, column: None }),
        ],
{
    let path = seq!['~', '/'] + rest;
    the_last_place_is_found(path, path.len() as int, ':');
    if let Some(at) = last_before(path, path.len() as int, ':') {
        assert(path[at] == rest[at - 2]);
    }
    assert(path.skip(2) =~= rest);
}

/// Emacs is given a file behind the end of its options, at its line and column, if it has them.
pub proof fn files_open_at_their_place(path: Seq<char>, line: u32, column: u32)
    ensures
        ({
            let first = seq!["emacsclient"@, "--alternate-editor="@, "--tty"@];
            &&& argv_for(Target::Path { path, line: None, column: None }) == first + seq!["--"@, path]
            &&& argv_for(Target::Path { path, line: Some(line), column: None }) == first + seq![
                seq!['+'] + decimal(line as nat),
                "--"@,
                path,
            ]
            &&& argv_for(Target::Path { path, line: Some(line), column: Some(column) }) == first
                + seq![
                seq!['+'] + decimal(line as nat) + seq![':'] + decimal(column as nat),
                "--"@,
                path,
            ]
        }),
{
    let first = seq!["emacsclient"@, "--alternate-editor="@, "--tty"@];
    let at = seq!['+'] + decimal(line as nat);
    assert(at + Seq::<char>::empty() =~= at);
    assert(argv_for(Target::Path { path, line: None, column: None }) =~= first + seq!["--"@, path]);
    assert(argv_for(Target::Path { path, line: Some(line), column: None }) =~= first + seq![
        at,
        "--"@,
        path,
    ]);
    assert(at + (seq![':'] + decimal(column as nat)) =~= at + seq![':'] + decimal(column as nat));
    assert(argv_for(Target::Path { path, line: Some(line), column: Some(column) }) =~= first + seq![
        at + seq![':'] + decimal(column as nat),
        "--"@,
        path,
    ]);
}

} // verus!
