//! Balanced-expression syntax of a single line of text.
//!
//! A line is scanned once from the left. The scan knows which delimiters are open and whether it
//! stands inside a quoted string; everything else (which positions pair up, what a string spans,
//! where an expression ends) is stated in terms of the scan.

use crate::text::{
    char_is_alphanumeric, char_is_whitespace, is_whitespace, lemma_space_end, space_end,
};
use vstd::prelude::*;

verus! {

/// A character that belongs to a word.
pub open spec fn word_char(c: char) -> bool {
    char_is_alphanumeric(c) || c == '_'
}

pub open spec fn opening(c: char) -> bool {
    c == '(' || c == '[' || c == '{'
}

pub open spec fn closing(c: char) -> bool {
    c == ')' || c == ']' || c == '}'
}

/// `close` is the closing delimiter of `open`.
pub open spec fn delimiter_pair(open: char, close: char) -> bool {
    (open == '(' && close == ')') || (open == '[' && close == ']') || (open == '{' && close == '}')
}

/// The length of the run of backslashes that ends just before `i`.
pub open spec fn backslashes_before(chars: Seq<char>, i: int) -> nat
    decreases i,
{
    if 0 < i && chars[i - 1] == '\\' {
        backslashes_before(chars, i - 1) + 1
    } else {
        0
    }
}

/// The character at `i` stands behind an odd number of backslashes.
pub open spec fn escaped_at(chars: Seq<char>, i: int) -> bool {
    backslashes_before(chars, i) % 2 == 1
}

/// The character at `i` would open a string: a double quote or a backtick always does; an
/// apostrophe does when no word character precedes it and an unescaped apostrophe follows.
pub open spec fn quote_start(chars: Seq<char>, i: int) -> bool {
    ||| chars[i] == '"'
    ||| chars[i] == '`'
    ||| chars[i] == '\'' && (i == 0 || !word_char(chars[i - 1])) && exists|j: int|
        i < j < chars.len() && #[trigger] chars[j] == '\'' && !escaped_at(chars, j)
}

/// The string a scan stands in: its quote, where it began, and whether a backslash precedes.
pub struct OpenString {
    pub quote: char,
    pub start: int,
    pub escaped: bool,
}

/// What a scan remembers of the text behind it.
pub struct Scan {
    /// The open delimiters and their positions, outermost first.
    pub open: Seq<(char, int)>,
    pub string: Option<OpenString>,
}

/// The scan after the first `n` characters.
pub open spec fn scan(chars: Seq<char>, n: int) -> Scan
    decreases n,
{
    if n <= 0 {
        Scan { open: Seq::empty(), string: None }
    } else {
        let s = scan(chars, n - 1);
        let c = chars[n - 1];
        match s.string {
            Some(o) => if o.escaped {
                Scan { string: Some(OpenString { escaped: false, ..o }), ..s }
            } else if c == '\\' {
                Scan { string: Some(OpenString { escaped: true, ..o }), ..s }
            } else if c == o.quote {
                Scan { string: None, ..s }
            } else {
                s
            },
            None => if quote_start(chars, n - 1) {
                Scan { string: Some(OpenString { quote: c, start: n - 1, escaped: false }), ..s }
            } else if opening(c) {
                Scan { open: s.open.push((c, n - 1)), ..s }
            } else if closing(c) && s.open.len() > 0 && delimiter_pair(s.open.last().0, c) {
                Scan { open: s.open.drop_last(), ..s }
            } else {
                s
            },
        }
    }
}

/// The position `i` lies strictly inside a string.
pub open spec fn in_string(chars: Seq<char>, i: int) -> bool {
    scan(chars, i).string is Some
}

/// A string opens at `i`.
pub open spec fn opens_string(chars: Seq<char>, i: int) -> bool {
    0 <= i < chars.len() && !in_string(chars, i) && quote_start(chars, i)
}

/// The string that opened at `s` ends with the quote at `j`.
pub open spec fn closes_string(chars: Seq<char>, s: int, j: int) -> bool {
    0 <= j < chars.len() && scan(chars, j).string == Some(
        OpenString { quote: chars[j], start: s, escaped: false },
    ) && chars[j] != '\\'
}

/// The list that opened at `s` ends with the delimiter at `j`.
pub open spec fn closes_list(chars: Seq<char>, s: int, j: int) -> bool {
    let before = scan(chars, j);
    0 <= j < chars.len() && !in_string(chars, j) && closing(chars[j]) && before.open.len() > 0
        && before.open.last().1 == s && delimiter_pair(before.open.last().0, chars[j])
}

/// What opened at `s`, string or list, ends at `j`.
pub open spec fn closes(chars: Seq<char>, s: int, j: int) -> bool {
    closes_string(chars, s, j) || closes_list(chars, s, j)
}

/// The positions `i` and `j` are the two ends of one string or list.
pub open spec fn matched(chars: Seq<char>, i: int, j: int) -> bool {
    closes(chars, i, j) || closes(chars, j, i)
}

/// The other end of the string or list that has an end at `i`.
pub open spec fn pair_of(chars: Seq<char>, i: int) -> Option<int> {
    if exists|j: int| matched(chars, i, j) {
        Some(choose|j: int| matched(chars, i, j))
    } else {
        None
    }
}

/// The string that opened at `s` covers the positions before `e`: up to its closing quote, or to
/// the end of the text when it is unfinished.
pub open spec fn string_span(chars: Seq<char>, s: int, e: int) -> bool {
    opens_string(chars, s) && (closes_string(chars, s, e - 1) || (e == chars.len() && forall|j: int|
        !closes_string(chars, s, j)))
}

/// The span of the string that covers `i`.
pub open spec fn string_at(chars: Seq<char>, i: int) -> Option<(int, int)> {
    if exists|s: int, e: int| string_span(chars, s, e) && s <= i < e {
        Some(choose|s: int, e: int| string_span(chars, s, e) && s <= i < e)
    } else {
        None
    }
}

/// The character at `i` is a quote, a delimiter or part of a string.
pub open spec fn is_syntax(chars: Seq<char>, i: int) -> bool {
    in_string(chars, i) || quote_start(chars, i) || opening(chars[i]) || closing(chars[i])
}

/// The character at `i` is a delimiter outside every string.
pub open spec fn is_structural(chars: Seq<char>, i: int) -> bool {
    !in_string(chars, i) && (opening(chars[i]) || closing(chars[i]))
}

/// What holds of every scan: the open delimiters are where they say, in order, and still open; an
/// open string began behind all of them and the scan has been inside it ever since.
pub open spec fn scan_facts(chars: Seq<char>, n: int) -> bool {
    let s = scan(chars, n);
    &&& forall|k: int|
        #![trigger s.open[k]]
        0 <= k < s.open.len() ==> {
            &&& 0 <= s.open[k].1 < n
            &&& chars[s.open[k].1] == s.open[k].0
            &&& opening(s.open[k].0)
            &&& !in_string(chars, s.open[k].1)
        }
    &&& forall|k: int, l: int|
        #![trigger s.open[k], s.open[l]]
        0 <= k < l < s.open.len() ==> s.open[k].1 < s.open[l].1
    &&& forall|k: int, j: int|
        #![trigger s.open[k], closes(chars, s.open[k].1, j)]
        0 <= k < s.open.len() && j < n ==> !closes(chars, s.open[k].1, j)
    &&& match s.string {
        Some(o) => {
            &&& 0 <= o.start < n
            &&& o.quote == chars[o.start]
            &&& opens_string(chars, o.start)
            &&& o.quote == '"' || o.quote == '`' || o.quote == '\''
            &&& forall|k: int|
                #![trigger s.open[k]]
                0 <= k < s.open.len() ==> s.open[k].1 < o.start
            &&& forall|j: int| #![trigger closes(chars, o.start, j)] j < n ==> !closes(chars, o.start, j)
            &&& forall|i: int|
                #![trigger scan(chars, i)]
                o.start < i <= n ==> scan(chars, i).string is Some && scan(chars, i).string->0.start
                    == o.start
        },
        None => true,
    }
}

proof fn lemma_scan_facts(chars: Seq<char>, n: int)
    requires
        0 <= n <= chars.len(),
    ensures
        scan_facts(chars, n),
    decreases n,
{
    if n > 0 {
        lemma_scan_facts(chars, n - 1);
        let before = scan(chars, n - 1);
        let after = scan(chars, n);
        let c = chars[n - 1];
        assert forall|k: int, j: int|
            #![trigger after.open[k], closes(chars, after.open[k].1, j)]
            0 <= k < after.open.len() && j < n implies !closes(chars, after.open[k].1, j) by {
            if k < before.open.len() {
                assert(after.open[k] == before.open[k]);
                if j < n - 1 {
                    assert(!closes(chars, before.open[k].1, j));
                }
            } else if 0 <= j < n - 1 {
                lemma_scan_facts(chars, j);
            }
        }
        if after.string is Some {
            let o = after.string->0;
            assert forall|j: int| #![trigger closes(chars, o.start, j)] j < n implies !closes(
                chars,
                o.start,
                j,
            ) by {
                if before.string is Some {
                    assert(before.string->0.start == o.start);
                    if j < n - 1 {
                        assert(!closes(chars, o.start, j));
                    }
                } else if 0 <= j < n - 1 {
                    lemma_scan_facts(chars, j);
                }
            }
        }
    }
}

/// A position ends at most one string or list, and begins at most one; none does both.
pub proof fn pairs_are_unique(chars: Seq<char>, i: int, j: int, k: int)
    requires
        matched(chars, i, j),
        matched(chars, i, k),
    ensures
        j == k,
{
    if closes(chars, i, j) {
        lemma_scan_facts(chars, j);
        if closes(chars, i, k) {
            lemma_scan_facts(chars, k);
            if j < k {
                assert(!closes(chars, i, j));
            }
            if k < j {
                assert(!closes(chars, i, k));
            }
        }
    } else {
        lemma_scan_facts(chars, i);
        if closes(chars, i, k) {
            lemma_scan_facts(chars, k);
        }
    }
}

/// A string that opened at `s` and has not been closed is still open.
proof fn lemma_open_string_stays(chars: Seq<char>, s: int, n: int)
    requires
        opens_string(chars, s),
        s < n <= chars.len(),
        forall|j: int| s < j < n ==> !closes_string(chars, s, j),
    ensures
        scan(chars, n).string is Some,
        scan(chars, n).string->0.start == s,
    decreases n,
{
    if s < n - 1 {
        lemma_open_string_stays(chars, s, n - 1);
        lemma_scan_facts(chars, n - 1);
        assert(!closes_string(chars, s, n - 1));
    }
}

/// Strings do not overlap.
pub proof fn strings_are_disjoint(chars: Seq<char>, s: int, e: int, t: int, f: int, i: int)
    requires
        string_span(chars, s, e),
        string_span(chars, t, f),
        s <= i < e,
        t <= i < f,
    ensures
        s == t,
        e == f,
{
    lemma_span_inside(chars, s, e);
    lemma_span_inside(chars, t, f);
    if s == t {
        if closes_string(chars, s, e - 1) && closes_string(chars, t, f - 1) {
            pairs_are_unique(chars, s, e - 1, f - 1);
        }
    }
}

/// Every position of a string but its first lies inside it.
proof fn lemma_span_inside(chars: Seq<char>, s: int, e: int)
    requires
        string_span(chars, s, e),
    ensures
        s < e <= chars.len(),
        forall|i: int|
            #![trigger scan(chars, i)]
            s < i < e ==> scan(chars, i).string is Some && scan(chars, i).string->0.start == s,
{
    if closes_string(chars, s, e - 1) {
        lemma_scan_facts(chars, e - 1);
    } else {
        lemma_open_string_stays(chars, s, e);
        lemma_scan_facts(chars, e);
    }
}

proof fn lemma_pair_of(chars: Seq<char>, i: int, j: int)
    requires
        matched(chars, i, j),
    ensures
        pair_of(chars, i) == Some(j),
{
    let k = pair_of(chars, i)->0;
    assert(matched(chars, i, k));
    pairs_are_unique(chars, i, j, k);
}

proof fn lemma_string_at(chars: Seq<char>, s: int, e: int, i: int)
    requires
        string_span(chars, s, e),
        s <= i < e,
    ensures
        string_at(chars, i) == Some((s, e)),
{
    let p = string_at(chars, i)->0;
    assert(string_span(chars, p.0, p.1) && p.0 <= i < p.1);
    strings_are_disjoint(chars, s, e, p.0, p.1, i);
}

/// Whether `ch` belongs to a word.
pub fn is_word(ch: char) -> (r: bool)
    ensures
        r == word_char(ch),
{
    ch.is_alphanumeric() || ch == '_'
}

pub fn is_opening_delimiter(ch: char) -> (r: bool)
    ensures
        r == opening(ch),
{
    ch == '(' || ch == '[' || ch == '{'
}

pub fn is_closing_delimiter(ch: char) -> (r: bool)
    ensures
        r == closing(ch),
{
    ch == ')' || ch == ']' || ch == '}'
}

pub fn delimiters_match(open: char, close: char) -> (r: bool)
    ensures
        r == delimiter_pair(open, close),
{
    (open == '(' && close == ')') || (open == '[' && close == ']') || (open == '{' && close == '}')
}

/// Whether the character at `idx` is escaped by the backslashes before it.
pub fn is_escaped(chars: &[char], idx: usize) -> (r: bool)
    requires
        idx <= chars@.len(),
    ensures
        r == escaped_at(chars@, idx as int),
{
    let mut odd = false;
    let mut before: usize = idx;
    while before > 0 && chars[before - 1] == '\\'
        invariant
            before <= idx <= chars@.len(),
            escaped_at(chars@, idx as int) == (odd != escaped_at(chars@, before as int)),
        decreases before,
    {
        odd = !odd;
        before -= 1;
    }
    odd
}

/// Whether the character at `idx` would open a string.
pub fn is_quote_start(chars: &[char], idx: usize) -> (r: bool)
    requires
        idx < chars@.len(),
    ensures
        r == quote_start(chars@, idx as int),
{
    let c = chars[idx];
    if c == '"' || c == '`' {
        return true;
    }
    if c != '\'' || (idx > 0 && is_word(chars[idx - 1])) {
        return false;
    }
    let mut at: usize = idx + 1;
    while at < chars.len()
        invariant
            idx < at <= chars@.len(),
            chars@[idx as int] == '\'',
            idx == 0 || !word_char(chars@[idx - 1]),
            forall|j: int|
                idx < j < at ==> !(#[trigger] chars@[j] == '\'' && !escaped_at(chars@, j)),
        decreases chars@.len() - at,
    {
        if chars[at] == '\'' && !is_escaped(chars, at) {
            return true;
        }
        at += 1;
    }
    false
}

pub open spec fn opt_int(o: Option<usize>) -> Option<int> {
    match o {
        Some(v) => Some(v as int),
        None => None,
    }
}

pub open spec fn opt_span(o: Option<(usize, usize)>) -> Option<(int, int)> {
    match o {
        Some(v) => Some((v.0 as int, v.1 as int)),
        None => None,
    }
}

/// The syntax of every position of a text.
#[derive(Debug, PartialEq, Eq)]
pub struct SexpSyntax {
    /// The other end of the string or list that has an end here.
    pub pairs: Vec<Option<usize>>,
    /// The position is a quote, a delimiter or inside a string.
    pub syntax: Vec<bool>,
    /// The position is a delimiter outside every string.
    pub structural_delimiter: Vec<bool>,
    /// The span of the string that covers the position.
    pub string_bounds: Vec<Option<(usize, usize)>>,
}

impl SexpSyntax {
    /// The tables describe `chars`.
    pub open spec fn of(&self, chars: Seq<char>) -> bool {
        &&& self.pairs@.len() == chars.len()
        &&& self.syntax@.len() == chars.len()
        &&& self.structural_delimiter@.len() == chars.len()
        &&& self.string_bounds@.len() == chars.len()
        &&& forall|i: int|
            #![trigger self.pairs@[i]]
            0 <= i < chars.len() ==> opt_int(self.pairs@[i]) == pair_of(chars, i)
        &&& forall|i: int|
            #![trigger self.syntax@[i]]
            0 <= i < chars.len() ==> self.syntax@[i] == is_syntax(chars, i)
        &&& forall|i: int|
            #![trigger self.structural_delimiter@[i]]
            0 <= i < chars.len() ==> self.structural_delimiter@[i] == is_structural(chars, i)
        &&& forall|i: int|
            #![trigger self.string_bounds@[i]]
            0 <= i < chars.len() ==> opt_span(self.string_bounds@[i]) == string_at(chars, i)
    }

    /// Scans `chars` once and records the syntax of each position.
    pub fn parse(chars: &[char]) -> (r: Self)
        ensures
            r.of(chars@),
            r.balanced(chars@),
    {
        let len: usize = chars.len();
        let mut pairs: Vec<Option<usize>> = Vec::new();
        let mut syntax: Vec<bool> = Vec::new();
        let mut structural_delimiter: Vec<bool> = Vec::new();
        let mut string_bounds: Vec<Option<(usize, usize)>> = Vec::new();
        let mut delimiters: Vec<(char, usize)> = Vec::new();
        let mut string: Option<(char, usize, bool)> = None;
        let mut idx: usize = 0;
        while idx < len
            invariant
                idx <= len == chars@.len(),
                same_open(delimiters@, scan(chars@, idx as int).open),
                same_string(string, scan(chars@, idx as int).string),
                pairs_until(chars@, pairs@, idx as int),
                bounds_until(chars@, string_bounds@, idx as int),
                syntax@.len() == idx,
                forall|i: int| 0 <= i < idx ==> #[trigger] syntax@[i] == is_syntax(chars@, i),
                structural_delimiter@.len() == idx,
                forall|i: int|
                    0 <= i < idx ==> #[trigger] structural_delimiter@[i] == is_structural(chars@, i),
            decreases len - idx,
        {
            let ch = chars[idx];
            let mut closed: Option<usize> = None;
            let mut closed_string = false;
            let mut is_syn = true;
            let mut is_delim = false;
            proof {
                lemma_scan_facts(chars@, idx as int);
            }
            if let Some((quote, start, escaped)) = string {
                if escaped {
                    string = Some((quote, start, false));
                } else if ch == '\\' {
                    string = Some((quote, start, true));
                } else if ch == quote {
                    closed = Some(start);
                    closed_string = true;
                    string = None;
                }
            } else if is_quote_start(chars, idx) {
                string = Some((ch, idx, false));
            } else if is_opening_delimiter(ch) {
                is_delim = true;
                delimiters.push((ch, idx));
            } else if is_closing_delimiter(ch) {
                is_delim = true;
                if delimiters.len() > 0 && delimiters_match(delimiters[delimiters.len() - 1].0, ch) {
                    closed = Some(delimiters[delimiters.len() - 1].1);
                    delimiters.pop();
                }
            } else {
                is_syn = false;
            }
            assert(same_open(delimiters@, scan(chars@, idx + 1).open));
            assert(same_string(string, scan(chars@, idx + 1).string));
            assert(match closed {
                Some(start) => closes(chars@, start as int, idx as int) && closed_string
                    == closes_string(chars@, start as int, idx as int),
                None => forall|s: int| !closes(chars@, s, idx as int),
            });
            syntax.push(is_syn);
            structural_delimiter.push(is_delim);
            record_pair(chars, &mut pairs, idx, closed);
            record_string(chars, &mut string_bounds, idx, if closed_string {
                closed
            } else {
                None
            });
            idx += 1;
        }
        if let Some((_, start, _)) = string {
            finish_string(chars, &mut string_bounds, start);
        } else {
            proof {
                lemma_bounds_complete(chars@, string_bounds@);
            }
        }
        proof {
            lemma_pairs_complete(chars@, pairs@);
        }
        let tables = SexpSyntax { pairs, syntax, structural_delimiter, string_bounds };
        proof {
            tables_are_balanced(tables, chars@);
        }
        tables
    }
}

pub open spec fn same_open(exec: Seq<(char, usize)>, open: Seq<(char, int)>) -> bool {
    exec.len() == open.len() && forall|k: int|
        #![trigger exec[k]]
        #![trigger open[k]]
        0 <= k < open.len() ==> exec[k].0 == open[k].0 && exec[k].1 == open[k].1
}

pub open spec fn same_string(exec: Option<(char, usize, bool)>, string: Option<OpenString>) -> bool {
    match (exec, string) {
        (Some(e), Some(o)) => e.0 == o.quote && e.1 == o.start && e.2 == o.escaped,
        (None, None) => true,
        _ => false,
    }
}

/// The table of pairs after the first `n` positions.
pub open spec fn pairs_until(chars: Seq<char>, pairs: Seq<Option<usize>>, n: int) -> bool {
    &&& pairs.len() == n
    &&& forall|i: int|
        #![trigger pairs[i]]
        0 <= i < n ==> match pairs[i] {
            Some(j) => j < n && matched(chars, i, j as int),
            None => forall|j: int| j < n ==> !matched(chars, i, j),
        }
}

/// A string that is closed within the first `n` positions.
pub open spec fn closed_span(chars: Seq<char>, s: int, e: int, n: int) -> bool {
    e <= n && opens_string(chars, s) && closes_string(chars, s, e - 1)
}

/// The table of string spans after the first `n` positions.
pub open spec fn bounds_until(
    chars: Seq<char>,
    bounds: Seq<Option<(usize, usize)>>,
    n: int,
) -> bool {
    &&& bounds.len() == n
    &&& forall|i: int|
        #![trigger bounds[i]]
        0 <= i < n ==> match bounds[i] {
            Some(b) => closed_span(chars, b.0 as int, b.1 as int, n) && b.0 <= i < b.1,
            None => forall|s: int, e: int| s <= i < e ==> !closed_span(chars, s, e, n),
        }
}

proof fn lemma_closes_order(chars: Seq<char>, s: int, j: int)
    requires
        closes(chars, s, j),
    ensures
        0 <= s < j < chars.len(),
        closes_string(chars, s, j) ==> opens_string(chars, s),
{
    lemma_scan_facts(chars, j);
}

fn record_pair(chars: &[char], pairs: &mut Vec<Option<usize>>, idx: usize, closed: Option<usize>)
    requires
        idx < chars@.len(),
        pairs_until(chars@, old(pairs)@, idx as int),
        match closed {
            Some(start) => closes(chars@, start as int, idx as int),
            None => forall|s: int| !closes(chars@, s, idx as int),
        },
    ensures
        pairs_until(chars@, final(pairs)@, idx + 1),
{
    let ghost before = pairs@;
    proof {
        assert forall|i: int| #![trigger closes(chars@, idx as int, i)] i <= idx implies !closes(
            chars@,
            idx as int,
            i,
        ) by {
            if closes(chars@, idx as int, i) {
                lemma_closes_order(chars@, idx as int, i);
            }
        }
    }
    pairs.push(closed);
    if let Some(start) = closed {
        proof {
            lemma_closes_order(chars@, start as int, idx as int);
        }
        pairs[start] = Some(idx);
        assert forall|i: int| 0 <= i <= idx && #[trigger] pairs@[i] is None implies forall|j: int|
            j <= idx ==> !matched(chars@, i, j) by {
            assert forall|j: int| j <= idx implies !matched(chars@, i, j) by {
                if matched(chars@, i, j) && j == idx {
                    pairs_are_unique(chars@, idx as int, i, start as int);
                }
                assert(before[i] is None);
            }
        }
    }
}

fn record_string(
    chars: &[char],
    bounds: &mut Vec<Option<(usize, usize)>>,
    idx: usize,
    closed: Option<usize>,
)
    requires
        idx < chars@.len(),
        bounds_until(chars@, old(bounds)@, idx as int),
        match closed {
            Some(start) => closes_string(chars@, start as int, idx as int),
            None => forall|s: int| !closes_string(chars@, s, idx as int),
        },
    ensures
        bounds_until(chars@, final(bounds)@, idx + 1),
{
    let ghost before = bounds@;
    let ghost n = idx + 1;
    bounds.push(None);
    if let Some(start) = closed {
        proof {
            lemma_closes_order(chars@, start as int, idx as int);
        }
        let end: usize = chars.len();
        let mut k: usize = start;
        while k <= idx
            invariant
                start <= k <= idx + 1,
                idx < end,
                end == chars@.len(),
                bounds@.len() == idx + 1,
                forall|i: int|
                    0 <= i <= idx ==> #[trigger] bounds@[i] == (if start <= i < k {
                        Some((start, (idx + 1) as usize))
                    } else if i < idx {
                        before[i]
                    } else {
                        None
                    }),
            decreases idx + 1 - k,
        {
            bounds[k] = Some((start, idx + 1));
            k += 1;
        }
        assert(closed_span(chars@, start as int, idx + 1, idx + 1));
        assert forall|i: int| 0 <= i <= idx && #[trigger] bounds@[i] is None implies forall|
            s: int,
            e: int,
        | s <= i < e ==> !closed_span(chars@, s, e, n) by {
            assert forall|s: int, e: int| s <= i < e implies !closed_span(chars@, s, e, n) by {
                if closed_span(chars@, s, e, n) && e == idx + 1 {
                    assert(matched(chars@, idx as int, s));
                    assert(matched(chars@, idx as int, start as int));
                    pairs_are_unique(chars@, idx as int, s, start as int);
                }
                assert(i < idx && before[i] is None);
                assert(!closed_span(chars@, s, e, idx as int));
            }
        }
    } else {
        assert forall|i: int| 0 <= i <= idx && #[trigger] bounds@[i] is None implies forall|
            s: int,
            e: int,
        | s <= i < e ==> !closed_span(chars@, s, e, n) by {
            assert forall|s: int, e: int| s <= i < e implies !closed_span(chars@, s, e, n) by {
                if i < idx {
                    assert(before[i] is None);
                    assert(!closed_span(chars@, s, e, idx as int));
                }
            }
        }
    }
}

proof fn lemma_pairs_complete(chars: Seq<char>, pairs: Seq<Option<usize>>)
    requires
        pairs_until(chars, pairs, chars.len() as int),
    ensures
        forall|i: int|
            #![trigger pairs[i]]
            0 <= i < chars.len() ==> opt_int(pairs[i]) == pair_of(chars, i),
{
    assert forall|i: int| #![trigger pairs[i]] 0 <= i < chars.len() implies opt_int(pairs[i])
        == pair_of(chars, i) by {
        match pairs[i] {
            Some(j) => lemma_pair_of(chars, i, j as int),
            None => {
                assert forall|j: int| !matched(chars, i, j) by {
                    if matched(chars, i, j) && j >= chars.len() {
                        lemma_closes_order(chars, j, i);
                    }
                }
            },
        }
    }
}

proof fn lemma_bounds_complete(chars: Seq<char>, bounds: Seq<Option<(usize, usize)>>)
    requires
        bounds_until(chars, bounds, chars.len() as int),
        !in_string(chars, chars.len() as int),
    ensures
        forall|i: int|
            #![trigger bounds[i]]
            0 <= i < chars.len() ==> opt_span(bounds[i]) == string_at(chars, i),
{
    let len = chars.len() as int;
    assert forall|i: int| #![trigger bounds[i]] 0 <= i < chars.len() implies opt_span(bounds[i])
        == string_at(chars, i) by {
        match bounds[i] {
            Some(b) => lemma_string_at(chars, b.0 as int, b.1 as int, i),
            None => {
                assert forall|s: int, e: int| s <= i < e implies !string_span(chars, s, e) by {
                    if string_span(chars, s, e) {
                        assert(!closed_span(chars, s, e, len));
                        lemma_open_string_stays(chars, s, len);
                    }
                }
            },
        }
    }
}

fn finish_string(chars: &[char], bounds: &mut Vec<Option<(usize, usize)>>, start: usize)
    requires
        bounds_until(chars@, old(bounds)@, chars@.len() as int),
        scan(chars@, chars@.len() as int).string is Some,
        scan(chars@, chars@.len() as int).string->0.start == start,
    ensures
        final(bounds)@.len() == chars@.len(),
        forall|i: int|
            #![trigger final(bounds)@[i]]
            0 <= i < chars@.len() ==> opt_span(final(bounds)@[i]) == string_at(chars@, i),
{
    let ghost before = bounds@;
    let len: usize = chars.len();
    proof {
        lemma_scan_facts(chars@, len as int);
    }
    let mut k: usize = start;
    while k < len
        invariant
            start <= k <= len == chars@.len(),
            bounds@.len() == len,
            forall|i: int|
                0 <= i < len ==> #[trigger] bounds@[i] == (if start <= i < k {
                    Some((start, len))
                } else {
                    before[i]
                }),
        decreases len - k,
    {
        bounds[k] = Some((start, len));
        k += 1;
    }
    assert(string_span(chars@, start as int, len as int)) by {
        assert forall|j: int| !closes_string(chars@, start as int, j) by {
            if closes_string(chars@, start as int, j) {
                assert(closes(chars@, start as int, j));
            }
        }
    }
    assert forall|i: int| #![trigger bounds@[i]] 0 <= i < len implies opt_span(bounds@[i])
        == string_at(chars@, i) by {
        if start <= i {
            lemma_string_at(chars@, start as int, len as int, i);
        } else {
            match before[i] {
                Some(b) => lemma_string_at(chars@, b.0 as int, b.1 as int, i),
                None => {
                    assert forall|s: int, e: int| s <= i < e implies !string_span(chars@, s, e) by {
                        if string_span(chars@, s, e) {
                            assert(!closed_span(chars@, s, e, len as int));
                            lemma_open_string_stays(chars@, s, len as int);
                        }
                    }
                },
            }
        }
    }
}

/// The start of the run of white space that ends at `i`.
pub open spec fn space_start(chars: Seq<char>, i: int) -> int
    decreases i,
{
    if 0 < i && char_is_whitespace(chars[i - 1]) {
        space_start(chars, i - 1)
    } else {
        i
    }
}

/// A character of an unquoted, undelimited expression.
pub open spec fn atom_char(chars: Seq<char>, i: int) -> bool {
    !char_is_whitespace(chars[i]) && !is_syntax(chars, i)
}

pub open spec fn atom_end(chars: Seq<char>, i: int) -> int
    decreases chars.len() - i,
{
    if i < chars.len() && atom_char(chars, i) {
        atom_end(chars, i + 1)
    } else {
        i
    }
}

pub open spec fn atom_start(chars: Seq<char>, i: int) -> int
    decreases i,
{
    if 0 < i && atom_char(chars, i - 1) {
        atom_start(chars, i - 1)
    } else {
        i
    }
}

pub open spec fn clamped(chars: Seq<char>, cursor: int) -> int {
    if cursor < chars.len() {
        cursor
    } else {
        chars.len() as int
    }
}

/// Where the expression that begins at or after `cursor` ends: a string at its closing quote, a
/// list behind its closing delimiter (the end of the text when it has none), anything else at the
/// next white space or syntax.
pub open spec fn sexp_end(chars: Seq<char>, cursor: int) -> int {
    let i = space_end(chars, clamped(chars, cursor));
    if i >= chars.len() {
        chars.len() as int
    } else if string_at(chars, i) is Some {
        (string_at(chars, i)->0).1
    } else if opening(chars[i]) {
        match pair_of(chars, i) {
            Some(close) => close + 1,
            None => chars.len() as int,
        }
    } else if closing(chars[i]) {
        i + 1
    } else {
        atom_end(chars, i + 1)
    }
}

/// Where the expression that ends at or before `cursor` begins: a string at its opening quote, a
/// list at its opening delimiter (the start of the text when it has none), anything else behind
/// the white space or syntax before it.
pub open spec fn sexp_start(chars: Seq<char>, cursor: int) -> int {
    let i = space_start(chars, clamped(chars, cursor));
    if i <= 0 {
        0
    } else if string_at(chars, i - 1) is Some {
        (string_at(chars, i - 1)->0).0
    } else if closing(chars[i - 1]) {
        match pair_of(chars, i - 1) {
            Some(open) => open,
            None => 0,
        }
    } else if opening(chars[i - 1]) {
        i - 1
    } else {
        atom_start(chars, i - 1)
    }
}

/// A list opens at `i` and is still open at `cursor`, or opens behind it.
pub open spec fn reaches(chars: Seq<char>, i: int, cursor: int) -> bool {
    opening(chars[i]) && is_structural(chars, i) && match pair_of(chars, i) {
        Some(close) => close >= cursor,
        None => true,
    }
}

/// The last list opener before `i` that is still open at `cursor`, or `cursor`.
pub open spec fn enclosing_before(chars: Seq<char>, i: int, cursor: int) -> int
    decreases i,
{
    if i <= 0 {
        cursor
    } else if reaches(chars, i - 1, cursor) {
        i - 1
    } else {
        enclosing_before(chars, i - 1, cursor)
    }
}

/// Behind the first list opener at or after `i`, or `cursor`.
pub open spec fn entered_after(chars: Seq<char>, i: int, cursor: int) -> int
    decreases chars.len() - i,
{
    if i >= chars.len() {
        cursor
    } else if reaches(chars, i, cursor) {
        i + 1
    } else {
        entered_after(chars, i + 1, cursor)
    }
}

/// Both ends of a pair are delimiters outside strings, or both are quotes.
proof fn lemma_pair_kinds(chars: Seq<char>, s: int, j: int)
    requires
        closes(chars, s, j),
    ensures
        0 <= s < j < chars.len(),
        pair_of(chars, s) == Some(j),
        pair_of(chars, j) == Some(s),
        closes_list(chars, s, j) ==> opening(chars[s]) && closing(chars[j]) && !in_string(chars, s)
            && !in_string(chars, j) && string_at(chars, s) is None && string_at(chars, j) is None,
        closes_string(chars, s, j) ==> string_at(chars, s) == Some((s, j + 1)) && string_at(chars, j)
            == Some((s, j + 1)),
{
    lemma_closes_order(chars, s, j);
    lemma_scan_facts(chars, j);
    lemma_pair_of(chars, s, j);
    lemma_pair_of(chars, j, s);
    if closes_string(chars, s, j) {
        lemma_string_at(chars, s, j + 1, s);
        lemma_string_at(chars, s, j + 1, j);
    } else {
        lemma_outside_string(chars, s);
        lemma_outside_string(chars, j);
    }
}

/// A delimiter that the scan meets outside a string lies in no string's span.
proof fn lemma_outside_string(chars: Seq<char>, i: int)
    requires
        0 <= i < chars.len(),
        !in_string(chars, i),
        opening(chars[i]) || closing(chars[i]),
    ensures
        string_at(chars, i) is None,
{
    assert forall|s: int, e: int| s <= i < e implies !string_span(chars, s, e) by {
        if string_span(chars, s, e) {
            lemma_span_inside(chars, s, e);
        }
    }
}

/// The position of the end of the expression that follows `cursor`.
pub fn forward_sexp_end(chars: &[char], cursor: usize) -> (r: usize)
    ensures
        r == sexp_end(chars@, cursor as int),
        r <= chars@.len(),
{
    let syntax = SexpSyntax::parse(chars);
    let len: usize = chars.len();
    let mut idx: usize = if cursor < len {
        cursor
    } else {
        len
    };
    while idx < len && is_whitespace(chars[idx])
        invariant
            idx <= len == chars@.len(),
            space_end(chars@, clamped(chars@, cursor as int)) == space_end(chars@, idx as int),
        decreases len - idx,
    {
        idx += 1;
    }
    if idx == len {
        return idx;
    }
    if let Some((_, end)) = syntax.string_bounds[idx] {
        proof {
            lemma_string_at_bounds(chars@, idx as int);
        }
        return end;
    }
    if is_opening_delimiter(chars[idx]) {
        proof {
            lemma_pair_bounds(chars@, idx as int);
        }
        return match syntax.pairs[idx] {
            Some(pair) => pair + 1,
            None => len,
        };
    }
    if is_closing_delimiter(chars[idx]) {
        return idx + 1;
    }
    idx += 1;
    let ghost begin = idx as int;
    while idx < len && !is_whitespace(chars[idx]) && !syntax.syntax[idx]
        invariant
            idx <= len == chars@.len(),
            syntax.of(chars@),
            atom_end(chars@, begin) == atom_end(chars@, idx as int),
        decreases len - idx,
    {
        idx += 1;
    }
    idx
}

/// The span that covers a position lies in the text.
proof fn lemma_string_at_bounds(chars: Seq<char>, i: int)
    requires
        string_at(chars, i) is Some,
    ensures
        0 <= (string_at(chars, i)->0).0 <= i < (string_at(chars, i)->0).1 <= chars.len(),
{
    let p = string_at(chars, i)->0;
    assert(string_span(chars, p.0, p.1) && p.0 <= i < p.1);
    lemma_span_inside(chars, p.0, p.1);
}

/// Pairs lie in the text; an opening delimiter's comes behind it, a closing one's before it.
proof fn lemma_pair_bounds(chars: Seq<char>, i: int)
    requires
        0 <= i < chars.len(),
    ensures
        pair_of(chars, i) is Some ==> 0 <= pair_of(chars, i)->0 < chars.len(),
        pair_of(chars, i) is Some && string_at(chars, i) is None && opening(chars[i]) ==> pair_of(
            chars,
            i,
        )->0 > i,
        pair_of(chars, i) is Some && string_at(chars, i) is None && closing(chars[i]) ==> pair_of(
            chars,
            i,
        )->0 < i,
{
    if pair_of(chars, i) is Some {
        let j = pair_of(chars, i)->0;
        assert(matched(chars, i, j));
        if closes(chars, i, j) {
            lemma_pair_kinds(chars, i, j);
        } else {
            lemma_pair_kinds(chars, j, i);
        }
    }
}

/// The position of the start of the expression that precedes `cursor`.
pub fn backward_sexp_start(chars: &[char], cursor: usize) -> (r: usize)
    ensures
        r == sexp_start(chars@, cursor as int),
        r <= chars@.len(),
{
    let syntax = SexpSyntax::parse(chars);
    let len: usize = chars.len();
    let mut idx: usize = if cursor < len {
        cursor
    } else {
        len
    };
    while idx > 0 && is_whitespace(chars[idx - 1])
        invariant
            idx <= len == chars@.len(),
            space_start(chars@, clamped(chars@, cursor as int)) == space_start(chars@, idx as int),
        decreases idx,
    {
        idx -= 1;
    }
    if idx == 0 {
        return 0;
    }
    let previous: usize = idx - 1;
    if let Some((start, _)) = syntax.string_bounds[previous] {
        proof {
            lemma_string_at_bounds(chars@, previous as int);
        }
        return start;
    }
    if is_closing_delimiter(chars[previous]) {
        proof {
            lemma_pair_bounds(chars@, previous as int);
        }
        return match syntax.pairs[previous] {
            Some(pair) => pair,
            None => 0,
        };
    }
    if is_opening_delimiter(chars[previous]) {
        return previous;
    }
    idx = previous;
    while idx > 0 && !is_whitespace(chars[idx - 1]) && !syntax.syntax[idx - 1]
        invariant
            previous < len,
            idx <= previous,
            len == chars@.len(),
            syntax.of(chars@),
            atom_start(chars@, previous as int) == atom_start(chars@, idx as int),
        decreases idx,
    {
        idx -= 1;
    }
    idx
}

/// The opener of the innermost list around `cursor`, or `cursor` when there is none.
pub fn backward_up_list_start(chars: &[char], cursor: usize) -> (r: usize)
    ensures
        r == enclosing_before(
            chars@,
            clamped(chars@, cursor as int),
            clamped(chars@, cursor as int),
        ),
        r <= chars@.len(),
{
    let syntax = SexpSyntax::parse(chars);
    let len: usize = chars.len();
    let at: usize = if cursor < len {
        cursor
    } else {
        len
    };
    let mut idx: usize = at;
    while idx > 0
        invariant
            idx <= at <= len == chars@.len(),
            at == clamped(chars@, cursor as int),
            syntax.of(chars@),
            enclosing_before(chars@, at as int, at as int) == enclosing_before(
                chars@,
                idx as int,
                at as int,
            ),
        decreases idx,
    {
        let open: usize = idx - 1;
        if is_opening_delimiter(chars[open]) && syntax.structural_delimiter[open] && ends_at_or_after(
            syntax.pairs[open],
            at,
        ) {
            return open;
        }
        idx = open;
    }
    at
}

/// Behind the opener of the first list that begins at or after `cursor`, or `cursor`.
pub fn down_list_start(chars: &[char], cursor: usize) -> (r: usize)
    ensures
        r == entered_after(chars@, clamped(chars@, cursor as int), clamped(chars@, cursor as int)),
        r <= chars@.len(),
{
    let syntax = SexpSyntax::parse(chars);
    let len: usize = chars.len();
    let at: usize = if cursor < len {
        cursor
    } else {
        len
    };
    let mut idx: usize = at;
    while idx < len
        invariant
            at <= idx <= len == chars@.len(),
            at == clamped(chars@, cursor as int),
            syntax.of(chars@),
            entered_after(chars@, at as int, at as int) == entered_after(
                chars@,
                idx as int,
                at as int,
            ),
        decreases len - idx,
    {
        if is_opening_delimiter(chars[idx]) && syntax.structural_delimiter[idx] && ends_at_or_after(
            syntax.pairs[idx],
            at,
        ) {
            return idx + 1;
        }
        idx += 1;
    }
    at
}

fn ends_at_or_after(pair: Option<usize>, at: usize) -> (r: bool)
    ensures
        r == match opt_int(pair) {
            Some(close) => close >= at,
            None => true,
        },
{
    match pair {
        Some(close) => close >= at,
        None => true,
    }
}

/// Moving forward from a list's opener and backward from behind its closer visit each other.
pub proof fn list_motions_are_inverse(chars: Seq<char>, open: int, close: int)
    requires
        closes_list(chars, open, close),
    ensures
        sexp_end(chars, open) == close + 1,
        sexp_start(chars, close + 1) == open,
{
    lemma_pair_kinds(chars, open, close);
}

/// From anywhere in a string, moving forward leads behind it and moving backward to its start,
/// as long as no white space stands between the position and the next character moved over.
pub proof fn string_motions_cross_the_whole_string(chars: Seq<char>, s: int, e: int, i: int)
    requires
        string_span(chars, s, e),
        s <= i < e,
    ensures
        !char_is_whitespace(chars[i]) ==> sexp_end(chars, i) == e && sexp_start(chars, i + 1) == s,
{
    lemma_string_at(chars, s, e, i);
    lemma_span_inside(chars, s, e);
}

/// Two lists are disjoint or nested: their ends never interleave.
pub proof fn lists_nest(chars: Seq<char>, a: int, b: int, c: int, d: int)
    requires
        closes_list(chars, a, b),
        closes_list(chars, c, d),
        a < c < b,
    ensures
        d < b,
{
    if b < d {
        lemma_scan_facts(chars, d);
        lemma_scan_facts(chars, b);
        lemma_pair_kinds(chars, c, d);
        lemma_pair_kinds(chars, a, b);
        lemma_open_list_stays(chars, c, b, d);
    }
    if b == d {
        pairs_are_unique(chars, b, a, c);
    }
}

/// A list open at a later scan was open at every scan since its opener.
proof fn lemma_open_list_stays(chars: Seq<char>, c: int, n: int, m: int)
    requires
        0 <= c < n <= m <= chars.len(),
        exists|k: int|
            0 <= k < scan(chars, m).open.len() && (#[trigger] scan(chars, m).open[k]).1 == c,
    ensures
        exists|k: int|
            0 <= k < scan(chars, n).open.len() && (#[trigger] scan(chars, n).open[k]).1 == c,
    decreases m,
{
    if n < m {
        let k = choose|k: int|
            0 <= k < scan(chars, m).open.len() && (#[trigger] scan(chars, m).open[k]).1 == c;
        assert(scan(chars, m - 1).open[k].1 == c);
        lemma_open_list_stays(chars, c, n, m - 1);
    }
}

/// Two strings or lists are disjoint or one lies in the other: their ends never interleave.
pub proof fn pairs_never_cross(chars: Seq<char>, a: int, b: int, c: int, d: int)
    requires
        closes(chars, a, b),
        closes(chars, c, d),
        a < c < b,
    ensures
        d < b,
{
    lemma_pair_kinds(chars, a, b);
    lemma_pair_kinds(chars, c, d);
    lemma_closes_order(chars, c, d);
    lemma_scan_facts(chars, d);
    if closes_string(chars, a, b) {
        lemma_closes_order(chars, a, b);
        lemma_span_inside(chars, a, b + 1);
        assert(scan(chars, c).string is Some);
    } else if closes_string(chars, c, d) {
        lemma_span_inside(chars, c, d + 1);
        if b <= d {
            assert(scan(chars, b).string is Some);
        }
    } else {
        lists_nest(chars, a, b, c, d);
    }
}

/// The two characters are the ends of one list, or the same quote.
pub open spec fn ends_match(first: char, last: char) -> bool {
    delimiter_pair(first, last) || (first == last && (first == '"' || first == '`' || first
        == '\''))
}

impl SexpSyntax {
    /// The tables have an entry for each position. Pairs are mutual, their ends match, and no two
    /// pairs cross. A bracket in a string is no delimiter and has no pair.
    pub open spec fn balanced(&self, chars: Seq<char>) -> bool {
        &&& self.pairs@.len() == chars.len()
        &&& self.syntax@.len() == chars.len()
        &&& self.structural_delimiter@.len() == chars.len()
        &&& self.string_bounds@.len() == chars.len()
        &&& forall|i: int|
            #![trigger self.pairs@[i]]
            0 <= i < chars.len() ==> (self.pairs@[i] matches Some(j) ==> {
                &&& j < chars.len()
                &&& i != j
                &&& opt_int(self.pairs@[j as int]) == Some(i)
                &&& ends_match(
                    chars[if i < j { i } else { j as int }],
                    chars[if i < j { j as int } else { i }],
                )
            })
        &&& forall|i: int, k: int|
            #![trigger self.pairs@[i], self.pairs@[k]]
            0 <= i < k < chars.len() ==> (self.pairs@[i] matches Some(j) ==> (
            self.pairs@[k] matches Some(l) ==> !(k < j < l)))
        &&& forall|i: int|
            #![trigger self.string_bounds@[i]]
            0 <= i < chars.len() && self.string_bounds@[i] is Some && (opening(chars[i]) || closing(
                chars[i],
            )) ==> !self.structural_delimiter@[i] && self.pairs@[i] is None
    }
}

proof fn lemma_ends_match(chars: Seq<char>, s: int, j: int)
    requires
        closes(chars, s, j),
    ensures
        0 <= s < j < chars.len(),
        ends_match(chars[s], chars[j]),
{
    lemma_pair_kinds(chars, s, j);
    lemma_scan_facts(chars, j);
}

/// A bracket inside a string is not an end of anything.
proof fn lemma_bracket_in_string(chars: Seq<char>, i: int)
    requires
        0 <= i < chars.len(),
        string_at(chars, i) is Some,
        opening(chars[i]) || closing(chars[i]),
    ensures
        in_string(chars, i),
        pair_of(chars, i) is None,
{
    if !in_string(chars, i) {
        lemma_outside_string(chars, i);
    }
    assert forall|j: int| !matched(chars, i, j) by {
        if closes(chars, i, j) {
            lemma_pair_kinds(chars, i, j);
            lemma_closes_order(chars, i, j);
        }
        if closes(chars, j, i) {
            lemma_pair_kinds(chars, j, i);
            lemma_scan_facts(chars, i);
        }
    }
}

/// The tables of a text are balanced.
pub proof fn tables_are_balanced(tables: SexpSyntax, chars: Seq<char>)
    requires
        tables.of(chars),
    ensures
        tables.balanced(chars),
{
    assert forall|i: int|
        #![trigger tables.pairs@[i]]
        0 <= i < chars.len() && tables.pairs@[i] is Some implies matched(
        chars,
        i,
        tables.pairs@[i]->0 as int,
    ) by {
        assert(opt_int(tables.pairs@[i]) == pair_of(chars, i));
    }
    assert forall|i: int| #![trigger tables.pairs@[i]] 0 <= i < chars.len() implies (
    tables.pairs@[i] matches Some(j) ==> {
        &&& j < chars.len()
        &&& i != j
        &&& opt_int(tables.pairs@[j as int]) == Some(i)
        &&& ends_match(
            chars[if i < j { i } else { j as int }],
            chars[if i < j { j as int } else { i }],
        )
    }) by {
        if let Some(j) = tables.pairs@[i] {
            let j = j as int;
            if closes(chars, i, j) {
                lemma_ends_match(chars, i, j);
            } else {
                lemma_ends_match(chars, j, i);
            }
            lemma_pair_of(chars, j, i);
            assert(opt_int(tables.pairs@[j]) == pair_of(chars, j));
        }
    }
    assert forall|i: int, k: int|
        #![trigger tables.pairs@[i], tables.pairs@[k]]
        0 <= i < k < chars.len() implies (tables.pairs@[i] matches Some(j) ==> (
    tables.pairs@[k] matches Some(l) ==> !(k < j < l))) by {
        if tables.pairs@[i] is Some && tables.pairs@[k] is Some {
            let j = tables.pairs@[i]->0 as int;
            let l = tables.pairs@[k]->0 as int;
            if k < j < l {
                if closes(chars, j, i) {
                    lemma_closes_order(chars, j, i);
                }
                if closes(chars, l, k) {
                    lemma_closes_order(chars, l, k);
                }
                pairs_never_cross(chars, i, j, k, l);
            }
        }
    }
    assert forall|i: int|
        #![trigger tables.string_bounds@[i]]
        0 <= i < chars.len() && tables.string_bounds@[i] is Some && (opening(chars[i]) || closing(
            chars[i],
        )) implies !tables.structural_delimiter@[i] && tables.pairs@[i] is None by {
        assert(opt_span(tables.string_bounds@[i]) == string_at(chars, i));
        lemma_bracket_in_string(chars, i);
        assert(opt_int(tables.pairs@[i]) == pair_of(chars, i));
        assert(tables.structural_delimiter@[i] == is_structural(chars, i));
    }
}

/// Motions stay inside the text and move in their own direction.
pub proof fn sexp_motions_are_bounded(chars: Seq<char>, cursor: int)
    requires
        0 <= cursor <= chars.len(),
    ensures
        cursor <= sexp_end(chars, cursor) <= chars.len(),
        0 <= sexp_start(chars, cursor) <= cursor,
        0 <= enclosing_before(chars, cursor, cursor) <= cursor,
        cursor <= entered_after(chars, cursor, cursor) <= chars.len(),
{
    lemma_space_end(chars, cursor);
    let i = space_end(chars, cursor);
    if i < chars.len() {
        if string_at(chars, i) is Some {
            lemma_string_at_bounds(chars, i);
        }
        lemma_pair_bounds(chars, i);
        lemma_atom_end(chars, i + 1);
    }
    lemma_space_start(chars, cursor);
    let j = space_start(chars, cursor);
    if j > 0 {
        if string_at(chars, j - 1) is Some {
            lemma_string_at_bounds(chars, j - 1);
        }
        lemma_pair_bounds(chars, j - 1);
        lemma_atom_start(chars, j - 1);
    }
    lemma_enclosing(chars, cursor, cursor);
    lemma_entered(chars, cursor, cursor);
}

proof fn lemma_space_start(chars: Seq<char>, i: int)
    requires
        0 <= i,
    ensures
        0 <= space_start(chars, i) <= i,
    decreases i,
{
    if 0 < i && char_is_whitespace(chars[i - 1]) {
        lemma_space_start(chars, i - 1);
    }
}

proof fn lemma_atom_end(chars: Seq<char>, i: int)
    requires
        i <= chars.len(),
    ensures
        i <= atom_end(chars, i) <= chars.len(),
    decreases chars.len() - i,
{
    if i < chars.len() && atom_char(chars, i) {
        lemma_atom_end(chars, i + 1);
    }
}

proof fn lemma_atom_start(chars: Seq<char>, i: int)
    requires
        0 <= i,
    ensures
        0 <= atom_start(chars, i) <= i,
    decreases i,
{
    if 0 < i && atom_char(chars, i - 1) {
        lemma_atom_start(chars, i - 1);
    }
}

proof fn lemma_enclosing(chars: Seq<char>, i: int, cursor: int)
    requires
        0 <= i <= cursor,
    ensures
        0 <= enclosing_before(chars, i, cursor) <= cursor,
    decreases i,
{
    if 0 < i && !reaches(chars, i - 1, cursor) {
        lemma_enclosing(chars, i - 1, cursor);
    }
}

proof fn lemma_entered(chars: Seq<char>, i: int, cursor: int)
    requires
        0 <= cursor <= i <= chars.len(),
    ensures
        cursor <= entered_after(chars, i, cursor) <= chars.len(),
    decreases chars.len() - i,
{
    if i < chars.len() && !reaches(chars, i, cursor) {
        lemma_entered(chars, i + 1, cursor);
    }
}

/// A bracket of any kind.
pub open spec fn is_bracket(c: char) -> bool {
    c == '(' || c == ')' || c == '[' || c == ']' || c == '{' || c == '}'
}

/// No character is a quote of any kind.
pub open spec fn unquoted(chars: Seq<char>) -> bool {
    forall|k: int|
        0 <= k < chars.len() ==> #[trigger] chars[k] != '"' && chars[k] != '`' && chars[k] != '\''
}

proof fn lemma_unquoted(chars: Seq<char>, n: int)
    requires
        unquoted(chars),
        0 <= n <= chars.len(),
    ensures
        !in_string(chars, n),
    decreases n,
{
    if n > 0 {
        lemma_unquoted(chars, n - 1);
        assert(chars[n - 1] != '"');
    }
}

proof fn lemma_no_strings(chars: Seq<char>, i: int)
    requires
        unquoted(chars),
        0 <= i < chars.len(),
    ensures
        string_at(chars, i) is None,
        is_syntax(chars, i) == is_bracket(chars[i]),
        is_structural(chars, i) == is_bracket(chars[i]),
{
    lemma_unquoted(chars, i);
    assert(chars[i] != '"');
    assert forall|s: int, e: int| !string_span(chars, s, e) by {
        if string_span(chars, s, e) {
            assert(chars[s] != '"');
        }
    }
}

proof fn lemma_spaces_skipped(chars: Seq<char>, cursor: int, i: int)
    requires
        0 <= cursor <= i <= chars.len(),
        forall|k: int| cursor <= k < i ==> char_is_whitespace(#[trigger] chars[k]),
        i < chars.len() ==> !char_is_whitespace(chars[i]),
    ensures
        space_end(chars, cursor) == i,
    decreases i - cursor,
{
    if cursor < i {
        assert(char_is_whitespace(chars[cursor]));
        lemma_spaces_skipped(chars, cursor + 1, i);
    }
}

proof fn lemma_spaces_skipped_back(chars: Seq<char>, i: int, cursor: int)
    requires
        0 <= i <= cursor <= chars.len(),
        forall|k: int| i <= k < cursor ==> char_is_whitespace(#[trigger] chars[k]),
        i > 0 ==> !char_is_whitespace(chars[i - 1]),
    ensures
        space_start(chars, cursor) == i,
    decreases cursor - i,
{
    if i < cursor {
        assert(char_is_whitespace(chars[cursor - 1]));
        lemma_spaces_skipped_back(chars, i, cursor - 1);
    }
}

proof fn lemma_atom_end_facts(chars: Seq<char>, i: int)
    requires
        unquoted(chars),
        0 <= i <= chars.len(),
    ensures
        i <= atom_end(chars, i) <= chars.len(),
        forall|k: int|
            i <= k < atom_end(chars, i) ==> !char_is_whitespace(#[trigger] chars[k]) && !is_bracket(
                chars[k],
            ),
        atom_end(chars, i) < chars.len() ==> char_is_whitespace(chars[atom_end(chars, i)])
            || is_bracket(chars[atom_end(chars, i)]),
    decreases chars.len() - i,
{
    if i < chars.len() {
        lemma_no_strings(chars, i);
        if atom_char(chars, i) {
            lemma_atom_end_facts(chars, i + 1);
        }
    }
}

proof fn lemma_atom_start_facts(chars: Seq<char>, i: int)
    requires
        unquoted(chars),
        0 <= i <= chars.len(),
    ensures
        0 <= atom_start(chars, i) <= i,
        forall|k: int|
            atom_start(chars, i) <= k < i ==> !char_is_whitespace(#[trigger] chars[k])
                && !is_bracket(chars[k]),
        atom_start(chars, i) > 0 ==> char_is_whitespace(chars[atom_start(chars, i) - 1])
            || is_bracket(chars[atom_start(chars, i) - 1]),
    decreases i,
{
    if i > 0 {
        lemma_no_strings(chars, i - 1);
        if atom_char(chars, i - 1) {
            lemma_atom_start_facts(chars, i - 1);
        }
    }
}

/// Outside quotes and brackets an expression is a run of characters that are neither white space nor
/// brackets: moving forward skips the white space and goes to the end of the run. At the end of the
/// text, or with white space alone before it, moving forward goes to the end.
pub proof fn forward_over_a_symbol(chars: Seq<char>, cursor: int, i: int)
    requires
        unquoted(chars),
        0 <= cursor <= i <= chars.len(),
        forall|k: int| cursor <= k < i ==> char_is_whitespace(#[trigger] chars[k]),
        i < chars.len() ==> !char_is_whitespace(chars[i]) && !is_bracket(chars[i]),
    ensures
        ({
            let e = sexp_end(chars, cursor);
            &&& i == chars.len() ==> e == chars.len()
            &&& i < chars.len() ==> i < e <= chars.len()
            &&& forall|k: int|
                i <= k < e ==> !char_is_whitespace(#[trigger] chars[k]) && !is_bracket(chars[k])
            &&& e < chars.len() ==> char_is_whitespace(chars[e]) || is_bracket(chars[e])
        }),
{
    lemma_spaces_skipped(chars, cursor, i);
    if i < chars.len() {
        lemma_no_strings(chars, i);
        lemma_atom_end_facts(chars, i + 1);
    }
}

/// Moving backward over such a run goes to its start.
pub proof fn backward_over_a_symbol(chars: Seq<char>, i: int, cursor: int)
    requires
        unquoted(chars),
        0 <= i <= cursor <= chars.len(),
        forall|k: int| i <= k < cursor ==> char_is_whitespace(#[trigger] chars[k]),
        i > 0 ==> !char_is_whitespace(chars[i - 1]) && !is_bracket(chars[i - 1]),
    ensures
        ({
            let b = sexp_start(chars, cursor);
            &&& i == 0 ==> b == 0
            &&& i > 0 ==> 0 <= b < i
            &&& forall|k: int|
                b <= k < i ==> !char_is_whitespace(#[trigger] chars[k]) && !is_bracket(chars[k])
            &&& b > 0 ==> char_is_whitespace(chars[b - 1]) || is_bracket(chars[b - 1])
        }),
{
    lemma_spaces_skipped_back(chars, i, cursor);
    if i > 0 {
        lemma_no_strings(chars, i - 1);
        lemma_atom_start_facts(chars, i - 1);
    }
}

/// How many of the characters from `a` to `b` are `c`.
pub open spec fn count_of(chars: Seq<char>, a: int, b: int, c: char) -> int
    decreases b - a,
{
    if b <= a {
        0
    } else {
        count_of(chars, a, b - 1, c) + (if chars[b - 1] == c {
            1int
        } else {
            0int
        })
    }
}

/// The brackets of a text are all round ones.
pub open spec fn only_round(chars: Seq<char>) -> bool {
    forall|k: int|
        0 <= k < chars.len() && is_bracket(#[trigger] chars[k]) ==> chars[k] == '(' || chars[k]
            == ')'
}

/// The list that opens at `i` closes at `j`: there, for the first time, as many brackets have closed
/// as have opened.
pub open spec fn round_list(chars: Seq<char>, i: int, j: int) -> bool {
    &&& 0 <= i < j < chars.len()
    &&& chars[i] == '('
    &&& count_of(chars, i, j + 1, '(') == count_of(chars, i, j + 1, ')')
    &&& forall|m: int|
        i < m <= j ==> count_of(chars, i, m, '(') > #[trigger] count_of(chars, i, m, ')')
}

proof fn lemma_depth(chars: Seq<char>, i: int, j: int, n: int)
    requires
        unquoted(chars),
        only_round(chars),
        round_list(chars, i, j),
        i < n <= j,
    ensures
        ({
            let before = scan(chars, i).open;
            let open = scan(chars, n).open;
            &&& open.len() == before.len() + count_of(chars, i, n, '(') - count_of(chars, i, n, ')')
            &&& open.len() > before.len()
            &&& open[before.len() as int] == ('(', i)
            &&& forall|k: int| 0 <= k < open.len() - before.len() ==> (
            #[trigger] open[before.len() + k]).0 == '('
        }),
    decreases n,
{
    lemma_unquoted(chars, n - 1);
    lemma_unquoted(chars, i);
    lemma_scan_facts(chars, n - 1);
    assert(chars[n - 1] != '"');
    assert(count_of(chars, i, n, '(') > count_of(chars, i, n, ')'));
    if n - 1 == i {
        assert(count_of(chars, i, i, '(') == 0);
        assert(count_of(chars, i, i, ')') == 0);
    } else {
        lemma_depth(chars, i, j, n - 1);
        let before = scan(chars, i).open;
        let open = scan(chars, n - 1).open;
        let top = open.len() - before.len() - 1;
        assert(open[before.len() + top].0 == '(');
        if is_bracket(chars[n - 1]) {
            assert(chars[n - 1] == '(' || chars[n - 1] == ')');
        }
        let after = scan(chars, n).open;
        assert forall|k: int| 0 <= k < after.len() - before.len() implies (
        #[trigger] after[before.len() + k]).0 == '(' by {
            if k < open.len() - before.len() {
                assert(open[before.len() + k].0 == '(');
            }
        }
    }
}

/// Lists nest as their brackets do: moving forward from a list's opening bracket goes behind the
/// bracket at which as many have closed as have opened, and moving backward from there goes back.
pub proof fn lists_end_where_brackets_balance(chars: Seq<char>, i: int, j: int)
    requires
        unquoted(chars),
        only_round(chars),
        round_list(chars, i, j),
    ensures
        sexp_end(chars, i) == j + 1,
        sexp_start(chars, j + 1) == i,
        pair_of(chars, i) == Some(j),
        pair_of(chars, j) == Some(i),
{
    lemma_depth(chars, i, j, j);
    lemma_unquoted(chars, j);
    assert(count_of(chars, i, j, '(') > count_of(chars, i, j, ')'));
    assert(chars[j] == ')');
    let before = scan(chars, i).open;
    let open = scan(chars, j).open;
    assert(open.len() == before.len() + 1);
    assert(closes_list(chars, i, j));
    list_motions_are_inverse(chars, i, j);
    lemma_pair_kinds(chars, i, j);
}

/// A string in double quotes is crossed as a whole, from quote to quote, brackets in it and all.
pub proof fn strings_are_crossed(chars: Seq<char>, s: int, e: int)
    requires
        0 <= s < e < chars.len(),
        chars[s] == '"',
        chars[e] == '"',
        forall|k: int|
            0 <= k < s ==> #[trigger] chars[k] != '"' && chars[k] != '`' && chars[k] != '\'',
        forall|k: int| s < k < e ==> #[trigger] chars[k] != '"' && chars[k] != '\\',
    ensures
        sexp_end(chars, s) == e + 1,
        sexp_start(chars, e + 1) == s,
{
    lemma_outside_before(chars, s);
    lemma_inside_until(chars, s, e, e);
    assert(closes_string(chars, s, e));
    assert(opens_string(chars, s));
    assert(string_span(chars, s, e + 1));
    string_motions_cross_the_whole_string(chars, s, e + 1, s);
    string_motions_cross_the_whole_string(chars, s, e + 1, e);
}

proof fn lemma_outside_before(chars: Seq<char>, n: int)
    requires
        0 <= n <= chars.len(),
        forall|k: int|
            0 <= k < n ==> #[trigger] chars[k] != '"' && chars[k] != '`' && chars[k] != '\'',
    ensures
        !in_string(chars, n),
    decreases n,
{
    if n > 0 {
        lemma_outside_before(chars, n - 1);
        assert(chars[n - 1] != '"');
    }
}

proof fn lemma_inside_until(chars: Seq<char>, s: int, e: int, n: int)
    requires
        0 <= s < n <= e < chars.len(),
        !in_string(chars, s),
        chars[s] == '"',
        forall|k: int| s < k < e ==> #[trigger] chars[k] != '"' && chars[k] != '\\',
    ensures
        scan(chars, n).string == Some(OpenString { quote: '"', start: s, escaped: false }),
    decreases n,
{
    if n > s + 1 {
        lemma_inside_until(chars, s, e, n - 1);
        assert(chars[n - 1] != '"');
    }
}

proof fn lemma_enclosing_facts(chars: Seq<char>, i: int, cursor: int)
    requires
        0 <= i <= cursor <= chars.len(),
    ensures
        ({
            let r = enclosing_before(chars, i, cursor);
            ||| 0 <= r < i && reaches(chars, r, cursor) && forall|k: int|
                r < k < i ==> !#[trigger] reaches(chars, k, cursor)
            ||| r == cursor && forall|k: int| 0 <= k < i ==> !#[trigger] reaches(chars, k, cursor)
        }),
    decreases i,
{
    if i > 0 && !reaches(chars, i - 1, cursor) {
        lemma_enclosing_facts(chars, i - 1, cursor);
    }
}

proof fn lemma_entered_facts(chars: Seq<char>, i: int, cursor: int)
    requires
        0 <= cursor <= i <= chars.len(),
    ensures
        ({
            let r = entered_after(chars, i, cursor);
            ||| i < r <= chars.len() && reaches(chars, r - 1, cursor) && forall|k: int|
                i <= k < r - 1 ==> !#[trigger] reaches(chars, k, cursor)
            ||| r == cursor && forall|k: int|
                i <= k < chars.len() ==> !#[trigger] reaches(chars, k, cursor)
        }),
    decreases chars.len() - i,
{
    if i < chars.len() && !reaches(chars, i, cursor) {
        lemma_entered_facts(chars, i + 1, cursor);
    }
}

/// The way up from inside a list, with no bracket between its opening one and the cursor, leads to
/// that bracket; with no opening bracket before the cursor it leads nowhere.
pub proof fn the_way_up_leads_to_the_opener(chars: Seq<char>, open: int, cursor: int)
    requires
        unquoted(chars),
        0 <= cursor <= chars.len(),
    ensures
        0 <= open < cursor && (chars[open] == '(' || chars[open] == '[' || chars[open] == '{') && (
        forall|k: int| open < k < cursor ==> !is_bracket(#[trigger] chars[k])) ==> enclosing_before(
            chars,
            cursor,
            cursor,
        ) == open,
        (forall|k: int|
            0 <= k < cursor ==> #[trigger] chars[k] != '(' && chars[k] != '[' && chars[k] != '{')
            ==> enclosing_before(chars, cursor, cursor) == cursor,
{
    lemma_enclosing_facts(chars, cursor, cursor);
    let r = enclosing_before(chars, cursor, cursor);
    if 0 <= open < cursor && opening(chars[open]) && (forall|k: int|
        open < k < cursor ==> !is_bracket(#[trigger] chars[k])) {
        lemma_no_strings(chars, open);
        lemma_unquoted(chars, open);
        if pair_of(chars, open) is Some {
            let close = pair_of(chars, open)->0;
            assert(matched(chars, open, close));
            lemma_pair_bounds(chars, open);
            if closes(chars, open, close) {
                lemma_pair_kinds(chars, open, close);
            } else {
                lemma_pair_kinds(chars, close, open);
            }
            if close < cursor {
                assert(!is_bracket(chars[close]));
            }
        }
        assert(reaches(chars, open, cursor));
        if open < r < cursor {
            assert(!is_bracket(chars[r]));
        }
    }
    if r != cursor {
        assert(opening(chars[r]));
    }
}

/// The way down leads into the next list: behind the first opening bracket at or after the cursor.
/// With none there it leads nowhere.
pub proof fn the_way_down_leads_into_a_list(chars: Seq<char>, open: int, cursor: int)
    requires
        unquoted(chars),
        0 <= cursor <= chars.len(),
    ensures
        cursor <= open < chars.len() && (chars[open] == '(' || chars[open] == '[' || chars[open]
            == '{') && (forall|k: int|
            cursor <= k < open ==> #[trigger] chars[k] != '(' && chars[k] != '[' && chars[k] != '{')
            ==> entered_after(chars, cursor, cursor) == open + 1,
        (forall|k: int|
            cursor <= k < chars.len() ==> #[trigger] chars[k] != '(' && chars[k] != '[' && chars[k]
                != '{') ==> entered_after(chars, cursor, cursor) == cursor,
{
    lemma_entered_facts(chars, cursor, cursor);
    let r = entered_after(chars, cursor, cursor);
    if cursor <= open < chars.len() && opening(chars[open]) {
        lemma_no_strings(chars, open);
        lemma_pair_bounds(chars, open);
        assert(reaches(chars, open, cursor));
    }
    if r > cursor {
        assert(opening(chars[r - 1]));
    }
}

} // verus!
