//! The doc-text normalizer: splits a multi-line text block into lines and
//! strips the indentation that they share, in the manner of Python's PEP 257
//! `trim`.
//!
//! Tabs become four spaces. The first line is stripped on both sides. Every
//! other line loses the smallest indentation of the non-blank lines after the
//! first, and its trailing whitespace; a blank line becomes empty. Empty lines
//! at the start and at the end are dropped.
use vstd::prelude::*;
use crate::text::{chars_of, string_of};

verus! {

/// Width of one level of indentation, and of a tab.
pub const SHIFTWIDTH: usize = 4;

/// The Unicode `White_Space` characters.
pub open spec fn is_ws(c: char) -> bool {
    ||| c == ' '
    ||| '\t' <= c <= '\r'
    ||| c == '\u{85}'
    ||| c == '\u{A0}'
    ||| c == '\u{1680}'
    ||| '\u{2000}' <= c <= '\u{200A}'
    ||| c == '\u{2028}'
    ||| c == '\u{2029}'
    ||| c == '\u{202F}'
    ||| c == '\u{205F}'
    ||| c == '\u{3000}'
}

/// What a character becomes when tabs are expanded.
pub open spec fn expand_char(c: char) -> Seq<char> {
    if c == '\t' {
        seq![' ', ' ', ' ', ' ']
    } else {
        seq![c]
    }
}

/// `s` with every tab replaced by four spaces.
pub open spec fn expand_tabs(s: Seq<char>) -> Seq<char>
    decreases s.len(),
{
    if s.len() == 0 {
        seq![]
    } else {
        expand_tabs(s.drop_last()) + expand_char(s.last())
    }
}

/// The lines of `s`: the pieces between newlines, so one more than there are
/// newlines (the piece after a final newline is empty).
pub open spec fn split_lines(s: Seq<char>) -> Seq<Seq<char>>
    decreases s.len(),
{
    if s.len() == 0 {
        seq![seq![]]
    } else {
        let prev = split_lines(s.drop_last());
        if s.last() == '\n' {
            prev.push(seq![])
        } else {
            prev.update(prev.len() - 1, prev.last().push(s.last()))
        }
    }
}

/// Number of whitespace characters at the start of `l`.
pub open spec fn leading_ws(l: Seq<char>) -> nat
    decreases l.len(),
{
    if l.len() > 0 && is_ws(l[0]) {
        1 + leading_ws(l.drop_first())
    } else {
        0
    }
}

/// `l` holds nothing but whitespace.
pub open spec fn is_blank(l: Seq<char>) -> bool {
    leading_ws(l) == l.len()
}

/// `l` without its trailing whitespace.
pub open spec fn rstrip(l: Seq<char>) -> Seq<char>
    decreases l.len(),
{
    if l.len() > 0 && is_ws(l.last()) {
        rstrip(l.drop_last())
    } else {
        l
    }
}

/// `l` without its leading and trailing whitespace.
pub open spec fn strip(l: Seq<char>) -> Seq<char> {
    rstrip(l.skip(leading_ws(l) as int))
}

/// The smallest indentation of the non-blank lines of `ls`, if there is one.
pub open spec fn min_indent(ls: Seq<Seq<char>>) -> Option<nat>
    decreases ls.len(),
{
    if ls.len() == 0 {
        None
    } else {
        let m = min_indent(ls.drop_last());
        let l = ls.last();
        if is_blank(l) {
            m
        } else {
            match m {
                None => Some(leading_ws(l)),
                Some(x) => Some(
                    if leading_ws(l) < x {
                        leading_ws(l)
                    } else {
                        x
                    },
                ),
            }
        }
    }
}

/// The indentation to strip from the lines `ls`.
pub open spec fn common_indent(ls: Seq<Seq<char>>) -> nat {
    match min_indent(ls) {
        Some(m) => m,
        None => 0,
    }
}

/// A line after the first, with `ind` columns of indentation taken off.
pub open spec fn dedent_line(l: Seq<char>, ind: nat) -> Seq<char> {
    if is_blank(l) {
        seq![]
    } else {
        rstrip(l.skip(ind as int))
    }
}

/// Every line of `ls` with `ind` columns of indentation taken off.
pub open spec fn dedent_lines(ls: Seq<Seq<char>>, ind: nat) -> Seq<Seq<char>> {
    ls.map_values(|l: Seq<char>| dedent_line(l, ind))
}

/// The lines with the first stripped and the others dedented.
pub open spec fn normalize(lines: Seq<Seq<char>>) -> Seq<Seq<char>> {
    let rest = lines.skip(1);
    seq![strip(lines[0])] + dedent_lines(rest, common_indent(rest))
}

/// `ls` without its empty lines at the start.
pub open spec fn drop_leading_empty(ls: Seq<Seq<char>>) -> Seq<Seq<char>>
    decreases ls.len(),
{
    if ls.len() > 0 && ls[0].len() == 0 {
        drop_leading_empty(ls.drop_first())
    } else {
        ls
    }
}

/// `ls` without its empty lines at the end.
pub open spec fn drop_trailing_empty(ls: Seq<Seq<char>>) -> Seq<Seq<char>>
    decreases ls.len(),
{
    if ls.len() > 0 && ls.last().len() == 0 {
        drop_trailing_empty(ls.drop_last())
    } else {
        ls
    }
}

/// The normalized lines of the text block `s`.
pub open spec fn dedent(s: Seq<char>) -> Seq<Seq<char>> {
    drop_leading_empty(drop_trailing_empty(normalize(split_lines(expand_tabs(s)))))
}

/// The character contents of a sequence of strings.
pub open spec fn texts(v: Seq<String>) -> Seq<Seq<char>> {
    v.map_values(|x: String| x@)
}

/// The character contents of a sequence of character vectors.
pub open spec fn char_lines(v: Seq<Vec<char>>) -> Seq<Seq<char>> {
    v.map_values(|x: Vec<char>| x@)
}

pub proof fn lemma_leading_ws_exact(l: Seq<char>, j: nat)
    requires
        j <= l.len(),
        forall|k: int| 0 <= k < j ==> is_ws(#[trigger] l[k]),
        j == l.len() || !is_ws(l[j as int]),
    ensures
        leading_ws(l) == j,
    decreases j,
{
    if j > 0 {
        lemma_leading_ws_exact(l.drop_first(), (j - 1) as nat);
    }
}

pub proof fn lemma_leading_ws_bounds(l: Seq<char>)
    ensures
        leading_ws(l) <= l.len(),
        forall|k: int| 0 <= k < leading_ws(l) ==> is_ws(#[trigger] l[k]),
        leading_ws(l) < l.len() ==> !is_ws(l[leading_ws(l) as int]),
    decreases l.len(),
{
    if l.len() > 0 && is_ws(l[0]) {
        lemma_leading_ws_bounds(l.drop_first());
        assert forall|k: int| 0 <= k < leading_ws(l) implies is_ws(#[trigger] l[k]) by {
            if k > 0 {
                assert(l[k] == l.drop_first()[k - 1]);
            }
        }
    }
}

pub proof fn lemma_rstrip_exact(l: Seq<char>, j: nat)
    requires
        j <= l.len(),
        forall|k: int| j <= k < l.len() ==> is_ws(#[trigger] l[k]),
        j == 0 || !is_ws(l[j - 1]),
    ensures
        rstrip(l) == l.subrange(0, j as int),
    decreases l.len(),
{
    if l.len() > j {
        lemma_rstrip_exact(l.drop_last(), j);
        assert(l.drop_last().subrange(0, j as int) =~= l.subrange(0, j as int));
    } else {
        assert(l.subrange(0, j as int) =~= l);
    }
}

/// `l` holds no newline and no tab.
pub open spec fn no_newline_or_tab(l: Seq<char>) -> bool {
    forall|j: int| 0 <= j < l.len() ==> l[j] != '\n' && l[j] != '\t'
}

/// A line as the normalizer leaves it: no newline, no tab and no trailing
/// whitespace.
pub open spec fn is_clean_line(l: Seq<char>) -> bool {
    &&& no_newline_or_tab(l)
    &&& (l.len() == 0 || !is_ws(l.last()))
}

proof fn lemma_expand_tabs_no_tab(s: Seq<char>)
    ensures
        forall|j: int| 0 <= j < expand_tabs(s).len() ==> expand_tabs(s)[j] != '\t',
    decreases s.len(),
{
    if s.len() > 0 {
        lemma_expand_tabs_no_tab(s.drop_last());
        let prev = expand_tabs(s.drop_last());
        let piece = expand_char(s.last());
        assert forall|j: int| 0 <= j < expand_tabs(s).len() implies expand_tabs(s)[j] != '\t' by {
            if j >= prev.len() {
                assert(expand_tabs(s)[j] == piece[j - prev.len()]);
            }
        }
    }
}

/// Without tabs, expanding tabs changes nothing.
pub proof fn lemma_expand_tabs_id(s: Seq<char>)
    requires
        forall|j: int| 0 <= j < s.len() ==> s[j] != '\t',
    ensures
        expand_tabs(s) == s,
    decreases s.len(),
{
    if s.len() > 0 {
        lemma_expand_tabs_id(s.drop_last());
        assert(s.drop_last() + seq![s.last()] =~= s);
    }
}

pub proof fn lemma_split_lines_len(x: Seq<char>)
    ensures
        split_lines(x).len() >= 1,
    decreases x.len(),
{
    if x.len() > 0 {
        lemma_split_lines_len(x.drop_last());
    }
}

proof fn lemma_split_lines_no_newline(x: Seq<char>)
    requires
        forall|j: int| 0 <= j < x.len() ==> x[j] != '\t',
    ensures
        forall|i: int| 0 <= i < split_lines(x).len() ==> no_newline_or_tab(
            #[trigger] split_lines(x)[i],
        ),
    decreases x.len(),
{
    if x.len() > 0 {
        lemma_split_lines_len(x.drop_last());
        lemma_split_lines_no_newline(x.drop_last());
        let prev = split_lines(x.drop_last());
        assert(x.last() == x[x.len() - 1]);
        assert forall|i: int| 0 <= i < split_lines(x).len() implies no_newline_or_tab(
            #[trigger] split_lines(x)[i],
        ) by {
            if i < prev.len() {
                assert(no_newline_or_tab(prev[i]));
            }
        }
    }
}

pub proof fn lemma_rstrip_prefix(l: Seq<char>)
    ensures
        rstrip(l).len() <= l.len(),
        rstrip(l) == l.subrange(0, rstrip(l).len() as int),
        rstrip(l).len() == 0 || !is_ws(rstrip(l).last()),
    decreases l.len(),
{
    if l.len() > 0 && is_ws(l.last()) {
        lemma_rstrip_prefix(l.drop_last());
        assert(l.drop_last().subrange(0, rstrip(l).len() as int) =~= l.subrange(
            0,
            rstrip(l).len() as int,
        ));
    } else {
        assert(l.subrange(0, l.len() as int) =~= l);
    }
}

/// What is left of a line without newline or tab once its start is cut off
/// and its trailing whitespace stripped is a clean line.
proof fn lemma_rstrip_skip_clean(l: Seq<char>, from: int)
    requires
        0 <= from <= l.len(),
        no_newline_or_tab(l),
    ensures
        is_clean_line(rstrip(l.skip(from))),
{
    let t = l.skip(from);
    lemma_rstrip_prefix(t);
    let r = rstrip(t);
    assert forall|j: int| 0 <= j < r.len() implies r[j] != '\n' && r[j] != '\t' by {
        assert(r[j] == l[j + from]);
    }
}

proof fn lemma_drop_trailing_empty(ls: Seq<Seq<char>>)
    ensures
        drop_trailing_empty(ls).len() <= ls.len(),
        forall|i: int|
            0 <= i < drop_trailing_empty(ls).len() ==> #[trigger] drop_trailing_empty(ls)[i]
                == ls[i],
        drop_trailing_empty(ls).len() == 0 || drop_trailing_empty(ls).last().len() > 0,
    decreases ls.len(),
{
    if ls.len() > 0 && ls.last().len() == 0 {
        lemma_drop_trailing_empty(ls.drop_last());
    }
}

proof fn lemma_drop_leading_empty(ls: Seq<Seq<char>>)
    ensures
        drop_leading_empty(ls).len() <= ls.len(),
        forall|i: int|
            0 <= i < drop_leading_empty(ls).len() ==> #[trigger] drop_leading_empty(ls)[i]
                == ls[i + ls.len() - drop_leading_empty(ls).len()],
        drop_leading_empty(ls).len() == 0 || drop_leading_empty(ls)[0].len() > 0,
    decreases ls.len(),
{
    if ls.len() > 0 && ls[0].len() == 0 {
        lemma_drop_leading_empty(ls.drop_first());
    }
}

/// The normalizer's output: clean lines, the first and the last not empty.
pub proof fn lemma_dedent_clean(s: Seq<char>)
    ensures
        forall|i: int| 0 <= i < dedent(s).len() ==> is_clean_line(#[trigger] dedent(s)[i]),
        dedent(s).len() == 0 || (dedent(s)[0].len() > 0 && dedent(s).last().len() > 0),
{
    let e = expand_tabs(s);
    lemma_expand_tabs_no_tab(s);
    let ls = split_lines(e);
    lemma_split_lines_len(e);
    lemma_split_lines_no_newline(e);
    let rest = ls.skip(1);
    let ind = common_indent(rest);
    let n = normalize(ls);
    assert forall|i: int| 0 <= i < n.len() implies is_clean_line(#[trigger] n[i]) by {
        if i == 0 {
            assert(no_newline_or_tab(ls[0]));
            lemma_leading_ws_bounds(ls[0]);
            lemma_rstrip_skip_clean(ls[0], leading_ws(ls[0]) as int);
        } else {
            let l = rest[i - 1];
            assert(l == ls[i]);
            assert(no_newline_or_tab(ls[i]));
            if !is_blank(l) {
                lemma_min_indent_le(rest, i - 1);
                lemma_leading_ws_bounds(l);
                lemma_rstrip_skip_clean(l, ind as int);
            }
        }
    }
    let t = drop_trailing_empty(n);
    lemma_drop_trailing_empty(n);
    lemma_drop_leading_empty(t);
    let o = drop_leading_empty(t);
    assert forall|i: int| 0 <= i < o.len() implies is_clean_line(#[trigger] o[i]) by {
        assert(o[i] == t[i + t.len() - o.len()]);
        assert(t[i + t.len() - o.len()] == n[i + t.len() - o.len()]);
    }
    if o.len() > 0 {
        assert(o.last() == t[o.len() - 1 + t.len() - o.len()]);
    }
}

/// Whether `c` is whitespace.
pub fn is_whitespace(c: char) -> (r: bool)
    ensures
        r == is_ws(c),
{
    c == ' ' || ('\t' <= c && c <= '\r') || c == '\u{85}' || c == '\u{A0}' || c == '\u{1680}'
        || ('\u{2000}' <= c && c <= '\u{200A}') || c == '\u{2028}' || c == '\u{2029}' || c
        == '\u{202F}' || c == '\u{205F}' || c == '\u{3000}'
}

/// Number of whitespace characters at the start of `l`.
pub fn leading_whitespace(l: &Vec<char>) -> (r: usize)
    ensures
        r == leading_ws(l@),
        r <= l.len(),
{
    let mut i: usize = 0;
    while i < l.len() && is_whitespace(l[i])
        invariant
            i <= l.len(),
            forall|k: int| 0 <= k < i ==> is_ws(#[trigger] l@[k]),
        decreases l.len() - i,
    {
        i = i + 1;
    }
    proof {
        lemma_leading_ws_exact(l@, i as nat);
    }
    i
}

/// `l` from position `from` on, without its trailing whitespace.
fn rstrip_from(l: &Vec<char>, from: usize) -> (r: Vec<char>)
    requires
        from <= l.len(),
    ensures
        r@ == rstrip(l@.skip(from as int)),
{
    let mut end: usize = l.len();
    while end > from && is_whitespace(l[end - 1])
        invariant
            from <= end <= l.len(),
            forall|k: int| end <= k < l.len() ==> is_ws(#[trigger] l@[k]),
        decreases end,
    {
        end = end - 1;
    }
    let mut r: Vec<char> = Vec::new();
    let mut i: usize = from;
    while i < end
        invariant
            from <= i <= end <= l.len(),
            r@ == l@.subrange(from as int, i as int),
        decreases end - i,
    {
        r.push(l[i]);
        i = i + 1;
        assert(r@ =~= l@.subrange(from as int, i as int));
    }
    proof {
        let t = l@.skip(from as int);
        assert forall|k: int| end - from <= k < t.len() implies is_ws(#[trigger] t[k]) by {
            assert(t[k] == l@[k + from]);
        }
        lemma_rstrip_exact(t, (end - from) as nat);
        assert(t.subrange(0, end - from) =~= r@);
    }
    r
}

/// The smallest indentation is at most that of every non-blank line.
pub proof fn lemma_min_indent_le(ls: Seq<Seq<char>>, k: int)
    requires
        0 <= k < ls.len(),
        !is_blank(ls[k]),
    ensures
        min_indent(ls) matches Some(m) && m <= leading_ws(ls[k]),
    decreases ls.len(),
{
    if k < ls.len() - 1 {
        lemma_min_indent_le(ls.drop_last(), k);
    }
}

/// `chars` with every tab replaced by four spaces.
fn expand_tab_chars(chars: &Vec<char>) -> (r: Vec<char>)
    ensures
        r@ == expand_tabs(chars@),
{
    let mut expanded: Vec<char> = Vec::new();
    let mut i: usize = 0;
    while i < chars.len()
        invariant
            i <= chars.len(),
            expanded@ == expand_tabs(chars@.subrange(0, i as int)),
        decreases chars.len() - i,
    {
        let c = chars[i];
        let ghost before = expanded@;
        if c == '\t' {
            let mut k: usize = 0;
            while k < SHIFTWIDTH
                invariant
                    k <= SHIFTWIDTH,
                    expanded@ == before + Seq::new(k as nat, |j: int| ' '),
                decreases SHIFTWIDTH - k,
            {
                expanded.push(' ');
                k = k + 1;
                assert(expanded@ =~= before + Seq::new(k as nat, |j: int| ' '));
            }
            assert(expanded@ =~= before + expand_char(c));
        } else {
            expanded.push(c);
            assert(expanded@ =~= before + expand_char(c));
        }
        assert(chars@.subrange(0, i + 1).drop_last() =~= chars@.subrange(0, i as int));
        i = i + 1;
    }
    assert(chars@.subrange(0, i as int) =~= chars@);
    expanded
}

/// The lines of `text`, split at newlines.
fn split_newlines(text: &Vec<char>) -> (r: Vec<Vec<char>>)
    ensures
        char_lines(r@) == split_lines(text@),
        r.len() >= 1,
{
    let mut lines: Vec<Vec<char>> = Vec::new();
    let mut cur: Vec<char> = Vec::new();
    let mut i: usize = 0;
    while i < text.len()
        invariant
            i <= text.len(),
            char_lines(lines@).push(cur@) == split_lines(text@.subrange(0, i as int)),
        decreases text.len() - i,
    {
        let c = text[i];
        assert(text@.subrange(0, i + 1).drop_last() =~= text@.subrange(0, i as int));
        if c == '\n' {
            let done = cur;
            lines.push(done);
            cur = Vec::new();
        } else {
            cur.push(c);
        }
        i = i + 1;
        assert(char_lines(lines@).push(cur@) =~= split_lines(text@.subrange(0, i as int)));
    }
    lines.push(cur);
    assert(text@.subrange(0, i as int) =~= text@);
    assert(char_lines(lines@) =~= split_lines(text@));
    lines
}

/// The indentation to strip from the lines after the first.
fn rest_indent(lines: &Vec<Vec<char>>) -> (r: usize)
    requires
        lines.len() >= 1,
    ensures
        r == common_indent(char_lines(lines@).skip(1)),
{
    let ghost rest = char_lines(lines@).skip(1);
    let mut min: Option<usize> = None;
    let mut i: usize = 1;
    while i < lines.len()
        invariant
            1 <= i <= lines.len(),
            rest == char_lines(lines@).skip(1),
            (match min {
                Some(m) => Some(m as nat),
                None => None,
            }) == min_indent(rest.subrange(0, i - 1)),
        decreases lines.len() - i,
    {
        let lead = leading_whitespace(&lines[i]);
        let ghost upto = rest.subrange(0, i as int);
        assert(upto.drop_last() =~= rest.subrange(0, i - 1));
        assert(upto.last() == lines@[i as int]@);
        if lead < lines[i].len() {
            min = match min {
                None => Some(lead),
                Some(m) => Some(
                    if lead < m {
                        lead
                    } else {
                        m
                    },
                ),
            };
        }
        i = i + 1;
    }
    assert(rest.subrange(0, i - 1) =~= rest);
    match min {
        Some(m) => m,
        None => 0,
    }
}

/// The first line stripped, the others dedented by the common indentation.
fn normalize_lines(lines: &Vec<Vec<char>>) -> (r: Vec<Vec<char>>)
    requires
        lines.len() >= 1,
    ensures
        char_lines(r@) == normalize(char_lines(lines@)),
{
    let ghost ls = char_lines(lines@);
    let ghost rest = ls.skip(1);
    let ind = rest_indent(lines);
    let mut out: Vec<Vec<char>> = Vec::new();
    let lead0 = leading_whitespace(&lines[0]);
    proof {
        lemma_leading_ws_bounds(ls[0]);
    }
    out.push(rstrip_from(&lines[0], lead0));
    assert(char_lines(out@) =~= seq![strip(ls[0])] + dedent_lines(rest.subrange(0, 0), ind as nat));
    let mut i: usize = 1;
    while i < lines.len()
        invariant
            1 <= i <= lines.len(),
            ls == char_lines(lines@),
            rest == ls.skip(1),
            ind == common_indent(rest),
            char_lines(out@) == seq![strip(ls[0])] + dedent_lines(
                rest.subrange(0, i - 1),
                ind as nat,
            ),
        decreases lines.len() - i,
    {
        let lead = leading_whitespace(&lines[i]);
        assert(lines@[i as int]@ == rest[i - 1]);
        let line = if lead == lines[i].len() {
            Vec::new()
        } else {
            proof {
                lemma_min_indent_le(rest, i - 1);
                lemma_leading_ws_bounds(rest[i - 1]);
            }
            rstrip_from(&lines[i], ind)
        };
        let ghost l = line@;
        let ghost before = out@;
        assert(l == dedent_line(rest[i - 1], ind as nat));
        out.push(line);
        assert(char_lines(out@) =~= char_lines(before).push(l));
        assert(dedent_lines(rest.subrange(0, i as int), ind as nat) =~= dedent_lines(rest.subrange(0, i - 1), ind as nat).push(l));
        i = i + 1;
        assert(char_lines(out@) =~= seq![strip(ls[0])] + dedent_lines(
            rest.subrange(0, i - 1),
            ind as nat,
        ));
    }
    assert(rest.subrange(0, i - 1) =~= rest);
    out
}

/// The bounds of `lines` without its empty lines at both ends.
fn nonempty_span(lines: &Vec<Vec<char>>) -> (r: (usize, usize))
    ensures
        r.0 <= r.1 <= lines.len(),
        drop_leading_empty(drop_trailing_empty(char_lines(lines@))) == char_lines(
            lines@,
        ).subrange(r.0 as int, r.1 as int),
{
    let ghost ls = char_lines(lines@);
    let mut end: usize = lines.len();
    assert(ls.subrange(0, end as int) =~= ls);
    while end > 0 && lines[end - 1].len() == 0
        invariant
            end <= lines.len(),
            ls == char_lines(lines@),
            drop_trailing_empty(ls) == drop_trailing_empty(ls.subrange(0, end as int)),
        decreases end,
    {
        assert(ls.subrange(0, end as int).drop_last() =~= ls.subrange(0, end - 1));
        end = end - 1;
    }
    let ghost kept = ls.subrange(0, end as int);
    assert(drop_trailing_empty(kept) == kept);
    let mut start: usize = 0;
    assert(kept.subrange(0, end as int) =~= kept);
    while start < end && lines[start].len() == 0
        invariant
            start <= end <= lines.len(),
            ls == char_lines(lines@),
            kept == ls.subrange(0, end as int),
            drop_leading_empty(kept) == drop_leading_empty(kept.subrange(start as int, end as int)),
        decreases end - start,
    {
        assert(kept.subrange(start as int, end as int).drop_first() =~= kept.subrange(
            start + 1,
            end as int,
        ));
        start = start + 1;
    }
    assert(kept.subrange(start as int, end as int) =~= ls.subrange(start as int, end as int));
    (start, end)
}

/// Given a multi-line string, split it into a sequence of lines after
/// stripping a common indentation, as described in the "trim" function
/// from PEP 257. This is useful for strings defined with doc strings:
/// `"\n    hello\n    world\n"` gives `["hello", "world"]`.
pub fn parse_multiline(s: &str) -> (r: Vec<String>)
    ensures
        texts(r@) == dedent(s@),
{
    let chars = chars_of(s);
    let expanded = expand_tab_chars(&chars);
    let lines = split_newlines(&expanded);
    let out = normalize_lines(&lines);
    let (start, end) = nonempty_span(&out);
    let ghost norm = char_lines(out@);
    let mut res: Vec<String> = Vec::new();
    let mut i: usize = start;
    while i < end
        invariant
            start <= i <= end <= out.len(),
            norm == char_lines(out@),
            texts(res@) == norm.subrange(start as int, i as int),
        decreases end - i,
    {
        let line = string_of(&out[i]);
        let ghost before = res@;
        let ghost l = line@;
        assert(l == norm[i as int]);
        res.push(line);
        assert(texts(res@) =~= texts(before).push(l));
        assert(norm.subrange(start as int, i + 1) =~= norm.subrange(start as int, i as int).push(l));
        i = i + 1;
    }
    res
}

} // verus!
