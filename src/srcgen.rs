//! Source code generator: an indentation-tracking line buffer with comment
//! helpers, and the deduplication of the arms of a generated `match`.
use vstd::prelude::*;
use crate::dedent::{
    SHIFTWIDTH,
    common_indent,
    dedent,
    dedent_lines,
    drop_leading_empty,
    drop_trailing_empty,
    expand_tabs,
    is_blank,
    is_clean_line,
    is_ws,
    leading_whitespace,
    leading_ws,
    lemma_dedent_clean,
    lemma_expand_tabs_id,
    lemma_leading_ws_bounds,
    lemma_min_indent_le,
    lemma_split_lines_len,
    min_indent,
    normalize,
    parse_multiline,
    rstrip,
    split_lines,
    strip,
    texts,
};
use crate::text::{chars_of, push_char};

verus! {

/// `n` spaces.
pub open spec fn spaces(n: nat) -> Seq<char> {
    Seq::new(n, |i: int| ' ')
}

/// The whitespace that starts a line at indentation level `level`.
pub open spec fn indent_text(level: nat) -> Seq<char> {
    spaces((SHIFTWIDTH * level) as nat)
}

/// The line that `contents` becomes at indentation level `level`: indented
/// and ended by a newline; empty contents give a bare newline.
pub open spec fn line_text(level: nat, contents: Seq<char>) -> Seq<char> {
    if contents.len() == 0 {
        seq!['\n']
    } else {
        indent_text(level) + contents + seq!['\n']
    }
}

/// The lines that `ls` become at indentation level `level`.
pub open spec fn lines_text(level: nat, ls: Seq<Seq<char>>) -> Seq<Seq<char>> {
    ls.map_values(|l: Seq<char>| line_text(level, l))
}

/// The lines of the documentation comment holding the text block `doc`.
pub open spec fn doc_comment_lines(level: nat, doc: Seq<char>) -> Seq<Seq<char>> {
    dedent(doc).map_values(|l: Seq<char>| line_text(level, "/// "@ + l))
}

/// All of `ls`, one after the other.
pub open spec fn concat(ls: Seq<Seq<char>>) -> Seq<char>
    decreases ls.len(),
{
    if ls.len() == 0 {
        seq![]
    } else {
        concat(ls.drop_last()) + ls.last()
    }
}

/// A line at indentation level `level`, without its newline.
pub open spec fn indented(level: nat, l: Seq<char>) -> Seq<char> {
    if l.len() == 0 {
        seq![]
    } else {
        indent_text(level) + l
    }
}

/// Nothing is left to strip from the lines `ls`: the first does not start
/// with whitespace, and the smallest indentation of the non-blank lines after
/// it, if there are any, is zero.
pub open spec fn is_flush_left(ls: Seq<Seq<char>>) -> bool {
    ls.len() == 0 || (leading_ws(ls[0]) == 0 && (min_indent(ls.skip(1)) is None || min_indent(
        ls.skip(1),
    ) == Some(0nat)))
}

proof fn lemma_split_append(a: Seq<char>, t: Seq<char>)
    requires
        forall|j: int| 0 <= j < t.len() ==> t[j] != '\n',
    ensures
        split_lines(a + t) == split_lines(a).update(
            split_lines(a).len() - 1,
            split_lines(a).last() + t,
        ),
    decreases t.len(),
{
    lemma_split_lines_len(a);
    if t.len() == 0 {
        assert(a + t =~= a);
        assert(split_lines(a).last() + t =~= split_lines(a).last());
        assert(split_lines(a).update(split_lines(a).len() - 1, split_lines(a).last())
            =~= split_lines(a));
    } else {
        lemma_split_append(a, t.drop_last());
        assert((a + t).drop_last() =~= a + t.drop_last());
        assert((a + t).last() == t[t.len() - 1]);
        assert((split_lines(a).last() + t.drop_last()).push(t.last()) =~= split_lines(a).last()
            + t);
        assert(split_lines(a + t) =~= split_lines(a).update(
            split_lines(a).len() - 1,
            split_lines(a).last() + t,
        ));
    }
}

/// The text of lines emitted at one level splits back into those lines,
/// indented, and the empty piece after the last newline.
proof fn lemma_split_lines_text(level: nat, ls: Seq<Seq<char>>)
    requires
        forall|i: int| 0 <= i < ls.len() ==> is_clean_line(#[trigger] ls[i]),
    ensures
        split_lines(concat(lines_text(level, ls))) == ls.map_values(
            |l: Seq<char>| indented(level, l),
        ).push(seq![]),
    decreases ls.len(),
{
    if ls.len() == 0 {
        assert(ls.map_values(|l: Seq<char>| indented(level, l)).push(seq![]) =~= seq![seq![]]);
    } else {
        let prev = ls.drop_last();
        lemma_split_lines_text(level, prev);
        assert(lines_text(level, ls).drop_last() =~= lines_text(level, prev));
        let x = concat(lines_text(level, prev));
        let r = indented(level, ls.last());
        assert(is_clean_line(ls[ls.len() - 1]));
        assert forall|j: int| 0 <= j < r.len() implies r[j] != '\n' by {
            if j >= indent_text(level).len() {
                assert(r[j] == ls.last()[j - indent_text(level).len()]);
            }
        }
        lemma_split_append(x, r);
        assert(line_text(level, ls.last()) =~= r + seq!['\n']);
        assert(concat(lines_text(level, ls)) =~= (x + r).push('\n'));
        assert((x + r).push('\n').drop_last() =~= x + r);
        assert(split_lines(concat(lines_text(level, ls))) =~= ls.map_values(
            |l: Seq<char>| indented(level, l),
        ).push(seq![]));
    }
}

/// The text of clean lines holds no tab.
proof fn lemma_text_no_tab(level: nat, ls: Seq<Seq<char>>)
    requires
        forall|i: int| 0 <= i < ls.len() ==> is_clean_line(#[trigger] ls[i]),
    ensures
        forall|j: int|
            0 <= j < concat(lines_text(level, ls)).len() ==> concat(lines_text(level, ls))[j]
                != '\t',
    decreases ls.len(),
{
    if ls.len() > 0 {
        let prev = ls.drop_last();
        lemma_text_no_tab(level, prev);
        assert(lines_text(level, ls).drop_last() =~= lines_text(level, prev));
        let x = concat(lines_text(level, prev));
        let l = ls.last();
        assert(is_clean_line(ls[ls.len() - 1]));
        let t = line_text(level, l);
        assert forall|j: int| 0 <= j < t.len() implies t[j] != '\t' by {
            if l.len() > 0 && indent_text(level).len() <= j < indent_text(level).len() + l.len() {
                assert(t[j] == l[j - indent_text(level).len()]);
            }
        }
        assert forall|j: int|
            0 <= j < concat(lines_text(level, ls)).len() implies concat(lines_text(level, ls))[j]
            != '\t' by {
            if j >= x.len() {
                assert(concat(lines_text(level, ls))[j] == t[j - x.len()]);
            }
        }
    }
}

proof fn lemma_leading_ws_spaces(k: nat, l: Seq<char>)
    ensures
        leading_ws(spaces(k) + l) == k + leading_ws(l),
        (spaces(k) + l).skip(k as int) == l,
    decreases k,
{
    if k > 0 {
        lemma_leading_ws_spaces((k - 1) as nat, l);
        assert((spaces(k) + l).drop_first() =~= spaces((k - 1) as nat) + l);
    }
    assert((spaces(k) + l).skip(k as int) =~= l);
}

/// Indenting lines adds the indentation to their smallest indentation.
proof fn lemma_min_indent_shift(level: nat, ls: Seq<Seq<char>>)
    ensures
        min_indent(ls.map_values(|l: Seq<char>| indented(level, l))) == match min_indent(ls) {
            Some(m) => Some(m + indent_text(level).len()),
            None => None,
        },
    decreases ls.len(),
{
    if ls.len() > 0 {
        let prev = ls.drop_last();
        lemma_min_indent_shift(level, prev);
        let mapped = ls.map_values(|l: Seq<char>| indented(level, l));
        assert(mapped.drop_last() =~= prev.map_values(|l: Seq<char>| indented(level, l)));
        let l = ls.last();
        assert(mapped.last() == indented(level, l));
        lemma_leading_ws_spaces(indent_text(level).len(), l);
        assert(indent_text(level) =~= spaces(indent_text(level).len()));
    }
}

/// A clean line that is not empty is not blank.
proof fn lemma_clean_not_blank(l: Seq<char>)
    requires
        is_clean_line(l),
        l.len() > 0,
    ensures
        !is_blank(l),
{
    lemma_leading_ws_bounds(l);
    if is_blank(l) {
        assert(is_ws(l[l.len() - 1]));
    }
}

/// A clean line loses nothing to stripping its end.
proof fn lemma_rstrip_clean(l: Seq<char>)
    requires
        is_clean_line(l),
    ensures
        rstrip(l) == l,
{
}

/// Dedent idempotence: emitting the normalizer's output at any indentation
/// level and normalizing that text again gives the same lines, where the
/// output has nothing left to strip (as when the text block's first line is
/// not blank).
pub proof fn lemma_dedent_idempotent(s: Seq<char>, level: nat)
    requires
        is_flush_left(dedent(s)),
    ensures
        dedent(concat(lines_text(level, dedent(s)))) == dedent(s),
{
    let o = dedent(s);
    lemma_dedent_clean(s);
    let k = indent_text(level).len();
    let text = concat(lines_text(level, o));
    lemma_text_no_tab(level, o);
    lemma_expand_tabs_id(text);
    lemma_split_lines_text(level, o);
    let ind_lines = o.map_values(|l: Seq<char>| indented(level, l));
    let ls = ind_lines.push(seq![]);
    assert(split_lines(expand_tabs(text)) == ls);
    if o.len() == 0 {
        assert(ls =~= seq![seq![]]);
        assert(strip(seq![]) =~= seq![]);
        assert(normalize(ls) =~= seq![seq![]]);
        let empty = Seq::<Seq<char>>::empty();
        assert(normalize(ls).drop_last() =~= empty);
        assert(drop_trailing_empty(normalize(ls)) == drop_trailing_empty(empty));
        assert(drop_trailing_empty(empty) == empty);
        assert(drop_leading_empty(empty) == empty);
        assert(dedent(text) =~= o);
    } else {
        // The first line.
        assert(o[0].len() > 0);
        assert(ls[0] == indent_text(level) + o[0]);
        assert(indent_text(level) =~= spaces(k));
        lemma_leading_ws_spaces(k, o[0]);
        assert(is_clean_line(o[0]));
        lemma_rstrip_clean(o[0]);
        assert(strip(ls[0]) == o[0]);
        // The others.
        let rest = ls.skip(1);
        let orest = o.skip(1);
        let irest = orest.map_values(|l: Seq<char>| indented(level, l));
        assert(rest =~= irest.push(seq![]));
        assert(rest.drop_last() =~= irest);
        lemma_min_indent_shift(level, orest);
        assert(min_indent(rest) == min_indent(irest));
        let ind = common_indent(rest);
        assert forall|i: int| 0 <= i < rest.len() implies #[trigger] dedent_lines(rest, ind)[i]
            == o.push(seq![])[i + 1] by {
            if i < orest.len() {
                let l = orest[i];
                assert(l == o[i + 1]);
                assert(is_clean_line(o[i + 1]));
                if l.len() > 0 {
                    lemma_clean_not_blank(l);
                    lemma_min_indent_le(orest, i);
                    assert(min_indent(orest) == Some(0nat));
                    assert(ind == k);
                    lemma_leading_ws_spaces(k, l);
                    assert(rest[i] == spaces(k) + l);
                    assert(!is_blank(rest[i]));
                    lemma_rstrip_clean(l);
                } else {
                    assert(rest[i] == Seq::<char>::empty());
                }
            }
        }
        assert(normalize(ls) =~= o.push(seq![]));
        assert(o.push(seq![]).drop_last() =~= o);
        assert(drop_trailing_empty(o.push(seq![])) == drop_trailing_empty(o));
        assert(o.last() == o[o.len() - 1]);
    }
}

/// Source code formatter.
///
/// - Collect source code to be written to a file.
/// - Keep track of indentation.
pub struct Formatter {
    indent: usize,
    lines: Vec<String>,
}

impl Formatter {
    /// Current indentation level.
    pub closed spec fn level(&self) -> nat {
        self.indent as nat
    }

    /// The lines emitted so far, each with its newline.
    pub closed spec fn text_lines(&self) -> Seq<Seq<char>> {
        texts(self.lines@)
    }

    /// The text that the formatter holds.
    pub open spec fn text(&self) -> Seq<char> {
        concat(self.text_lines())
    }

    pub fn new() -> (r: Formatter)
        ensures
            r.level() == 0,
            r.text_lines() == Seq::<Seq<char>>::empty(),
    {
        let r = Formatter { indent: 0, lines: Vec::new() };
        assert(r.text_lines() =~= Seq::<Seq<char>>::empty());
        r
    }

    /// Increase current indentation level by one.
    pub fn _indent_push(&mut self)
        requires
            old(self).level() < usize::MAX,
        ensures
            final(self).level() == old(self).level() + 1,
            final(self).text_lines() == old(self).text_lines(),
    {
        self.indent = self.indent + 1;
    }

    /// Decrease indentation by one level. Popping at the top level is a
    /// logic error: an unchecked caller that does it panics.
    pub fn _indent_pop(&mut self)
        requires
            old(self).level() > 0,
        ensures
            final(self).level() == old(self).level() - 1,
            final(self).text_lines() == old(self).text_lines(),
    {
        self.indent = self.indent.checked_sub(1).expect("Already at top level indentation");
    }

    /// Current indentation level.
    pub fn indent_level(&self) -> (r: usize)
        ensures
            r == self.level(),
    {
        self.indent
    }

    /// The lines emitted so far.
    pub fn lines(&self) -> (r: &Vec<String>)
        ensures
            texts(r@) == self.text_lines(),
    {
        &self.lines
    }

    /// Get the current whitespace indentation in the form of a String.
    pub fn get_indent(&self) -> (r: String)
        ensures
            r@ == indent_text(self.level()),
    {
        spaces_string(self.indent)
    }

    /// Get a string containing whitespace outdented one level, for lines
    /// of code that close an indented block.
    pub fn _get_outdent(&self) -> (r: String)
        ensures
            r@ == indent_text(if self.level() > 0 { (self.level() - 1) as nat } else { 0 }),
    {
        if self.indent == 0 {
            spaces_string(0)
        } else {
            spaces_string(self.indent - 1)
        }
    }

    /// Add an indented line.
    pub fn line(&mut self, contents: &str)
        ensures
            final(self).level() == old(self).level(),
            final(self).text_lines() == old(self).text_lines().push(
                line_text(old(self).level(), contents@),
            ),
    {
        let mut l = if contents.is_empty() {
            String::new()
        } else {
            let mut l = self.get_indent();
            l.append(contents);
            l
        };
        push_char(&mut l, '\n');
        assert(l@ =~= line_text(self.level(), contents@));
        self.lines.push(l);
        assert(self.text_lines() =~= old(self).text_lines().push(
            line_text(old(self).level(), contents@),
        ));
    }

    /// Emit a line outdented one level.
    pub fn _outdented_line(&mut self, s: &str)
        ensures
            final(self).level() == old(self).level(),
            final(self).text_lines() == old(self).text_lines().push(
                indent_text(
                    if old(self).level() > 0 {
                        (old(self).level() - 1) as nat
                    } else {
                        0
                    },
                ) + s@ + seq!['\n'],
            ),
    {
        let mut l = self._get_outdent();
        l.append(s);
        push_char(&mut l, '\n');
        let ghost lv = l@;
        assert(lv =~= indent_text(
            if old(self).level() > 0 {
                (old(self).level() - 1) as nat
            } else {
                0
            },
        ) + s@ + seq!['\n']);
        self.lines.push(l);
        assert(self.text_lines() =~= old(self).text_lines().push(lv));
    }

    /// The text of all lines, in the order they were emitted: what a file
    /// written from this formatter holds.
    pub fn contents(&self) -> (r: String)
        ensures
            r@ == self.text(),
    {
        let mut r = String::new();
        let mut i: usize = 0;
        while i < self.lines.len()
            invariant
                i <= self.lines.len(),
                r@ == concat(texts(self.lines@).subrange(0, i as int)),
            decreases self.lines.len() - i,
        {
            r.append(self.lines[i].as_str());
            proof {
                let ls = texts(self.lines@).subrange(0, i + 1);
                assert(ls.drop_last() =~= texts(self.lines@).subrange(0, i as int));
            }
            i = i + 1;
        }
        assert(texts(self.lines@).subrange(0, i as int) =~= self.text_lines());
        r
    }

    /// Add one or more lines after stripping common indentation.
    pub fn _multi_line(&mut self, s: &str)
        ensures
            final(self).level() == old(self).level(),
            final(self).text_lines() == old(self).text_lines() + lines_text(
                old(self).level(),
                dedent(s@),
            ),
    {
        let ls = parse_multiline(s);
        let mut i: usize = 0;
        while i < ls.len()
            invariant
                i <= ls.len(),
                texts(ls@) == dedent(s@),
                self.level() == old(self).level(),
                self.text_lines() == old(self).text_lines() + lines_text(
                    old(self).level(),
                    texts(ls@).subrange(0, i as int),
                ),
            decreases ls.len() - i,
        {
            self.line(ls[i].as_str());
            i = i + 1;
            assert(self.text_lines() =~= old(self).text_lines() + lines_text(
                old(self).level(),
                texts(ls@).subrange(0, i as int),
            ));
        }
        assert(texts(ls@).subrange(0, i as int) =~= texts(ls@));
    }

    /// Add a comment line.
    pub fn _comment(&mut self, s: &str)
        ensures
            final(self).level() == old(self).level(),
            final(self).text_lines() == old(self).text_lines().push(
                line_text(old(self).level(), "// "@ + s@),
            ),
    {
        let mut l = String::from_str("// ");
        l.append(s);
        self.line(l.as_str());
    }

    /// Add a (multi-line) documentation comment.
    pub fn doc_comment(&mut self, contents: &str)
        ensures
            final(self).level() == old(self).level(),
            final(self).text_lines() == old(self).text_lines() + doc_comment_lines(
                old(self).level(),
                contents@,
            ),
    {
        let ls = parse_multiline(contents);
        let mut i: usize = 0;
        while i < ls.len()
            invariant
                i <= ls.len(),
                texts(ls@) == dedent(contents@),
                self.level() == old(self).level(),
                self.text_lines() == old(self).text_lines() + texts(ls@).subrange(
                    0,
                    i as int,
                ).map_values(|l: Seq<char>| line_text(old(self).level(), "/// "@ + l)),
            decreases ls.len() - i,
        {
            let mut l = String::from_str("/// ");
            l.append(ls[i].as_str());
            self.line(l.as_str());
            i = i + 1;
            assert(self.text_lines() =~= old(self).text_lines() + texts(ls@).subrange(
                0,
                i as int,
            ).map_values(|l: Seq<char>| line_text(old(self).level(), "/// "@ + l)));
        }
        assert(texts(ls@).subrange(0, i as int) =~= texts(ls@));
    }
}

/// A block of lines one level deeper than the lines around it, with a line
/// to emit after it, one level out again.
pub struct _IndentedScope {
    fmt: Formatter,
    after: Option<String>,
}

impl _IndentedScope {
    pub closed spec fn formatter(&self) -> Formatter {
        self.fmt
    }

    pub closed spec fn after(&self) -> Option<Seq<char>> {
        match self.after {
            Some(a) => Some(a@),
            None => None,
        }
    }

    /// Enter the block: one level deeper.
    pub fn _enter(&mut self)
        requires
            old(self).formatter().level() < usize::MAX,
        ensures
            final(self).formatter().level() == old(self).formatter().level() + 1,
            final(self).formatter().text_lines() == old(self).formatter().text_lines(),
            final(self).after() == old(self).after(),
    {
        self.fmt._indent_push();
    }

    /// Leave the block: one level out, then the line that closes it.
    pub fn _exit(&mut self)
        requires
            old(self).formatter().level() > 0,
        ensures
            final(self).formatter().level() == old(self).formatter().level() - 1,
            final(self).formatter().text_lines() == old(self).formatter().text_lines() + match old(
                self,
            ).after() {
                Some(a) => seq![line_text((old(self).formatter().level() - 1) as nat, a)],
                None => Seq::<Seq<char>>::empty(),
            },
            final(self).after() == old(self).after(),
    {
        self.fmt._indent_pop();
        if let Some(ref s) = self.after {
            self.fmt.line(s.as_str());
        }
        assert(self.fmt.text_lines() =~= old(self).formatter().text_lines() + match old(
            self,
        ).after() {
            Some(a) => seq![line_text((old(self).formatter().level() - 1) as nat, a)],
            None => Seq::<Seq<char>>::empty(),
        });
    }

    /// The formatter, with what the block emitted.
    pub fn into_formatter(self) -> (r: Formatter)
        ensures
            r == self.formatter(),
    {
        self.fmt
    }
}

impl Formatter {
    /// Return a scope for a block of lines that are indented one level:
    /// `before` is emitted first, at the current level, and `after` once the
    /// scope is left.
    pub fn _indented(self, before: Option<&str>, after: Option<&str>) -> (r: _IndentedScope)
        ensures
            r.formatter().level() == self.level(),
            r.formatter().text_lines() == self.text_lines() + match before {
                Some(b) => seq![line_text(self.level(), b@)],
                None => Seq::<Seq<char>>::empty(),
            },
            r.after() == match after {
                Some(a) => Some(a@),
                None => None::<Seq<char>>,
            },
    {
        let mut fmt = self;
        if let Some(b) = before {
            fmt.line(b);
        }
        let after = match after {
            Some(a) => Some(String::from_str(a)),
            None => None,
        };
        let r = _IndentedScope { fmt, after };
        assert(r.formatter().text_lines() =~= self.text_lines() + match before {
            Some(b) => seq![line_text(self.level(), b@)],
            None => Seq::<Seq<char>>::empty(),
        });
        r
    }
}

/// A string of `SHIFTWIDTH * level` spaces.
fn spaces_string(level: usize) -> (r: String)
    ensures
        r@ == indent_text(level as nat),
{
    let mut r = String::new();
    let mut i: usize = 0;
    while i < level
        invariant
            i <= level,
            r@ == indent_text(i as nat),
        decreases level - i,
    {
        let mut k: usize = 0;
        while k < SHIFTWIDTH
            invariant
                i < level,
                k <= SHIFTWIDTH,
                r@ == spaces((SHIFTWIDTH * i + k) as nat),
            decreases SHIFTWIDTH - k,
        {
            push_char(&mut r, ' ');
            k = k + 1;
            assert(r@ =~= spaces((SHIFTWIDTH * i + k) as nat));
        }
        i = i + 1;
        assert(r@ =~= indent_text(i as nat));
    }
    r
}

/// Compute the indentation of s, or None of an empty line.
pub fn _indent(s: &str) -> (r: Option<usize>)
    ensures
        r == (if s@.len() == 0 {
            None::<usize>
        } else {
            Some(leading_ws(s@) as usize)
        }),
{
    let v = chars_of(s);
    if v.len() == 0 {
        None
    } else {
        Some(leading_whitespace(&v))
    }
}

} // verus!
