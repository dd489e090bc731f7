use vstd::prelude::*;

use crate::text::{chars_of, is_space, is_space_char, same_text};

verus! {

/// One branch of a stack listing.
pub struct BranchInfo {
    pub name: String,
    pub is_current: bool,
    pub is_trunk: bool,
}

/// A branch seen as its name, whether it is checked out, and whether it is a trunk.
pub type BranchDesc = (Seq<char>, bool, bool);

impl View for BranchInfo {
    type V = BranchDesc;

    open spec fn view(&self) -> BranchDesc {
        (self.name@, self.is_current, self.is_trunk)
    }
}

pub open spec fn views(bs: Seq<BranchInfo>) -> Seq<BranchDesc> {
    bs.map_values(|b: BranchInfo| b@)
}

/// The glyph that marks the checked-out branch.
pub open spec fn current_glyph() -> char {
    '◉'
}

/// The glyph that marks every other branch.
pub open spec fn other_glyph() -> char {
    '◯'
}

/// Connectors of the tree drawing, and the blank.
pub open spec fn is_tree_char(c: char) -> bool {
    c == '│' || c == '─' || c == '┘' || c == '┐' || c == '└' || c == '┌' || c == '├' || c == '┤'
        || c == '┬' || c == '┴' || c == '┼' || c == ' '
}

/// The conventional names of a trunk branch.
pub open spec fn is_trunk_name(name: Seq<char>) -> bool {
    name == "main"@ || name == "master"@ || name == "develop"@ || name == "trunk"@
}

/// A character that may surround a branch name: a tree connector or white space.
pub open spec fn is_filler(c: char) -> bool {
    is_tree_char(c) || is_space(c)
}

/// `s` without its leading connectors and white space.
pub open spec fn strip_start(s: Seq<char>) -> Seq<char>
    decreases s.len(),
{
    if s.len() > 0 && is_filler(s[0]) {
        strip_start(s.drop_first())
    } else {
        s
    }
}

/// `s` without its trailing connectors and white space.
pub open spec fn strip_end(s: Seq<char>) -> Seq<char>
    decreases s.len(),
{
    if s.len() > 0 && is_filler(s.last()) {
        strip_end(s.drop_last())
    } else {
        s
    }
}

/// `s` without connectors or white space at either end.
pub open spec fn strip_fill(s: Seq<char>) -> Seq<char> {
    strip_end(strip_start(s))
}

/// What follows the first `c` in `s`, if `s` holds one.
pub open spec fn after_first(s: Seq<char>, c: char) -> Option<Seq<char>>
    decreases s.len(),
{
    if s.len() == 0 {
        None
    } else if s[0] == c {
        Some(s.drop_first())
    } else {
        after_first(s.drop_first(), c)
    }
}

/// The branch that one line of a listing names, if any: its name and whether it is
/// checked out.
pub open spec fn line_entry(line: Seq<char>) -> Option<(Seq<char>, bool)> {
    let current = after_first(line, current_glyph());
    let rest = if current is Some {
        current
    } else {
        after_first(line, other_glyph())
    };
    match rest {
        None => None,
        Some(r) => {
            let name = strip_fill(r);
            if name.len() == 0 {
                None
            } else {
                Some((name, current is Some))
            }
        },
    }
}

/// The descriptors that one line contributes: none or one.
pub open spec fn line_descs(line: Seq<char>) -> Seq<BranchDesc> {
    match line_entry(line) {
        Some((name, current)) => seq![(name, current, is_trunk_name(name))],
        None => Seq::empty(),
    }
}

/// The descriptors of a sequence of lines, in line order.
pub open spec fn entries(lines: Seq<Seq<char>>) -> Seq<BranchDesc>
    decreases lines.len(),
{
    if lines.len() == 0 {
        Seq::empty()
    } else {
        entries(lines.drop_last()) + line_descs(lines.last())
    }
}

/// The lines of `s`, split at each newline; there is always at least one.
pub open spec fn lines_of(s: Seq<char>) -> Seq<Seq<char>>
    decreases s.len(),
{
    if s.len() == 0 {
        seq![Seq::empty()]
    } else {
        let prev = lines_of(s.drop_last());
        if s.last() == '\n' {
            prev.push(Seq::empty())
        } else {
            prev.update(prev.len() - 1, prev.last().push(s.last()))
        }
    }
}

/// The branches that a listing names, from the first line to the last.
pub open spec fn parse_log(s: Seq<char>) -> Seq<BranchDesc> {
    entries(lines_of(s))
}

pub proof fn lemma_lines_nonempty(s: Seq<char>)
    ensures
        lines_of(s).len() >= 1,
    decreases s.len(),
{
    if s.len() > 0 {
        lemma_lines_nonempty(s.drop_last());
    }
}

proof fn lemma_entries_len(lines: Seq<Seq<char>>)
    ensures
        entries(lines).len() <= lines.len(),
    decreases lines.len(),
{
    if lines.len() > 0 {
        lemma_entries_len(lines.drop_last());
    }
}

/// Parsing a listing yields no more branches than the listing has lines.
pub proof fn lemma_parse_no_longer_than_lines(s: Seq<char>)
    ensures
        parse_log(s).len() <= lines_of(s).len(),
{
    lemma_entries_len(lines_of(s));
}

/// Whether `name` is nonempty and neither starts nor ends with a tree connector
/// or white space.
pub open spec fn clean_name(name: Seq<char>) -> bool {
    name.len() > 0 && !is_filler(name[0]) && !is_filler(name.last())
}

proof fn lemma_strip_start(s: Seq<char>)
    ensures
        strip_start(s).len() > 0 ==> !is_filler(strip_start(s)[0]),
    decreases s.len(),
{
    if s.len() > 0 && is_filler(s[0]) {
        lemma_strip_start(s.drop_first());
    }
}

proof fn lemma_strip_end(s: Seq<char>)
    ensures
        strip_end(s).len() <= s.len(),
        strip_end(s) == s.take(strip_end(s).len() as int),
        strip_end(s).len() > 0 ==> !is_filler(strip_end(s).last()),
    decreases s.len(),
{
    if s.len() > 0 && is_filler(s.last()) {
        lemma_strip_end(s.drop_last());
        assert(s.drop_last().take(strip_end(s).len() as int) =~= s.take(
            strip_end(s).len() as int,
        ));
    } else {
        assert(s.take(s.len() as int) =~= s);
    }
}

proof fn lemma_strip_fill(s: Seq<char>)
    ensures
        strip_fill(s).len() > 0 ==> clean_name(strip_fill(s)),
{
    lemma_strip_start(s);
    lemma_strip_end(strip_start(s));
    let t = strip_start(s);
    if strip_fill(s).len() > 0 {
        assert(strip_fill(s)[0] == t.take(strip_fill(s).len() as int)[0]);
    }
}

proof fn lemma_entries_clean(lines: Seq<Seq<char>>)
    ensures
        forall|i: int|
            0 <= i < entries(lines).len() ==> clean_name(#[trigger] entries(lines)[i].0),
    decreases lines.len(),
{
    if lines.len() > 0 {
        lemma_entries_clean(lines.drop_last());
        let line = lines.last();
        let current = after_first(line, current_glyph());
        let rest = if current is Some {
            current
        } else {
            after_first(line, other_glyph())
        };
        if let Some(r) = rest {
            lemma_strip_fill(r);
        }
        let prev = entries(lines.drop_last());
        assert forall|i: int| 0 <= i < entries(lines).len() implies clean_name(
            #[trigger] entries(lines)[i].0,
        ) by {
            if i < prev.len() {
                assert(entries(lines)[i] == prev[i]);
            }
        }
    }
}

/// Every branch of a parsed listing has a nonempty name that neither starts nor
/// ends with a tree connector or white space.
pub proof fn lemma_parsed_names_clean(s: Seq<char>)
    ensures
        forall|i: int| 0 <= i < parse_log(s).len() ==> clean_name(#[trigger] parse_log(s)[i].0),
{
    lemma_entries_clean(lines_of(s));
}

pub fn is_tree_connector(c: char) -> (r: bool)
    ensures
        r == is_tree_char(c),
{
    c == '│' || c == '─' || c == '┘' || c == '┐' || c == '└' || c == '┌' || c == '├' || c == '┤'
        || c == '┬' || c == '┴' || c == '┼' || c == ' '
}

/// Whether `name` is one of the conventional trunk names.
pub fn is_trunk_branch(name: &str) -> (r: bool)
    ensures
        r == is_trunk_name(name@),
{
    same_text(name, "main") || same_text(name, "master") || same_text(name, "develop")
        || same_text(name, "trunk")
}

/// Position just past the first `c` in `v[lo..hi]`, if there is one.
fn find_after(v: &Vec<char>, lo: usize, hi: usize, c: char) -> (r: Option<usize>)
    requires
        lo <= hi <= v.len(),
    ensures
        match after_first(v@.subrange(lo as int, hi as int), c) {
            None => r is None,
            Some(rest) => r is Some && lo < r->0 <= hi && v@.subrange(r->0 as int, hi as int)
                == rest,
        },
{
    let mut i = lo;
    while i < hi
        invariant
            lo <= i <= hi <= v.len(),
            after_first(v@.subrange(i as int, hi as int), c) == after_first(
                v@.subrange(lo as int, hi as int),
                c,
            ),
        decreases hi - i,
    {
        assert(v@.subrange(i as int, hi as int).drop_first() =~= v@.subrange(
            i + 1,
            hi as int,
        ));
        if v[i] == c {
            return Some(i + 1);
        }
        i += 1;
    }
    None
}

fn is_filler_char(c: char) -> (r: bool)
    ensures
        r == is_filler(c),
{
    is_tree_connector(c) || is_space_char(c)
}

/// Position just past the leading connectors and white space of `v[lo..hi]`.
fn skip_filler(v: &Vec<char>, lo: usize, hi: usize) -> (r: usize)
    requires
        lo <= hi <= v.len(),
    ensures
        lo <= r <= hi,
        v@.subrange(r as int, hi as int) == strip_start(v@.subrange(lo as int, hi as int)),
{
    let mut i = lo;
    while i < hi && is_filler_char(v[i])
        invariant
            lo <= i <= hi <= v.len(),
            strip_start(v@.subrange(i as int, hi as int)) == strip_start(
                v@.subrange(lo as int, hi as int),
            ),
        decreases hi - i,
    {
        assert(v@.subrange(i as int, hi as int).drop_first() =~= v@.subrange(
            i + 1,
            hi as int,
        ));
        i += 1;
    }
    i
}

/// End of `v[lo..hi]` once its trailing connectors and white space are cut off.
fn cut_filler(v: &Vec<char>, lo: usize, hi: usize) -> (r: usize)
    requires
        lo <= hi <= v.len(),
    ensures
        lo <= r <= hi,
        v@.subrange(lo as int, r as int) == strip_end(v@.subrange(lo as int, hi as int)),
{
    let mut j = hi;
    while j > lo && is_filler_char(v[j - 1])
        invariant
            lo <= j <= hi <= v.len(),
            strip_end(v@.subrange(lo as int, j as int)) == strip_end(
                v@.subrange(lo as int, hi as int),
            ),
        decreases j - lo,
    {
        assert(v@.subrange(lo as int, j as int).drop_last() =~= v@.subrange(
            lo as int,
            j - 1,
        ));
        j -= 1;
    }
    j
}

/// The branch named by the line `v[lo..hi]` of `text`, whose characters are `v`.
fn parse_line(text: &str, v: &Vec<char>, lo: usize, hi: usize) -> (r: Option<BranchInfo>)
    requires
        lo <= hi <= v.len(),
        v@ == text@,
    ensures
        match r {
            None => line_descs(v@.subrange(lo as int, hi as int)) == Seq::<BranchDesc>::empty(),
            Some(b) => line_descs(v@.subrange(lo as int, hi as int)) == seq![b@],
        },
{
    let line = Ghost(v@.subrange(lo as int, hi as int));
    let (start, current) = match find_after(v, lo, hi, '◉') {
        Some(p) => (p, true),
        None => match find_after(v, lo, hi, '◯') {
            Some(p) => (p, false),
            None => {
                return None;
            },
        },
    };
    let b = skip_filler(v, start, hi);
    let e = cut_filler(v, b, hi);
    assert(v@.subrange(b as int, e as int) == strip_fill(v@.subrange(start as int, hi as int)));
    if b == e {
        return None;
    }
    let name = String::from_str(text.substring_char(b, e));
    let is_trunk = is_trunk_branch(name.as_str());
    let info = BranchInfo { name, is_current: current, is_trunk };
    assert(line_entry(line@) == Some((v@.subrange(b as int, e as int), current)));
    Some(info)
}

/// Reads the branches out of a stack listing drawn as a tree, one branch a line.
/// The name is what follows the glyph, with tree connectors and white space
/// stripped from both ends. Lines without a branch glyph, or with nothing after
/// it but connectors, are skipped; the order of the lines is kept.
pub fn parse_gt_log_short(output: &str) -> (r: Vec<BranchInfo>)
    ensures
        views(r@) == parse_log(output@),
{
    let v = chars_of(output);
    let mut out: Vec<BranchInfo> = Vec::new();
    let mut start: usize = 0;
    let mut i: usize = 0;
    proof {
        lemma_lines_nonempty(v@.take(0));
        assert(v@.take(0) =~= Seq::<char>::empty());
        assert(entries(lines_of(v@.take(0)).drop_last()) =~= Seq::<BranchDesc>::empty());
        assert(views(out@) =~= Seq::<BranchDesc>::empty());
        assert(v@.subrange(0, 0) =~= Seq::<char>::empty());
    }
    while i < v.len()
        invariant
            start <= i <= v.len(),
            v@ == output@,
            lines_of(v@.take(i as int)).len() >= 1,
            views(out@) == entries(lines_of(v@.take(i as int)).drop_last()),
            lines_of(v@.take(i as int)).last() == v@.subrange(start as int, i as int),
        decreases v.len() - i,
    {
        let ghost prev = lines_of(v@.take(i as int));
        let ghost next = lines_of(v@.take(i + 1));
        proof {
            assert(v@.take(i + 1).drop_last() =~= v@.take(i as int));
            assert(v@.take(i + 1).last() == v@[i as int]);
            lemma_lines_nonempty(v@.take(i + 1));
        }
        if v[i] == '\n' {
            let found = parse_line(output, &v, start, i);
            proof {
                assert(next == prev.push(Seq::empty()));
                assert(next.drop_last() =~= prev);
                assert(entries(prev) == entries(prev.drop_last()) + line_descs(prev.last()));
            }
            match found {
                Some(b) => {
                    out.push(b);
                    assert(views(out@) =~= entries(next.drop_last()));
                },
                None => {
                    assert(views(out@) =~= entries(next.drop_last()));
                },
            }
            start = i + 1;
            assert(v@.subrange(start as int, start as int) =~= Seq::<char>::empty());
        } else {
            proof {
                assert(next.drop_last() =~= prev.drop_last());
                assert(next.last() =~= v@.subrange(start as int, i + 1));
            }
        }
        i += 1;
    }
    let ghost all = lines_of(v@.take(i as int));
    let found = parse_line(output, &v, start, i);
    proof {
        assert(v@.take(i as int) =~= output@);
        assert(entries(all) == entries(all.drop_last()) + line_descs(all.last()));
    }
    match found {
        Some(b) => {
            out.push(b);
            assert(views(out@) =~= parse_log(output@));
        },
        None => {
            assert(views(out@) =~= parse_log(output@));
        },
    }
    out
}

} // verus!
