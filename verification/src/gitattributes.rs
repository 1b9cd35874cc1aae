//! `.gitattributes` classes the comparison understands: the file's rules,
//! the attributes that apply to a path, and the class they put it in.

use vstd::prelude::*;

use crate::text::{chars_of, push_char, str_is};

verus! {

/// What the `.gitattributes` rules say about a path.
#[derive(Debug, Clone, PartialEq, Eq)]
pub enum AttributeMatch {
    /// No rule applies.
    Default,
    /// Whitelisted text attributes (`text`, `eol=lf`, ...).
    Text,
    /// `binary` / `-text`: the bytes are compared unnormalized.
    Binary,
    /// `filter=lfs`: the working file is an LFS pointer.
    LfsPointer,
    /// An attribute outside the whitelist (`working-tree-encoding`, other
    /// filters, ...), named here.
    Unsupported { attribute: String },
}

/// One line of a `.gitattributes` file: a pattern and its attributes.
#[derive(Debug, Clone)]
pub struct AttrRule {
    pub pattern: String,
    pub attributes: Vec<String>,
}

/// Separator of the tokens of a line.
pub open spec fn is_blank(c: char) -> bool {
    c == ' ' || c == '\t' || c == '\r'
}

/// The tokens of `s`: its maximal runs of non-blank characters, in order.
pub open spec fn tokens(s: Seq<char>) -> Seq<Seq<char>>
    decreases s.len(),
{
    if s.len() == 0 {
        Seq::empty()
    } else {
        let t = tokens(s.drop_last());
        let c = s.last();
        if is_blank(c) {
            t
        } else if s.len() >= 2 && !is_blank(s[s.len() - 2]) {
            t.update(t.len() - 1, t.last().push(c))
        } else {
            t.push(seq![c])
        }
    }
}

/// A non-blank character ends `s` exactly when its token list ends in a
/// token still open.
proof fn lemma_tokens_open(s: Seq<char>)
    ensures
        s.len() > 0 && !is_blank(s.last()) ==> tokens(s).len() > 0,
    decreases s.len(),
{
    if s.len() > 1 {
        lemma_tokens_open(s.drop_last());
        assert(s.drop_last().last() == s[s.len() - 2]);
    }
}

/// The lines of `s`: the parts between `\n` characters.
pub open spec fn lines(s: Seq<char>) -> Seq<Seq<char>>
    decreases s.len(),
{
    if s.len() == 0 {
        seq![Seq::empty()]
    } else {
        let l = lines(s.drop_last());
        if s.last() == '\n' {
            l.push(Seq::empty())
        } else {
            l.update(l.len() - 1, l.last().push(s.last()))
        }
    }
}

/// The rule of a line, if it has one: none for a blank line or a comment
/// (`#` first); else the first token is the pattern, the others the
/// attributes.
pub open spec fn rule_of(line: Seq<char>) -> Option<(Seq<char>, Seq<Seq<char>>)> {
    let t = tokens(line);
    if t.len() == 0 || (t[0].len() > 0 && t[0][0] == '#') {
        None
    } else {
        Some((t[0], t.drop_first()))
    }
}

/// The rules of the lines `ls`, in order.
pub open spec fn rules_of_lines(ls: Seq<Seq<char>>) -> Seq<(Seq<char>, Seq<Seq<char>>)>
    decreases ls.len(),
{
    if ls.len() == 0 {
        Seq::empty()
    } else {
        rules_of_lines(ls.drop_last()) + match rule_of(ls.last()) {
            Some(r) => seq![r],
            None => Seq::empty(),
        }
    }
}

/// A rule as plain values.
pub open spec fn rule_view(r: AttrRule) -> (Seq<char>, Seq<Seq<char>>) {
    (r.pattern@, r.attributes@.map_values(|a: String| a@))
}

/// The tokens of a line (see [`tokens`]).
fn split_tokens(line: &Vec<char>) -> (r: Vec<String>)
    ensures
        r@.map_values(|a: String| a@) == tokens(line@),
{
    let mut out: Vec<String> = Vec::new();
    let mut i: usize = 0;
    while i < line.len()
        invariant
            i <= line@.len(),
            out@.map_values(|a: String| a@) == tokens(line@.take(i as int)),
        decreases line@.len() - i,
    {
        let c = line[i];
        let ghost before = out@.map_values(|a: String| a@);
        proof {
            assert(line@.take(i + 1).drop_last() =~= line@.take(i as int));
            assert(line@.take(i + 1).last() == c);
        }
        if c == ' ' || c == '\t' || c == '\r' {
        } else if i >= 1 && !(line[i - 1] == ' ' || line[i - 1] == '\t' || line[i - 1] == '\r') {
            proof {
                assert(line@.take(i + 1)[i - 1] == line@[i - 1]);
                assert(line@.take(i as int).last() == line@[i - 1]);
                lemma_tokens_open(line@.take(i as int));
            }
            let n = out.len();
            let mut last = out.pop().unwrap();
            push_char(&mut last, c);
            out.push(last);
            proof {
                assert(out@.map_values(|a: String| a@) =~= before.update(n - 1, before.last().push(c)));
            }
        } else {
            let mut t = String::new();
            push_char(&mut t, c);
            out.push(t);
            proof {
                if i >= 1 {
                    assert(line@.take(i + 1)[i - 1] == line@[i - 1]);
                }
                assert(out@.map_values(|a: String| a@) =~= before.push(seq![c]));
            }
        }
        i += 1;
    }
    assert(line@.take(line@.len() as int) =~= line@);
    out
}

/// The lines of `text` (see [`lines`]).
fn split_lines(text: &str) -> (r: Vec<Vec<char>>)
    ensures
        r@.map_values(|l: Vec<char>| l@) == lines(text@),
{
    let cs = chars_of(text);
    let mut out: Vec<Vec<char>> = Vec::new();
    out.push(Vec::new());
    assert(out@.map_values(|l: Vec<char>| l@) =~= lines(cs@.take(0)));
    let mut i: usize = 0;
    while i < cs.len()
        invariant
            cs@ == text@,
            i <= cs@.len(),
            out@.len() > 0,
            out@.map_values(|l: Vec<char>| l@) == lines(cs@.take(i as int)),
        decreases cs@.len() - i,
    {
        let c = cs[i];
        let ghost before = out@.map_values(|l: Vec<char>| l@);
        proof {
            assert(cs@.take(i + 1).drop_last() =~= cs@.take(i as int));
            assert(cs@.take(i + 1).last() == c);
        }
        if c == '\n' {
            out.push(Vec::new());
            assert(out@.map_values(|l: Vec<char>| l@) =~= before.push(Seq::empty()));
        } else {
            let n = out.len();
            let mut last = out.pop().unwrap();
            last.push(c);
            out.push(last);
            assert(out@.map_values(|l: Vec<char>| l@) =~= before.update(n - 1, before.last().push(c)));
        }
        i += 1;
    }
    assert(cs@.take(cs@.len() as int) =~= cs@);
    out
}

/// The rules of a `.gitattributes` text (see [`rules_of_lines`]).
pub fn parse_gitattributes(text: &str) -> (r: Vec<AttrRule>)
    ensures
        r@.map_values(|x: AttrRule| rule_view(x)) == rules_of_lines(lines(text@)),
{
    let ls = split_lines(text);
    let ghost lv = ls@.map_values(|l: Vec<char>| l@);
    let mut out: Vec<AttrRule> = Vec::new();
    for i in 0..ls.len()
        invariant
            lv == ls@.map_values(|l: Vec<char>| l@),
            lv == lines(text@),
            out@.map_values(|x: AttrRule| rule_view(x)) == rules_of_lines(lv.take(i as int)),
    {
        let ghost before = out@.map_values(|x: AttrRule| rule_view(x));
        proof {
            assert(lv.take(i + 1).drop_last() =~= lv.take(i as int));
            assert(lv.take(i + 1).last() == ls@[i as int]@);
        }
        let toks = split_tokens(&ls[i]);
        let ghost tv = toks@.map_values(|a: String| a@);
        if toks.len() > 0 {
            let first = chars_of(toks[0].as_str());
            proof {
                assert(tv[0] == toks@[0]@);
            }
            if first.len() > 0 && first[0] == '#' {
                assert(out@.map_values(|x: AttrRule| rule_view(x)) =~= rules_of_lines(lv.take(i + 1)));
            } else {
                let mut attrs: Vec<String> = Vec::new();
                for j in 1..toks.len()
                    invariant
                        1 <= j,
                        tv == toks@.map_values(|a: String| a@),
                        attrs@.map_values(|a: String| a@) == tv.drop_first().take(j - 1),
                {
                    let ghost b = attrs@;
                    let item = toks[j].clone();
                    attrs.push(item);
                    proof {
                        assert(attrs@ =~= b.push(item));
                        assert(attrs@.map_values(|a: String| a@) =~= b.map_values(|a: String| a@).push(item@));
                        assert(item@ == tv[j as int]);
                        assert(tv.drop_first().take(j as int) =~= tv.drop_first().take(j - 1).push(tv[j as int]));
                    }
                }
                assert(tv.drop_first().take(toks@.len() - 1) =~= tv.drop_first());
                let rule = AttrRule { pattern: toks[0].clone(), attributes: attrs };
                out.push(rule);
                proof {
                    assert(first@.len() == 0 || first@[0] != '#');
                    assert(out@.map_values(|x: AttrRule| rule_view(x)) =~= before.push(rule_view(rule)));
                    assert(out@.map_values(|x: AttrRule| rule_view(x)) =~= rules_of_lines(lv.take(i + 1)));
                }
            }
        } else {
            assert(out@.map_values(|x: AttrRule| rule_view(x)) =~= rules_of_lines(lv.take(i + 1)));
        }
    }
    assert(lv.take(ls@.len() as int) =~= lv);
    out
}

/// Whether the gitignore-style glob `pattern` matches the relative path
/// `path`, as the `ignore` crate decides it.
pub uninterp spec fn glob_match(pattern: Seq<char>, path: Seq<char>) -> bool;

/// Match `path` against one pattern with `ignore::gitignore`: a pattern the
/// crate cannot build matches nothing.
#[verifier::external_body]
fn glob_matches(pattern: &str, path: &str) -> (r: bool)
    ensures
        r == glob_match(pattern@, path@),
{
    let mut builder = ignore::gitignore::GitignoreBuilder::new("");
    if builder.add_line(None, pattern).is_err() {
        return false;
    }
    match builder.build() {
        Ok(g) => g.matched(path, false).is_ignore(),
        Err(_) => false,
    }
}

/// The attributes the rules `rs` give `path`: those of every matching rule,
/// in file order.
pub open spec fn attributes_for(rs: Seq<(Seq<char>, Seq<Seq<char>>)>, path: Seq<char>) -> Seq<Seq<char>>
    decreases rs.len(),
{
    if rs.len() == 0 {
        Seq::empty()
    } else {
        attributes_for(rs.drop_last(), path) + if glob_match(rs.last().0, path) {
            rs.last().1
        } else {
            Seq::empty()
        }
    }
}

/// The attributes this comparison understands without a class change.
pub open spec fn whitelisted(a: Seq<char>) -> bool {
    ||| a == "text"@
    ||| a == "-text"@
    ||| a == "binary"@
    ||| a == "eol=lf"@
    ||| a == "eol=crlf"@
    ||| a == "diff"@
    ||| a == "-diff"@
    ||| a == "merge"@
    ||| a == "-merge"@
    ||| a == "filter=lfs"@
    ||| a == "diff=lfs"@
    ||| a == "merge=lfs"@
}

/// Index of the first attribute outside the whitelist.
pub open spec fn first_unlisted(attrs: Seq<Seq<char>>, k: int) -> bool {
    0 <= k < attrs.len() && !whitelisted(attrs[k]) && forall|m: int| 0 <= m < k ==> whitelisted(attrs[m])
}

/// The class of a path with attributes `attrs`: `filter=lfs` makes it an
/// LFS pointer; else `binary` or `-text` binary; else the first attribute
/// outside the whitelist makes it unsupported; else `text` or an `eol`
/// setting makes it text; else the default.
pub open spec fn class_of(attrs: Seq<Seq<char>>, c: AttributeMatch) -> bool {
    if attrs.contains("filter=lfs"@) {
        c == AttributeMatch::LfsPointer
    } else if attrs.contains("binary"@) || attrs.contains("-text"@) {
        c == AttributeMatch::Binary
    } else if exists|k: int| first_unlisted(attrs, k) {
        c matches AttributeMatch::Unsupported { attribute } && first_unlisted(
            attrs,
            choose|k: int| first_unlisted(attrs, k),
        ) && attrs[choose|k: int| first_unlisted(attrs, k)] == attribute@
    } else if attrs.contains("text"@) || attrs.contains("eol=lf"@) || attrs.contains("eol=crlf"@) {
        c == AttributeMatch::Text
    } else {
        c == AttributeMatch::Default
    }
}

/// Whether some string of `v` is `lit`.
fn has_token(v: &Vec<String>, lit: &str) -> (r: bool)
    ensures
        r == v@.map_values(|a: String| a@).contains(lit@),
{
    for i in 0..v.len()
        invariant
            forall|m: int| 0 <= m < i ==> v@[m]@ != lit@,
    {
        if str_is(v[i].as_str(), lit) {
            assert(v@.map_values(|a: String| a@)[i as int] == lit@);
            return true;
        }
    }
    proof {
        let vv = v@.map_values(|a: String| a@);
        if vv.contains(lit@) {
            let k = choose|k: int| 0 <= k < vv.len() && #[trigger] vv[k] == lit@;
            assert(v@[k]@ == lit@);
        }
    }
    false
}

/// Whether `a` is whitelisted.
fn is_whitelisted(a: &str) -> (r: bool)
    ensures
        r == whitelisted(a@),
{
    str_is(a, "text") || str_is(a, "-text") || str_is(a, "binary") || str_is(a, "eol=lf") || str_is(
        a,
        "eol=crlf",
    ) || str_is(a, "diff") || str_is(a, "-diff") || str_is(a, "merge") || str_is(a, "-merge") || str_is(
        a,
        "filter=lfs",
    ) || str_is(a, "diff=lfs") || str_is(a, "merge=lfs")
}

/// The class of attributes (see [`class_of`]).
pub fn classify_attributes(attrs: &Vec<String>) -> (c: AttributeMatch)
    ensures
        class_of(attrs@.map_values(|a: String| a@), c),
{
    let ghost av = attrs@.map_values(|a: String| a@);
    if has_token(attrs, "filter=lfs") {
        return AttributeMatch::LfsPointer;
    }
    if has_token(attrs, "binary") || has_token(attrs, "-text") {
        return AttributeMatch::Binary;
    }
    for i in 0..attrs.len()
        invariant
            av == attrs@.map_values(|a: String| a@),
            !av.contains("filter=lfs"@),
            !av.contains("binary"@),
            !av.contains("-text"@),
            forall|m: int| 0 <= m < i ==> whitelisted(av[m]),
    {
        assert(av[i as int] == attrs@[i as int]@);
        if !is_whitelisted(attrs[i].as_str()) {
            let att = attrs[i].clone();
            proof {
                assert(first_unlisted(av, i as int));
                assert(exists|k: int| first_unlisted(av, k));
                let k = choose|k: int| first_unlisted(av, k);
                if k < i {
                } else if k > i {
                    assert(whitelisted(av[i as int]));
                }
                assert(k == i);
                assert(att@ == av[i as int]);
                assert(!attrs@.map_values(|a: String| a@).contains("filter=lfs"@));
            }
            return AttributeMatch::Unsupported { attribute: att };
        }
    }
    assert(!exists|k: int| first_unlisted(av, k));
    if has_token(attrs, "text") || has_token(attrs, "eol=lf") || has_token(attrs, "eol=crlf") {
        AttributeMatch::Text
    } else {
        AttributeMatch::Default
    }
}

/// The attributes the rules give `path` (see [`attributes_for`]).
pub fn path_attributes(rules: &Vec<AttrRule>, path: &str) -> (r: Vec<String>)
    ensures
        r@.map_values(|a: String| a@) == attributes_for(rules@.map_values(|x: AttrRule| rule_view(x)), path@),
{
    let ghost rv = rules@.map_values(|x: AttrRule| rule_view(x));
    let mut out: Vec<String> = Vec::new();
    for i in 0..rules.len()
        invariant
            rv == rules@.map_values(|x: AttrRule| rule_view(x)),
            out@.map_values(|a: String| a@) == attributes_for(rv.take(i as int), path@),
    {
        proof {
            assert(rv.take(i + 1).drop_last() =~= rv.take(i as int));
            assert(rv.take(i + 1).last() == rule_view(rules@[i as int]));
        }
        let ghost before = out@.map_values(|a: String| a@);
        if glob_matches(rules[i].pattern.as_str(), path) {
            let attrs = &rules[i].attributes;
            for j in 0..attrs.len()
                invariant
                    out@.map_values(|a: String| a@) == before + attrs@.map_values(|a: String| a@).take(j as int),
            {
                let ghost b = out@;
                let item = attrs[j].clone();
                out.push(item);
                proof {
                    assert(out@ =~= b.push(item));
                    assert(out@.map_values(|a: String| a@) =~= b.map_values(|a: String| a@).push(item@));
                    assert(item@ == attrs@.map_values(|a: String| a@)[j as int]);
                    assert(attrs@.map_values(|a: String| a@).take(j + 1) =~= attrs@.map_values(|a: String| a@).take(j as int).push(item@));
                }
            }
            assert(attrs@.map_values(|a: String| a@).take(attrs@.len() as int) =~= attrs@.map_values(|a: String| a@));
        }
        assert(out@.map_values(|a: String| a@) =~= attributes_for(rv.take(i + 1), path@));
    }
    assert(rv.take(rules@.len() as int) =~= rv);
    out
}

/// The class of `path` under `rules`.
pub fn classify_path(rules: &Vec<AttrRule>, path: &str) -> (c: AttributeMatch)
    ensures
        class_of(attributes_for(rules@.map_values(|x: AttrRule| rule_view(x)), path@), c),
{
    let attrs = path_attributes(rules, path);
    classify_attributes(&attrs)
}

} // verus!
