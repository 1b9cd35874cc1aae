//! `init`: the `gitless-sync.toml` body for the given options.

use vstd::prelude::*;

use crate::graphql::views;
use crate::text::push_str;

verus! {

/// Options of `init`.
#[derive(Debug)]
pub struct InitArgs {
    pub repo: String,
    pub branch: Option<String>,
    pub ignore: Vec<String>,
}

/// `"{p}"`.
pub open spec fn quoted(p: Seq<char>) -> Seq<char> {
    "\""@ + p + "\""@
}

/// The patterns, each quoted, joined by `, `.
pub open spec fn joined(ps: Seq<Seq<char>>) -> Seq<char>
    decreases ps.len(),
{
    if ps.len() == 0 {
        Seq::empty()
    } else if ps.len() == 1 {
        quoted(ps[0])
    } else {
        joined(ps.drop_last()) + ", "@ + quoted(ps.last())
    }
}

/// The TOML body: `repo` always, then `branch` when set, then `ignore` when
/// non-empty, one line each.
pub open spec fn config_text(repo: Seq<char>, branch: Option<Seq<char>>, ignore: Seq<Seq<char>>) -> Seq<char> {
    repo_line(repo) + branch_line(branch) + ignore_line(ignore)
}

/// `repo = "<repo>"` and a newline.
pub open spec fn repo_line(repo: Seq<char>) -> Seq<char> {
    "repo = \""@ + repo + "\"\n"@
}

/// `branch = "<b>"` and a newline when a branch is set; nothing otherwise.
pub open spec fn branch_line(branch: Option<Seq<char>>) -> Seq<char> {
    match branch {
        Some(b) => "branch = \""@ + b + "\"\n"@,
        None => Seq::empty(),
    }
}

/// `ignore = [..]` and a newline when there are patterns; nothing otherwise.
pub open spec fn ignore_line(ignore: Seq<Seq<char>>) -> Seq<char> {
    if ignore.len() == 0 {
        Seq::empty()
    } else {
        "ignore = ["@ + joined(ignore) + "]\n"@
    }
}

/// The `gitless-sync.toml` body for `args` (see [`config_text`]); the
/// caller writes it out.
pub fn run(args: &InitArgs) -> (out: String)
    ensures
        out@ == config_text(
            args.repo@,
            crate::compare::opt_string_view(args.branch),
            views(args.ignore@),
        ),
{
    let mut out = String::new();
    push_str(&mut out, "repo = \"");
    push_str(&mut out, args.repo.as_str());
    push_str(&mut out, "\"\n");
    let ghost a = out@;
    assert(a =~= repo_line(args.repo@));
    match &args.branch {
        Some(b) => {
            push_str(&mut out, "branch = \"");
            push_str(&mut out, b.as_str());
            push_str(&mut out, "\"\n");
        },
        None => {},
    }
    let ghost ab = out@;
    assert(ab =~= a + branch_line(crate::compare::opt_string_view(args.branch)));
    let ghost ps = views(args.ignore@);
    if args.ignore.len() > 0 {
        push_str(&mut out, "ignore = [");
        let ghost start = out@;
        for i in 0..args.ignore.len()
            invariant
                ps == views(args.ignore@),
                ps.len() > 0,
                out@ == start + joined(ps.take(i as int)),
        {
            let ghost before = out@;
            if i > 0 {
                push_str(&mut out, ", ");
            }
            push_str(&mut out, "\"");
            push_str(&mut out, args.ignore[i].as_str());
            push_str(&mut out, "\"");
            proof {
                assert(ps.take(i + 1).drop_last() =~= ps.take(i as int));
                assert(ps.take(i + 1).last() == ps[i as int]);
                if i == 0 {
                    assert(out@ =~= start + joined(ps.take(i + 1)));
                } else {
                    assert(out@ =~= start + joined(ps.take(i + 1)));
                }
            }
        }
        assert(ps.take(ps.len() as int) =~= ps);
        push_str(&mut out, "]\n");
    }
    assert(out@ =~= ab + ignore_line(views(args.ignore@)));
    proof {
        assert(out@ =~= config_text(
            args.repo@,
            crate::compare::opt_string_view(args.branch),
            views(args.ignore@),
        ));
    }
    out
}

} // verus!
