//! Whether a `go.mod` needs a `go.sum`: it does as soon as it requires a
//! module.
use vstd::prelude::*;
use crate::preflight::{unreadable_lockfile_error, unreadable_lockfile_msg};
use crate::project::ProjectInputKind;
use crate::text::{
    chars_of, find_pattern, find_seq, is_whitespace, is_ws, line_at, lines, range_eq, range_starts_with,
    starts_with, trim, trim_range,
};

verus! {

/// A line without its `//` comment, trimmed.
pub open spec fn directive(l: Seq<char>) -> Seq<char> {
    trim(l.subrange(0, find_seq(l, "//"@)))
}

/// A `require` directive: the keyword, then white space or `(`.
pub open spec fn is_require(d: Seq<char>) -> bool {
    starts_with(d, "require"@) && d.len() > 7 && (is_ws(d[7]) || d[7] == '(')
}

/// What follows the `require` keyword, trimmed.
pub open spec fn require_arg(d: Seq<char>) -> Seq<char> {
    trim(d.subrange(7, d.len() as int))
}

/// Whether the lines `ls` (inside a `require ( … )` block when
/// `in_block`) require a module: a non-empty line inside a block does; a
/// `require` directive does unless it opens a block (`(`) or is an empty
/// one (`()`), and a `)` closes the block.
pub open spec fn requires_from(ls: Seq<Seq<char>>, in_block: bool) -> bool
    decreases ls.len(),
{
    if ls.len() == 0 {
        false
    } else {
        let d = directive(ls[0]);
        let rest = ls.drop_first();
        if in_block {
            if d == ")"@ {
                requires_from(rest, false)
            } else if d.len() > 0 {
                true
            } else {
                requires_from(rest, true)
            }
        } else if is_require(d) {
            if require_arg(d) == "("@ {
                requires_from(rest, true)
            } else if require_arg(d) == "()"@ {
                requires_from(rest, false)
            } else {
                true
            }
        } else {
            requires_from(rest, false)
        }
    }
}

/// Whether a `go.mod` text requires any module, so that `go.sum` must
/// record checksums.
pub open spec fn spec_requires_go_sum(text: Seq<char>) -> bool {
    requires_from(lines(text), false)
}

/// Whether a `go.mod` needs `go.sum` (see `spec_requires_go_sum`).
pub fn requires_go_sum(go_mod: &str) -> (b: bool)
    ensures
        b == spec_requires_go_sum(go_mod@),
{
    proof {
        reveal_strlit("require");
        reveal_strlit("//");
        reveal_strlit(")");
        reveal_strlit("(");
        reveal_strlit("()");
    }
    let v = chars_of(go_mod);
    let comment = chars_of("//");
    let keyword = chars_of("require");
    let close = chars_of(")");
    let open = chars_of("(");
    let empty = chars_of("()");
    let n = v.len();
    let mut pos: usize = 0;
    let mut in_block = false;
    assert(v@.subrange(0, n as int) == v@);
    while pos < n
        invariant
            pos <= n == v@.len(),
            v@ == go_mod@,
            comment@ == "//"@,
            keyword@ == "require"@,
            close@ == ")"@,
            open@ == "("@,
            empty@ == "()"@,
            spec_requires_go_sum(go_mod@) == requires_from(lines(v@.subrange(pos as int, n as int)), in_block),
        decreases n - pos,
    {
        let (lo, hi, next) = line_at(&v, pos);
        let ghost l = v@.subrange(lo as int, hi as int);
        let ghost ls = lines(v@.subrange(pos as int, n as int));
        assert(ls[0] == l);
        assert(ls.drop_first() == lines(v@.subrange(next as int, n as int)));
        let cut = match find_pattern(&v, lo, hi, &comment) {
            Some(k) => k,
            None => hi,
        };
        assert(l.subrange(0, cut - lo) == v@.subrange(lo as int, cut as int));
        let (a, b) = trim_range(&v, lo, cut);
        let ghost d = v@.subrange(a as int, b as int);
        assert(d == directive(l));
        if in_block {
            if range_eq(&v, a, b, &close) {
                in_block = false;
            } else if b > a {
                return true;
            }
        } else if b - a > 7 && range_starts_with(&v, a, b, &keyword) && (is_whitespace(v[a + 7]) || v[a + 7] == '(') {
            assert(d[7] == v@[a + 7]);
            let (c1, c2) = trim_range(&v, a + 7, b);
            assert(d.subrange(7, d.len() as int) == v@.subrange(a + 7, b as int));
            assert(v@.subrange(c1 as int, c2 as int) == require_arg(d));
            if range_eq(&v, c1, c2, &open) {
                in_block = true;
            } else if range_eq(&v, c1, c2, &empty) {
            } else {
                return true;
            }
        } else {
            proof {
                if b - a > 7 && starts_with(d, "require"@) {
                    assert(d[7] == v@[a + 7]);
                }
            }
        }
        pos = next;
    }
    assert(v@.subrange(n as int, n as int) == Seq::<char>::empty());
    false
}

/// The first pass's answer for a Go project's `go.sum` at `go_sum_path`:
/// nothing to check while `go.mod` requires no module; otherwise reading
/// `go.sum` (`go_sum_read`) must have succeeded, and a failed read is
/// refused with how to create the file.
pub open spec fn spec_go_sum_verdict(go_mod: Seq<char>, go_sum_path: Seq<char>, go_sum_read: Result<(), Seq<char>>) -> Result<
    (),
    Seq<char>,
> {
    if !spec_requires_go_sum(go_mod) {
        Ok(())
    } else {
        match go_sum_read {
            Ok(()) => Ok(()),
            Err(detail) => Err(
                unreadable_lockfile_msg(go_sum_path, detail, ProjectInputKind::Go.spec_missing_lockfile_help()->0),
            ),
        }
    }
}

/// Whether a Go project passes the `go.sum` check (see
/// `spec_go_sum_verdict`).
pub fn go_sum_verdict(go_mod: &str, go_sum_path: &str, go_sum_read: Result<(), String>) -> (r: Result<(), String>)
    ensures
        (match r {
            Ok(()) => Ok(()),
            Err(m) => Err(m@),
        }) == spec_go_sum_verdict(
            go_mod@,
            go_sum_path@,
            match go_sum_read {
                Ok(()) => Ok(()),
                Err(d) => Err(d@),
            },
        ),
{
    if !requires_go_sum(go_mod) {
        return Ok(());
    }
    match go_sum_read {
        Ok(()) => Ok(()),
        Err(detail) => Err(unreadable_lockfile_error(ProjectInputKind::Go, go_sum_path, &detail)),
    }
}

} // verus!
