//! Resolution of the address tokens of a connection to qualified paths.

use crate::text::{
    contains_dotdot, has_dotdot, is_char, join, joined, pieces, qualified, qualify, split, texts,
};
use vstd::prelude::*;

verus! {

/// The segment that steps to the parent.
pub open spec fn up() -> Seq<char> {
    seq!['.', '.']
}

/// `segs` from index `i` on, replayed onto `stack`: the parent segment pops
/// (an empty stack stays empty), any other segment is pushed.
pub open spec fn replay_from(stack: Seq<Seq<char>>, segs: Seq<Seq<char>>, i: int) -> Seq<
    Seq<char>,
>
    decreases segs.len() - i,
{
    if i < 0 || i >= segs.len() {
        stack
    } else if segs[i] == up() {
        replay_from(
            if stack.len() > 0 {
                stack.drop_last()
            } else {
                stack
            },
            segs,
            i + 1,
        )
    } else {
        replay_from(stack.push(segs[i]), segs, i + 1)
    }
}

/// The path that `path` names relative to `fullpath`: both are cut at the
/// slashes, the segments of `path` are replayed onto those of `fullpath`, and
/// what is left is joined with slashes.
pub open spec fn relative(fullpath: Seq<char>, path: Seq<char>) -> Seq<char> {
    joined(replay_from(pieces(fullpath, '/'), pieces(path, '/'), 0), seq!['/'])
}

/// One side of a connection inside a namespace: the dollar sign is the current
/// node, a token with two full stops is relative to it, anything else is a
/// name in the namespace.
pub open spec fn connect_side(ns: Seq<char>, current: Seq<char>, token: Seq<char>) -> Seq<char> {
    if token == seq!['$'] {
        current
    } else if has_dotdot(token) {
        relative(current, token)
    } else {
        qualified(ns, token)
    }
}

/// Whether a side of a connection needs the current node.
pub open spec fn needs_current(token: Seq<char>) -> bool {
    token == seq!['$'] || has_dotdot(token)
}

/// One side of a cross connection: the dollar sign is the current node, the
/// caret is the same side of the previous connection, anything else stands
/// for itself.
pub open spec fn cross_side(token: Seq<char>, current: Seq<char>, previous: Seq<char>) -> Seq<
    char,
> {
    if token == seq!['$'] {
        current
    } else if token == seq!['^'] {
        previous
    } else {
        token
    }
}

/// Whether `s` is the parent segment.
fn is_up(s: &str) -> (r: bool)
    ensures
        r == (s@ == up()),
{
    let n: usize = s.unicode_len();
    if n != 2 {
        return false;
    }
    let r = s.get_char(0) == '.' && s.get_char(1) == '.';
    proof {
        if r {
            assert(s@ =~= up());
        } else {
            assert(up()[0] == '.' && up()[1] == '.');
        }
    }
    r
}

/// Resolves `path` relative to `fullpath`.
pub fn doubledot(fullpath: &str, path: &str) -> (r: String)
    ensures
        r@ == relative(fullpath@, path@),
{
    let mut out = split(fullpath, '/');
    let segs = split(path, '/');
    let n: usize = segs.len();
    let mut i: usize = 0;
    while i < n
        invariant
            n == segs@.len(),
            i <= n,
            texts(segs@) == pieces(path@, '/'),
            replay_from(texts(out@), texts(segs@), i as int) == replay_from(
                pieces(fullpath@, '/'),
                pieces(path@, '/'),
                0,
            ),
        decreases n - i,
    {
        let ghost before = texts(out@);
        assert(texts(segs@)[i as int] == segs@[i as int]@);
        if is_up(segs[i].as_str()) {
            let _ = out.pop();
            proof {
                if before.len() > 0 {
                    assert(texts(out@) =~= before.drop_last());
                } else {
                    assert(texts(out@) =~= before);
                }
            }
        } else {
            out.push(segs[i].clone());
            proof {
                assert(texts(out@) =~= before.push(segs@[i as int]@));
            }
        }
        i += 1;
    }
    proof {
        reveal_strlit("/");
        assert("/"@ =~= seq!['/']);
    }
    join(&out, "/")
}

/// Resolves one side of a connection inside the namespace `ns`, with
/// `current` the path of the current node.
pub fn resolve_connect(ns: &str, current: &str, token: &str) -> (r: String)
    ensures
        r@ == connect_side(ns@, current@, token@),
{
    if is_char(token, '$') {
        current.to_owned()
    } else if contains_dotdot(token) {
        doubledot(current, token)
    } else {
        qualify(ns, token)
    }
}

/// Resolves one side of a cross connection.
pub fn resolve_cross(token: &str, current: &str, previous: &str) -> (r: String)
    ensures
        r@ == cross_side(token@, current@, previous@),
{
    if is_char(token, '$') {
        current.to_owned()
    } else if is_char(token, '^') {
        previous.to_owned()
    } else {
        token.to_owned()
    }
}

} // verus!
