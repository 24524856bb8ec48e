//! Reading back the git identity: the lines of a git configuration listing that set
//! `user.name`, `user.email` or `user.signingkey`.

use vstd::prelude::*;
use vstd::string::*;

use crate::errors::VariantError;

verus! {

/// The lines of `b`, split at each newline byte; a text without newline is one line.
pub open spec fn split_lines(b: Seq<u8>) -> Seq<Seq<u8>>
    decreases b.len(),
{
    if b.len() == 0 {
        seq![Seq::empty()]
    } else {
        let ls = split_lines(b.drop_last());
        if b.last() == 10u8 {
            ls.push(Seq::empty())
        } else {
            ls.update(ls.len() - 1, ls.last().push(b.last()))
        }
    }
}

/// `line` starts with the bytes of the ASCII text `key`.
pub open spec fn starts_with(line: Seq<u8>, key: Seq<char>) -> bool {
    line.len() >= key.len() && forall|i: int| 0 <= i < key.len() ==> line[i] == key[i] as u8
}

/// A line that sets one of the identity keys.
pub open spec fn is_identity_line(line: Seq<u8>) -> bool {
    starts_with(line, "user.name"@) || starts_with(line, "user.email"@) || starts_with(
        line,
        "user.signingkey"@,
    )
}

/// What the filtered listing holds of one line: the line after a newline, if it is kept.
pub open spec fn emitted(line: Seq<u8>) -> Seq<u8> {
    if is_identity_line(line) {
        seq![10u8] + line
    } else {
        Seq::empty()
    }
}

/// The kept lines, in order, each after a newline.
pub open spec fn render(ls: Seq<Seq<u8>>) -> Seq<u8>
    decreases ls.len(),
{
    if ls.len() == 0 {
        Seq::empty()
    } else {
        render(ls.drop_last()) + emitted(ls.last())
    }
}

/// The identity lines of a git configuration listing.
pub open spec fn identity_listing(b: Seq<u8>) -> Seq<u8> {
    render(split_lines(b))
}

proof fn lemma_split_lines_nonempty(b: Seq<u8>)
    ensures
        split_lines(b).len() >= 1,
    decreases b.len(),
{
    if b.len() > 0 {
        lemma_split_lines_nonempty(b.drop_last());
    }
}

fn has_prefix(line: &Vec<u8>, key: &str) -> (r: bool)
    requires
        key.is_ascii(),
    ensures
        r == starts_with(line@, key@),
{
    let n = key.unicode_len();
    if line.len() < n {
        return false;
    }
    let mut i: usize = 0;
    while i < n
        invariant
            n == key@.len(),
            n <= line@.len(),
            key.is_ascii(),
            0 <= i <= n,
            forall|j: int| 0 <= j < i ==> line@[j] == key@[j] as u8,
        decreases n - i,
    {
        if line[i] != key.get_ascii(i) {
            return false;
        }
        i += 1;
    }
    true
}

fn identity_line(line: &Vec<u8>) -> (r: bool)
    ensures
        r == is_identity_line(line@),
{
    proof {
        reveal_strlit("user.name");
        reveal_strlit("user.email");
        reveal_strlit("user.signingkey");
    }
    has_prefix(line, "user.name") || has_prefix(line, "user.email") || has_prefix(
        line,
        "user.signingkey",
    )
}

/// Keeps the lines of a git configuration listing that start with `user.name`, `user.email`
/// or `user.signingkey`, each after a newline.
pub fn identity_lines(listing: &Vec<u8>) -> (r: Vec<u8>)
    ensures
        r@ == identity_listing(listing@),
{
    let mut out: Vec<u8> = Vec::new();
    let mut line: Vec<u8> = Vec::new();
    let mut i: usize = 0;
    proof {
        assert(listing@.subrange(0, 0) =~= Seq::<u8>::empty());
    }
    while i < listing.len()
        invariant
            0 <= i <= listing@.len(),
            split_lines(listing@.subrange(0, i as int)).len() >= 1,
            out@ == render(split_lines(listing@.subrange(0, i as int)).drop_last()),
            line@ == split_lines(listing@.subrange(0, i as int)).last(),
        decreases listing@.len() - i,
    {
        let ghost ls = split_lines(listing@.subrange(0, i as int));
        let ghost next = listing@.subrange(0, i + 1);
        proof {
            assert(next.drop_last() =~= listing@.subrange(0, i as int));
            assert(next.last() == listing@[i as int]);
            assert(ls =~= ls.drop_last().push(ls.last()));
        }
        let c = listing[i];
        if c == 10u8 {
            if identity_line(&line) {
                out.push(10u8);
                out.append(&mut line);
            }
            assert(out@ =~= render(ls.drop_last()) + emitted(ls.last()));
            line = Vec::new();
            assert(split_lines(next).drop_last() =~= ls);
        } else {
            line.push(c);
            assert(split_lines(next).drop_last() =~= ls.drop_last());
        }
        i += 1;
        proof {
            lemma_split_lines_nonempty(next);
        }
    }
    let ghost ls = split_lines(listing@);
    proof {
        assert(listing@.subrange(0, listing@.len() as int) =~= listing@);
        assert(ls =~= ls.drop_last().push(ls.last()));
    }
    if identity_line(&line) {
        out.push(10u8);
        out.append(&mut line);
    }
    assert(out@ =~= render(ls.drop_last()) + emitted(ls.last()));
    out
}

/// The answer to an identity query, from the outcome of listing the git configuration:
/// the raw output where the listing failed (as an error) or where `verbose` asks for all of
/// it, and otherwise only its identity lines.
pub fn whoami(verbose: bool, success: bool, output: Vec<u8>) -> (r: Result<Vec<u8>, VariantError>)
    ensures
        !success ==> r == Err::<Vec<u8>, VariantError>(VariantError::ProcessFailed(output)),
        success && verbose ==> r == Ok::<Vec<u8>, VariantError>(output),
        success && !verbose ==> r is Ok && r->Ok_0@ == identity_listing(output@),
{
    if !success {
        return Err(VariantError::ProcessFailed(output));
    }
    if verbose {
        return Ok(output);
    }
    Ok(identity_lines(&output))
}

} // verus!
