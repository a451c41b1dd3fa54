//! Bringing a repository in.
use vstd::prelude::*;

use crate::path::Platform;
use crate::{path, text};

verus! {

/// A failure with everything that led to it: what was being done, then each cause
/// behind the other.
pub open spec fn chained(prefix: Seq<char>, causes: Seq<Seq<char>>) -> Seq<char>
    decreases causes.len(),
{
    if causes.len() == 0 {
        prefix
    } else {
        chained(prefix, causes.drop_last()) + ": "@ + causes.last()
    }
}

/// Renders a failure with its causes, the outermost first: the useful one often is
/// several levels down.
pub fn chain(prefix: &str, causes: &Vec<String>) -> (r: String)
    ensures
        r@ == chained(prefix@, text::views(causes@)),
{
    let mut msg: String = prefix.to_string();
    let ghost all = text::views(causes@);
    let mut i: usize = 0;
    assert(all.take(0) =~= seq![]);
    while i < causes.len()
        invariant
            i <= causes.len(),
            all == text::views(causes@),
            msg@ == chained(prefix@, all.take(i as int)),
        decreases causes.len() - i,
    {
        assert(all.take(i + 1).drop_last() =~= all.take(i as int));
        assert(all.take(i + 1).last() == causes@[i as int]@);
        msg.append(": ");
        msg.append(&causes[i]);
        i = i + 1;
    }
    assert(all.take(i as int) =~= all);
    msg
}

/// Where new content is brought to before it takes the place of the old, so that a
/// failure leaves nothing half-updated behind.
pub fn draft_of(repo_dir: &str, platform: Platform) -> (r: String)
    ensures
        r@ == path::beside(repo_dir@, "tmp"@, platform),
        r@ != repo_dir@,
{
    path::place_beside(repo_dir, "tmp", platform)
}

/// A failure is told with each of its causes behind it, the innermost last.
pub proof fn causes_are_told_in_order(prefix: Seq<char>, causes: Seq<Seq<char>>, cause: Seq<char>)
    ensures
        chained(prefix, Seq::empty()) == prefix,
        chained(prefix, causes.push(cause)) == chained(prefix, causes) + ": "@ + cause,
{
    assert(causes.push(cause).drop_last() =~= causes);
}

} // verus!
