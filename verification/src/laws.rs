//! What holds of the node whatever modules and authenticator it runs.
use vstd::prelude::*;
use crate::module::{AppModule, Authenticator};
use crate::node::{check_step, commit_state, deliver_step, NodeState};
use crate::store::{map_root, merged, Committed};
use crate::tx::decoding;

verus! {

/// The node's state after the transactions of a block have been executed
/// in order.
pub open spec fn run_block<M: AppModule, A: Authenticator>(
    modules: Seq<M>,
    auth: A,
    s: NodeState,
    block: Seq<Seq<u8>>,
) -> NodeState
    decreases block.len(),
{
    if block.len() == 0 {
        s
    } else {
        deliver_step(modules, auth, run_block(modules, auth, s, block.drop_last()), block.last()).0
    }
}

/// Admission and execution do not see each other's writes: checking a
/// transaction leaves the execution cache as it is, executing one leaves
/// the admission cache as it is, and neither touches what is committed,
/// the height or the application hash.
pub proof fn lemma_caches_are_isolated<M: AppModule, A: Authenticator>(
    modules: Seq<M>,
    auth: A,
    s: NodeState,
    raw: Seq<u8>,
)
    ensures
        check_step(modules, auth, s, raw).0 == (NodeState {
            check: check_step(modules, auth, s, raw).0.check,
            ..s
        }),
        deliver_step(modules, auth, s, raw).0 == (NodeState {
            deliver: deliver_step(modules, auth, s, raw).0.deliver,
            ..s
        }),
{
}

/// A transaction that is turned down at admission leaves the node as it
/// was.
pub proof fn lemma_rejected_check_changes_nothing<M: AppModule, A: Authenticator>(
    modules: Seq<M>,
    auth: A,
    s: NodeState,
    raw: Seq<u8>,
)
    requires
        check_step(modules, auth, s, raw).1.code != 0,
    ensures
        check_step(modules, auth, s, raw).0 == s,
{
}

/// A transaction that fails in execution leaves nothing in the execution
/// cache but the advance of its sender's nonce: the cache is either as it
/// was, or as the authenticator's nonce step left the cache that was
/// there before the transaction. Nothing that the failing handler staged
/// is kept.
pub proof fn lemma_failed_deliver_leaves_no_writes<M: AppModule, A: Authenticator>(
    modules: Seq<M>,
    auth: A,
    s: NodeState,
    raw: Seq<u8>,
)
    requires
        deliver_step(modules, auth, s, raw).1.code != 0,
    ensures
        ({
            let after = deliver_step(modules, auth, s, raw).0;
            &&& after.committed == s.committed
            &&& after.check == s.check
            &&& after.height == s.height
            &&& after.apphash == s.apphash
            &&& after.deliver == s.deliver || (decoding(raw).is_some() && after.deliver
                == auth.nonce_step(decoding(raw).unwrap(), s.deliver, s.committed).staged)
        }),
{
}

/// Executing a block touches nothing but the execution cache.
pub proof fn lemma_block_keeps_the_rest<M: AppModule, A: Authenticator>(
    modules: Seq<M>,
    auth: A,
    s: NodeState,
    block: Seq<Seq<u8>>,
)
    ensures
        run_block(modules, auth, s, block) == (NodeState {
            deliver: run_block(modules, auth, s, block).deliver,
            ..s
        }),
    decreases block.len(),
{
    if block.len() > 0 {
        lemma_block_keeps_the_rest(modules, auth, s, block.drop_last());
    }
}

/// What is committed once a block has been executed and committed.
pub open spec fn committed_after<M: AppModule, A: Authenticator>(
    modules: Seq<M>,
    auth: A,
    s: NodeState,
    block: Seq<Seq<u8>>,
) -> Committed {
    let after = run_block(modules, auth, s, block);
    merged(after.deliver, after.committed)
}

/// The node's state once a block has been executed and committed by a
/// node that keeps its state in memory.
pub open spec fn commit_block<M: AppModule, A: Authenticator>(
    modules: Seq<M>,
    auth: A,
    s: NodeState,
    block: Seq<Seq<u8>>,
) -> NodeState {
    commit_state(
        run_block(modules, auth, s, block),
        map_root(committed_after(modules, auth, s, block)),
    )
}

/// The node's state once a sequence of blocks has been executed and
/// committed, one after the other.
pub open spec fn run_chain<M: AppModule, A: Authenticator>(
    modules: Seq<M>,
    auth: A,
    s: NodeState,
    blocks: Seq<Seq<Seq<u8>>>,
) -> NodeState
    decreases blocks.len(),
{
    if blocks.len() == 0 {
        s
    } else {
        commit_block(modules, auth, run_chain(modules, auth, s, blocks.drop_last()), blocks.last())
    }
}

/// Determinism of a block: what a block leaves staged, and so what its
/// commit leaves committed, is a function of what was committed and
/// staged before and of the block's transactions in order. Two nodes that
/// agree on these agree after the block, whatever their admission caches
/// and heights are, and report the same application hash.
pub proof fn lemma_block_is_deterministic<M: AppModule, A: Authenticator>(
    modules: Seq<M>,
    auth: A,
    a: NodeState,
    b: NodeState,
    block: Seq<Seq<u8>>,
)
    requires
        a.committed == b.committed,
        a.deliver == b.deliver,
    ensures
        run_block(modules, auth, a, block).deliver == run_block(modules, auth, b, block).deliver,
        committed_after(modules, auth, a, block) == committed_after(modules, auth, b, block),
        commit_block(modules, auth, a, block).apphash == commit_block(
            modules,
            auth,
            b,
            block,
        ).apphash,
    decreases block.len(),
{
    lemma_block_keeps_the_rest(modules, auth, a, block);
    lemma_block_keeps_the_rest(modules, auth, b, block);
    if block.len() > 0 {
        let front = block.drop_last();
        lemma_block_is_deterministic(modules, auth, a, b, front);
        lemma_block_keeps_the_rest(modules, auth, a, front);
        lemma_block_keeps_the_rest(modules, auth, b, front);
    }
}

/// Determinism of a chain: two nodes that start from the same committed
/// and staged state and are fed the same blocks hold the same committed
/// state after every block, and report the same application hash.
pub proof fn lemma_chain_is_deterministic<M: AppModule, A: Authenticator>(
    modules: Seq<M>,
    auth: A,
    a: NodeState,
    b: NodeState,
    blocks: Seq<Seq<Seq<u8>>>,
)
    requires
        a.committed == b.committed,
        a.deliver == b.deliver,
    ensures
        run_chain(modules, auth, a, blocks).committed == run_chain(
            modules,
            auth,
            b,
            blocks,
        ).committed,
        run_chain(modules, auth, a, blocks).deliver == run_chain(modules, auth, b, blocks).deliver,
        blocks.len() > 0 ==> run_chain(modules, auth, a, blocks).apphash == run_chain(
            modules,
            auth,
            b,
            blocks,
        ).apphash,
    decreases blocks.len(),
{
    if blocks.len() > 0 {
        let front = blocks.drop_last();
        lemma_chain_is_deterministic(modules, auth, a, b, front);
        lemma_block_is_deterministic(
            modules,
            auth,
            run_chain(modules, auth, a, front),
            run_chain(modules, auth, b, front),
            blocks.last(),
        );
    }
}

/// The height counts the commits: after a chain of blocks the height has
/// grown by their number, as long as it stays within the range of heights.
pub proof fn lemma_height_counts_commits<M: AppModule, A: Authenticator>(
    modules: Seq<M>,
    auth: A,
    s: NodeState,
    blocks: Seq<Seq<Seq<u8>>>,
)
    requires
        s.height + blocks.len() <= i64::MAX,
    ensures
        run_chain(modules, auth, s, blocks).height == s.height + blocks.len(),
    decreases blocks.len(),
{
    if blocks.len() > 0 {
        let front = blocks.drop_last();
        lemma_height_counts_commits(modules, auth, s, front);
        lemma_block_keeps_the_rest(modules, auth, run_chain(modules, auth, s, front), blocks.last());
    }
}

/// Every commit raises the height by one, whatever the block held: after
/// the commit of the block that follows height `h`, the height is `h + 1`.
pub proof fn lemma_commit_raises_height<M: AppModule, A: Authenticator>(
    modules: Seq<M>,
    auth: A,
    s: NodeState,
    block: Seq<Seq<u8>>,
    apphash: Seq<u8>,
)
    requires
        s.height < i64::MAX,
    ensures
        commit_state(run_block(modules, auth, s, block), apphash).height == s.height + 1,
        commit_state(run_block(modules, auth, s, block), apphash).apphash == apphash,
        commit_state(run_block(modules, auth, s, block), apphash).check == Map::<
            Seq<u8>,
            Option<Seq<u8>>,
        >::empty(),
        commit_state(run_block(modules, auth, s, block), apphash).deliver == Map::<
            Seq<u8>,
            Option<Seq<u8>>,
        >::empty(),
{
    lemma_block_keeps_the_rest(modules, auth, s, block);
}

} // verus!
