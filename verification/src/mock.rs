//! A deterministic, table-driven router: the in-memory test double the
//! scheduler's scenarios are driven with.
//!
//! Verifier answers are keyed by the whole request triple, fetcher answers by
//! height; a query that matches no entry fails (`ImplementationSpecific` for
//! the verifier, `Unavailable` for the fetcher), so a scenario only ever sees
//! the answers it was scripted with. [`MockRouter::sound`] states that every
//! scripted answer respects the collaborators' contracts, and
//! [`lemma_mock_router_wf`] turns that into `router_wf`.

use vstd::prelude::*;

use crate::router::FetchError;
use crate::router::Router;
use crate::router::RpcResponse;
use crate::router::RpcRequest;
use crate::router::VerifierRequest;
use crate::router::VerifierResponse;
use crate::router::router_wf;
use crate::scheduler::VerificationOptions;
use crate::types::Error;
use crate::types::Height;
use crate::types::LightBlock;
use crate::types::TrustedState;
use crate::types::light_block_wf;

verus! {

/// One scripted verifier answer: the request triple it matches, then the
/// response.
pub type VerifierEntry = (TrustedState, LightBlock, VerificationOptions, VerifierResponse);

/// One scripted fetcher answer.
pub type RpcEntry = (Height, RpcResponse);

/// The first scripted response matching the request triple; without one, the
/// verifier rejects with `ImplementationSpecific`.
pub open spec fn verifier_table_lookup(
    entries: Seq<VerifierEntry>,
    trusted_state: TrustedState,
    light_block: LightBlock,
    options: VerificationOptions,
) -> VerifierResponse
    decreases entries.len(),
{
    if entries.len() == 0 {
        VerifierResponse::VerificationFailed(Error::ImplementationSpecific)
    } else if entries[0].0 == trusted_state && entries[0].1 == light_block && entries[0].2
        == options {
        entries[0].3
    } else {
        verifier_table_lookup(entries.drop_first(), trusted_state, light_block, options)
    }
}

/// The first scripted response for the height; without one, the fetch fails
/// as `Unavailable`.
pub open spec fn rpc_table_lookup(entries: Seq<RpcEntry>, height: Height) -> RpcResponse
    decreases entries.len(),
{
    if entries.len() == 0 {
        RpcResponse::FetchFailed(FetchError::Unavailable)
    } else if entries[0].0 == height {
        entries[0].1
    } else {
        rpc_table_lookup(entries.drop_first(), height)
    }
}

/// A scripted verifier answer respects the verifier's contract: success
/// hands back the candidate block's header and validator set.
pub open spec fn verifier_entry_sound(entry: VerifierEntry) -> bool {
    entry.3 matches VerifierResponse::VerificationSucceeded(new_state) ==> {
        &&& new_state.header == entry.1.signed_header.header
        &&& new_state.validators == entry.1.validator_set
    }
}

/// A scripted fetcher answer respects the fetcher's contract: a returned
/// block is at the scripted height and internally consistent.
pub open spec fn rpc_entry_sound(entry: RpcEntry) -> bool {
    entry.1 matches RpcResponse::FetchedLightBlock(block) ==> block.height == entry.0
        && light_block_wf(block)
}

/// In-memory router whose answers come from two scripted tables.
pub struct MockRouter {
    verifier_entries: Vec<VerifierEntry>,
    rpc_entries: Vec<RpcEntry>,
}

impl MockRouter {
    /// The scripted verifier answers, in order.
    pub closed spec fn verifier_table(&self) -> Seq<VerifierEntry> {
        self.verifier_entries@
    }

    /// The scripted fetcher answers, in order.
    pub closed spec fn rpc_table(&self) -> Seq<RpcEntry> {
        self.rpc_entries@
    }

    /// Every scripted answer respects its collaborator's contract.
    pub open spec fn sound(&self) -> bool {
        &&& forall|i: int|
            0 <= i < self.verifier_table().len() ==> verifier_entry_sound(
                #[trigger] self.verifier_table()[i],
            )
        &&& forall|i: int|
            0 <= i < self.rpc_table().len() ==> rpc_entry_sound(#[trigger] self.rpc_table()[i])
    }

    /// A router with no scripted answers: it fails every query.
    pub fn new() -> (router: MockRouter)
        ensures
            router.verifier_table() == Seq::<VerifierEntry>::empty(),
            router.rpc_table() == Seq::<RpcEntry>::empty(),
            router.sound(),
    {
        MockRouter { verifier_entries: Vec::new(), rpc_entries: Vec::new() }
    }

    /// Script the verifier's answer for one request triple.
    pub fn on_verify(
        &mut self,
        trusted_state: TrustedState,
        light_block: LightBlock,
        options: VerificationOptions,
        response: VerifierResponse,
    )
        requires
            verifier_entry_sound((trusted_state, light_block, options, response)),
        ensures
            final(self).verifier_table() == old(self).verifier_table().push(
                (trusted_state, light_block, options, response),
            ),
            final(self).rpc_table() == old(self).rpc_table(),
            old(self).sound() ==> final(self).sound(),
    {
        self.verifier_entries.push((trusted_state, light_block, options, response));
    }

    /// Script the fetcher's answer for one height.
    pub fn on_fetch(&mut self, height: Height, response: RpcResponse)
        requires
            rpc_entry_sound((height, response)),
        ensures
            final(self).rpc_table() == old(self).rpc_table().push((height, response)),
            final(self).verifier_table() == old(self).verifier_table(),
            old(self).sound() ==> final(self).sound(),
    {
        self.rpc_entries.push((height, response));
    }
}

/// A sound verifier table only ever looks contract-respecting answers up.
proof fn lemma_verifier_table_lookup_sound(
    entries: Seq<VerifierEntry>,
    trusted_state: TrustedState,
    light_block: LightBlock,
    options: VerificationOptions,
)
    requires
        forall|i: int| 0 <= i < entries.len() ==> verifier_entry_sound(#[trigger] entries[i]),
    ensures
        verifier_table_lookup(entries, trusted_state, light_block, options) matches
            VerifierResponse::VerificationSucceeded(new_state) ==> {
            &&& new_state.header == light_block.signed_header.header
            &&& new_state.validators == light_block.validator_set
        },
    decreases entries.len(),
{
    if entries.len() > 0 {
        if !(entries[0].0 == trusted_state && entries[0].1 == light_block && entries[0].2
            == options) {
            assert forall|i: int|
                0 <= i < entries.drop_first().len() implies verifier_entry_sound(
                #[trigger] entries.drop_first()[i]) by {
                assert(entries.drop_first()[i] == entries[i + 1]);
            }
            lemma_verifier_table_lookup_sound(
                entries.drop_first(),
                trusted_state,
                light_block,
                options,
            );
        }
    }
}

/// A sound fetcher table only ever looks contract-respecting answers up.
proof fn lemma_rpc_table_lookup_sound(entries: Seq<RpcEntry>, height: Height)
    requires
        forall|i: int| 0 <= i < entries.len() ==> rpc_entry_sound(#[trigger] entries[i]),
    ensures
        rpc_table_lookup(entries, height) matches RpcResponse::FetchedLightBlock(block)
            ==> block.height == height && light_block_wf(block),
    decreases entries.len(),
{
    if entries.len() > 0 && entries[0].0 != height {
        assert forall|i: int|
            0 <= i < entries.drop_first().len() implies rpc_entry_sound(
            #[trigger] entries.drop_first()[i]) by {
            assert(entries.drop_first()[i] == entries[i + 1]);
        }
        lemma_rpc_table_lookup_sound(entries.drop_first(), height);
    }
}

/// A soundly scripted mock satisfies everything the scheduler requires of a
/// router.
pub proof fn lemma_mock_router_wf(router: MockRouter)
    requires
        router.sound(),
    ensures
        router_wf(router),
{
    assert forall|trusted_state: TrustedState, light_block: LightBlock, options:
        VerificationOptions|
        (#[trigger] router.verifier_response(trusted_state, light_block, options)) is
            VerificationSucceeded implies {
        let new_state = router.verifier_response(
            trusted_state,
            light_block,
            options,
        )->VerificationSucceeded_0;
        &&& new_state.header == light_block.signed_header.header
        &&& new_state.validators == light_block.validator_set
    } by {
        lemma_verifier_table_lookup_sound(
            router.verifier_table(),
            trusted_state,
            light_block,
            options,
        );
    }
    assert forall|height: Height|
        (#[trigger] router.rpc_response(height)) is FetchedLightBlock implies {
        let block = router.rpc_response(height)->FetchedLightBlock_0;
        block.height == height && light_block_wf(block)
    } by {
        lemma_rpc_table_lookup_sound(router.rpc_table(), height);
    }
}

impl Router for MockRouter {
    open spec fn verifier_response(
        &self,
        trusted_state: TrustedState,
        light_block: LightBlock,
        options: VerificationOptions,
    ) -> VerifierResponse {
        verifier_table_lookup(self.verifier_table(), trusted_state, light_block, options)
    }

    open spec fn rpc_response(&self, height: Height) -> RpcResponse {
        rpc_table_lookup(self.rpc_table(), height)
    }

    fn query_verifier(&self, request: VerifierRequest) -> (response: VerifierResponse) {
        match request {
            VerifierRequest::VerifyLightBlock { trusted_state, light_block, options } => {
                let n = self.verifier_entries.len();
                let mut i: usize = 0;
                proof {
                    assert(self.verifier_table().subrange(0, n as int) =~= self.verifier_table());
                }
                while i < n
                    invariant
                        request == (VerifierRequest::VerifyLightBlock {
                            trusted_state,
                            light_block,
                            options,
                        }),
                        i <= n,
                        n == self.verifier_entries.len(),
                        verifier_table_lookup(
                            self.verifier_table(),
                            trusted_state,
                            light_block,
                            options,
                        ) == verifier_table_lookup(
                            self.verifier_table().subrange(i as int, n as int),
                            trusted_state,
                            light_block,
                            options,
                        ),
                    decreases n - i,
                {
                    let entry = self.verifier_entries[i];
                    proof {
                        assert(self.verifier_table().subrange(i as int, n as int)[0]
                            == self.verifier_table()[i as int]);
                        assert(self.verifier_table().subrange(
                            i as int,
                            n as int,
                        ).drop_first() =~= self.verifier_table().subrange(i as int + 1, n as int));
                    }
                    if entry.0 == trusted_state && entry.1 == light_block && entry.2 == options {
                        proof {
                            assert(self.verifier_table().subrange(i as int, n as int)[0] == entry);
                            assert(verifier_table_lookup(
                                self.verifier_table().subrange(i as int, n as int),
                                trusted_state,
                                light_block,
                                options,
                            ) == entry.3);
                        }
                        return entry.3;
                    }
                    i = i + 1;
                }
                proof {
                    assert(self.verifier_table().subrange(n as int, n as int) =~= Seq::<
                        VerifierEntry,
                    >::empty());
                }
                VerifierResponse::VerificationFailed(Error::ImplementationSpecific)
            },
        }
    }

    fn query_rpc(&self, request: RpcRequest) -> (response: RpcResponse) {
        match request {
            RpcRequest::FetchLightBlock(height) => {
                let n = self.rpc_entries.len();
                let mut i: usize = 0;
                proof {
                    assert(self.rpc_table().subrange(0, n as int) =~= self.rpc_table());
                }
                while i < n
                    invariant
                        request == RpcRequest::FetchLightBlock(height),
                        i <= n,
                        n == self.rpc_entries.len(),
                        rpc_table_lookup(self.rpc_table(), height) == rpc_table_lookup(
                            self.rpc_table().subrange(i as int, n as int),
                            height,
                        ),
                    decreases n - i,
                {
                    let entry = self.rpc_entries[i];
                    proof {
                        assert(self.rpc_table().subrange(i as int, n as int)[0]
                            == self.rpc_table()[i as int]);
                        assert(self.rpc_table().subrange(i as int, n as int).drop_first()
                            =~= self.rpc_table().subrange(i as int + 1, n as int));
                    }
                    if entry.0 == height {
                        proof {
                            assert(self.rpc_table().subrange(i as int, n as int)[0] == entry);
                            assert(rpc_table_lookup(
                                self.rpc_table().subrange(i as int, n as int),
                                height,
                            ) == entry.1);
                        }
                        return entry.1;
                    }
                    i = i + 1;
                }
                proof {
                    assert(self.rpc_table().subrange(n as int, n as int) =~= Seq::<
                        RpcEntry,
                    >::empty());
                }
                RpcResponse::FetchFailed(FetchError::Unavailable)
            },
        }
    }
}

} // verus!
