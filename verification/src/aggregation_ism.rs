//! An aggregation verification module on an Ethereum chain: the contract that
//! names the modules whose agreement a message needs, and how many of them.
//!
//! Ethereum knows a contract by a 20-byte address; the protocol names every
//! contract, on any chain, by a 32-byte word. This module holds the one and
//! answers in the other.

use ethers::types::{H160, H256};
use vstd::prelude::*;

verus! {

/// Where a contract lives: the domain of its chain and its address as a
/// 32-byte word.
#[derive(Clone, Copy, Debug, PartialEq, Eq)]
pub struct ContractLocator {
    pub domain: u32,
    pub address: [u8; 32],
}

/// A 20-byte address as a 32-byte word: twelve zero bytes, then the address.
pub open spec fn widened(address: Seq<u8>) -> Seq<u8>
    recommends
        address.len() == 20,
{
    Seq::new(12, |i: int| 0u8) + address
}

/// The 20-byte address in a 32-byte word: its last twenty bytes.
pub open spec fn narrowed(word: Seq<u8>) -> Seq<u8>
    recommends
        word.len() == 32,
{
    word.subrange(12, 32)
}

/// Calls `H256::from(H160)` of `ethers::types`. The contract claims that the
/// result holds twelve zero bytes followed by the twenty bytes of the address.
#[verifier::external_body]
fn h160_to_h256(address: &[u8; 20]) -> (word: [u8; 32])
    ensures
        word@ == widened(address@),
{
    H256::from(H160(*address)).0
}

/// Calls `H160::from(H256)` of `ethers::types`. The contract claims that the
/// result holds the last twenty bytes of the word.
#[verifier::external_body]
fn h256_to_h160(word: &[u8; 32]) -> (address: [u8; 20])
    ensures
        address@ == narrowed(word@),
{
    H160::from(H256(*word)).0
}

/// Widening an address and narrowing it again gives the address back.
pub proof fn law_narrowed_widened(address: Seq<u8>)
    requires
        address.len() == 20,
    ensures
        narrowed(widened(address)) == address,
{
    assert(narrowed(widened(address)) =~= address);
}

/// Narrowing a word and widening it again gives the word back exactly when its
/// first twelve bytes are zero.
pub proof fn law_widened_narrowed(word: Seq<u8>)
    requires
        word.len() == 32,
    ensures
        widened(narrowed(word)) == word <==> (forall|i: int| 0 <= i < 12 ==> word[i] == 0),
{
    if forall|i: int| 0 <= i < 12 ==> word[i] == 0 {
        assert(widened(narrowed(word)) =~= word);
    } else {
        let i = choose|i: int| 0 <= i < 12 && word[i] != 0;
        assert(widened(narrowed(word))[i] == 0);
    }
}

/// A reference to an aggregation verification module at an address on some
/// Ethereum chain.
#[derive(Clone, Copy, Debug, PartialEq, Eq)]
pub struct EthereumAggregationIsm {
    contract: [u8; 20],
    domain: u32,
}

impl EthereumAggregationIsm {
    /// The 20-byte address of the contract.
    pub closed spec fn contract(&self) -> Seq<u8> {
        self.contract@
    }

    /// The domain of the chain the contract is on.
    pub closed spec fn domain_id(&self) -> u32 {
        self.domain
    }

    /// Refers to the module that the locator points at. Of the locator's
    /// address only the last twenty bytes count.
    pub fn new(locator: &ContractLocator) -> (ism: EthereumAggregationIsm)
        ensures
            ism.contract() == narrowed(locator.address@),
            ism.domain_id() == locator.domain,
    {
        EthereumAggregationIsm { contract: h256_to_h160(&locator.address), domain: locator.domain }
    }

    /// The domain of the chain the contract is on.
    pub fn domain(&self) -> (domain: u32)
        ensures
            domain == self.domain_id(),
    {
        self.domain
    }

    /// The address of the contract as a 32-byte word.
    pub fn address(&self) -> (word: [u8; 32])
        ensures
            word@ == widened(self.contract()),
    {
        h160_to_h256(&self.contract)
    }

    /// Turns the contract's answer to the question which modules must verify a
    /// message, and how many of them, into the protocol's terms: each module's
    /// address as a 32-byte word, in the order given, and the threshold as it
    /// is.
    pub fn modules_and_threshold(&self, isms: &Vec<[u8; 20]>, threshold: u8) -> (answer: (
        Vec<[u8; 32]>,
        u8,
    ))
        ensures
            answer.0@.len() == isms@.len(),
            forall|i: int| 0 <= i < isms@.len() ==> (#[trigger] answer.0@[i])@ == widened(isms@[i]@),
            answer.1 == threshold,
    {
        let mut modules: Vec<[u8; 32]> = Vec::new();
        let mut i: usize = 0;
        while i < isms.len()
            invariant
                i <= isms@.len(),
                modules@.len() == i,
                forall|j: int| 0 <= j < i ==> (#[trigger] modules@[j])@ == widened(isms@[j]@),
            decreases isms.len() - i,
        {
            modules.push(h160_to_h256(&isms[i]));
            i += 1;
        }
        (modules, threshold)
    }
}

/// Builds aggregation verification modules from contract locators.
#[derive(Clone, Copy, Debug, PartialEq, Eq)]
pub struct AggregationIsmBuilder {}

impl AggregationIsmBuilder {
    /// Builds the module that the locator points at.
    pub fn build_with_provider(&self, locator: &ContractLocator) -> (ism: EthereumAggregationIsm)
        ensures
            ism.contract() == narrowed(locator.address@),
            ism.domain_id() == locator.domain,
    {
        EthereumAggregationIsm::new(locator)
    }
}

/// The interface of the contract as calls see it.
#[derive(Clone, Copy, Debug, PartialEq, Eq)]
pub struct EthereumRoutingIsmAbi;

impl EthereumRoutingIsmAbi {
    /// The number of bytes at the start of a call's data that select the
    /// function called.
    pub const SELECTOR_SIZE_BYTES: usize = 4;
}

} // verus!
