//! Feature-flag sets for release configuration.
//!
//! A `Features` value names the flags a release proposal enables and
//! disables. Squashing one proposal onto another combines them with set
//! semantics: what the newer proposal enables leaves the disabled set,
//! and what it disables leaves the enabled set.

use vstd::prelude::*;

verus! {

/// A feature flag of the chain.
#[derive(Clone, Copy, PartialEq, Eq, Structural, Debug, Hash)]
pub enum FeatureFlag {
    CodeDependencyCheck,
    CollectAndDistributeGasFees,
    TreatFriendAsPrivate,
    Sha512AndRipeMd160Natives,
    CreditChainStdChainIdNatives,
    VMBinaryFormatV6,
    MultiEd25519PkValidateV2Natives,
    Blake2b256Native,
    ResourceGroups,
    MultisigAccounts,
    DelegationPools,
    CryptographyAlgebraNatives,
    Bls12381Structures,
    Ed25519PubkeyValidateReturnFalseWrongLength,
    StructConstructors,
    PeriodicalRewardRateReduction,
    PartialGovernanceVoting,
    SignatureCheckerV2,
    StorageSlotMetadata,
    ChargeInvariantViolation,
    DelegationPoolPartialGovernanceVoting,
    GasPayerEnabled,
    CreditChainUniqueIdentifiers,
    BulletproofsNatives,
    SignerNativeFormatFix,
    ModuleEvent,
    EmitFeeStatement,
    StorageDeletionRefund,
    AggregatorV2Api,
    SignatureCheckerV2ScriptFix,
    SaferResourceGroups,
    SaferMetadata,
    SingleSenderAuthenticator,
    SponsoredAutomaticAccountCreation,
    FeePayerAccountOptional,
    AggregatorV2DelayedFields,
    ConcurrentTokenV2,
    LimitMaxIdentifierLength,
    OperatorBeneficiaryChange,
    VMBinaryFormatV7,
    ResourceGroupsSplitInVmChangeSet,
    CommissionChangeDelegationPool,
    Bn254Structures,
    WebAuthnSignature,
    ReconfigureWithDkg,
    KeylessAccounts,
    KeylessButZklessAccounts,
    RemoveDetailedError,
    JwkConsensus,
    ConcurrentFungibleAssets,
    RefundableBytes,
    ObjectCodeDeployment,
    MaxObjectNestingCheck,
    KeylessAccountsWithPasskeys,
    MultisigV2Enhancement,
    DelegationPoolAllowlisting,
    ModuleEventMigration,
    RejectUnstableBytecode,
    TransactionContextExtension,
    CoinToFungibleAssetMigration,
    PrimaryAPTFungibleStoreAtUserAddress,
    ObjectNativeDerivedAddress,
    DispatchableFungibleAsset,
    NewAccountsDefaultToFaAptStore,
    OperationsDefaultToFaAptStore,
    AggregatorV2IsAtLeastApi,
    ConcurrentFungibleBalance,
    DefaultToConcurrentFungibleBalance,
    LimitVMTypeSize,
    AbortIfMultisigPayloadMismatch,
    DisallowUserNative,
    AllowSerializedScriptArgs,
    UseCompatibilityCheckerV2,
    EnableEnumTypes,
    EnableResourceAccessControl,
    RejectUnstableBytecodeForScript,
    FederatedKeyless,
    TransactionSimulationEnhancement,
    CollectionOwner,
    NativeMemoryOperations,
    EnableLoaderV2,
    DisallowInitModuleToPublishModules,
    EnableCallTreeAndInstructionVMCache,
    PermissionedSigner,
    AccountAbstraction,
    VMBinaryFormatV8,
    BulletproofsBatchNatives,
    DerivableAccountAbstraction,
    EnableFunctionValues,
    NewAccountsDefaultToFaStore,
    DefaultAccountResource,
    JwkConsensusPerKeyMode,
    TransactionPayloadV2,
    OrderlessTransactions,
    EnableLazyLoading,
    CalculateTransactionFeeForDistribution,
    DistributeTransactionFee,
}

/// The flags a release proposal enables and disables.
#[derive(Clone, PartialEq, Eq, Debug)]
pub struct Features {
    /// The flags to enable.
    pub enabled: Vec<FeatureFlag>,
    /// The flags to disable.
    pub disabled: Vec<FeatureFlag>,
}

/// Whether a flag vector contains a flag.
fn vec_contains(v: &Vec<FeatureFlag>, f: FeatureFlag) -> (r: bool)
    ensures
        r == v@.contains(f),
{
    let mut i: usize = 0;
    while i < v.len()
        invariant
            i <= v@.len(),
            forall|j: int| 0 <= j < i ==> v@[j] != f,
        decreases v@.len() - i,
    {
        if v[i] == f {
            return true;
        }
        i = i + 1;
    }
    proof {
        if v@.contains(f) {
            let j = choose|j: int| 0 <= j <= v@.len() - 1 && v@[j] == f;
            assert(v@[j] != f);
        }
    }
    false
}

/// Appends to `dst` every flag of `src` that is not in `excl`: membership
/// afterwards is membership before, or membership in `src` outside
/// `excl`.
fn push_filtered(dst: &mut Vec<FeatureFlag>, src: &Vec<FeatureFlag>, excl: &Vec<FeatureFlag>)
    ensures
        forall|f: FeatureFlag|
            final(dst)@.contains(f) <==> (old(dst)@.contains(f) || (src@.contains(f)
                && !excl@.contains(f))),
{
    let ghost dst0 = dst@;
    let mut i: usize = 0;
    while i < src.len()
        invariant
            i <= src@.len(),
            forall|f: FeatureFlag|
                dst@.contains(f) <==> (dst0.contains(f) || (src@.subrange(0, i as int).contains(
                    f,
                ) && !excl@.contains(f))),
        decreases src@.len() - i,
    {
        let ghost before = dst@;
        let ghost pre = src@.subrange(0, i as int);
        let ghost post = src@.subrange(0, i as int + 1);
        proof {
            assert(post.drop_last() =~= pre);
            assert(post.last() == src@[i as int]);
            assert forall|f: FeatureFlag| post.contains(f) implies (pre.contains(f) || f
                == src@[i as int]) by {
                let j = choose|j: int| 0 <= j < post.len() && post[j] == f;
                if j < post.len() - 1 {
                    assert(pre[j] == f);
                }
            }
            assert forall|f: FeatureFlag| pre.contains(f) implies post.contains(f) by {
                let j = choose|j: int| 0 <= j < pre.len() && pre[j] == f;
                assert(post[j] == f);
            }
            assert(post.contains(src@[i as int])) by {
                assert(post[post.len() - 1] == src@[i as int]);
            }
        }
        let x = src[i];
        if !vec_contains(excl, x) {
            dst.push(x);
            proof {
                assert forall|f: FeatureFlag| dst@.contains(f) implies (before.contains(f) || f
                    == x) by {
                    let j = choose|j: int| 0 <= j < dst@.len() && dst@[j] == f;
                    if j < dst@.len() - 1 {
                        assert(before[j] == f);
                    }
                }
                assert forall|f: FeatureFlag| before.contains(f) implies dst@.contains(f) by {
                    let j = choose|j: int| 0 <= j < before.len() && before[j] == f;
                    assert(dst@[j] == f);
                }
                assert(dst@.contains(x)) by {
                    assert(dst@[dst@.len() - 1] == x);
                }
                assert forall|f: FeatureFlag|
                    dst@.contains(f) == (dst0.contains(f) || (post.contains(f)
                        && !excl@.contains(f))) by {
                    if f == x {
                        assert(dst@.contains(x));
                        assert(post.contains(x));
                        assert(!excl@.contains(x));
                    } else {
                        assert(dst@.contains(f) ==> before.contains(f) || f == x);
                        assert(before.contains(f) ==> dst@.contains(f));
                        assert(post.contains(f) ==> pre.contains(f) || f == x);
                        assert(pre.contains(f) ==> post.contains(f));
                        assert(before.contains(f) == (dst0.contains(f) || (pre.contains(f)
                            && !excl@.contains(f))));
                    }
                }
            }
        } else {
            proof {
                assert(dst@ == before);
                assert forall|f: FeatureFlag|
                    dst@.contains(f) == (dst0.contains(f) || (post.contains(f)
                        && !excl@.contains(f))) by {
                    assert(before.contains(f) == (dst0.contains(f) || (pre.contains(f)
                        && !excl@.contains(f))));
                    if f == x {
                        assert(excl@.contains(x));
                    } else {
                        assert(post.contains(f) ==> pre.contains(f) || f == x);
                        assert(pre.contains(f) ==> post.contains(f));
                    }
                }
            }
        }
        i = i + 1;
    }
    proof {
        assert(src@.subrange(0, src@.len() as int) =~= src@);
    }
}

impl Features {
    /// A proposal that touches no flags.
    pub fn empty() -> (r: Self)
        ensures
            r.enabled@.len() == 0,
            r.disabled@.len() == 0,
    {
        Features { enabled: Vec::new(), disabled: Vec::new() }
    }

    /// Whether the proposal touches no flags.
    pub fn is_empty(&self) -> (r: bool)
        ensures
            r == (self.enabled@.len() == 0 && self.disabled@.len() == 0),
    {
        self.enabled.len() == 0 && self.disabled.len() == 0
    }

    /// Squashes `rhs` onto this proposal, with set semantics: afterwards
    /// a flag is enabled exactly when it was enabled here or is enabled
    /// by `rhs`, and `rhs` does not disable it; and it is disabled
    /// exactly when `rhs` disables it, or it was disabled here and `rhs`
    /// does not enable it.
    pub fn squash(&mut self, rhs: Self)
        ensures
            forall|f: FeatureFlag|
                final(self).enabled@.contains(f) <==> ((old(self).enabled@.contains(f)
                    || rhs.enabled@.contains(f)) && !rhs.disabled@.contains(f)),
            forall|f: FeatureFlag|
                final(self).disabled@.contains(f) <==> ((old(self).disabled@.contains(f)
                    && !rhs.enabled@.contains(f)) || rhs.disabled@.contains(f)),
    {
        let none: Vec<FeatureFlag> = Vec::new();
        proof {
            assert forall|f: FeatureFlag| !none@.contains(f) by {
                if none@.contains(f) {
                    let j = choose|j: int| 0 <= j < none@.len() && none@[j] == f;
                }
            }
        }
        let mut en: Vec<FeatureFlag> = Vec::new();
        proof {
            assert forall|f: FeatureFlag| !en@.contains(f) by {
                if en@.contains(f) {
                    let j = choose|j: int| 0 <= j < en@.len() && en@[j] == f;
                }
            }
        }
        push_filtered(&mut en, &self.enabled, &rhs.disabled);
        let ghost en1 = en@;
        push_filtered(&mut en, &rhs.enabled, &rhs.disabled);
        proof {
            assert forall|f: FeatureFlag|
                en@.contains(f) == ((old(self).enabled@.contains(f) || rhs.enabled@.contains(f))
                    && !rhs.disabled@.contains(f)) by {
                assert(en1.contains(f) == (old(self).enabled@.contains(f)
                    && !rhs.disabled@.contains(f)));
                assert(en@.contains(f) == (en1.contains(f) || (rhs.enabled@.contains(f)
                    && !rhs.disabled@.contains(f))));
            }
        }
        let mut dis: Vec<FeatureFlag> = Vec::new();
        proof {
            assert forall|f: FeatureFlag| !dis@.contains(f) by {
                if dis@.contains(f) {
                    let j = choose|j: int| 0 <= j < dis@.len() && dis@[j] == f;
                }
            }
        }
        push_filtered(&mut dis, &self.disabled, &rhs.enabled);
        let ghost dis1 = dis@;
        push_filtered(&mut dis, &rhs.disabled, &none);
        proof {
            assert forall|f: FeatureFlag|
                dis@.contains(f) == ((old(self).disabled@.contains(f)
                    && !rhs.enabled@.contains(f)) || rhs.disabled@.contains(f)) by {
                assert(dis1.contains(f) == (old(self).disabled@.contains(f)
                    && !rhs.enabled@.contains(f)));
                assert(dis@.contains(f) == (dis1.contains(f) || (rhs.disabled@.contains(f)
                    && !none@.contains(f))));
            }
        }
        self.enabled = en;
        self.disabled = dis;
    }
}

} // verus!
