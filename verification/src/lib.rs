//! A cross-chain token bridge endpoint: it accepts outbound migration
//! requests and emits a canonical record for an external relayer, and it
//! accepts cryptographic proofs of remote-chain transfer events, verifies
//! them through an external prover, guards against replay, deducts clamped
//! fees, and hands the host the value release to perform.
//!
//! The core is verified: the event codec (`transfer_to_near_event`,
//! `rlp_codec`), the replay identity and ledger (`prover`, the `NearBridge`
//! state), the fee engine (`fee`), and the two-stage settlement state
//! machine on `NearBridge`. Host plumbing — promises, deposits, the actual
//! external calls — stays outside, driven by the values these functions
//! return.

use vstd::prelude::*;

pub mod bytes_util;
pub mod fee;
pub mod hashing;
pub mod prover;
pub mod rlp_codec;
pub mod hexcodec;
pub mod strutil;
pub mod transfer_to_near_event;

use crate::fee::{spec_fee, FeeSchedule};
use crate::hexcodec::{hex_bytes, is_hex_string};
use crate::prover::{
    is_valid_account_id, parse_recipient, spec_message_bytes, spec_target_bytes, EthAddress, Proof,
};
use crate::transfer_to_near_event::{
    spec_event_valid, spec_log_entry_data, TransferToNearInitiatedEvent,
};
use vstd::utf8::encode_utf8;

verus! {

/// Everything that can go wrong in the bridge core. Every failure is
/// surfaced as one of these; no error is swallowed.
#[derive(Clone, Copy, Debug, PartialEq, Eq, Structural)]
pub enum BridgeError {
    /// A pause gate denied the caller entry.
    GateClosed,
    /// A zero amount, malformed address, malformed recipient string, or a
    /// fee claim above the accrual.
    InputValidation,
    /// Malformed RLP or ABI data, or an event-signature mismatch.
    CodecError,
    /// The decoded event's origin contract is not the configured counterpart.
    OriginMismatch,
    /// The external verifier rejected the proof.
    ProofVerificationFailed,
    /// The proof's replay identity was already consumed.
    DuplicateProof,
    /// The attached deposit does not cover the storage the settlement records.
    InsufficientFunding,
    /// The clamped fee exceeds the transferred amount.
    FeeExceedsAmount,
    /// The verification continuation was invoked by a foreign caller.
    UnauthorizedContinuation,
    /// A wrapped-token operation was requested before its account was set.
    WNearNotSet,
    /// An administrative operation was requested by a caller without the role.
    Unauthorized,
}

/// Roles recognised by the access-control layer. `DAO` may administer
/// everything; the two `Unrestricted*` roles bypass the pause gate of the
/// matching entry point.
#[derive(Clone, Copy, Debug, PartialEq, Eq, Structural)]
pub enum Role {
    DAO,
    PauseManager,
    UnrestrictedMigrateToEthereum,
    UnrestrictedFinaliseEthToNearTransfer,
    UpgradableCodeStager,
    UpgradableCodeDeployer,
}

/// The two pausable entry points.
#[derive(Clone, Copy, Debug, PartialEq, Eq, Structural)]
pub enum Feature {
    MigrateToEthereum,
    FinaliseEthToNearTransfer,
}

/// What a pause gate answers at the entry of a sensitive operation.
#[derive(Clone, Copy, Debug, PartialEq, Eq, Structural)]
pub enum GateDecision {
    Allowed,
    Denied,
}

/// The canonical record emitted for an external relayer on the outbound
/// path: the net amount to release remotely and the remote recipient.
#[derive(Debug, PartialEq, Eq)]
pub enum ResultType {
    MigrateNearToEthereum { amount: u128, recipient: EthAddress },
}

/// An inbound verification request: everything the external verifier needs,
/// plus the continuation context carried verbatim into the second stage.
#[derive(Debug)]
pub struct VerificationRequest {
    pub prover_account: String,
    pub skip_bridge_call: bool,
    pub proof: Proof,
    pub recipient: String,
    pub amount: u128,
    pub attached_deposit: u128,
}

/// The value release a finished settlement asks the host to perform: a
/// direct transfer, or a wrap-and-forward carrying the recipient's message.
#[derive(Debug)]
pub enum SettlementAction {
    Transfer { recipient: String, amount: u128 },
    WrapAndForward { wnear_account: String, recipient: String, amount: u128, message: String },
}

/// The registration call that follows setting the wrapped-token account.
#[derive(Debug)]
pub struct StorageDepositAction {
    pub wnear_account: String,
    pub attached_deposit: u128,
}

/// The two-call sequence that forwards the spare balance to another bridge.
#[derive(Debug)]
pub struct OmniTransferAction {
    pub wnear_account: String,
    pub omni_bridge: String,
    pub amount: u128,
}

/// A request to add a full-access key to the bridge account.
#[derive(Debug)]
pub struct AttachKeyAction {
    pub public_key: Vec<u8>,
}

/// The number of ledger bytes one recorded proof identity occupies: the
/// marginal storage a settlement must pre-fund.
pub const PROOF_KEY_STORAGE_BYTES: u128 = 32;

/// The bridge endpoint: configuration, the replay ledger, the fee engine's
/// schedules and accrual counter, and the pause/role gates.
#[derive(Debug)]
pub struct NearBridge {
    /// The account of the prover used to verify inbound proofs.
    pub prover_account: String,
    /// Address of the associated remote-chain counterpart contract.
    pub e_near_address: EthAddress,
    /// Replay identities of the events that were already consumed.
    pub used_events: Vec<Vec<u8>>,
    /// The wrapped-token account, once an administrator has set it.
    pub wnear_account: Option<String>,
    /// Fee schedule for the outbound direction.
    pub fee_outbound: FeeSchedule,
    /// Fee schedule for the inbound direction.
    pub fee_inbound: FeeSchedule,
    /// Collected fees pending an authorized claim.
    pub accrued_fees: u128,
    /// Pause flags, one per gated entry point.
    pub paused_migrate: bool,
    pub paused_finalise: bool,
    /// The account that may grant roles.
    pub super_admin: String,
    /// Granted roles, one pair per grant.
    pub role_grants: Vec<(String, Role)>,
}

impl NearBridge {
    /// A well-formed bridge: a 20-byte counterpart address and well-formed
    /// fee schedules.
    pub open spec fn wf(&self) -> bool {
        &&& self.e_near_address@.len() == 20
        &&& self.fee_outbound.wf()
        &&& self.fee_inbound.wf()
    }

    /// The replay ledger as a sequence of identities.
    pub open spec fn used_keys(&self) -> Seq<Seq<u8>> {
        self.used_events@.map_values(|v: Vec<u8>| v@)
    }

    /// Whether an identity was already consumed.
    pub open spec fn spec_is_used(&self, key: Seq<u8>) -> bool {
        self.used_keys().contains(key)
    }

    /// Whether an account holds a role.
    pub open spec fn spec_has_role(&self, account: Seq<char>, role: Role) -> bool {
        exists|i: int|
            0 <= i < self.role_grants@.len() && self.role_grants@[i].0@ == account
                && self.role_grants@[i].1 == role
    }

    /// Whether `caller` may enter through `feature`'s pause barrier: every
    /// entry point is open unless paused, and a paused one still admits
    /// `DAO` and the matching unrestricted role.
    pub open spec fn spec_gate_allows(&self, feature: Feature, caller: Seq<char>) -> bool {
        match feature {
            Feature::MigrateToEthereum => !self.paused_migrate || self.spec_has_role(
                caller,
                Role::DAO,
            ) || self.spec_has_role(caller, Role::UnrestrictedMigrateToEthereum),
            Feature::FinaliseEthToNearTransfer => !self.paused_finalise || self.spec_has_role(
                caller,
                Role::DAO,
            ) || self.spec_has_role(caller, Role::UnrestrictedFinaliseEthToNearTransfer),
        }
    }

    /// Everything but the ledger and the accrual counter.
    pub open spec fn same_config(a: NearBridge, b: NearBridge) -> bool {
        &&& a.prover_account == b.prover_account
        &&& a.e_near_address == b.e_near_address
        &&& a.wnear_account == b.wnear_account
        &&& a.fee_outbound == b.fee_outbound
        &&& a.fee_inbound == b.fee_inbound
        &&& a.paused_migrate == b.paused_migrate
        &&& a.paused_finalise == b.paused_finalise
        &&& a.super_admin == b.super_admin
        &&& a.role_grants == b.role_grants
    }

    /// Sets up the bridge: validates the counterpart address, starts with an
    /// empty ledger, zero fees at zero rates, and the caller as super admin
    /// holding `DAO`.
    pub fn new(prover_account: String, e_near_address: String, wnear_account: String, caller: String)
        -> (r: Result<NearBridge, BridgeError>)
        ensures
            r is Ok <==> is_hex_string(e_near_address@) && e_near_address@.len() == 40,
            r is Err ==> r.unwrap_err() == BridgeError::InputValidation,
            r is Ok ==> ({
                let b = r.unwrap();
                &&& b.wf()
                &&& b.prover_account@ == prover_account@
                &&& b.e_near_address@ == hex_bytes(e_near_address@)
                &&& b.used_keys().len() == 0
                &&& b.accrued_fees == 0
                &&& b.wnear_account matches Some(w) && w@ == wnear_account@
                &&& !b.paused_migrate
                &&& !b.paused_finalise
                &&& b.fee_outbound.percentage == 0 && b.fee_outbound.bounds.lower_bound == 0
                    && b.fee_outbound.bounds.upper_bound == 0
                &&& b.fee_inbound.percentage == 0 && b.fee_inbound.bounds.lower_bound == 0
                    && b.fee_inbound.bounds.upper_bound == 0
                &&& b.super_admin@ == caller@
                &&& b.spec_has_role(caller@, Role::DAO)
            }),
    {
        if !crate::prover::is_valid_eth_address(e_near_address.clone()) {
            return Err(BridgeError::InputValidation);
        }
        let address = crate::prover::get_eth_address(e_near_address);
        let mut role_grants: Vec<(String, Role)> = Vec::new();
        let admin = caller.clone();
        role_grants.push((caller, Role::DAO));
        let b = NearBridge {
            prover_account,
            e_near_address: address,
            used_events: Vec::new(),
            wnear_account: Some(wnear_account),
            fee_outbound: FeeSchedule::zero(),
            fee_inbound: FeeSchedule::zero(),
            accrued_fees: 0,
            paused_migrate: false,
            paused_finalise: false,
            super_admin: admin,
            role_grants,
        };
        proof {
            assert(b.used_keys() =~= Seq::<Seq<u8>>::empty());
            assert(b.role_grants@[0].0@ == b.super_admin@);
        }
        Ok(b)
    }

    /// Whether `account` holds `role`.
    pub fn acl_has_role(&self, role: Role, account: &String) -> (r: bool)
        ensures
            r == self.spec_has_role(account@, role),
    {
        let mut i: usize = 0;
        while i < self.role_grants.len()
            invariant
                i <= self.role_grants@.len(),
                forall|j: int|
                    0 <= j < i ==> !(self.role_grants@[j].0@ == account@ && self.role_grants@[j].1
                        == role),
            decreases self.role_grants@.len() - i,
        {
            let grant = &self.role_grants[i];
            if grant.1 == role && grant.0 == *account {
                return true;
            }
            i = i + 1;
        }
        false
    }

    /// Grants `role` to `account`; only the super admin may.
    pub fn acl_grant_role(&mut self, role: Role, account: String, caller: &String) -> (r: Result<
        (),
        BridgeError,
    >)
        ensures
            caller@ != old(self).super_admin@ ==> r == Err::<(), BridgeError>(
                BridgeError::Unauthorized,
            ) && *final(self) == *old(self),
            caller@ == old(self).super_admin@ ==> r is Ok && final(self).spec_has_role(
                account@,
                role,
            ) && NearBridge::same_config_except_roles(*old(self), *final(self)) && (forall|
                a: Seq<char>,
                rl: Role,
            |
                old(self).spec_has_role(a, rl) ==> final(self).spec_has_role(a, rl)),
    {
        if *caller == self.super_admin {
            let ghost old_grants = self.role_grants@;
            self.role_grants.push((account, role));
            proof {
                let k = final(self).role_grants@.len() - 1;
                assert(final(self).role_grants@[k].1 == role);
                assert forall|a: Seq<char>, rl: Role| old(self).spec_has_role(a, rl)
                    implies final(self).spec_has_role(a, rl) by {
                    let i = choose|i: int|
                        0 <= i < old_grants.len() && old_grants[i].0@ == a && old_grants[i].1 == rl;
                    assert(final(self).role_grants@[i].0@ == a && final(self).role_grants@[i].1
                        == rl);
                };
            }
            Ok(())
        } else {
            Err(BridgeError::Unauthorized)
        }
    }

    /// Everything but the role grants.
    pub open spec fn same_config_except_roles(a: NearBridge, b: NearBridge) -> bool {
        &&& a.prover_account == b.prover_account
        &&& a.e_near_address == b.e_near_address
        &&& a.used_events == b.used_events
        &&& a.wnear_account == b.wnear_account
        &&& a.fee_outbound == b.fee_outbound
        &&& a.fee_inbound == b.fee_inbound
        &&& a.accrued_fees == b.accrued_fees
        &&& a.paused_migrate == b.paused_migrate
        &&& a.paused_finalise == b.paused_finalise
        &&& a.super_admin == b.super_admin
    }

    /// Consults the pause gate of `feature` for `caller`.
    pub fn check_gate(&self, feature: Feature, caller: &String) -> (r: GateDecision)
        ensures
            (r == GateDecision::Allowed) == self.spec_gate_allows(feature, caller@),
            (r == GateDecision::Denied) == !self.spec_gate_allows(feature, caller@),
    {
        let paused = match feature {
            Feature::MigrateToEthereum => self.paused_migrate,
            Feature::FinaliseEthToNearTransfer => self.paused_finalise,
        };
        if !paused {
            return GateDecision::Allowed;
        }
        if self.acl_has_role(Role::DAO, caller) {
            return GateDecision::Allowed;
        }
        let unrestricted = match feature {
            Feature::MigrateToEthereum => Role::UnrestrictedMigrateToEthereum,
            Feature::FinaliseEthToNearTransfer => Role::UnrestrictedFinaliseEthToNearTransfer,
        };
        if self.acl_has_role(unrestricted, caller) {
            return GateDecision::Allowed;
        }
        GateDecision::Denied
    }

    /// Pauses the named entry point; only `PauseManager` or `DAO` may. A key
    /// naming no gated entry point changes nothing.
    pub fn pa_pause_feature(&mut self, key: String, caller: &String) -> (r: Result<(), BridgeError>)
        ensures
            !(old(self).spec_has_role(caller@, Role::PauseManager) || old(self).spec_has_role(
                caller@,
                Role::DAO,
            )) ==> r == Err::<(), BridgeError>(BridgeError::Unauthorized) && *final(self) == *old(self),
            (old(self).spec_has_role(caller@, Role::PauseManager) || old(self).spec_has_role(
                caller@,
                Role::DAO,
            )) ==> r is Ok && final(self).paused_migrate == (old(self).paused_migrate || key@
                == "migrate_to_ethereum"@) && final(self).paused_finalise == (old(self).paused_finalise || key@ == "finalise_eth_to_near_transfer"@) && final(self).used_events
                == old(self).used_events && final(self).accrued_fees == old(self).accrued_fees
                && NearBridge::same_config_except_pauses(*old(self), *final(self)),
    {
        if !(self.acl_has_role(Role::PauseManager, caller) || self.acl_has_role(Role::DAO, caller)) {
            return Err(BridgeError::Unauthorized);
        }
        let migrate_key = <String as vstd::string::StringExecFns>::from_str("migrate_to_ethereum");
        let finalise_key = <String as vstd::string::StringExecFns>::from_str("finalise_eth_to_near_transfer");
        if key == migrate_key {
            self.paused_migrate = true;
        } else if key == finalise_key {
            self.paused_finalise = true;
        }
        proof {
            reveal_strlit("migrate_to_ethereum");
            reveal_strlit("finalise_eth_to_near_transfer");
            // the two feature names are distinct strings
            assert("migrate_to_ethereum"@.len() != "finalise_eth_to_near_transfer"@.len());
            assert(self.paused_migrate == (old(self).paused_migrate || key@
                == "migrate_to_ethereum"@));
            assert(self.paused_finalise == (old(self).paused_finalise || key@
                == "finalise_eth_to_near_transfer"@));
            assert(self.used_events == old(self).used_events);
            assert(self.accrued_fees == old(self).accrued_fees);
            assert(NearBridge::same_config_except_pauses(*old(self), *self));
        }
        Ok(())
    }

    /// Whether `key` is in the replay ledger.
    fn is_used_key(&self, key: &Vec<u8>) -> (r: bool)
        ensures
            r == self.spec_is_used(key@),
    {
        let mut i: usize = 0;
        while i < self.used_events.len()
            invariant
                i <= self.used_events@.len(),
                forall|j: int| 0 <= j < i ==> self.used_events@[j]@ != key@,
            decreases self.used_events@.len() - i,
        {
            if crate::bytes_util::bytes_eq(&self.used_events[i], key) {
                proof {
                    assert(self.used_keys()[i as int] == key@);
                }
                return true;
            }
            i = i + 1;
        }
        proof {
            if self.spec_is_used(key@) {
                let j = choose|j: int| 0 <= j < self.used_keys().len() && self.used_keys()[j]
                    == key@;
                assert(self.used_events@[j]@ == key@);
            }
        }
        false
    }

    /// Checks whether the provided proof's identity was already consumed.
    pub fn is_used_proof(&self, proof: Proof) -> (r: bool)
        ensures
            r == self.spec_is_used(proof.spec_key()),
    {
        let key = proof.get_key();
        self.is_used_key(&key)
    }

    /// Records a replay identity so the proof cannot fund a second
    /// settlement. Only called once per identity, after every check of the
    /// settlement has passed.
    fn record_proof(&mut self, key: Vec<u8>)
        requires
            !old(self).spec_is_used(key@),
        ensures
            final(self).used_keys() == old(self).used_keys().push(key@),
            NearBridge::same_config(*old(self), *final(self)),
            final(self).accrued_fees == old(self).accrued_fees,
    {
        let ghost k = key@;
        self.used_events.push(key);
        proof {
            assert(final(self).used_keys() =~= old(self).used_keys().push(k));
        }
    }

    /// Accepts an outbound migration: consults the pause barrier, validates
    /// the deposit and the recipient address, accrues the outbound fee, and
    /// emits the canonical record for the relayer. Nothing changes on any
    /// failure.
    pub fn migrate_to_ethereum(
        &mut self,
        eth_recipient: String,
        caller: &String,
        attached_deposit: u128,
    ) -> (r: Result<ResultType, BridgeError>)
        requires
            old(self).wf(),
            old(self).accrued_fees + spec_fee(attached_deposit, old(self).fee_outbound)
                <= u128::MAX,
        ensures
            final(self).wf(),
            ({
                let gate = old(self).spec_gate_allows(Feature::MigrateToEthereum, caller@);
                let valid_addr = is_hex_string(eth_recipient@) && eth_recipient@.len() == 40;
                let fee = spec_fee(attached_deposit, old(self).fee_outbound);
                &&& !gate ==> r == Err::<ResultType, BridgeError>(BridgeError::GateClosed)
                    && *final(self) == *old(self)
                &&& gate && attached_deposit == 0 ==> r == Err::<ResultType, BridgeError>(
                    BridgeError::InputValidation,
                ) && *final(self) == *old(self)
                &&& gate && attached_deposit > 0 && !valid_addr ==> r == Err::<
                    ResultType,
                    BridgeError,
                >(BridgeError::InputValidation) && *final(self) == *old(self)
                &&& gate && attached_deposit > 0 && valid_addr && fee > attached_deposit ==> r
                    == Err::<ResultType, BridgeError>(BridgeError::FeeExceedsAmount) && *final(self)
                    == *old(self)
                &&& gate && attached_deposit > 0 && valid_addr && fee <= attached_deposit ==> (
                r matches Ok(ResultType::MigrateNearToEthereum{amount, recipient}) && amount
                    == attached_deposit - fee && recipient@ == hex_bytes(eth_recipient@))
                    && final(self).accrued_fees == old(self).accrued_fees + fee
                    && NearBridge::same_config(
                    *old(self),
                    *final(self),
                ) && final(self).used_events == old(self).used_events
            }),
    {
        match self.check_gate(Feature::MigrateToEthereum, caller) {
            GateDecision::Denied => {
                return Err(BridgeError::GateClosed);
            },
            GateDecision::Allowed => {},
        }
        if attached_deposit == 0 {
            return Err(BridgeError::InputValidation);
        }
        if !crate::prover::is_valid_eth_address(eth_recipient.clone()) {
            return Err(BridgeError::InputValidation);
        }
        let fee = crate::fee::compute_fee(attached_deposit, &self.fee_outbound);
        if fee > attached_deposit {
            return Err(BridgeError::FeeExceedsAmount);
        }
        self.accrued_fees = self.accrued_fees + fee;
        let recipient = crate::prover::get_eth_address(eth_recipient);
        Ok(ResultType::MigrateNearToEthereum { amount: attached_deposit - fee, recipient })
    }

    /// Starts an inbound settlement: consults the pause barrier, decodes
    /// the event embedded in the proof's log payload, and — only when its
    /// origin is the configured counterpart — hands back the verification
    /// request for the external prover, carrying the continuation context
    /// verbatim. An origin mismatch fails before any verification request
    /// exists.
    pub fn finalise_eth_to_near_transfer(
        &self,
        proof: Proof,
        caller: &String,
        attached_deposit: u128,
    ) -> (r: Result<VerificationRequest, BridgeError>)
        requires
            self.wf(),
        ensures
            ({
                let gate = self.spec_gate_allows(Feature::FinaliseEthToNearTransfer, caller@);
                let log = proof.log_entry_data@;
                &&& !gate ==> r == Err::<VerificationRequest, BridgeError>(BridgeError::GateClosed)
                &&& gate && !crate::transfer_to_near_event::spec_decodable(log) ==> r == Err::<
                    VerificationRequest,
                    BridgeError,
                >(BridgeError::CodecError)
                &&& gate ==> forall|e: TransferToNearInitiatedEvent|
                    spec_event_valid(e) && log == spec_log_entry_data(e) && e.e_near_address@
                        != self.e_near_address@ ==> r == Err::<VerificationRequest, BridgeError>(
                        BridgeError::OriginMismatch,
                    )
                &&& gate ==> forall|e: TransferToNearInitiatedEvent|
                    spec_event_valid(e) && log == spec_log_entry_data(e) && e.e_near_address@
                        == self.e_near_address@ ==> (r matches Ok(req) && req.prover_account@
                        == self.prover_account@ && req.skip_bridge_call == false && req.amount
                        == e.amount && req.recipient@ == e.recipient@ && req.attached_deposit
                        == attached_deposit && req.proof.log_index == proof.log_index
                        && req.proof.log_entry_data@ == proof.log_entry_data@
                        && req.proof.receipt_index == proof.receipt_index && req.proof.receipt_data@
                        == proof.receipt_data@ && req.proof.header_data@ == proof.header_data@
                        && req.proof.proof@ == proof.proof@)
            }),
    {
        match self.check_gate(Feature::FinaliseEthToNearTransfer, caller) {
            GateDecision::Denied => {
                return Err(BridgeError::GateClosed);
            },
            GateDecision::Allowed => {},
        }
        let event = match TransferToNearInitiatedEvent::from_log_entry_data(&proof.log_entry_data) {
            Ok(ev) => ev,
            Err(_) => {
                return Err(BridgeError::CodecError);
            },
        };
        if !crate::bytes_util::bytes_eq(&event.e_near_address, &self.e_near_address) {
            return Err(BridgeError::OriginMismatch);
        }
        Ok(
            VerificationRequest {
                prover_account: self.prover_account.clone(),
                skip_bridge_call: false,
                recipient: event.recipient,
                amount: event.amount,
                attached_deposit,
                proof,
            },
        )
    }

    /// Finishes an inbound settlement once the external verifier has
    /// answered. Only the bridge account itself may resume the continuation.
    /// On success the proof's identity is recorded and the inbound fee
    /// accrued in one step with the returned release action; every failure
    /// leaves the bridge exactly as it was — in particular a replayed
    /// identity changes nothing and releases nothing.
    pub fn finish_eth_to_near_transfer(
        &mut self,
        caller: &String,
        current_account: &String,
        verification_success: bool,
        new_owner_id: String,
        amount: u128,
        proof: Proof,
        attached_deposit: u128,
        storage_byte_cost: u128,
    ) -> (r: Result<SettlementAction, BridgeError>)
        requires
            old(self).wf(),
            old(self).accrued_fees + spec_fee(amount, old(self).fee_inbound) <= u128::MAX,
        ensures
            final(self).wf(),
            ({
                let nb = encode_utf8(new_owner_id@);
                let fee = spec_fee(amount, old(self).fee_inbound);
                let required = PROOF_KEY_STORAGE_BYTES * storage_byte_cost;
                let ok1 = caller@ == current_account@;
                let ok2 = ok1 && verification_success;
                let ok3 = ok2 && !old(self).spec_is_used(proof.spec_key());
                let ok4 = ok3 && attached_deposit >= required;
                let ok5 = ok4 && is_valid_account_id(spec_target_bytes(nb));
                let ok6 = ok5 && (spec_message_bytes(nb) is None || old(self).wnear_account is Some);
                &&& !ok1 ==> r == Err::<SettlementAction, BridgeError>(
                    BridgeError::UnauthorizedContinuation,
                ) && *final(self) == *old(self)
                &&& ok1 && !verification_success ==> r == Err::<SettlementAction, BridgeError>(
                    BridgeError::ProofVerificationFailed,
                ) && *final(self) == *old(self)
                &&& ok2 && old(self).spec_is_used(proof.spec_key()) ==> r == Err::<
                    SettlementAction,
                    BridgeError,
                >(BridgeError::DuplicateProof) && *final(self) == *old(self)
                &&& ok3 && attached_deposit < required ==> r == Err::<SettlementAction, BridgeError>(
                    BridgeError::InsufficientFunding,
                ) && *final(self) == *old(self)
                &&& ok4 && !is_valid_account_id(spec_target_bytes(nb)) ==> r == Err::<
                    SettlementAction,
                    BridgeError,
                >(BridgeError::InputValidation) && *final(self) == *old(self)
                &&& ok5 && spec_message_bytes(nb) is Some && old(self).wnear_account is None ==> r
                    == Err::<SettlementAction, BridgeError>(BridgeError::WNearNotSet) && *final(self) == *old(self)
                &&& ok6 && fee > amount ==> r == Err::<SettlementAction, BridgeError>(
                    BridgeError::FeeExceedsAmount,
                ) && *final(self) == *old(self)
                &&& ok6 && fee <= amount ==> final(self).used_keys() == old(self).used_keys().push(
                    proof.spec_key(),
                ) && final(self).accrued_fees == old(self).accrued_fees + fee
                    && NearBridge::same_config(*old(self), *final(self)) && (match spec_message_bytes(
                    nb,
                ) {
                    Option::None => (r matches Ok(SettlementAction::Transfer{recipient, amount: net})
                        && encode_utf8(recipient@) == spec_target_bytes(nb) && net == amount - fee),
                    Option::Some(mb) => (r matches Ok(
                        SettlementAction::WrapAndForward{wnear_account, recipient, amount: net, message},
                    ) && (old(self).wnear_account matches Some(w) && wnear_account@ == w@) && (
                    encode_utf8(recipient@) == spec_target_bytes(nb)) && encode_utf8(message@) == mb
                        && net == amount - fee),
                })
            }),
    {
        if !(*caller == *current_account) {
            return Err(BridgeError::UnauthorizedContinuation);
        }
        if !verification_success {
            return Err(BridgeError::ProofVerificationFailed);
        }
        let key = proof.get_key();
        if self.is_used_key(&key) {
            return Err(BridgeError::DuplicateProof);
        }
        if storage_byte_cost > u128::MAX / PROOF_KEY_STORAGE_BYTES {
            proof {
                vstd::arithmetic::div_mod::lemma_fundamental_div_mod(
                    u128::MAX as int,
                    PROOF_KEY_STORAGE_BYTES as int,
                );
                assert(PROOF_KEY_STORAGE_BYTES * storage_byte_cost > u128::MAX) by (nonlinear_arith)
                    requires
                        storage_byte_cost >= u128::MAX / PROOF_KEY_STORAGE_BYTES + 1,
                        u128::MAX < 32 * (u128::MAX / PROOF_KEY_STORAGE_BYTES + 1),
                        PROOF_KEY_STORAGE_BYTES == 32;
            }
            return Err(BridgeError::InsufficientFunding);
        }
        let required = PROOF_KEY_STORAGE_BYTES * storage_byte_cost;
        if attached_deposit < required {
            return Err(BridgeError::InsufficientFunding);
        }
        let parsed = match parse_recipient(new_owner_id.as_str()) {
            Some(rec) => rec,
            None => {
                return Err(BridgeError::InputValidation);
            },
        };
        match parsed.message {
            Some(message) => {
                let wnear = match &self.wnear_account {
                    Some(w) => w.clone(),
                    None => {
                        return Err(BridgeError::WNearNotSet);
                    },
                };
                let fee = crate::fee::compute_fee(amount, &self.fee_inbound);
                if fee > amount {
                    return Err(BridgeError::FeeExceedsAmount);
                }
                self.record_proof(key);
                self.accrued_fees = self.accrued_fees + fee;
                Ok(
                    SettlementAction::WrapAndForward {
                        wnear_account: wnear,
                        recipient: parsed.target,
                        amount: amount - fee,
                        message,
                    },
                )
            },
            None => {
                let fee = crate::fee::compute_fee(amount, &self.fee_inbound);
                if fee > amount {
                    return Err(BridgeError::FeeExceedsAmount);
                }
                self.record_proof(key);
                self.accrued_fees = self.accrued_fees + fee;
                Ok(
                    SettlementAction::Transfer {
                        recipient: parsed.target,
                        amount: amount - fee,
                    },
                )
            },
        }
    }

    /// The spare balance of the bridge account: what is on it beyond the
    /// current call's deposit and the cost of the storage in use.
    pub fn get_avialable_balance(
        &self,
        account_balance: u128,
        attached_deposit: u128,
        storage_byte_cost: u128,
        storage_usage: u64,
    ) -> (r: u128)
        requires
            storage_byte_cost * storage_usage <= u128::MAX,
            attached_deposit + storage_byte_cost * storage_usage <= account_balance,
        ensures
            r == account_balance - attached_deposit - storage_byte_cost * storage_usage,
    {
        account_balance - attached_deposit - storage_byte_cost * (storage_usage as u128)
    }

    /// Moves the spare balance to another bridge through the wrapped token;
    /// only `DAO` may, and only once the wrapped-token account is set.
    pub fn send_to_omni_bridge(
        &self,
        omni_bridge: String,
        caller: &String,
        account_balance: u128,
        attached_deposit: u128,
        storage_byte_cost: u128,
        storage_usage: u64,
    ) -> (r: Result<OmniTransferAction, BridgeError>)
        requires
            storage_byte_cost * storage_usage <= u128::MAX,
            attached_deposit + storage_byte_cost * storage_usage <= account_balance,
        ensures
            !self.spec_has_role(caller@, Role::DAO) ==> r == Err::<OmniTransferAction, BridgeError>(
                BridgeError::Unauthorized,
            ),
            self.spec_has_role(caller@, Role::DAO) && self.wnear_account is None ==> r == Err::<
                OmniTransferAction,
                BridgeError,
            >(BridgeError::WNearNotSet),
            self.spec_has_role(caller@, Role::DAO) && self.wnear_account is Some ==> (r matches Ok(
                action,
            ) && (self.wnear_account matches Some(w) && action.wnear_account@ == w@)
                && action.omni_bridge@ == omni_bridge@ && action.amount == account_balance
                - attached_deposit - storage_byte_cost * storage_usage),
    {
        if !self.acl_has_role(Role::DAO, caller) {
            return Err(BridgeError::Unauthorized);
        }
        let wnear_account = match &self.wnear_account {
            Some(w) => w.clone(),
            None => {
                return Err(BridgeError::WNearNotSet);
            },
        };
        let amount = self.get_avialable_balance(
            account_balance,
            attached_deposit,
            storage_byte_cost,
            storage_usage,
        );
        Ok(OmniTransferAction { wnear_account, omni_bridge, amount })
    }

    /// Sets the wrapped-token account; only `DAO` may. The returned action
    /// registers the bridge with that token, carrying the caller's deposit.
    pub fn set_wnear_account_id(&mut self, wnear: String, caller: &String, attached_deposit: u128)
        -> (r: Result<StorageDepositAction, BridgeError>)
        ensures
            !old(self).spec_has_role(caller@, Role::DAO) ==> r == Err::<
                StorageDepositAction,
                BridgeError,
            >(BridgeError::Unauthorized) && *final(self) == *old(self),
            old(self).spec_has_role(caller@, Role::DAO) ==> (r matches Ok(action)
                && action.wnear_account@ == wnear@ && action.attached_deposit == attached_deposit)
                && (final(self).wnear_account matches Some(w) && w@ == wnear@) && final(self).used_events == old(self).used_events && final(self).accrued_fees == old(self).accrued_fees && final(self).prover_account == old(self).prover_account && final(self).e_near_address == old(self).e_near_address && final(self).fee_outbound == old(self).fee_outbound && final(self).fee_inbound == old(self).fee_inbound && final(self).paused_migrate == old(self).paused_migrate && final(self).paused_finalise == old(self).paused_finalise && final(self).super_admin == old(self).super_admin && final(self).role_grants == old(self).role_grants,
    {
        if !self.acl_has_role(Role::DAO, caller) {
            return Err(BridgeError::Unauthorized);
        }
        let registered = wnear.clone();
        self.wnear_account = Some(wnear);
        Ok(StorageDepositAction { wnear_account: registered, attached_deposit })
    }

    /// The wrapped-token account, when one has been set.
    pub fn get_wnear_account_id(&self) -> (r: Option<String>)
        ensures
            r is Some <==> self.wnear_account is Some,
            r matches Some(w) ==> self.wnear_account matches Some(v) && w@ == v@,
    {
        match &self.wnear_account {
            Some(w) => Some(w.clone()),
            None => None,
        }
    }

    /// Configures the fee schedules of both directions; only `DAO` may, and
    /// only with well-formed schedules.
    pub fn set_fee_schedules(
        &mut self,
        outbound: FeeSchedule,
        inbound: FeeSchedule,
        caller: &String,
    ) -> (r: Result<(), BridgeError>)
        requires
            old(self).wf(),
        ensures
            !old(self).spec_has_role(caller@, Role::DAO) ==> r == Err::<(), BridgeError>(
                BridgeError::Unauthorized,
            ) && *final(self) == *old(self),
            old(self).spec_has_role(caller@, Role::DAO) && !(outbound.wf() && inbound.wf()) ==> r
                == Err::<(), BridgeError>(BridgeError::InputValidation) && *final(self) == *old(self),
            old(self).spec_has_role(caller@, Role::DAO) && outbound.wf() && inbound.wf() ==> r is Ok
                && final(self).fee_outbound == outbound && final(self).fee_inbound == inbound
                && final(self).wf() && final(self).used_events == old(self).used_events && final(self).accrued_fees == old(self).accrued_fees && final(self).wnear_account == old(self).wnear_account && final(self).prover_account == old(self).prover_account && final(self).e_near_address == old(self).e_near_address && final(self).paused_migrate == old(self).paused_migrate && final(self).paused_finalise == old(self).paused_finalise && final(self).super_admin == old(self).super_admin && final(self).role_grants == old(self).role_grants,
    {
        if !self.acl_has_role(Role::DAO, caller) {
            return Err(BridgeError::Unauthorized);
        }
        let outbound_ok = outbound.percentage <= crate::fee::FEE_DENOMINATOR && (
        outbound.bounds.upper_bound == 0 || outbound.bounds.lower_bound
            < outbound.bounds.upper_bound);
        let inbound_ok = inbound.percentage <= crate::fee::FEE_DENOMINATOR && (
        inbound.bounds.upper_bound == 0 || inbound.bounds.lower_bound < inbound.bounds.upper_bound);
        if !(outbound_ok && inbound_ok) {
            return Err(BridgeError::InputValidation);
        }
        self.fee_outbound = outbound;
        self.fee_inbound = inbound;
        Ok(())
    }

    /// The fees accrued so far and not yet claimed.
    pub fn accrued_fees(&self) -> (r: u128)
        ensures
            r == self.accrued_fees,
    {
        self.accrued_fees
    }

    /// Pays out part of the accrual to the claiming administrator: only
    /// `DAO` may, and never more than was accrued.
    pub fn claim_fees(&mut self, amount: u128, caller: &String) -> (r: Result<
        SettlementAction,
        BridgeError,
    >)
        ensures
            !old(self).spec_has_role(caller@, Role::DAO) ==> r == Err::<
                SettlementAction,
                BridgeError,
            >(BridgeError::Unauthorized) && *final(self) == *old(self),
            old(self).spec_has_role(caller@, Role::DAO) && amount > old(self).accrued_fees ==> r
                == Err::<SettlementAction, BridgeError>(BridgeError::InputValidation) && *final(self) == *old(self),
            old(self).spec_has_role(caller@, Role::DAO) && amount <= old(self).accrued_fees ==> (
            r matches Ok(SettlementAction::Transfer{recipient, amount: claimed}) && recipient@
                == caller@ && claimed == amount) && final(self).accrued_fees == old(self).accrued_fees - amount && NearBridge::same_config(*old(self), *final(self)) && final(self).used_events == old(self).used_events,
    {
        if !self.acl_has_role(Role::DAO, caller) {
            return Err(BridgeError::Unauthorized);
        }
        if amount > self.accrued_fees {
            return Err(BridgeError::InputValidation);
        }
        self.accrued_fees = self.accrued_fees - amount;
        Ok(SettlementAction::Transfer { recipient: caller.clone(), amount })
    }

    /// Asks the host to add a full-access key to the bridge account; only
    /// `DAO` may.
    pub fn attach_full_access_key(&self, public_key: Vec<u8>, caller: &String) -> (r: Result<
        AttachKeyAction,
        BridgeError,
    >)
        ensures
            !self.spec_has_role(caller@, Role::DAO) ==> r == Err::<AttachKeyAction, BridgeError>(
                BridgeError::Unauthorized,
            ),
            self.spec_has_role(caller@, Role::DAO) ==> (r matches Ok(action)
                && action.public_key@ == public_key@),
    {
        if !self.acl_has_role(Role::DAO, caller) {
            return Err(BridgeError::Unauthorized);
        }
        Ok(AttachKeyAction { public_key })
    }

    /// The crate version.
    pub fn version(&self) -> (r: String)
        ensures
            r@ == "0.1.0"@,
    {
        <String as vstd::string::StringExecFns>::from_str("0.1.0")
    }

    /// Everything but the pause flags.
    pub open spec fn same_config_except_pauses(a: NearBridge, b: NearBridge) -> bool {
        &&& a.prover_account == b.prover_account
        &&& a.e_near_address == b.e_near_address
        &&& a.wnear_account == b.wnear_account
        &&& a.fee_outbound == b.fee_outbound
        &&& a.fee_inbound == b.fee_inbound
        &&& a.super_admin == b.super_admin
        &&& a.role_grants == b.role_grants
    }
}

/// Replay safety: a settlement that records an identity leaves it — and
/// every identity recorded before — in the ledger, so a later settlement of
/// the same identity meets the duplicate check and is rejected unchanged.
pub proof fn lemma_recorded_key_stays_used(pre: NearBridge, post: NearBridge, key: Seq<u8>)
    requires
        post.used_keys() == pre.used_keys().push(key),
    ensures
        post.spec_is_used(key),
        forall|k: Seq<u8>| pre.spec_is_used(k) ==> post.spec_is_used(k),
{
    assert(post.used_keys()[pre.used_keys().len() as int] == key);
    assert forall|k: Seq<u8>| pre.spec_is_used(k) implies post.spec_is_used(k) by {
        let i = choose|i: int| 0 <= i < pre.used_keys().len() && pre.used_keys()[i] == k;
        assert(post.used_keys()[i] == k);
    };
}

} // verus!
