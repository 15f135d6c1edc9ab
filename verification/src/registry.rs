//! The registry state machine: a single admin authority, a record store
//! keyed by (user, period), and per-user issuance counters.
//!
//! The state is `Uninitialized` until `initialize` stores an admin, and
//! `Ready` from then on, forever. `mint_wrap` is the only way a record is
//! created; no operation updates or removes one. The well-formedness
//! predicate `wf` ties the counters to the record store: every user's
//! stored counter equals the number of records issued to that user.

use vstd::prelude::*;
use vstd::pervasive::VecAdditionalExecFns;
use vstd::string::StringExecFns;

use crate::canonical::canonical_bytes;
use crate::canonical::canonical_payload;
use crate::errors::Error;
use crate::records::CountEntry;
use crate::records::MintAuth;
use crate::records::MintEvent;
use crate::records::RecordModel;
use crate::records::WrapEntry;
use crate::records::WrapRecord;
use crate::records::bytes_eq;
use crate::records::copy_bytes;
use crate::records::count_matching;
use crate::records::find_count;
use crate::records::find_wrap;
use crate::records::has_count;
use crate::records::lemma_count_matching_is_distinct_periods;
use crate::records::lemma_count_matching_le_len;
use crate::records::lemma_count_matching_push;
use crate::records::lemma_find_count_absent;
use crate::records::lemma_find_count_first;
use crate::records::lemma_find_count_push;
use crate::records::lemma_find_count_update;
use crate::records::lemma_find_wrap_first;
use crate::records::lemma_find_wrap_index;
use crate::records::lemma_find_wrap_push;
use crate::records::seq_periods;
use crate::records::unique_count_users;
use crate::records::unique_wrap_keys;
use crate::sig::ed25519_verifies;
use crate::sig::ed25519_verify;

verus! {

/// The on-ledger wrap registry of one deployed contract instance.
///
/// The fields are managed by the methods below; every mutating method
/// requires and preserves `wf()`.
pub struct StellarWrapContract {
    /// The identity of this deployed instance, fixed at construction. It is
    /// embedded in every signed payload, so a signature for one instance
    /// can never authorize a mint on another.
    pub contract_id: Vec<u8>,
    /// The admin principal; `None` exactly while uninitialized.
    pub admin: Option<Vec<u8>>,
    /// The admin's Ed25519 verification key, if signature authorization is
    /// used; set at initialization, rotated only by admin updates.
    pub admin_pubkey: Option<[u8; 32]>,
    /// The record store: at most one entry per (user, period).
    pub wraps: Vec<WrapEntry>,
    /// Per-user issuance counters; absent means zero.
    pub counts: Vec<CountEntry>,
}

impl StellarWrapContract {
    /// Well-formedness: keys are unique, counter entries are unique, and
    /// every user's stored counter equals the number of records issued to
    /// that user. An admin key is only ever stored alongside an admin.
    pub open spec fn wf(self) -> bool {
        &&& unique_wrap_keys(self.wraps@)
        &&& unique_count_users(self.counts@)
        &&& forall|u: Seq<u8>| #[trigger]
            find_count(self.counts@, u) == count_matching(self.wraps@, u)
        &&& self.admin_pubkey is Some ==> self.admin is Some
    }

    /// Whether `initialize` has run: the registry is `Ready`.
    pub open spec fn is_initialized(self) -> bool {
        self.admin is Some
    }

    /// The stored admin identity.
    pub open spec fn spec_admin(self) -> Option<Seq<u8>> {
        match self.admin {
            Some(a) => Some(a@),
            None => None,
        }
    }

    /// The stored admin verification key.
    pub open spec fn spec_admin_pubkey(self) -> Option<Seq<u8>> {
        match self.admin_pubkey {
            Some(k) => Some(k@),
            None => None,
        }
    }

    /// The record stored under (user, period), if any.
    pub open spec fn spec_wrap(self, user: Seq<u8>, period: u64) -> Option<RecordModel> {
        find_wrap(self.wraps@, user, period)
    }

    /// Whether a record exists under (user, period).
    pub open spec fn has_wrap(self, user: Seq<u8>, period: u64) -> bool {
        self.spec_wrap(user, period) is Some
    }

    /// The stored issuance counter of `user`; zero when absent.
    pub open spec fn spec_count(self, user: Seq<u8>) -> u64 {
        find_count(self.counts@, user)
    }

    /// The bytes an admin signs to authorize minting (user, period,
    /// archetype, hash) on this instance.
    pub open spec fn mint_payload(
        self,
        user: Seq<u8>,
        period: u64,
        archetype: Seq<u8>,
        hash: Seq<u8>,
    ) -> Seq<u8> {
        canonical_bytes(self.contract_id@, user, period, archetype, hash)
    }

    /// Whether `auth` authorizes minting (user, period, archetype, hash):
    /// either the host authenticated the stored admin itself, or the
    /// request carries a valid admin signature over the canonical payload.
    pub open spec fn mint_authorized(
        self,
        auth: MintAuth,
        user: Seq<u8>,
        period: u64,
        archetype: Seq<u8>,
        hash: Seq<u8>,
    ) -> bool {
        match auth {
            MintAuth::Capability { caller } => self.spec_admin() == Some(caller@),
            MintAuth::Signature { signature } => match self.admin_pubkey {
                Some(k) => ed25519_verifies(
                    k@,
                    self.mint_payload(user, period, archetype, hash),
                    signature@,
                ),
                None => false,
            },
        }
    }

    /// The error an unauthorized mint reports: a failed capability check is
    /// `Unauthorized`; a signature check fails as `NotInitialized` when no
    /// key is registered and as `InvalidSignature` otherwise.
    pub open spec fn mint_auth_error(self, auth: MintAuth) -> Error {
        match auth {
            MintAuth::Capability { .. } => Error::Unauthorized,
            MintAuth::Signature { .. } => if self.admin_pubkey is None {
                Error::NotInitialized
            } else {
                Error::InvalidSignature
            },
        }
    }

    /// A fresh, uninitialized registry for the instance `contract_id`.
    pub fn new(contract_id: Vec<u8>) -> (r: Self)
        ensures
            r.wf(),
            !r.is_initialized(),
            r.spec_admin_pubkey() is None,
            r.contract_id@ == contract_id@,
            forall|u: Seq<u8>, p: u64| r.spec_wrap(u, p) is None,
            forall|u: Seq<u8>| r.spec_count(u) == 0,
    {
        let r = StellarWrapContract {
            contract_id,
            admin: None,
            admin_pubkey: None,
            wraps: Vec::new(),
            counts: Vec::new(),
        };
        proof {
            assert(forall|u: Seq<u8>| #[trigger] find_count(r.counts@, u) == 0);
            assert(forall|u: Seq<u8>| #[trigger] count_matching(r.wraps@, u) == 0);
            assert(forall|u: Seq<u8>, p: u64| #[trigger] find_wrap(r.wraps@, u, p) is None);
        }
        r
    }

    /// Stores the admin (and, optionally, the admin's verification key).
    /// Succeeds exactly once: on a `Ready` registry it fails with
    /// `AlreadyInitialized` and changes nothing.
    pub fn initialize(&mut self, admin: Vec<u8>, admin_pubkey: Option<[u8; 32]>) -> (r: Result<
        (),
        Error,
    >)
        requires
            old(self).wf(),
        ensures
            final(self).wf(),
            r is Ok <==> !old(self).is_initialized(),
            r is Err ==> r == Err::<(), Error>(Error::AlreadyInitialized)
                && *final(self) == *old(self),
            r is Ok ==> final(self).spec_admin() == Some(admin@),
            r is Ok ==> final(self).spec_admin_pubkey() == (match admin_pubkey {
                Some(k) => Some(k@),
                None => None::<Seq<u8>>,
            }),
            final(self).is_initialized() == (old(self).is_initialized() || r is Ok),
            final(self).contract_id@ == old(self).contract_id@,
            forall|u: Seq<u8>, p: u64|
                final(self).spec_wrap(u, p) == old(self).spec_wrap(u, p),
            forall|u: Seq<u8>| final(self).spec_count(u) == old(self).spec_count(u),
    {
        match &self.admin {
            Some(_) => Err(Error::AlreadyInitialized),
            None => {
                self.admin = Some(admin);
                self.admin_pubkey = admin_pubkey;
                Ok(())
            },
        }
    }

    /// Replaces the admin identity (and, if a new key is given, the admin
    /// verification key) atomically. Only the current admin may do this:
    /// `caller` must be the identity the host authenticated. When no new
    /// key is given the old key stays registered, so signatures by the
    /// outgoing admin's key keep verifying until the key is rotated.
    pub fn update_admin(
        &mut self,
        caller: &Vec<u8>,
        new_admin: Vec<u8>,
        new_pubkey: Option<[u8; 32]>,
    ) -> (r: Result<(), Error>)
        requires
            old(self).wf(),
        ensures
            final(self).wf(),
            r is Ok <==> old(self).is_initialized() && old(self).spec_admin() == Some(caller@),
            !old(self).is_initialized() ==> r == Err::<(), Error>(Error::NotInitialized),
            old(self).is_initialized() && old(self).spec_admin() != Some(caller@)
                ==> r == Err::<(), Error>(Error::Unauthorized),
            r is Err ==> *final(self) == *old(self),
            r is Ok ==> final(self).spec_admin() == Some(new_admin@),
            r is Ok ==> final(self).spec_admin_pubkey() == (match new_pubkey {
                Some(k) => Some(k@),
                None => old(self).spec_admin_pubkey(),
            }),
            final(self).is_initialized() == old(self).is_initialized(),
            final(self).contract_id@ == old(self).contract_id@,
            forall|u: Seq<u8>, p: u64|
                final(self).spec_wrap(u, p) == old(self).spec_wrap(u, p),
            forall|u: Seq<u8>| final(self).spec_count(u) == old(self).spec_count(u),
    {
        let authorized = match &self.admin {
            None => {
                return Err(Error::NotInitialized);
            },
            Some(a) => bytes_eq(caller, a),
        };
        if !authorized {
            return Err(Error::Unauthorized);
        }
        self.admin = Some(new_admin);
        if let Some(k) = new_pubkey {
            self.admin_pubkey = Some(k);
        }
        Ok(())
    }

    /// The stored admin identity; empty until initialized.
    pub fn get_admin(&self) -> (r: Option<Vec<u8>>)
        ensures
            match r {
                Some(a) => self.spec_admin() == Some(a@),
                None => !self.is_initialized(),
            },
    {
        match &self.admin {
            Some(a) => Some(copy_bytes(a)),
            None => None,
        }
    }

    /// The wrap record of (user, period), if one was ever issued. A pure
    /// read: absent keys read as empty, in any state.
    pub fn get_wrap(&self, user: &Vec<u8>, period: u64) -> (r: Option<WrapRecord>)
        ensures
            match r {
                Some(rec) => self.spec_wrap(user@, period) == Some(rec@),
                None => !self.has_wrap(user@, period),
            },
    {
        match lookup_wrap(&self.wraps, user, period) {
            Some(i) => Some(self.wraps[i].record.clone()),
            None => None,
        }
    }

    /// The issuance counter of `user`: how many mints have succeeded for
    /// that user. Zero for a user never minted for.
    pub fn get_count(&self, user: &Vec<u8>) -> (r: u64)
        ensures
            r == self.spec_count(user@),
    {
        match lookup_count(&self.counts, user) {
            Some(i) => {
                proof {
                    lemma_find_count_first(self.counts@, i as int, user@);
                }
                self.counts[i].count
            },
            None => {
                proof {
                    assert(!has_count(self.counts@, user@));
                    lemma_find_count_absent(self.counts@, user@);
                }
                0
            },
        }
    }

    /// The balance of `id` under the token-style interface: the issuance
    /// counter. Wraps are indivisible and non-transferable, so the balance
    /// only ever grows.
    pub fn balance_of(&self, id: &Vec<u8>) -> (r: i128)
        ensures
            r == self.spec_count(id@) as i128,
    {
        self.get_count(id) as i128
    }

    /// Commits `record` under (user, `record.period`) and raises the
    /// user's counter by one, atomically: when the key is already taken it
    /// fails with `WrapAlreadyExists` and changes nothing, the counter
    /// included. This is the record store's only write; it does not check
    /// authorization, which is `mint_wrap`'s job.
    pub fn put_record(&mut self, user: Vec<u8>, record: WrapRecord) -> (r: Result<(), Error>)
        requires
            old(self).wf(),
        ensures
            final(self).wf(),
            r is Ok <==> !old(self).has_wrap(user@, record.period),
            r is Err ==> r == Err::<(), Error>(Error::WrapAlreadyExists)
                && *final(self) == *old(self),
            r is Ok ==> final(self).spec_wrap(user@, record.period) == Some(record@),
            r is Ok ==> forall|u: Seq<u8>, p: u64|
                !(u == user@ && p == record.period)
                    ==> final(self).spec_wrap(u, p) == old(self).spec_wrap(u, p),
            r is Ok ==> final(self).spec_count(user@) == old(self).spec_count(user@) + 1,
            r is Ok ==> forall|u: Seq<u8>|
                u != user@ ==> final(self).spec_count(u) == old(self).spec_count(u),
            forall|u: Seq<u8>, p: u64|
                old(self).has_wrap(u, p)
                    ==> final(self).spec_wrap(u, p) == old(self).spec_wrap(u, p),
            final(self).admin == old(self).admin,
            final(self).admin_pubkey == old(self).admin_pubkey,
            final(self).contract_id@ == old(self).contract_id@,
            final(self).is_initialized() == old(self).is_initialized(),
    {
        let period = record.period;
        if lookup_wrap(&self.wraps, &user, period).is_some() {
            return Err(Error::WrapAlreadyExists);
        }
        let ghost old_wraps = self.wraps@;
        let ghost old_counts = self.counts@;
        let entry_user = copy_bytes(&user);
        let e = WrapEntry { user: entry_user, record };
        let ghost ge: WrapEntry = e;
        self.wraps.push(e);
        let wraps_len = self.wraps.len();
        proof {
            assert(self.wraps@ == old_wraps.push(ge));
            assert(old_wraps.len() + 1 == wraps_len);
            assert forall|i: int, j: int|
                #![trigger self.wraps@[i], self.wraps@[j]]
                0 <= i < j < self.wraps@.len() implies !(self.wraps@[i].user@
                == self.wraps@[j].user@ && self.wraps@[i].record.period
                == self.wraps@[j].record.period) by {
                if j < old_wraps.len() {
                    assert(self.wraps@[i] == old_wraps[i]);
                    assert(self.wraps@[j] == old_wraps[j]);
                } else {
                    assert(self.wraps@[i] == old_wraps[i]);
                    assert(self.wraps@[j] == ge);
                }
            }
            assert(unique_wrap_keys(self.wraps@));
            assert forall|u: Seq<u8>, p: u64|
                !(u == user@ && p == period) implies find_wrap(self.wraps@, u, p) == find_wrap(
                old_wraps,
                u,
                p,
            ) by {
                lemma_find_wrap_push(old_wraps, ge, u, p);
            }
            assert(find_wrap(self.wraps@, user@, period) == Some(record@)) by {
                lemma_find_wrap_push(old_wraps, ge, user@, period);
            }
            assert forall|u: Seq<u8>, p: u64|
                find_wrap(old_wraps, u, p) is Some implies find_wrap(self.wraps@, u, p)
                == find_wrap(old_wraps, u, p) by {
                lemma_find_wrap_push(old_wraps, ge, u, p);
            }
        }
        match lookup_count(&self.counts, &user) {
            Some(i) => {
                let c = self.counts[i].count;
                proof {
                    lemma_find_count_first(old_counts, i as int, user@);
                    assert(c == count_matching(old_wraps, user@));
                    lemma_count_matching_le_len(old_wraps, user@);
                    assert(c + 1 <= wraps_len);
                }
                let e2 = CountEntry { user, count: c + 1 };
                self.counts.set(i, e2);
                proof {
                    assert(self.counts@ == old_counts.update(i as int, e2));
                    assert forall|a: int, b: int|
                        #![trigger self.counts@[a], self.counts@[b]]
                        0 <= a < b < self.counts@.len() implies self.counts@[a].user@
                        != self.counts@[b].user@ by {
                        assert(old_counts[a].user@ != old_counts[b].user@);
                        assert(self.counts@[a].user@ == old_counts[a].user@);
                        assert(self.counts@[b].user@ == old_counts[b].user@);
                    }
                    assert(unique_count_users(self.counts@));
                    assert forall|u: Seq<u8>| #[trigger]
                        find_count(self.counts@, u) == count_matching(self.wraps@, u) by {
                        lemma_find_count_update(old_counts, i as int, e2, u);
                        lemma_count_matching_push(old_wraps, ge, u);
                    }
                }
            },
            None => {
                proof {
                    assert(!has_count(old_counts, user@));
                    lemma_find_count_absent(old_counts, user@);
                }
                let e2 = CountEntry { user, count: 1 };
                self.counts.push(e2);
                proof {
                    assert(self.counts@ == old_counts.push(e2));
                    assert forall|a: int, b: int|
                        #![trigger self.counts@[a], self.counts@[b]]
                        0 <= a < b < self.counts@.len() implies self.counts@[a].user@
                        != self.counts@[b].user@ by {
                        if b < old_counts.len() {
                            assert(self.counts@[a] == old_counts[a]);
                            assert(self.counts@[b] == old_counts[b]);
                        } else {
                            assert(self.counts@[a] == old_counts[a]);
                            assert(self.counts@[b] == e2);
                        }
                    }
                    assert(unique_count_users(self.counts@));
                    assert forall|u: Seq<u8>| #[trigger]
                        find_count(self.counts@, u) == count_matching(self.wraps@, u) by {
                        lemma_find_count_push(old_counts, e2, u);
                        lemma_count_matching_push(old_wraps, ge, u);
                    }
                }
            },
        }
        proof {
            lemma_count_matching_push(old_wraps, ge, user@);
            assert(find_count(self.counts@, user@) == count_matching(self.wraps@, user@));
            assert(find_count(self.counts@, user@) == find_count(old_counts, user@) + 1);
            assert forall|u: Seq<u8>|
                u != user@ implies find_count(self.counts@, u) == find_count(old_counts, u) by {
                lemma_count_matching_push(old_wraps, ge, u);
                assert(find_count(self.counts@, u) == count_matching(self.wraps@, u));
                assert(find_count(old_counts, u) == count_matching(old_wraps, u));
            }
        }
        Ok(())
    }

    /// Issues the wrap record of (`to`, `period`): checks that the registry
    /// is `Ready`, that `auth` authorizes the request, and that the key is
    /// still free; then commits the record stamped with the host clock
    /// reading `now`, raises the user's counter, and reports the
    /// notification event to emit. Any failure leaves the registry exactly
    /// as it was.
    ///
    /// A valid signature stays valid for its exact tuple forever: the only
    /// replay defense is the (user, period) uniqueness this method
    /// enforces, by design.
    pub fn mint_wrap(
        &mut self,
        to: &Vec<u8>,
        data_hash: &[u8; 32],
        archetype: &Vec<u8>,
        period: u64,
        now: u64,
        auth: &MintAuth,
    ) -> (r: Result<MintEvent, Error>)
        requires
            old(self).wf(),
        ensures
            final(self).wf(),
            r is Ok <==> old(self).is_initialized() && old(self).mint_authorized(
                *auth,
                to@,
                period,
                archetype@,
                data_hash@,
            ) && !old(self).has_wrap(to@, period),
            !old(self).is_initialized() ==> r == Err::<MintEvent, Error>(Error::NotInitialized),
            old(self).is_initialized() && !old(self).mint_authorized(
                *auth,
                to@,
                period,
                archetype@,
                data_hash@,
            ) ==> r == Err::<MintEvent, Error>(old(self).mint_auth_error(*auth)),
            old(self).is_initialized() && old(self).mint_authorized(
                *auth,
                to@,
                period,
                archetype@,
                data_hash@,
            ) && old(self).has_wrap(to@, period) ==> r == Err::<MintEvent, Error>(
                Error::WrapAlreadyExists,
            ),
            r is Err ==> *final(self) == *old(self),
            r is Ok ==> final(self).spec_wrap(to@, period) == Some(
                RecordModel { timestamp: now, data_hash: data_hash@, archetype: archetype@, period },
            ),
            r is Ok ==> forall|u: Seq<u8>, p: u64|
                !(u == to@ && p == period)
                    ==> final(self).spec_wrap(u, p) == old(self).spec_wrap(u, p),
            r is Ok ==> final(self).spec_count(to@) == old(self).spec_count(to@) + 1,
            r is Ok ==> forall|u: Seq<u8>|
                u != to@ ==> final(self).spec_count(u) == old(self).spec_count(u),
            forall|u: Seq<u8>, p: u64|
                old(self).has_wrap(u, p)
                    ==> final(self).spec_wrap(u, p) == old(self).spec_wrap(u, p),
            final(self).admin == old(self).admin,
            final(self).admin_pubkey == old(self).admin_pubkey,
            final(self).contract_id@ == old(self).contract_id@,
            final(self).is_initialized() == old(self).is_initialized(),
            r matches Ok(ev) ==> ev.user@ == to@ && ev.period == period
                && ev.archetype@ == archetype@,
    {
        match auth {
            MintAuth::Capability { caller } => {
                match &self.admin {
                    None => {
                        return Err(Error::NotInitialized);
                    },
                    Some(a) => {
                        if !bytes_eq(caller, a) {
                            return Err(Error::Unauthorized);
                        }
                    },
                }
            },
            MintAuth::Signature { signature } => {
                if self.admin.is_none() {
                    return Err(Error::NotInitialized);
                }
                match &self.admin_pubkey {
                    None => {
                        return Err(Error::NotInitialized);
                    },
                    Some(k) => {
                        let payload = canonical_payload(
                            &self.contract_id,
                            to,
                            period,
                            archetype,
                            data_hash,
                        );
                        if !ed25519_verify(k, &payload, signature) {
                            return Err(Error::InvalidSignature);
                        }
                    },
                }
            },
        }
        let record = WrapRecord {
            timestamp: now,
            data_hash: *data_hash,
            archetype: copy_bytes(archetype),
            period,
        };
        let user = copy_bytes(to);
        match self.put_record(user, record) {
            Ok(()) => Ok(
                MintEvent { user: copy_bytes(to), period, archetype: copy_bytes(archetype) },
            ),
            Err(e) => Err(e),
        }
    }

    /// Checks a detached admin signature over arbitrary `payload` bytes
    /// against the registered admin key: `NotInitialized` when no key is
    /// registered, `InvalidSignature` when verification fails.
    pub fn verify_signature(&self, payload: &Vec<u8>, signature: &[u8; 64]) -> (r: Result<
        (),
        Error,
    >)
        ensures
            self.spec_admin_pubkey() is None ==> r == Err::<(), Error>(Error::NotInitialized),
            self.admin_pubkey matches Some(k) ==> (r is Ok <==> ed25519_verifies(
                k@,
                payload@,
                signature@,
            )),
            self.admin_pubkey matches Some(k) && !ed25519_verifies(k@, payload@, signature@) ==> r
                == Err::<(), Error>(Error::InvalidSignature),
    {
        match &self.admin_pubkey {
            None => Err(Error::NotInitialized),
            Some(k) => {
                if ed25519_verify(k, payload, signature) {
                    Ok(())
                } else {
                    Err(Error::InvalidSignature)
                }
            },
        }
    }

    /// The number of decimals of the token-style interface: wraps are
    /// indivisible, so always zero.
    pub fn decimals(&self) -> (r: u32)
        ensures
            r == 0u32,
    {
        0
    }

    /// The display name of the registry under the token-style interface.
    pub fn name(&self) -> (r: String)
        ensures
            r@ == "Stellar Wrap Registry"@,
    {
        String::from_str("Stellar Wrap Registry")
    }

    /// The ticker symbol of the registry under the token-style interface.
    pub fn symbol(&self) -> (r: String)
        ensures
            r@ == "WRAP"@,
    {
        String::from_str("WRAP")
    }

    /// Allowances do not exist for soulbound records: always zero, for any
    /// pair of identities.
    pub fn allowance(&self, _from: &Vec<u8>, _spender: &Vec<u8>) -> (r: i128)
        ensures
            r == 0,
    {
        0
    }

    /// Transfers are rejected unconditionally: wrap records are soulbound.
    pub fn transfer(&self, _from: &Vec<u8>, _to: &Vec<u8>, _amount: i128) -> (r: Result<(), Error>)
        ensures
            r == Err::<(), Error>(Error::TransferNotAllowed),
    {
        Err(Error::TransferNotAllowed)
    }

    /// Delegated transfers are rejected unconditionally: wrap records are
    /// soulbound.
    pub fn transfer_from(
        &self,
        _spender: &Vec<u8>,
        _from: &Vec<u8>,
        _to: &Vec<u8>,
        _amount: i128,
    ) -> (r: Result<(), Error>)
        ensures
            r == Err::<(), Error>(Error::TransferNotAllowed),
    {
        Err(Error::TransferNotAllowed)
    }

    /// Approvals are rejected unconditionally: nothing can ever be spent.
    pub fn approve(
        &self,
        _from: &Vec<u8>,
        _spender: &Vec<u8>,
        _amount: i128,
        _expiration_ledger: u32,
    ) -> (r: Result<(), Error>)
        ensures
            r == Err::<(), Error>(Error::TransferNotAllowed),
    {
        Err(Error::TransferNotAllowed)
    }

    /// Burns are rejected unconditionally: wrap history is immutable.
    pub fn burn(&self, _from: &Vec<u8>, _amount: i128) -> (r: Result<(), Error>)
        ensures
            r == Err::<(), Error>(Error::TransferNotAllowed),
    {
        Err(Error::TransferNotAllowed)
    }

    /// The set of periods `user` holds a record for.
    pub open spec fn user_periods(self, user: Seq<u8>) -> Set<u64> {
        seq_periods(self.wraps@, user)
    }

    /// Counter consistency: on every well-formed registry, the stored
    /// balance of a user equals the number of distinct periods for which
    /// that user holds a wrap record.
    pub proof fn lemma_counter_consistency(self, user: Seq<u8>)
        requires
            self.wf(),
        ensures
            self.user_periods(user).finite(),
            self.spec_count(user) == self.user_periods(user).len(),
    {
        lemma_count_matching_is_distinct_periods(self.wraps@, user);
    }
}

/// Finds the entry of (user, period) in the record store, scanning front
/// to back; reports the first match, or that none exists at all.
fn lookup_wrap(wraps: &Vec<WrapEntry>, user: &Vec<u8>, period: u64) -> (r: Option<usize>)
    ensures
        match r {
            Some(i) => i < wraps@.len() && wraps@[i as int].user@ == user@
                && wraps@[i as int].record.period == period && find_wrap(wraps@, user@, period)
                == Some(wraps@[i as int].record@),
            None => !(find_wrap(wraps@, user@, period) is Some) && forall|j: int|
                0 <= j < wraps@.len() ==> !(wraps@[j].user@ == user@ && wraps@[j].record.period
                == period),
        },
{
    let n = wraps.len();
    let mut i: usize = 0;
    while i < n
        invariant
            i <= n,
            n == wraps@.len(),
            forall|j: int|
                0 <= j < i ==> !(wraps@[j].user@ == user@ && wraps@[j].record.period == period),
        decreases n - i,
    {
        if wraps[i].record.period == period && bytes_eq(&wraps[i].user, user) {
            proof {
                lemma_find_wrap_first(wraps@, i as int, user@, period);
            }
            return Some(i);
        }
        i = i + 1;
    }
    proof {
        lemma_find_wrap_index(wraps@, user@, period);
    }
    None
}

/// Finds the counter entry of `user`, scanning front to back; reports the
/// first match, or that none exists at all.
fn lookup_count(counts: &Vec<CountEntry>, user: &Vec<u8>) -> (r: Option<usize>)
    ensures
        match r {
            Some(i) => i < counts@.len() && counts@[i as int].user@ == user@ && forall|j: int|
                0 <= j < i ==> counts@[j].user@ != user@,
            None => forall|j: int| 0 <= j < counts@.len() ==> counts@[j].user@ != user@,
        },
{
    let n = counts.len();
    let mut i: usize = 0;
    while i < n
        invariant
            i <= n,
            n == counts@.len(),
            forall|j: int| 0 <= j < i ==> counts@[j].user@ != user@,
        decreases n - i,
    {
        if bytes_eq(&counts[i].user, user) {
            return Some(i);
        }
        i = i + 1;
    }
    None
}

} // verus!
