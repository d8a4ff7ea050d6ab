//! The reputation registry: per-user score and history digest, the admin and
//! the set of authorized minters, and the migration of legacy bare-score
//! records to the canonical format on first access.
use vstd::prelude::*;
use vstd::hash_map::HashMapWithView;
use crate::types::{Address, Error, has_signed};

verus! {

broadcast use vstd::std_specs::hash::group_hash_axioms;

/// The canonical record of a user: a score and a fixed-size history digest.
#[derive(Clone, Copy, Debug, PartialEq, Eq)]
pub struct RemittanceMetadata {
    pub score: u32,
    pub history_hash: [u8; 32],
}

/// The digest that a migrated legacy record receives.
pub open spec fn zero_hash() -> [u8; 32] {
    vstd::array::spec_array_fill_for_copy_type::<u8, 32>(0u8)
}

/// The registry as a mathematical value.
pub struct RegistryState {
    pub address: Address,
    pub admin: Option<Address>,
    pub minters: Map<u64, bool>,
    pub records: Map<u64, RemittanceMetadata>,
    pub legacy: Map<u64, u32>,
}

impl RegistryState {
    pub open spec fn is_minter(self, m: Address) -> bool {
        self.minters.contains_key(m.id) && self.minters[m.id]
    }

    /// A user is enrolled when a canonical or a legacy record exists for them.
    pub open spec fn enrolled(self, u: Address) -> bool {
        self.records.contains_key(u.id) || self.legacy.contains_key(u.id)
    }

    /// The canonical record of `u`, with a legacy record read as its migration.
    pub open spec fn resolved(self, u: Address) -> Option<RemittanceMetadata> {
        if self.records.contains_key(u.id) {
            Some(self.records[u.id])
        } else if self.legacy.contains_key(u.id) {
            Some(RemittanceMetadata { score: self.legacy[u.id], history_hash: zero_hash() })
        } else {
            None
        }
    }

    /// The state after the records of `u` have been brought to the canonical format.
    pub open spec fn migrated(self, u: Address) -> RegistryState {
        if !self.records.contains_key(u.id) && self.legacy.contains_key(u.id) {
            RegistryState {
                records: self.records.insert(u.id, self.resolved(u).unwrap()),
                legacy: self.legacy.remove(u.id),
                ..self
            }
        } else {
            self
        }
    }

    /// The score `get_score` reports: 0 for a user who is not enrolled.
    pub open spec fn score_of(self, u: Address) -> u32 {
        match self.resolved(u) {
            Some(m) => m.score,
            None => 0,
        }
    }

    /// Why the authorization gate refuses a call, if it does: with a `minter`,
    /// that minter must have authorized the call and be in the minter set;
    /// without one, the admin must have authorized it.
    pub open spec fn gate_error(self, auth: Seq<Address>, minter: Option<Address>) -> Option<Error> {
        match self.admin {
            None => Some(Error::NotInitialized),
            Some(a) => match minter {
                Some(m) => if auth.contains(m) && self.is_minter(m) {
                    None
                } else {
                    Some(Error::Unauthorized)
                },
                None => if auth.contains(a) {
                    None
                } else {
                    Some(Error::Unauthorized)
                },
            },
        }
    }

    /// Why an admin-only call fails, if it does.
    pub open spec fn admin_error(self, auth: Seq<Address>) -> Option<Error> {
        match self.admin {
            None => Some(Error::NotInitialized),
            Some(a) => if auth.contains(a) {
                None
            } else {
                Some(Error::Unauthorized)
            },
        }
    }

    pub open spec fn mint_error(self, auth: Seq<Address>, u: Address, minter: Option<Address>) -> Option<Error> {
        if self.gate_error(auth, minter) is Some {
            self.gate_error(auth, minter)
        } else if self.enrolled(u) {
            Some(Error::AlreadyEnrolled)
        } else {
            None
        }
    }

    /// Why an update of the records of `u` fails before its own arithmetic, if it does.
    pub open spec fn update_error(self, auth: Seq<Address>, u: Address, minter: Option<Address>) -> Option<Error> {
        if self.gate_error(auth, minter) is Some {
            self.gate_error(auth, minter)
        } else if !self.enrolled(u) {
            Some(Error::NotEnrolled)
        } else {
            None
        }
    }

    pub open spec fn score_error(self, auth: Seq<Address>, u: Address, amount: i128, minter: Option<Address>) -> Option<Error> {
        if self.update_error(auth, u, minter) is Some {
            self.update_error(auth, u, minter)
        } else if amount < 0 {
            Some(Error::InvalidAmount)
        } else if self.score_of(u) + amount / 100 > u32::MAX {
            Some(Error::ArithmeticOverflow)
        } else {
            None
        }
    }

    /// The state with the canonical record of `u` set to `m`.
    pub open spec fn with_record(self, u: Address, m: RemittanceMetadata) -> RegistryState {
        RegistryState { records: self.records.insert(u.id, m), ..self }
    }
}

/// Migration happens once: for a user with only a legacy record, the first
/// access leaves the state that a canonical record with a zero digest would
/// have given from the start, a second access changes nothing, and every read
/// and every score update sees the same record either way.
pub proof fn lemma_migration_idempotent(s: RegistryState, u: Address)
    requires
        !s.records.contains_key(u.id),
        s.legacy.contains_key(u.id),
    ensures
        ({
            let c = RegistryState {
                records: s.records.insert(
                    u.id,
                    (RemittanceMetadata { score: s.legacy[u.id], history_hash: zero_hash() }),
                ),
                legacy: s.legacy.remove(u.id),
                ..s
            };
            &&& s.migrated(u) == c
            &&& !c.legacy.contains_key(u.id)
            &&& c.migrated(u) == c
            &&& c.resolved(u) == s.resolved(u)
            &&& c.score_of(u) == s.score_of(u)
            &&& forall|auth: Seq<Address>, a: i128, m: Option<Address>|
                c.score_error(auth, u, a, m) == s.score_error(auth, u, a, m)
            &&& forall|auth: Seq<Address>, m: Option<Address>|
                c.update_error(auth, u, m) == s.update_error(auth, u, m)
        }),
{
}

/// Enrollment is one-time: once a user holds a canonical or a legacy record,
/// every mint for them that passes the authorization gate fails with
/// `AlreadyEnrolled`, whichever path minted them first.
pub proof fn lemma_mint_once(
    s: RegistryState,
    auth: Seq<Address>,
    u: Address,
    md: RemittanceMetadata,
    minter: Option<Address>,
    auth2: Seq<Address>,
    minter2: Option<Address>,
)
    requires
        s.mint_error(auth, u, minter) is None,
    ensures
        s.with_record(u, md).enrolled(u),
        s.with_record(u, md).gate_error(auth2, minter2) is None ==> s.with_record(u, md).mint_error(
            auth2, u, minter2) == Some(Error::AlreadyEnrolled),
        s.legacy.contains_key(u.id) && s.gate_error(auth2, minter2) is None ==> s.mint_error(
            auth2, u, minter2) == Some(Error::AlreadyEnrolled),
{
}

/// A successful score update with repayment `a` raises the score by exactly
/// `a / 100`; a repayment below 100 leaves it as it was.
pub proof fn lemma_score_credit(
    s: RegistryState,
    auth: Seq<Address>,
    u: Address,
    a: i128,
    minter: Option<Address>,
)
    requires
        s.score_error(auth, u, a, minter) is None,
    ensures
        ({
            let t = s.migrated(u).with_record(
                u,
                (RemittanceMetadata {
                    score: (s.score_of(u) + a / 100) as u32,
                    history_hash: s.resolved(u).unwrap().history_hash,
                }),
            );
            &&& t.score_of(u) == s.score_of(u) + a / 100
            &&& a < 100 ==> t.score_of(u) == s.score_of(u)
            &&& t.resolved(u).unwrap().history_hash == s.resolved(u).unwrap().history_hash
        }),
{
}

/// The authorization gate of mint, score update and digest update: a minter
/// outside the minter set is refused with `Unauthorized`, and a member that
/// authorized the call passes, leaving only the enrollment checks.
pub proof fn lemma_gate(s: RegistryState, auth: Seq<Address>, u: Address, m: Address, a: i128)
    requires
        s.admin is Some,
    ensures
        !s.is_minter(m) ==> s.mint_error(auth, u, Some(m)) == Some(Error::Unauthorized),
        !s.is_minter(m) ==> s.update_error(auth, u, Some(m)) == Some(Error::Unauthorized),
        !s.is_minter(m) ==> s.score_error(auth, u, a, Some(m)) == Some(Error::Unauthorized),
        s.is_minter(m) && auth.contains(m) ==> s.gate_error(auth, Some(m)) is None,
        s.is_minter(m) && auth.contains(m) ==> (s.mint_error(auth, u, Some(m)) is None
            <==> !s.enrolled(u)),
        s.is_minter(m) && auth.contains(m) ==> (s.update_error(auth, u, Some(m)) is None
            <==> s.enrolled(u)),
{
}

/// The reputation registry. Its fields are its durable storage.
pub struct RemittanceNFT {
    pub address: Address,
    pub admin: Option<Address>,
    pub minters: HashMapWithView<u64, bool>,
    pub records: HashMapWithView<u64, RemittanceMetadata>,
    pub legacy: HashMapWithView<u64, u32>,
}

impl View for RemittanceNFT {
    type V = RegistryState;

    open spec fn view(&self) -> RegistryState {
        RegistryState {
            address: self.address,
            admin: self.admin,
            minters: self.minters@,
            records: self.records@,
            legacy: self.legacy@,
        }
    }
}

impl RemittanceNFT {
    /// A registry at `address` with empty storage, not yet initialized.
    pub fn new(address: Address) -> (r: Self)
        ensures
            r@.address == address,
            r@.admin is None,
            r@.minters == Map::<u64, bool>::empty(),
            r@.records == Map::<u64, RemittanceMetadata>::empty(),
            r@.legacy == Map::<u64, u32>::empty(),
    {
        RemittanceNFT {
            address,
            admin: None,
            minters: HashMapWithView::new(),
            records: HashMapWithView::new(),
            legacy: HashMapWithView::new(),
        }
    }
    /// One-time setup: records `admin` and places it in the minter set.
    pub fn initialize(&mut self, admin: Address) -> (r: Result<(), Error>)
        ensures
            r is Ok <==> old(self)@.admin is None,
            match r {
                Ok(_) => final(self)@ == (RegistryState {
                    admin: Some(admin),
                    minters: old(self)@.minters.insert(admin.id, true),
                    ..old(self)@
                }),
                Err(e) => e == Error::AlreadyInitialized && final(self)@ == old(self)@,
            },
    {
        if self.admin.is_some() {
            return Err(Error::AlreadyInitialized);
        }
        self.admin = Some(admin);
        self.minters.insert(admin.id, true);
        Ok(())
    }

    /// Lets `minter` act on the registry on others' behalf; admin only.
    pub fn authorize_minter(&mut self, auth: &[Address], minter: Address) -> (r: Result<(), Error>)
        ensures
            r is Ok <==> old(self)@.admin_error(auth@) is None,
            match r {
                Ok(_) => final(self)@ == (RegistryState {
                    minters: old(self)@.minters.insert(minter.id, true),
                    ..old(self)@
                }),
                Err(e) => old(self)@.admin_error(auth@) == Some(e) && final(self)@ == old(self)@,
            },
    {
        self.check_admin(auth)?;
        self.minters.insert(minter.id, true);
        Ok(())
    }

    /// Takes `minter` out of the minter set; admin only.
    pub fn revoke_minter(&mut self, auth: &[Address], minter: Address) -> (r: Result<(), Error>)
        ensures
            r is Ok <==> old(self)@.admin_error(auth@) is None,
            match r {
                Ok(_) => final(self)@ == (RegistryState {
                    minters: old(self)@.minters.remove(minter.id),
                    ..old(self)@
                }),
                Err(e) => old(self)@.admin_error(auth@) == Some(e) && final(self)@ == old(self)@,
            },
    {
        self.check_admin(auth)?;
        proof {
            assert(old(self)@.minters.contains_key(minter.id) || old(self)@.minters.remove(minter.id)
                =~= old(self)@.minters);
        }
        self.minters.remove(&minter.id);
        Ok(())
    }

    /// Whether `minter` is in the minter set; false when it never was.
    pub fn is_authorized_minter(&self, minter: Address) -> (r: bool)
        ensures
            r == self@.is_minter(minter),
    {
        match self.minters.get(&minter.id) {
            Some(b) => *b,
            None => false,
        }
    }

    fn check_admin(&self, auth: &[Address]) -> (r: Result<(), Error>)
        ensures
            match r {
                Ok(_) => self@.admin_error(auth@) is None,
                Err(e) => self@.admin_error(auth@) == Some(e),
            },
    {
        match self.admin {
            None => Err(Error::NotInitialized),
            Some(a) => if has_signed(auth, a) {
                Ok(())
            } else {
                Err(Error::Unauthorized)
            },
        }
    }

    /// The authorization gate shared by every call that writes a user's records.
    fn check_gate(&self, auth: &[Address], minter: Option<Address>) -> (r: Result<(), Error>)
        ensures
            match r {
                Ok(_) => self@.gate_error(auth@, minter) is None,
                Err(e) => self@.gate_error(auth@, minter) == Some(e),
            },
    {
        let admin = match self.admin {
            None => return Err(Error::NotInitialized),
            Some(a) => a,
        };
        match minter {
            Some(m) => if has_signed(auth, m) && self.is_authorized_minter(m) {
                Ok(())
            } else {
                Err(Error::Unauthorized)
            },
            None => if has_signed(auth, admin) {
                Ok(())
            } else {
                Err(Error::Unauthorized)
            },
        }
    }

    /// The canonical record of `user`, reading a legacy record as its migration,
    /// without writing anything.
    pub fn lookup(&self, user: Address) -> (r: Option<RemittanceMetadata>)
        ensures
            r == self@.resolved(user),
    {
        match self.records.get(&user.id) {
            Some(m) => Some(*m),
            None => match self.legacy.get(&user.id) {
                Some(score) => Some(RemittanceMetadata { score: *score, history_hash: [0u8; 32] }),
                None => None,
            },
        }
    }

    /// Replaces a legacy record of `user` by its canonical form.
    fn migrate(&mut self, user: Address)
        ensures
            final(self)@ == old(self)@.migrated(user),
    {
        if !self.records.contains_key(&user.id) {
            match self.legacy.remove(&user.id) {
                Some(score) => {
                    self.records.insert(user.id, RemittanceMetadata { score, history_hash: [0u8; 32] });
                },
                None => {},
            }
        }
    }

    /// Enrolls `user` with a first score and digest, through the authorization gate.
    pub fn mint(
        &mut self,
        auth: &[Address],
        user: Address,
        initial_score: u32,
        history_hash: [u8; 32],
        minter: Option<Address>,
    ) -> (r: Result<(), Error>)
        ensures
            r is Ok <==> old(self)@.mint_error(auth@, user, minter) is None,
            match r {
                Ok(_) => final(self)@ == old(self)@.with_record(
                    user,
                    (RemittanceMetadata { score: initial_score, history_hash }),
                ),
                Err(e) => old(self)@.mint_error(auth@, user, minter) == Some(e) && final(self)@
                    == old(self)@,
            },
    {
        self.check_gate(auth, minter)?;
        if self.records.contains_key(&user.id) || self.legacy.contains_key(&user.id) {
            return Err(Error::AlreadyEnrolled);
        }
        self.records.insert(user.id, RemittanceMetadata { score: initial_score, history_hash });
        Ok(())
    }

    /// The record of `user`, migrating a legacy record in place; `None` when
    /// the user is not enrolled.
    pub fn get_metadata(&mut self, user: Address) -> (r: Option<RemittanceMetadata>)
        ensures
            r == old(self)@.resolved(user),
            final(self)@ == old(self)@.migrated(user),
    {
        let r = self.lookup(user);
        self.migrate(user);
        r
    }

    /// The score of `user`, migrating a legacy record in place; 0 when the
    /// user is not enrolled.
    pub fn get_score(&mut self, user: Address) -> (r: u32)
        ensures
            r == old(self)@.score_of(user),
            final(self)@ == old(self)@.migrated(user),
    {
        match self.get_metadata(user) {
            Some(m) => m.score,
            None => 0,
        }
    }

    /// Credits `user` one point per whole 100 units of `repayment_amount`,
    /// through the authorization gate.
    pub fn update_score(
        &mut self,
        auth: &[Address],
        user: Address,
        repayment_amount: i128,
        minter: Option<Address>,
    ) -> (r: Result<(), Error>)
        ensures
            r is Ok <==> old(self)@.score_error(auth@, user, repayment_amount, minter) is None,
            match r {
                Ok(_) => final(self)@ == old(self)@.migrated(user).with_record(
                    user,
                    (RemittanceMetadata {
                        score: (old(self)@.score_of(user) + repayment_amount / 100) as u32,
                        history_hash: old(self)@.resolved(user).unwrap().history_hash,
                    }),
                ),
                Err(e) => old(self)@.score_error(auth@, user, repayment_amount, minter) == Some(e)
                    && final(self)@ == old(self)@,
            },
    {
        self.check_gate(auth, minter)?;
        let current = match self.lookup(user) {
            Some(m) => m,
            None => return Err(Error::NotEnrolled),
        };
        if repayment_amount < 0 {
            return Err(Error::InvalidAmount);
        }
        let points: i128 = repayment_amount / 100;
        if points > (u32::MAX - current.score) as i128 {
            return Err(Error::ArithmeticOverflow);
        }
        self.migrate(user);
        let updated = RemittanceMetadata {
            score: current.score + points as u32,
            history_hash: current.history_hash,
        };
        self.records.insert(user.id, updated);
        Ok(())
    }

    /// Replaces the history digest of `user`, through the authorization gate.
    pub fn update_history_hash(
        &mut self,
        auth: &[Address],
        user: Address,
        new_history_hash: [u8; 32],
        minter: Option<Address>,
    ) -> (r: Result<(), Error>)
        ensures
            r is Ok <==> old(self)@.update_error(auth@, user, minter) is None,
            match r {
                Ok(_) => final(self)@ == old(self)@.migrated(user).with_record(
                    user,
                    (RemittanceMetadata {
                        score: old(self)@.score_of(user),
                        history_hash: new_history_hash,
                    }),
                ),
                Err(e) => old(self)@.update_error(auth@, user, minter) == Some(e) && final(self)@
                    == old(self)@,
            },
    {
        self.check_gate(auth, minter)?;
        let current = match self.lookup(user) {
            Some(m) => m,
            None => return Err(Error::NotEnrolled),
        };
        self.migrate(user);
        let updated = RemittanceMetadata { score: current.score, history_hash: new_history_hash };
        self.records.insert(user.id, updated);
        Ok(())
    }
}

} // verus!
