//! The ledger's view of local QCash cash files.
use vstd::prelude::*;
use crate::chars::str_eq;
use crate::json::{json_bool_at, json_bool_field, json_str_field, json_string_at, json_u64_at, json_u64_field};
use crate::tally::{lemma_sat_step, lemma_sum_of_nonneg, lemma_sum_of_push, sat_u64, sum_of};

verus! {

/// The status that the ledger gives a coin in a `/qcash/coin/..` answer, for
/// the vault totals: the `status` field, or `spent_or_unknown` when the answer
/// has none.
pub fn vault_coin_status(response: &str) -> (s: String)
    ensures
        s@ == (match json_string_at(response@, "status"@) {
            Some(t) => t,
            None => "spent_or_unknown"@,
        }),
{
    match json_str_field(response, "status") {
        Some(s) => s,
        None => String::from_str("spent_or_unknown"),
    }
}

/// The status that the ledger gives a coin in a `/qcash/coin/..` answer, for
/// a sync report: the `status` field, or `unknown` when the answer has none.
pub fn sync_coin_status(response: &str) -> (s: String)
    ensures
        s@ == (match json_string_at(response@, "status"@) {
            Some(t) => t,
            None => "unknown"@,
        }),
{
    match json_str_field(response, "status") {
        Some(s) => s,
        None => String::from_str("unknown"),
    }
}

/// The lifecycle that a ledger status stands for.
pub open spec fn lifecycle_of(status: Seq<char>) -> Seq<char> {
    if status == "pending"@ {
        "ledger-pending"@
    } else if status == "spendable"@ {
        "ready"@
    } else if status == "spent_or_unknown"@ {
        "spent-or-unissued"@
    } else {
        "unknown"@
    }
}

/// The lifecycle that a ledger status stands for; see `lifecycle_of`.
pub fn ledger_lifecycle(status: &str) -> (l: &'static str)
    ensures
        l@ == lifecycle_of(status@),
{
    if str_eq(status, "pending") {
        "ledger-pending"
    } else if str_eq(status, "spendable") {
        "ready"
    } else if str_eq(status, "spent_or_unknown") {
        "spent-or-unissued"
    } else {
        "unknown"
    }
}

/// Whether the node's answer to a submitted transaction says `"accepted": true`.
pub fn node_accepted(response: &str) -> (r: bool)
    ensures
        r == (json_bool_at(response@, "accepted"@) == Some(true)),
{
    match json_bool_field(response, "accepted") {
        Some(b) => b,
        None => false,
    }
}

/// Why no chain height could be read from a `/status` answer.
pub enum StatusError {
    /// The answer is not JSON.
    NotJson(serde_json::Error),
    /// The answer has no `u64` at `height`.
    NoHeight,
}

/// The chain height in a `/status` answer.
pub fn status_height(response: &str) -> (r: Result<u64, StatusError>)
    ensures
        match json_u64_at(response@, "height"@) {
            None => r matches Err(StatusError::NotJson(_)),
            Some(None) => r matches Err(StatusError::NoHeight),
            Some(Some(h)) => r matches Ok(x) && x == h,
        },
{
    match json_u64_field(response, "height") {
        Err(e) => Err(StatusError::NotJson(e)),
        Ok(None) => Err(StatusError::NoHeight),
        Ok(Some(h)) => Ok(h),
    }
}

/// One cash file of a vault: its value in base units and the ledger's status.
#[derive(Clone, Debug)]
pub struct VaultCoin {
    pub amount: u64,
    pub status: String,
}

/// Totals over a cash vault.
#[derive(Clone, Copy, Debug)]
pub struct QCashVaultTotals {
    pub files: usize,
    pub known: u64,
    pub spendable: u64,
    pub pending: u64,
    pub spent_or_unknown: u64,
}

/// The value of `c` if its status is `status`, else 0.
pub open spec fn amount_if(c: VaultCoin, status: Seq<char>) -> int {
    if c.status@ == status {
        c.amount as int
    } else {
        0
    }
}

/// The value of `c` if the ledger knows it as live (spendable or pending), else 0.
pub open spec fn known_amount(c: VaultCoin) -> int {
    if c.status@ == "spendable"@ || c.status@ == "pending"@ {
        c.amount as int
    } else {
        0
    }
}

/// The value of `c` if the ledger does not know it as live, else 0.
pub open spec fn unknown_amount(c: VaultCoin) -> int {
    if c.status@ == "spendable"@ || c.status@ == "pending"@ {
        0
    } else {
        c.amount as int
    }
}

impl QCashVaultTotals {
    /// What `of_coins` gives for `coins`.
    pub open spec fn totals_of(self, coins: Seq<VaultCoin>) -> bool {
        &&& self.files == coins.len()
        &&& self.spendable == sat_u64(sum_of(coins, |c: VaultCoin| amount_if(c, "spendable"@)))
        &&& self.pending == sat_u64(sum_of(coins, |c: VaultCoin| amount_if(c, "pending"@)))
        &&& self.known == sat_u64(sum_of(coins, |c: VaultCoin| known_amount(c)))
        &&& self.spent_or_unknown == sat_u64(sum_of(coins, |c: VaultCoin| unknown_amount(c)))
    }

    /// The totals of an empty (or missing) vault.
    pub fn empty() -> (t: Self)
        ensures
            t.totals_of(Seq::empty()),
    {
        QCashVaultTotals { files: 0, known: 0, spendable: 0, pending: 0, spent_or_unknown: 0 }
    }

    /// Totals over the coins of a vault; see `totals_of`.
    pub fn of_coins(coins: &[VaultCoin]) -> (t: Self)
        ensures
            t.totals_of(coins@),
    {
        let ghost cs = coins@;
        let ghost f_sp = |c: VaultCoin| amount_if(c, "spendable"@);
        let ghost f_pe = |c: VaultCoin| amount_if(c, "pending"@);
        let ghost f_kn = |c: VaultCoin| known_amount(c);
        let ghost f_un = |c: VaultCoin| unknown_amount(c);
        let mut t = QCashVaultTotals::empty();
        let mut i: usize = 0;
        while i < coins.len()
            invariant
                i <= cs.len(),
                cs == coins@,
                t.files == i,
                t.spendable == sat_u64(sum_of(cs.take(i as int), f_sp)),
                t.pending == sat_u64(sum_of(cs.take(i as int), f_pe)),
                t.known == sat_u64(sum_of(cs.take(i as int), f_kn)),
                t.spent_or_unknown == sat_u64(sum_of(cs.take(i as int), f_un)),
                f_sp == (|c: VaultCoin| amount_if(c, "spendable"@)),
                f_pe == (|c: VaultCoin| amount_if(c, "pending"@)),
                f_kn == (|c: VaultCoin| known_amount(c)),
                f_un == (|c: VaultCoin| unknown_amount(c)),
            decreases cs.len() - i,
        {
            let coin = &coins[i];
            let amount = coin.amount;
            proof {
                reveal_strlit("spendable");
                reveal_strlit("pending");
                assert("spendable"@ != "pending"@) by {
                    assert("spendable"@.len() != "pending"@.len());
                }
                lemma_sum_of_push(cs, i as int, f_sp);
                lemma_sum_of_push(cs, i as int, f_pe);
                lemma_sum_of_push(cs, i as int, f_kn);
                lemma_sum_of_push(cs, i as int, f_un);
                lemma_sum_of_nonneg(cs.take(i as int), f_sp);
                lemma_sum_of_nonneg(cs.take(i as int), f_pe);
                lemma_sum_of_nonneg(cs.take(i as int), f_kn);
                lemma_sum_of_nonneg(cs.take(i as int), f_un);
                lemma_sat_step(sum_of(cs.take(i as int), f_sp), f_sp(cs[i as int]));
                lemma_sat_step(sum_of(cs.take(i as int), f_pe), f_pe(cs[i as int]));
                lemma_sat_step(sum_of(cs.take(i as int), f_kn), f_kn(cs[i as int]));
                lemma_sat_step(sum_of(cs.take(i as int), f_un), f_un(cs[i as int]));
            }
            t.files = t.files + 1;
            if str_eq(coin.status.as_str(), "spendable") {
                t.spendable = t.spendable.saturating_add(amount);
                t.known = t.known.saturating_add(amount);
            } else if str_eq(coin.status.as_str(), "pending") {
                t.pending = t.pending.saturating_add(amount);
                t.known = t.known.saturating_add(amount);
            } else {
                t.spent_or_unknown = t.spent_or_unknown.saturating_add(amount);
            }
            i = i + 1;
        }
        assert(cs.take(cs.len() as int) =~= cs);
        t
    }

    /// What is ready to spend in all: the on-chain available balance and the
    /// spendable cash files, capped at `u64::MAX`.
    pub fn total_ready(&self, available: u64) -> (r: u64)
        ensures
            r == sat_u64(available + self.spendable),
    {
        available.saturating_add(self.spendable)
    }

    /// All value the wallet knows of: the confirmed on-chain balance and the
    /// cash files the ledger knows as live, capped at `u64::MAX`.
    pub fn total_known(&self, confirmed: u64) -> (r: u64)
        ensures
            r == sat_u64(confirmed + self.known),
    {
        confirmed.saturating_add(self.known)
    }
}

/// The totals that `cash list` shows for the values `amounts` of the files
/// of a directory: how many there are, and their sum capped at `u64::MAX`.
pub fn wallet_cash_list(amounts: &[u64]) -> (r: (usize, u64))
    ensures
        r.0 == amounts@.len(),
        r.1 == sat_u64(sum_of(amounts@, |a: u64| a as int)),
{
    let ghost f = |a: u64| a as int;
    let mut total: u64 = 0;
    let mut i: usize = 0;
    while i < amounts.len()
        invariant
            i <= amounts@.len(),
            total == sat_u64(sum_of(amounts@.take(i as int), f)),
            f == (|a: u64| a as int),
        decreases amounts@.len() - i,
    {
        proof {
            lemma_sum_of_push(amounts@, i as int, f);
            lemma_sum_of_nonneg(amounts@.take(i as int), f);
            lemma_sat_step(sum_of(amounts@.take(i as int), f), f(amounts@[i as int]));
        }
        total = total.saturating_add(amounts[i]);
        i = i + 1;
    }
    assert(amounts@.take(amounts@.len() as int) =~= amounts@);
    (amounts.len(), total)
}

/// Why a cash vault is not recovered.
#[derive(Clone, Copy, Debug, PartialEq, Eq, Structural)]
pub enum RecoveryRefusal {
    /// The backup holds no cash files.
    NoFiles,
    /// The backup file at this index would overwrite a file of the destination.
    WouldOverwrite(usize),
    /// The destination exists and is not a directory.
    NotADirectory,
}

/// How a recovery starts once every check has passed.
#[derive(Clone, Copy, Debug, PartialEq, Eq, Structural)]
pub enum RecoveryStart {
    /// The destination does not exist: create it (private) first.
    CreateDirectory,
    /// The destination is an existing directory: copy into it.
    IntoDirectory,
}

/// The index of the first `true` in `s`, or `s.len()` when there is none.
pub open spec fn first_taken(s: Seq<bool>) -> int
    decreases s.len(),
{
    if s.len() == 0 {
        0
    } else if s[0] {
        0
    } else {
        1 + first_taken(s.drop_first())
    }
}

proof fn lemma_first_taken(s: Seq<bool>)
    ensures
        0 <= first_taken(s) <= s.len(),
        first_taken(s) < s.len() ==> s[first_taken(s)],
        forall|k: int| 0 <= k < first_taken(s) ==> !s[k],
    decreases s.len(),
{
    if s.len() > 0 && !s[0] {
        lemma_first_taken(s.drop_first());
        assert forall|k: int| 0 <= k < first_taken(s) implies !s[k] by {
            if k > 0 {
                assert(s[k] == s.drop_first()[k - 1]);
            }
        }
    }
}

proof fn lemma_first_taken_at(s: Seq<bool>, k: int)
    requires
        0 <= k <= s.len(),
        forall|j: int| 0 <= j < k ==> !s[j],
        k < s.len() ==> s[k],
    ensures
        first_taken(s) == k,
    decreases s.len(),
{
    if s.len() > 0 && k > 0 {
        assert forall|j: int| 0 <= j < k - 1 implies !s.drop_first()[j] by {
            assert(s.drop_first()[j] == s[j + 1]);
        }
        lemma_first_taken_at(s.drop_first(), k - 1);
    }
}

/// Whether the cash files of a backup may be recovered into a destination,
/// decided before anything is written: `names_taken[i]` says whether the
/// destination already holds a file named as the backup's `i`-th file, in the
/// order in which the files are checked. A backup without files is refused;
/// then the first file that would overwrite one is refused; then a destination
/// that exists but is no directory. Recovery never overwrites a file.
///
/// The destination is a new directory, an empty one, or an existing one that
/// holds none of the backup's names: the menu's recovery offers the live vault
/// `./cash` as its destination, so a directory that already holds other cash
/// files is meant to be accepted; what is refused is overwriting.
pub fn recovery_start(names_taken: &[bool], destination_exists: bool, destination_is_dir: bool) -> (r:
    Result<RecoveryStart, RecoveryRefusal>)
    ensures
        names_taken@.len() == 0 ==> r == Err::<RecoveryStart, RecoveryRefusal>(
            RecoveryRefusal::NoFiles,
        ),
        names_taken@.len() > 0 && (exists|i: int| 0 <= i < names_taken@.len() && names_taken@[i])
            ==> r == Err::<RecoveryStart, RecoveryRefusal>(
            RecoveryRefusal::WouldOverwrite(first_taken(names_taken@) as usize),
        ),
        names_taken@.len() > 0 && (forall|i: int| 0 <= i < names_taken@.len() ==> !names_taken@[i])
            ==> r == (if !destination_exists {
            Ok::<RecoveryStart, RecoveryRefusal>(RecoveryStart::CreateDirectory)
        } else if destination_is_dir {
            Ok::<RecoveryStart, RecoveryRefusal>(RecoveryStart::IntoDirectory)
        } else {
            Err::<RecoveryStart, RecoveryRefusal>(RecoveryRefusal::NotADirectory)
        }),
{
    if names_taken.len() == 0 {
        return Err(RecoveryRefusal::NoFiles);
    }
    proof {
        lemma_first_taken(names_taken@);
    }
    let mut i: usize = 0;
    while i < names_taken.len()
        invariant
            i <= names_taken@.len(),
            forall|k: int| 0 <= k < i ==> !names_taken@[k],
        decreases names_taken@.len() - i,
    {
        if names_taken[i] {
            proof {
                lemma_first_taken_at(names_taken@, i as int);
            }
            return Err(RecoveryRefusal::WouldOverwrite(i));
        }
        i = i + 1;
    }
    if !destination_exists {
        Ok(RecoveryStart::CreateDirectory)
    } else if destination_is_dir {
        Ok(RecoveryStart::IntoDirectory)
    } else {
        Err(RecoveryRefusal::NotADirectory)
    }
}

/// Why a cash vault is not backed up.
#[derive(Clone, Copy, Debug, PartialEq, Eq, Structural)]
pub enum BackupRefusal {
    /// The cash directory holds no cash files.
    NoFiles,
    /// The backup directory exists already (a backup goes into a new directory).
    DestinationExists,
}

/// Whether `n_files` cash files may be backed up into a destination, decided
/// before anything is written: a vault without files is refused, then a
/// destination that exists already.
pub fn backup_start(n_files: usize, destination_exists: bool) -> (r: Result<(), BackupRefusal>)
    ensures
        r == (if n_files == 0 {
            Err::<(), BackupRefusal>(BackupRefusal::NoFiles)
        } else if destination_exists {
            Err::<(), BackupRefusal>(BackupRefusal::DestinationExists)
        } else {
            Ok::<(), BackupRefusal>(())
        }),
{
    if n_files == 0 {
        Err(BackupRefusal::NoFiles)
    } else if destination_exists {
        Err(BackupRefusal::DestinationExists)
    } else {
        Ok(())
    }
}

/// The transaction hash in the node's answer to an accepted deposit: the
/// `hash` field, if it is a string.
pub fn deposit_hash(response: &str) -> (r: Option<String>)
    ensures
        match json_string_at(response@, "hash"@) {
            Some(h) => r matches Some(s) && s@ == h,
            None => r is None,
        },
{
    json_str_field(response, "hash")
}

} // verus!
