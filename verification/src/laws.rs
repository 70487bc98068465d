//! Properties of the wallet that span several functions or all inputs.
use vstd::prelude::*;
use crate::amount::{
    AmountError, XPQ, DECIMALS, lemma_decimal_facts, lemma_xpq_plain_text_roundtrip, xpq_amount,
    xpq_plain_text, xpq_text,
};
use crate::decimal::{all_digits, decimal, group_thousands, is_digit, zero_pad};
use crate::pool::{
    PoolAccountingRound, PoolPayoutReceipt, PoolWorkerPayout, paid_keys, payout_key_of, plan_upto,
    receipt_key_of, round_check, round_due,
};
use crate::stats::{AddressRpcResponse, MinedBlockRpcResponse, TransactionRpcResponse, WalletStats};
use crate::qcash::{QCashVaultTotals, VaultCoin, amount_if, known_amount, unknown_amount};
use crate::tally::{
    count_of, lemma_count_of_pointwise, lemma_sum_of_add, lemma_sum_of_nonneg, lemma_sum_of_pointwise,
    lemma_sum_of_split, sat_u64, sum_of,
};
use crate::names::{all_lookup_chars, file_name, lookup_char, lookup_name, last_slash, lemma_last_slash};
use crate::chars::{is_white, trim, trim_end, trim_start};
use crate::keys::{hex_bytes, hex_digit_value, is_hex_text, key_bytes, lower_hex, lower_hex_digit};
use crate::http::{content_length_of, is_content_length_name};
use crate::names::ascii_lower;
use crate::decimal::parse_unsigned;
use crate::amount::{find_char, lemma_find_char_at};
use crate::decimal::lemma_parse_unsigned_digits;
use crate::http::{crlfcrlf_bytes, find_four, lemma_find_four, lemma_find_four_at, response_complete, window4};

verus! {

/// `s` with every `,` taken out.
pub open spec fn without_commas(s: Seq<char>) -> Seq<char>
    decreases s.len(),
{
    if s.len() == 0 {
        s
    } else {
        without_commas(s.drop_last()) + if s.last() == ',' {
            Seq::<char>::empty()
        } else {
            seq![s.last()]
        }
    }
}

proof fn lemma_without_commas_add(a: Seq<char>, b: Seq<char>)
    ensures
        without_commas(a + b) == without_commas(a) + without_commas(b),
    decreases b.len(),
{
    if b.len() == 0 {
        assert(a + b =~= a);
        assert(without_commas(a) + without_commas(b) =~= without_commas(a));
    } else {
        lemma_without_commas_add(a, b.drop_last());
        assert((a + b).drop_last() =~= a + b.drop_last());
        assert((a + b).last() == b.last());
        assert(without_commas(a + b) =~= without_commas(a) + without_commas(b));
    }
}

proof fn lemma_without_commas_digits(s: Seq<char>)
    requires
        all_digits(s),
    ensures
        without_commas(s) == s,
    decreases s.len(),
{
    if s.len() > 0 {
        assert(all_digits(s.drop_last())) by {
            assert forall|i: int| 0 <= i < s.drop_last().len() implies #[trigger] is_digit(
                s.drop_last()[i],
            ) by {
                assert(s.drop_last()[i] == s[i]);
            }
        }
        lemma_without_commas_digits(s.drop_last());
        assert(is_digit(s[s.len() - 1]));
        assert(s.drop_last().push(s.last()) =~= s);
    }
}

proof fn lemma_group_without_commas(s: Seq<char>)
    requires
        all_digits(s),
    ensures
        without_commas(group_thousands(s)) == s,
    decreases s.len(),
{
    if s.len() <= 3 {
        lemma_without_commas_digits(s);
    } else {
        let head = s.take(s.len() - 3);
        let tail = s.skip(s.len() - 3);
        assert(all_digits(head)) by {
            assert forall|i: int| 0 <= i < head.len() implies #[trigger] is_digit(head[i]) by {
                assert(head[i] == s[i]);
            }
        }
        assert(all_digits(tail)) by {
            assert forall|i: int| 0 <= i < tail.len() implies #[trigger] is_digit(tail[i]) by {
                assert(tail[i] == s[s.len() - 3 + i]);
            }
        }
        lemma_group_without_commas(head);
        lemma_without_commas_digits(tail);
        lemma_without_commas_add(group_thousands(head) + seq![','], tail);
        lemma_without_commas_add(group_thousands(head), seq![',']);
        assert(without_commas(seq![',']) =~= Seq::<char>::empty()) by {
            assert(seq![','].drop_last() =~= Seq::<char>::empty());
            assert(without_commas(Seq::<char>::empty()) =~= Seq::<char>::empty());
            assert(seq![','].last() == ',');
        }
        assert(head + tail =~= s);
    }
}

/// Grouping thousands only adds commas: taking the commas out of
/// `format_grouped_u64(n)` gives back the decimal text of `n`.
pub proof fn law_grouping_only_adds_commas(n: u64)
    ensures
        without_commas(group_thousands(decimal(n as nat))) == decimal(n as nat),
{
    lemma_decimal_facts(n as nat);
    lemma_group_without_commas(decimal(n as nat));
}

/// Once a response has a verdict (complete, or headers that are not UTF-8),
/// more bytes do not change it: the reader may stop at the first verdict.
pub proof fn law_response_verdict_is_final(response: Seq<u8>, more: Seq<u8>)
    requires
        response_complete(response) != Some(false),
    ensures
        response_complete(response + more) == response_complete(response),
{
    let p = crlfcrlf_bytes();
    let longer = response + more;
    let h = find_four(response, p);
    lemma_find_four(response, p);
    assert(h >= 0);
    assert(longer.subrange(h, h + 4) =~= response.subrange(h, h + 4));
    assert forall|k: int| 0 <= k < h implies #[trigger] window4(longer, k) != p by {
        assert(window4(longer, k) =~= window4(response, k));
    }
    lemma_find_four_at(longer, p, h);
    assert(longer.take(h) =~= response.take(h));
}

/// The key of the payout that a `(round, payout)` index pair points at.
pub open spec fn due_key(rounds: Seq<PoolAccountingRound>, d: (usize, usize)) -> Seq<char> {
    payout_key_of(rounds[d.0 as int], rounds[d.0 as int].payouts@[d.1 as int])
}

/// The plan for `rounds` given the receipts recorded so far.
pub open spec fn pool_plan(
    rounds: Seq<PoolAccountingRound>,
    receipts: Seq<PoolPayoutReceipt>,
    wallet: Seq<char>,
    fee: u64,
    height: u64,
) -> (Seq<(usize, usize)>, Option<crate::pool::PayoutPlanError>) {
    plan_upto(rounds, rounds.len() as int, paid_keys(receipts), wallet, fee, height)
}

proof fn lemma_plan_error_ignores_paid(
    rounds: Seq<PoolAccountingRound>,
    k: int,
    paid: Set<Seq<char>>,
    other: Set<Seq<char>>,
    wallet: Seq<char>,
    fee: u64,
    height: u64,
)
    ensures
        plan_upto(rounds, k, paid, wallet, fee, height).1 == plan_upto(
            rounds,
            k,
            other,
            wallet,
            fee,
            height,
        ).1,
    decreases k,
{
    if k > 0 {
        lemma_plan_error_ignores_paid(rounds, k - 1, paid, other, wallet, fee, height);
    }
}

proof fn lemma_round_due_facts(ri: usize, round: PoolAccountingRound, n: int, paid: Set<Seq<char>>)
    requires
        0 <= n <= round.payouts@.len(),
    ensures
        forall|i: int|
            0 <= i < round_due(ri, round, n, paid).len() ==> {
                let d = #[trigger] round_due(ri, round, n, paid)[i];
                &&& d.0 == ri
                &&& d.1 < n
                &&& round.payouts@[d.1 as int].amount > 0
                &&& !paid.contains(payout_key_of(round, round.payouts@[d.1 as int]))
            },
    decreases n,
{
    if n > 0 {
        assert(round.payouts@.len() == round.payouts.len());
        lemma_round_due_facts(ri, round, n - 1, paid);
        let prev = round_due(ri, round, n - 1, paid);
        let all = round_due(ri, round, n, paid);
        let p = round.payouts@[n - 1];
        assert forall|i: int| 0 <= i < all.len() implies {
            let d = #[trigger] all[i];
            &&& d.0 == ri
            &&& d.1 < n
            &&& round.payouts@[d.1 as int].amount > 0
            &&& !paid.contains(payout_key_of(round, round.payouts@[d.1 as int]))
        } by {
            if i < prev.len() {
                assert(all[i] == prev[i]);
            } else {
                assert(p.amount > 0 && !paid.contains(payout_key_of(round, p)));
                assert(all[i] == (ri, (n - 1) as usize));
            }
        }
    }
}

proof fn lemma_round_due_empty(
    ri: usize,
    round: PoolAccountingRound,
    n: int,
    paid: Set<Seq<char>>,
    more: Set<Seq<char>>,
)
    requires
        0 <= n <= round.payouts@.len(),
        paid.subset_of(more),
        forall|i: int|
            0 <= i < round_due(ri, round, n, paid).len() ==> more.contains(
                payout_key_of(round, round.payouts@[(#[trigger] round_due(ri, round, n, paid)[i]).1 as int]),
            ),
    ensures
        round_due(ri, round, n, more).len() == 0,
    decreases n,
{
    if n > 0 {
        let prev = round_due(ri, round, n - 1, paid);
        let all = round_due(ri, round, n, paid);
        assert forall|i: int| 0 <= i < prev.len() implies more.contains(
            payout_key_of(round, round.payouts@[(#[trigger] prev[i]).1 as int]),
        ) by {
            assert(all[i] == prev[i]);
        }
        lemma_round_due_empty(ri, round, n - 1, paid, more);
        assert(round.payouts@.len() == round.payouts.len());
        let p = round.payouts@[n - 1];
        let key = payout_key_of(round, p);
        if p.amount > 0 && !more.contains(key) {
            assert(!paid.contains(key));
            assert(all.len() == prev.len() + 1);
            assert(all[prev.len() as int] == (ri, (n - 1) as usize));
            assert(more.contains(
                payout_key_of(round, round.payouts@[(all[prev.len() as int]).1 as int]),
            ));
            assert(false);
        }
        assert(round_due(ri, round, n, more) =~= round_due(ri, round, n - 1, more));
    }
}

proof fn lemma_plan_nothing_due(
    rounds: Seq<PoolAccountingRound>,
    k: int,
    paid: Set<Seq<char>>,
    more: Set<Seq<char>>,
    wallet: Seq<char>,
    fee: u64,
    height: u64,
)
    requires
        0 <= k <= rounds.len() <= usize::MAX,
        paid.subset_of(more),
        forall|i: int|
            0 <= i < plan_upto(rounds, k, paid, wallet, fee, height).0.len() ==> more.contains(
                due_key(rounds, #[trigger] plan_upto(rounds, k, paid, wallet, fee, height).0[i]),
            ),
    ensures
        plan_upto(rounds, k, more, wallet, fee, height).0.len() == 0,
    decreases k,
{
    if k > 0 {
        let (due, err) = plan_upto(rounds, k - 1, paid, wallet, fee, height);
        let all = plan_upto(rounds, k, paid, wallet, fee, height).0;
        assert forall|i: int| 0 <= i < due.len() implies more.contains(
            due_key(rounds, #[trigger] due[i]),
        ) by {
            assert(all[i] == due[i]);
        }
        lemma_plan_nothing_due(rounds, k - 1, paid, more, wallet, fee, height);
        lemma_plan_error_ignores_paid(rounds, k - 1, paid, more, wallet, fee, height);
        let r = rounds[k - 1];
        let ri = (k - 1) as usize;
        if err is None && r.maturity_height <= height && round_check(ri, r, wallet, fee) is None {
            let n = r.payouts@.len() as int;
            let rd = round_due(ri, r, n, paid);
            lemma_round_due_facts(ri, r, n, paid);
            assert(all =~= due + rd);
            assert forall|i: int| 0 <= i < rd.len() implies more.contains(
                payout_key_of(r, r.payouts@[(#[trigger] rd[i]).1 as int]),
            ) by {
                assert(all[due.len() + i] == rd[i]);
                assert(rd[i].0 == ri);
                assert(more.contains(due_key(rounds, all[due.len() + i])));
            }
            lemma_round_due_empty(ri, r, n, paid, more);
            assert(plan_upto(rounds, k, more, wallet, fee, height).0 =~= plan_upto(
                rounds,
                k - 1,
                more,
                wallet,
                fee,
                height,
            ).0 + round_due(ri, r, n, more));
        }
    }
}

/// Paying what a plan lists and recording a receipt for each of its payouts
/// makes none of them due again: planning once more with the new receipts
/// lists no payout, and stops where the first plan stopped.
pub proof fn law_recorded_payouts_are_not_due_again(
    rounds: Seq<PoolAccountingRound>,
    receipts: Seq<PoolPayoutReceipt>,
    new_receipts: Seq<PoolPayoutReceipt>,
    wallet: Seq<char>,
    fee: u64,
    height: u64,
)
    requires
        rounds.len() <= usize::MAX,
        new_receipts.len() == pool_plan(rounds, receipts, wallet, fee, height).0.len(),
        forall|i: int|
            0 <= i < new_receipts.len() ==> receipt_key_of(#[trigger] new_receipts[i]) == due_key(
                rounds,
                pool_plan(rounds, receipts, wallet, fee, height).0[i],
            ),
    ensures
        pool_plan(rounds, receipts + new_receipts, wallet, fee, height) == (
            Seq::<(usize, usize)>::empty(),
            pool_plan(rounds, receipts, wallet, fee, height).1,
        ),
{
    let paid = paid_keys(receipts);
    let all = receipts + new_receipts;
    let more = paid_keys(all);
    let due = pool_plan(rounds, receipts, wallet, fee, height).0;
    assert forall|key: Seq<char>| paid.contains(key) implies more.contains(key) by {
        let i = choose|i: int| 0 <= i < receipts.len() && receipt_key_of(#[trigger] receipts[i]) == key;
        assert(all[i] == receipts[i]);
    }
    assert forall|i: int| 0 <= i < due.len() implies more.contains(due_key(rounds, #[trigger] due[i])) by {
        let j = receipts.len() + i;
        assert(all[j] == new_receipts[i]);
        assert(receipt_key_of(all[j]) == due_key(rounds, due[i]));
    }
    lemma_plan_nothing_due(rounds, rounds.len() as int, paid, more, wallet, fee, height);
    lemma_plan_error_ignores_paid(rounds, rounds.len() as int, paid, more, wallet, fee, height);
    assert(pool_plan(rounds, all, wallet, fee, height).0 =~= Seq::<(usize, usize)>::empty());
}

/// A receipt made for a payout (same round hash, worker, address and amount,
/// as `payout_receipt` makes it) is recorded under that payout's key.
pub proof fn law_receipt_records_its_payout(
    round: PoolAccountingRound,
    payout: PoolWorkerPayout,
    receipt: PoolPayoutReceipt,
)
    requires
        receipt.round_block_hash == round.block_hash,
        receipt.worker == payout.worker,
        receipt.address == payout.address,
        receipt.amount == payout.amount,
    ensures
        receipt_key_of(receipt) == payout_key_of(round, payout),
{
}

/// What a payout listed by a plan is: in range, of a mature round of the
/// wallet's pool, moving a non-zero amount, and not yet paid.
pub open spec fn payable(
    rounds: Seq<PoolAccountingRound>,
    d: (usize, usize),
    paid: Set<Seq<char>>,
    wallet: Seq<char>,
    height: u64,
) -> bool {
    &&& d.0 < rounds.len()
    &&& d.1 < rounds[d.0 as int].payouts@.len()
    &&& rounds[d.0 as int].maturity_height <= height
    &&& rounds[d.0 as int].pool_address@ == wallet
    &&& rounds[d.0 as int].payouts@[d.1 as int].amount > 0
    &&& !paid.contains(due_key(rounds, d))
}

proof fn lemma_plan_payable(
    rounds: Seq<PoolAccountingRound>,
    k: int,
    paid: Set<Seq<char>>,
    wallet: Seq<char>,
    fee: u64,
    height: u64,
)
    requires
        0 <= k <= rounds.len() <= usize::MAX,
    ensures
        forall|i: int|
            0 <= i < plan_upto(rounds, k, paid, wallet, fee, height).0.len() ==> payable(
                rounds,
                #[trigger] plan_upto(rounds, k, paid, wallet, fee, height).0[i],
                paid,
                wallet,
                height,
            ),
    decreases k,
{
    if k > 0 {
        lemma_plan_payable(rounds, k - 1, paid, wallet, fee, height);
        let (due, err) = plan_upto(rounds, k - 1, paid, wallet, fee, height);
        let all = plan_upto(rounds, k, paid, wallet, fee, height).0;
        let r = rounds[k - 1];
        let ri = (k - 1) as usize;
        if err is None && r.maturity_height <= height && round_check(ri, r, wallet, fee) is None {
            let n = r.payouts@.len() as int;
            let rd = round_due(ri, r, n, paid);
            lemma_round_due_facts(ri, r, n, paid);
            assert(all =~= due + rd);
            assert forall|i: int| 0 <= i < all.len() implies payable(
                rounds,
                #[trigger] all[i],
                paid,
                wallet,
                height,
            ) by {
                if i < due.len() {
                    assert(all[i] == due[i]);
                } else {
                    assert(all[i] == rd[i - due.len()]);
                }
            }
        }
    }
}

/// Every payout that a plan lists can be paid: it points into the ledger,
/// its round is mature at `height` and belongs to the wallet's pool, it
/// moves a non-zero amount, and no receipt records it.
pub proof fn law_planned_payouts_are_payable(
    rounds: Seq<PoolAccountingRound>,
    receipts: Seq<PoolPayoutReceipt>,
    wallet: Seq<char>,
    fee: u64,
    height: u64,
)
    requires
        rounds.len() <= usize::MAX,
    ensures
        forall|i: int|
            0 <= i < pool_plan(rounds, receipts, wallet, fee, height).0.len() ==> payable(
                rounds,
                #[trigger] pool_plan(rounds, receipts, wallet, fee, height).0[i],
                paid_keys(receipts),
                wallet,
                height,
            ),
{
    lemma_plan_payable(rounds, rounds.len() as int, paid_keys(receipts), wallet, fee, height);
}

proof fn lemma_without_commas_one(c: char)
    ensures
        without_commas(seq![c]) == (if c == ',' {
            Seq::<char>::empty()
        } else {
            seq![c]
        }),
{
    assert(seq![c].drop_last() =~= Seq::<char>::empty());
    assert(without_commas(Seq::<char>::empty()) =~= Seq::<char>::empty());
    assert(seq![c].last() == c);
    assert(Seq::<char>::empty() + seq![c] =~= seq![c]);
}

/// What `format_xpq` shows reads back as the same amount once its thousands
/// commas and its ` XPQ` unit are taken off.
pub proof fn law_shown_amount_reads_back(units: u64)
    ensures
        xpq_amount(
            without_commas(xpq_text(units as nat).take(xpq_text(units as nat).len() - 4)),
        ) == Ok::<u64, AmountError>(units),
{
    let w = units as nat / (XPQ as nat);
    let f = units as nat % (XPQ as nat);
    let dw = decimal(w);
    let zp = zero_pad(decimal(f), DECIMALS as nat);
    let shown = xpq_text(units as nat);
    reveal_strlit(" XPQ");
    assert(shown.take(shown.len() - 4) =~= group_thousands(dw) + seq!['.'] + zp);
    lemma_decimal_facts(w);
    lemma_decimal_facts(f);
    lemma_group_without_commas(dw);
    assert(all_digits(zp)) by {
        let d = decimal(f);
        if d.len() < DECIMALS {
            assert forall|i: int| 0 <= i < zp.len() implies #[trigger] is_digit(zp[i]) by {
                if i >= DECIMALS - d.len() {
                    assert(zp[i] == d[i - (DECIMALS - d.len())]);
                }
            }
        }
    }
    lemma_without_commas_digits(zp);
    lemma_without_commas_one('.');
    lemma_without_commas_add(group_thousands(dw) + seq!['.'], zp);
    lemma_without_commas_add(group_thousands(dw), seq!['.']);
    assert(without_commas(shown.take(shown.len() - 4)) =~= xpq_plain_text(units as nat));
    lemma_xpq_plain_text_roundtrip(units);
}

/// The mined total splits into what has matured and what has not: for the
/// summary of any address whose mined total fits a `u64`, matured plus
/// immature is the mined total.
pub proof fn law_mined_total_splits(response: AddressRpcResponse, stats: WalletStats)
    requires
        stats.describes(response),
        sum_of(response.mined_blocks@, |b: MinedBlockRpcResponse| b.total as int) <= u64::MAX,
    ensures
        stats.matured_mined + stats.immature_mined == stats.mined_total,
{
    let blocks = response.mined_blocks@;
    let f = |b: MinedBlockRpcResponse| b.total as int;
    let p = |b: MinedBlockRpcResponse| b.matured;
    let matured = |b: MinedBlockRpcResponse| if b.matured { b.total as int } else { 0 };
    let immature = |b: MinedBlockRpcResponse| if b.matured { 0 } else { b.total as int };
    lemma_sum_of_split(blocks, f, p);
    assert((|a: MinedBlockRpcResponse| if p(a) { f(a) } else { 0 }) =~= matured);
    assert((|a: MinedBlockRpcResponse| if p(a) { 0 } else { f(a) }) =~= immature);
    lemma_sum_of_nonneg(blocks, matured);
    lemma_sum_of_nonneg(blocks, immature);
}

/// The vault totals partition the files: for any vault whose total value fits
/// a `u64`, what the ledger knows as live is the spendable plus the pending
/// value, and live plus the rest is the whole value.
pub proof fn law_vault_totals_partition(coins: Seq<VaultCoin>, totals: QCashVaultTotals)
    requires
        totals.totals_of(coins),
        sum_of(coins, |c: VaultCoin| c.amount as int) <= u64::MAX,
    ensures
        totals.known == totals.spendable + totals.pending,
        totals.known + totals.spent_or_unknown == sum_of(coins, |c: VaultCoin| c.amount as int),
{
    let sp = |c: VaultCoin| amount_if(c, "spendable"@);
    let pe = |c: VaultCoin| amount_if(c, "pending"@);
    let kn = |c: VaultCoin| known_amount(c);
    let un = |c: VaultCoin| unknown_amount(c);
    let all = |c: VaultCoin| c.amount as int;
    reveal_strlit("spendable");
    reveal_strlit("pending");
    assert("spendable"@ != "pending"@) by {
        assert("spendable"@.len() != "pending"@.len());
    }
    lemma_sum_of_add(coins, sp, pe, kn);
    lemma_sum_of_add(coins, kn, un, all);
    lemma_sum_of_nonneg(coins, sp);
    lemma_sum_of_nonneg(coins, pe);
    lemma_sum_of_nonneg(coins, kn);
    lemma_sum_of_nonneg(coins, un);
}

proof fn lemma_trim_start_keeps(s: Seq<char>)
    requires
        s.len() == 0 || !is_white(s[0]),
    ensures
        trim_start(s) == s,
{
}

proof fn lemma_trim_end_keeps(s: Seq<char>)
    requires
        s.len() == 0 || !is_white(s.last()),
    ensures
        trim_end(s) == s,
{
}

/// A lookup name that `qcash_lookup_name` accepts holds no `/` and is not
/// `.` or `..`, so it names one file in the explorer's URL path; and it is
/// its own lookup name: looking it up again gives it back unchanged.
pub proof fn law_lookup_name_is_stable(value: Seq<char>)
    requires
        lookup_name(value) is Ok,
    ensures
        !lookup_name(value)->Ok_0.contains('/'),
        !crate::names::is_dot_segment(lookup_name(value)->Ok_0),
        lookup_name(lookup_name(value)->Ok_0) == lookup_name(value),
{
    let name = lookup_name(value)->Ok_0;
    assert(all_lookup_chars(name));
    assert forall|k: int| 0 <= k < name.len() implies name[k] != '/' by {
        assert(lookup_char(name[k]));
    }
    lemma_last_slash(name);
    assert(last_slash(name) == -1) by {
        if last_slash(name) >= 0 {
            assert(name[last_slash(name)] == '/');
        }
    }
    assert(name.skip(0) =~= name);
    assert(lookup_char(name[0]));
    assert(lookup_char(name.last())) by {
        assert(name.last() == name[name.len() - 1]);
    }
    lemma_trim_start_keeps(name);
    lemma_trim_end_keeps(name);
}

/// A `Content-Length` header written the usual way (the name in any ASCII
/// case, a colon, a space, the decimal length) is read back as that length,
/// for every length that fits a `usize`.
pub proof fn law_content_length_reads_back(name: Seq<char>, n: nat)
    requires
        is_content_length_name(name),
        n <= usize::MAX,
    ensures
        content_length_of(name + seq![':', ' '] + decimal(n)) == Some(n),
{
    let d = decimal(n);
    let line = name + seq![':', ' '] + d;
    lemma_decimal_facts(n);
    reveal_strlit("content-length");
    assert forall|j: int| 0 <= j < name.len() implies line[j] != ':' by {
        assert(line[j] == name[j]);
        assert(ascii_lower(name[j]) == "content-length"@[j]);
    }
    lemma_find_char_at(line, ':', name.len() as int);
    assert(line.take(name.len() as int) =~= name);
    let value = line.skip(name.len() as int + 1);
    assert(value =~= seq![' '] + d);
    assert(value.drop_first() =~= d);
    assert(is_digit(d[0]));
    assert(is_digit(d.last())) by {
        assert(d.last() == d[d.len() - 1]);
    }
    lemma_trim_start_keeps(d);
    assert(trim_start(value) == d);
    lemma_trim_end_keeps(d);
    assert(trim(value) == d);
    lemma_parse_unsigned_digits(d, usize::MAX as nat);
}

proof fn lemma_lower_hex_digit(d: nat)
    requires
        d < 16,
    ensures
        hex_digit_value(lower_hex_digit(d)) == Some(d),
{
}

/// Hex text that the wallet writes (a key or a signed transaction, lowercase)
/// is read back as the same bytes: a wallet file's key survives saving and
/// loading.
pub proof fn law_written_hex_reads_back(bytes: Seq<u8>)
    ensures
        key_bytes(lower_hex(bytes), bytes.len()) == Ok::<Seq<u8>, crate::keys::KeyError>(bytes),
{
    let text = lower_hex(bytes);
    assert forall|i: int| 0 <= i < text.len() implies #[trigger] hex_digit_value(text[i]) is Some by {
        let b = bytes[i / 2];
        if i % 2 == 0 {
            lemma_lower_hex_digit((b / 16) as nat);
        } else {
            lemma_lower_hex_digit((b % 16) as nat);
        }
    }
    assert(is_hex_text(text));
    assert forall|i: int| 0 <= i < bytes.len() implies #[trigger] hex_bytes(text)[i] == bytes[i] by {
        let b = bytes[i];
        assert((2 * i) / 2 == i && (2 * i) % 2 == 0);
        assert((2 * i + 1) / 2 == i && (2 * i + 1) % 2 == 1);
        lemma_lower_hex_digit((b / 16) as nat);
        lemma_lower_hex_digit((b % 16) as nat);
        assert(text[2 * i] == lower_hex_digit((b / 16) as nat));
        assert(text[2 * i + 1] == lower_hex_digit((b % 16) as nat));
        assert((b / 16) * 16 + b % 16 == b);
    }
    assert(hex_bytes(text) =~= bytes);
}

/// Whether `s` is digits in thousands groups: a first group of one to three
/// digits, then groups of exactly three digits, each after a `,`.
pub open spec fn well_grouped(s: Seq<char>) -> bool
    decreases s.len(),
{
    if s.len() <= 3 {
        s.len() >= 1 && all_digits(s)
    } else {
        &&& s[s.len() - 4] == ','
        &&& all_digits(s.skip(s.len() - 3))
        &&& well_grouped(s.take(s.len() - 4))
    }
}

proof fn lemma_group_is_well_grouped(d: Seq<char>)
    requires
        d.len() >= 1,
        all_digits(d),
    ensures
        well_grouped(group_thousands(d)),
        group_thousands(d).len() >= d.len(),
    decreases d.len(),
{
    if d.len() > 3 {
        let head = d.take(d.len() - 3);
        let tail = d.skip(d.len() - 3);
        assert(all_digits(head)) by {
            assert forall|i: int| 0 <= i < head.len() implies #[trigger] is_digit(head[i]) by {
                assert(head[i] == d[i]);
            }
        }
        assert(all_digits(tail)) by {
            assert forall|i: int| 0 <= i < tail.len() implies #[trigger] is_digit(tail[i]) by {
                assert(tail[i] == d[d.len() - 3 + i]);
            }
        }
        lemma_group_is_well_grouped(head);
        let g = group_thousands(d);
        let gh = group_thousands(head);
        assert(g == gh + seq![','] + tail);
        assert(g[g.len() - 4] == ',');
        assert(g.skip(g.len() - 3) =~= tail);
        assert(g.take(g.len() - 4) =~= gh);
    }
}

/// The thousands groups of `format_grouped_u64(n)` are well formed: a first
/// group of one to three digits, then groups of exactly three digits.
pub proof fn law_grouping_sizes(n: u64)
    ensures
        well_grouped(group_thousands(decimal(n as nat))),
{
    lemma_decimal_facts(n as nat);
    lemma_group_is_well_grouped(decimal(n as nat));
}

/// What an address sent and received does not depend on the status of its
/// transactions: two answers for the same address whose transactions agree
/// in sender, recipient, amount and fee (their status may differ, pending or
/// confirmed) give the same counts, totals and fees sent and received.
pub proof fn law_sent_totals_ignore_status(
    r1: AddressRpcResponse,
    r2: AddressRpcResponse,
    s1: WalletStats,
    s2: WalletStats,
)
    requires
        s1.describes(r1),
        s2.describes(r2),
        r1.address@ == r2.address@,
        r1.transactions@.len() == r2.transactions@.len(),
        forall|i: int|
            0 <= i < r1.transactions@.len() ==> {
                let t1 = #[trigger] r1.transactions@[i];
                let t2 = r2.transactions@[i];
                &&& t1.from@ == t2.from@
                &&& t1.to@ == t2.to@
                &&& t1.amount == t2.amount
                &&& t1.fee == t2.fee
            },
    ensures
        s1.sent_fees == s2.sent_fees,
        s1.sent_total == s2.sent_total,
        s1.sent_transactions == s2.sent_transactions,
        s1.received_total == s2.received_total,
        s1.received_transactions == s2.received_transactions,
        s1.total_transactions == s2.total_transactions,
{
    let me = r1.address@;
    let x = r1.transactions@;
    let y = r2.transactions@;
    lemma_sum_of_pointwise(
        x,
        y,
        |t: TransactionRpcResponse| if t.from@ == me { t.fee as int } else { 0 },
        |t: TransactionRpcResponse| if t.from@ == me { t.fee as int } else { 0 },
    );
    lemma_sum_of_pointwise(
        x,
        y,
        |t: TransactionRpcResponse| if t.from@ == me { t.amount as int } else { 0 },
        |t: TransactionRpcResponse| if t.from@ == me { t.amount as int } else { 0 },
    );
    lemma_sum_of_pointwise(
        x,
        y,
        |t: TransactionRpcResponse| if t.to@ == me { t.amount as int } else { 0 },
        |t: TransactionRpcResponse| if t.to@ == me { t.amount as int } else { 0 },
    );
    lemma_count_of_pointwise(
        x,
        y,
        |t: TransactionRpcResponse| t.from@ == me,
        |t: TransactionRpcResponse| t.from@ == me,
    );
    lemma_count_of_pointwise(
        x,
        y,
        |t: TransactionRpcResponse| t.to@ == me,
        |t: TransactionRpcResponse| t.to@ == me,
    );
}

/// When every transaction of the answer was sent from the address, the fees
/// sent are the (capped) sum of all their fees, whatever their status, and
/// likewise the amount sent; each of them counts as sent.
pub proof fn law_sent_fees_count_every_sent_transaction(response: AddressRpcResponse, stats: WalletStats)
    requires
        stats.describes(response),
        forall|i: int|
            0 <= i < response.transactions@.len() ==> (#[trigger] response.transactions@[i]).from@
                == response.address@,
    ensures
        stats.sent_fees == sat_u64(sum_of(response.transactions@, |t: TransactionRpcResponse| t.fee as int)),
        stats.sent_transactions == response.transactions@.len(),
        stats.sent_total == sat_u64(sum_of(response.transactions@, |t: TransactionRpcResponse| t.amount as int)),
{
    let me = response.address@;
    let x = response.transactions@;
    lemma_sum_of_pointwise(
        x,
        x,
        |t: TransactionRpcResponse| if t.from@ == me { t.amount as int } else { 0 },
        |t: TransactionRpcResponse| t.amount as int,
    );
    lemma_sum_of_pointwise(
        x,
        x,
        |t: TransactionRpcResponse| if t.from@ == me { t.fee as int } else { 0 },
        |t: TransactionRpcResponse| t.fee as int,
    );
    lemma_count_of_pointwise(
        x,
        x,
        |t: TransactionRpcResponse| t.from@ == me,
        |t: TransactionRpcResponse| true,
    );
    lemma_count_all(x);
}

/// Counting an always-true condition counts every item.
proof fn lemma_count_all(s: Seq<TransactionRpcResponse>)
    ensures
        count_of(s, |t: TransactionRpcResponse| true) == s.len(),
    decreases s.len(),
{
    if s.len() > 0 {
        lemma_count_all(s.drop_last());
    }
}

/// When every transaction of the answer came to the address from another
/// one, the amount received is the (capped) sum of all their amounts, each
/// counts as received, and nothing counts as sent.
pub proof fn law_received_counts_every_incoming_transaction(response: AddressRpcResponse, stats: WalletStats)
    requires
        stats.describes(response),
        forall|i: int|
            0 <= i < response.transactions@.len() ==> {
                let t = #[trigger] response.transactions@[i];
                t.to@ == response.address@ && t.from@ != response.address@
            },
    ensures
        stats.received_total == sat_u64(sum_of(response.transactions@, |t: TransactionRpcResponse| t.amount as int)),
        stats.received_transactions == response.transactions@.len(),
        stats.sent_transactions == 0,
        stats.sent_total == 0,
        stats.sent_fees == 0,
{
    let me = response.address@;
    let x = response.transactions@;
    lemma_sum_of_pointwise(
        x,
        x,
        |t: TransactionRpcResponse| if t.to@ == me { t.amount as int } else { 0 },
        |t: TransactionRpcResponse| t.amount as int,
    );
    lemma_count_of_pointwise(
        x,
        x,
        |t: TransactionRpcResponse| t.to@ == me,
        |t: TransactionRpcResponse| true,
    );
    lemma_count_all(x);
    lemma_sum_of_pointwise(
        x,
        x,
        |t: TransactionRpcResponse| if t.from@ == me { t.amount as int } else { 0 },
        |t: TransactionRpcResponse| 0int,
    );
    lemma_sum_of_pointwise(
        x,
        x,
        |t: TransactionRpcResponse| if t.from@ == me { t.fee as int } else { 0 },
        |t: TransactionRpcResponse| 0int,
    );
    lemma_sum_of_zero(x);
    lemma_count_of_pointwise(
        x,
        x,
        |t: TransactionRpcResponse| t.from@ == me,
        |t: TransactionRpcResponse| false,
    );
    lemma_count_none(x);
}

/// Every transaction is pending or not: when all of them are pending the
/// pending count is the number of transactions, when none is it is zero.
pub proof fn law_pending_counts(response: AddressRpcResponse, stats: WalletStats)
    requires
        stats.describes(response),
    ensures
        (forall|i: int|
            0 <= i < response.transactions@.len() ==> (#[trigger] response.transactions@[i]).status@
                == "pending"@) ==> stats.pending_transactions == stats.total_transactions,
        (forall|i: int|
            0 <= i < response.transactions@.len() ==> (#[trigger] response.transactions@[i]).status@
                != "pending"@) ==> stats.pending_transactions == 0,
{
    let x = response.transactions@;
    if forall|i: int| 0 <= i < x.len() ==> (#[trigger] x[i]).status@ == "pending"@ {
        lemma_count_of_pointwise(
            x,
            x,
            |t: TransactionRpcResponse| t.status@ == "pending"@,
            |t: TransactionRpcResponse| true,
        );
        lemma_count_all(x);
    }
    if forall|i: int| 0 <= i < x.len() ==> (#[trigger] x[i]).status@ != "pending"@ {
        lemma_count_of_pointwise(
            x,
            x,
            |t: TransactionRpcResponse| t.status@ == "pending"@,
            |t: TransactionRpcResponse| false,
        );
        lemma_count_none(x);
    }
}

/// Counting an always-false condition counts nothing.
proof fn lemma_count_none(s: Seq<TransactionRpcResponse>)
    ensures
        count_of(s, |t: TransactionRpcResponse| false) == 0,
    decreases s.len(),
{
    if s.len() > 0 {
        lemma_count_none(s.drop_last());
    }
}

/// Summing zeros gives zero.
proof fn lemma_sum_of_zero(s: Seq<TransactionRpcResponse>)
    ensures
        sum_of(s, |t: TransactionRpcResponse| 0int) == 0,
    decreases s.len(),
{
    if s.len() > 0 {
        lemma_sum_of_zero(s.drop_last());
    }
}

} // verus!
