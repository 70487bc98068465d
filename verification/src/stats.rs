//! Activity of one address as the node reports it, and the wallet's summary of it.
use vstd::prelude::*;
use crate::chars::str_eq;
use crate::tally::{
    count_of, lemma_count_of_bound, lemma_count_of_push, lemma_sat_step, lemma_sum_of_nonneg,
    lemma_sum_of_push, sat_u64, sum_of,
};

verus! {

/// Balance fields of the node's `/address/..` answer.
#[derive(Clone, Debug)]
pub struct AddressBalanceRpcResponse {
    pub height: u64,
    pub confirmed: u64,
    pub available: u64,
    pub pending_incoming: u64,
    pub pending_outgoing: u64,
    pub nonce: Option<u64>,
    pub unspendable: u64,
}

/// A block that the address mined.
#[derive(Clone, Debug)]
pub struct MinedBlockRpcResponse {
    pub maturity_height: u64,
    pub matured: bool,
    pub fees: u64,
    pub total: u64,
}

/// A transfer from or to the address.
#[derive(Clone, Debug)]
pub struct TransactionRpcResponse {
    pub from: String,
    pub to: String,
    pub amount: u64,
    pub fee: u64,
    pub status: String,
}

/// The node's `/address/..` answer.
#[derive(Clone, Debug)]
pub struct AddressRpcResponse {
    pub address: String,
    pub balance: AddressBalanceRpcResponse,
    pub mined_blocks: Vec<MinedBlockRpcResponse>,
    pub transactions: Vec<TransactionRpcResponse>,
}

/// The value a mined block that the node sends without `matured` gets.
pub fn default_block_reward_maturity() -> (r: bool)
    ensures
        r == false,
{
    false
}

/// Totals over an address's mined blocks and transfers. Sums stop at `u64::MAX`.
#[derive(Clone, Debug)]
pub struct WalletStats {
    pub mined_blocks: u64,
    pub mined_total: u64,
    pub matured_mined: u64,
    pub immature_mined: u64,
    pub mining_fees: u64,
    pub next_maturity_height: Option<u64>,
    pub total_transactions: u64,
    pub received_transactions: u64,
    pub sent_transactions: u64,
    pub received_total: u64,
    pub sent_total: u64,
    pub sent_fees: u64,
    pub pending_transactions: u64,
}

/// `h` is the least maturity height among the blocks not yet matured
/// (`None` when every block has matured).
pub open spec fn least_immature_height(blocks: Seq<MinedBlockRpcResponse>, h: Option<u64>) -> bool {
    match h {
        None => forall|i: int| 0 <= i < blocks.len() ==> #[trigger] blocks[i].matured,
        Some(m) => (exists|i: int|
            0 <= i < blocks.len() && !#[trigger] blocks[i].matured && blocks[i].maturity_height
                == m) && (forall|i: int|
            0 <= i < blocks.len() && !#[trigger] blocks[i].matured ==> m
                <= blocks[i].maturity_height),
    }
}

impl WalletStats {
    /// What `from_response` gives for `response`.
    pub open spec fn describes(self, response: AddressRpcResponse) -> bool {
        let blocks = response.mined_blocks@;
        let txs = response.transactions@;
        let me = response.address@;
        &&& self.mined_blocks == blocks.len()
        &&& self.mined_total == sat_u64(sum_of(blocks, |b: MinedBlockRpcResponse| b.total as int))
        &&& self.mining_fees == sat_u64(sum_of(blocks, |b: MinedBlockRpcResponse| b.fees as int))
        &&& self.matured_mined == sat_u64(
            sum_of(
                blocks,
                |b: MinedBlockRpcResponse|
                    if b.matured {
                        b.total as int
                    } else {
                        0
                    },
            ),
        )
        &&& self.immature_mined == sat_u64(
            sum_of(
                blocks,
                |b: MinedBlockRpcResponse|
                    if b.matured {
                        0
                    } else {
                        b.total as int
                    },
            ),
        )
        &&& least_immature_height(blocks, self.next_maturity_height)
        &&& self.total_transactions == txs.len()
        &&& self.pending_transactions == count_of(
            txs,
            |t: TransactionRpcResponse| t.status@ == "pending"@,
        )
        &&& self.received_transactions == count_of(txs, |t: TransactionRpcResponse| t.to@ == me)
        &&& self.received_total == sat_u64(
            sum_of(
                txs,
                |t: TransactionRpcResponse|
                    if t.to@ == me {
                        t.amount as int
                    } else {
                        0
                    },
            ),
        )
        &&& self.sent_transactions == count_of(txs, |t: TransactionRpcResponse| t.from@ == me)
        &&& self.sent_total == sat_u64(
            sum_of(
                txs,
                |t: TransactionRpcResponse|
                    if t.from@ == me {
                        t.amount as int
                    } else {
                        0
                    },
            ),
        )
        &&& self.sent_fees == sat_u64(
            sum_of(
                txs,
                |t: TransactionRpcResponse|
                    if t.from@ == me {
                        t.fee as int
                    } else {
                        0
                    },
            ),
        )
    }

    /// The summary of an address's activity; see `describes`.
    pub fn from_response(response: &AddressRpcResponse) -> (stats: Self)
        ensures
            stats.describes(*response),
    {
        let ghost blocks = response.mined_blocks@;
        let ghost txs = response.transactions@;
        let ghost me = response.address@;
        let ghost f_total = |b: MinedBlockRpcResponse| b.total as int;
        let ghost f_fees = |b: MinedBlockRpcResponse| b.fees as int;
        let ghost f_mat = |b: MinedBlockRpcResponse|
            if b.matured {
                b.total as int
            } else {
                0
            };
        let ghost f_imm = |b: MinedBlockRpcResponse|
            if b.matured {
                0
            } else {
                b.total as int
            };
        let mut stats = WalletStats {
            mined_blocks: response.mined_blocks.len() as u64,
            mined_total: 0,
            matured_mined: 0,
            immature_mined: 0,
            mining_fees: 0,
            next_maturity_height: None,
            total_transactions: 0,
            received_transactions: 0,
            sent_transactions: 0,
            received_total: 0,
            sent_total: 0,
            sent_fees: 0,
            pending_transactions: 0,
        };
        let mut i: usize = 0;
        while i < response.mined_blocks.len()
            invariant
                i <= blocks.len(),
                blocks == response.mined_blocks@,
                stats.mined_blocks == blocks.len(),
                stats.mined_total == sat_u64(sum_of(blocks.take(i as int), f_total)),
                stats.mining_fees == sat_u64(sum_of(blocks.take(i as int), f_fees)),
                stats.matured_mined == sat_u64(sum_of(blocks.take(i as int), f_mat)),
                stats.immature_mined == sat_u64(sum_of(blocks.take(i as int), f_imm)),
                least_immature_height(blocks.take(i as int), stats.next_maturity_height),
                stats.total_transactions == 0,
                stats.pending_transactions == 0,
                stats.received_transactions == 0,
                stats.sent_transactions == 0,
                stats.received_total == 0,
                stats.sent_total == 0,
                stats.sent_fees == 0,
                f_total == (|b: MinedBlockRpcResponse| b.total as int),
                f_fees == (|b: MinedBlockRpcResponse| b.fees as int),
                f_mat == (|b: MinedBlockRpcResponse|
                    if b.matured {
                        b.total as int
                    } else {
                        0
                    }),
                f_imm == (|b: MinedBlockRpcResponse|
                    if b.matured {
                        0
                    } else {
                        b.total as int
                    }),
            decreases blocks.len() - i,
        {
            let block = &response.mined_blocks[i];
            proof {
                lemma_sum_of_push(blocks, i as int, f_total);
                lemma_sum_of_push(blocks, i as int, f_fees);
                lemma_sum_of_push(blocks, i as int, f_mat);
                lemma_sum_of_push(blocks, i as int, f_imm);
                lemma_sum_of_nonneg(blocks.take(i as int), f_total);
                lemma_sum_of_nonneg(blocks.take(i as int), f_fees);
                lemma_sum_of_nonneg(blocks.take(i as int), f_mat);
                lemma_sum_of_nonneg(blocks.take(i as int), f_imm);
                lemma_sat_step(sum_of(blocks.take(i as int), f_total), block.total as int);
                lemma_sat_step(sum_of(blocks.take(i as int), f_fees), block.fees as int);
                lemma_sat_step(sum_of(blocks.take(i as int), f_mat), block.total as int);
                lemma_sat_step(sum_of(blocks.take(i as int), f_imm), block.total as int);
                lemma_sat_step(sum_of(blocks.take(i as int), f_mat), 0);
                lemma_sat_step(sum_of(blocks.take(i as int), f_imm), 0);
            }
            let ghost prev_next = stats.next_maturity_height;
            stats.mined_total = stats.mined_total.saturating_add(block.total);
            stats.mining_fees = stats.mining_fees.saturating_add(block.fees);
            if block.matured {
                stats.matured_mined = stats.matured_mined.saturating_add(block.total);
            } else {
                stats.immature_mined = stats.immature_mined.saturating_add(block.total);
                stats.next_maturity_height = match stats.next_maturity_height {
                    Some(height) => Some(
                        if block.maturity_height < height {
                            block.maturity_height
                        } else {
                            height
                        },
                    ),
                    None => Some(block.maturity_height),
                };
            }
            proof {
                lemma_least_immature_push(blocks, i as int, prev_next, stats.next_maturity_height);
            }
            i = i + 1;
        }
        assert(blocks.take(blocks.len() as int) =~= blocks);

        let ghost is_pending = |t: TransactionRpcResponse| t.status@ == "pending"@;
        let ghost is_to = |t: TransactionRpcResponse| t.to@ == me;
        let ghost is_from = |t: TransactionRpcResponse| t.from@ == me;
        let ghost f_recv = |t: TransactionRpcResponse|
            if t.to@ == me {
                t.amount as int
            } else {
                0
            };
        let ghost f_sent = |t: TransactionRpcResponse|
            if t.from@ == me {
                t.amount as int
            } else {
                0
            };
        let ghost f_fee = |t: TransactionRpcResponse|
            if t.from@ == me {
                t.fee as int
            } else {
                0
            };
        let mut j: usize = 0;
        while j < response.transactions.len()
            invariant
                j <= txs.len(),
                txs == response.transactions@,
                me == response.address@,
                stats.total_transactions == j,
                stats.pending_transactions == count_of(txs.take(j as int), is_pending),
                stats.received_transactions == count_of(txs.take(j as int), is_to),
                stats.sent_transactions == count_of(txs.take(j as int), is_from),
                stats.received_total == sat_u64(sum_of(txs.take(j as int), f_recv)),
                stats.sent_total == sat_u64(sum_of(txs.take(j as int), f_sent)),
                stats.sent_fees == sat_u64(sum_of(txs.take(j as int), f_fee)),
                is_pending == (|t: TransactionRpcResponse| t.status@ == "pending"@),
                is_to == (|t: TransactionRpcResponse| t.to@ == me),
                is_from == (|t: TransactionRpcResponse| t.from@ == me),
                f_recv == (|t: TransactionRpcResponse|
                    if t.to@ == me {
                        t.amount as int
                    } else {
                        0
                    }),
                f_sent == (|t: TransactionRpcResponse|
                    if t.from@ == me {
                        t.amount as int
                    } else {
                        0
                    }),
                f_fee == (|t: TransactionRpcResponse|
                    if t.from@ == me {
                        t.fee as int
                    } else {
                        0
                    }),
                // the block totals are left as they were
                stats.mined_blocks == blocks.len(),
                stats.mined_total == sat_u64(sum_of(blocks, f_total)),
                stats.mining_fees == sat_u64(sum_of(blocks, f_fees)),
                stats.matured_mined == sat_u64(sum_of(blocks, f_mat)),
                stats.immature_mined == sat_u64(sum_of(blocks, f_imm)),
                least_immature_height(blocks, stats.next_maturity_height),
            decreases txs.len() - j,
        {
            let tx = &response.transactions[j];
            proof {
                lemma_count_of_push(txs, j as int, is_pending);
                lemma_count_of_push(txs, j as int, is_to);
                lemma_count_of_push(txs, j as int, is_from);
                lemma_count_of_bound(txs.take(j as int), is_pending);
                lemma_count_of_bound(txs.take(j as int), is_to);
                lemma_count_of_bound(txs.take(j as int), is_from);
                lemma_sum_of_push(txs, j as int, f_recv);
                lemma_sum_of_push(txs, j as int, f_sent);
                lemma_sum_of_push(txs, j as int, f_fee);
                lemma_sum_of_nonneg(txs.take(j as int), f_recv);
                lemma_sum_of_nonneg(txs.take(j as int), f_sent);
                lemma_sum_of_nonneg(txs.take(j as int), f_fee);
                lemma_sat_step(sum_of(txs.take(j as int), f_recv), tx.amount as int);
                lemma_sat_step(sum_of(txs.take(j as int), f_sent), tx.amount as int);
                lemma_sat_step(sum_of(txs.take(j as int), f_fee), tx.fee as int);
            }
            stats.total_transactions = stats.total_transactions + 1;
            if str_eq(tx.status.as_str(), "pending") {
                stats.pending_transactions = stats.pending_transactions + 1;
            }
            if tx.to == response.address {
                stats.received_transactions = stats.received_transactions + 1;
                stats.received_total = stats.received_total.saturating_add(tx.amount);
            }
            if tx.from == response.address {
                stats.sent_transactions = stats.sent_transactions + 1;
                stats.sent_total = stats.sent_total.saturating_add(tx.amount);
                stats.sent_fees = stats.sent_fees.saturating_add(tx.fee);
            }
            j = j + 1;
        }
        assert(txs.take(txs.len() as int) =~= txs);
        stats
    }
}

proof fn lemma_least_immature_push(
    blocks: Seq<MinedBlockRpcResponse>,
    i: int,
    prev: Option<u64>,
    next: Option<u64>,
)
    requires
        0 <= i < blocks.len(),
        least_immature_height(blocks.take(i), prev),
        blocks[i].matured ==> next == prev,
        !blocks[i].matured ==> next == (match prev {
            Some(h) => Some(
                if blocks[i].maturity_height < h {
                    blocks[i].maturity_height
                } else {
                    h
                },
            ),
            None => Some(blocks[i].maturity_height),
        }),
    ensures
        least_immature_height(blocks.take(i + 1), next),
{
    let pre = blocks.take(i);
    let cur = blocks.take(i + 1);
    assert forall|k: int| 0 <= k < i implies #[trigger] cur[k] == pre[k] by {}
    assert(cur[i] == blocks[i]);
    match next {
        None => {
            assert forall|k: int| 0 <= k < cur.len() implies #[trigger] cur[k].matured by {
                if k < i {
                    assert(pre[k].matured);
                }
            }
        },
        Some(m) => {
            if blocks[i].matured {
                let w = choose|k: int|
                    0 <= k < pre.len() && !#[trigger] pre[k].matured && pre[k].maturity_height == m;
                assert(cur[w] == pre[w]);
                assert forall|k: int|
                    0 <= k < cur.len() && !#[trigger] cur[k].matured implies m
                    <= cur[k].maturity_height by {
                    if k < i {
                        assert(cur[k] == pre[k]);
                    }
                }
            } else {
                match prev {
                    None => {
                        assert forall|k: int|
                            0 <= k < cur.len() && !#[trigger] cur[k].matured implies m
                            <= cur[k].maturity_height by {
                            if k < i {
                                assert(cur[k] == pre[k]);
                                assert(pre[k].matured);
                            }
                        }
                    },
                    Some(h) => {
                        let w = choose|k: int|
                            0 <= k < pre.len() && !#[trigger] pre[k].matured
                                && pre[k].maturity_height == h;
                        assert(cur[w] == pre[w]);
                        assert forall|k: int|
                            0 <= k < cur.len() && !#[trigger] cur[k].matured implies m
                            <= cur[k].maturity_height by {
                            if k < i {
                                assert(cur[k] == pre[k]);
                                assert(!pre[k].matured);
                            }
                        }
                    },
                }
            }
        },
    }
}

} // verus!
