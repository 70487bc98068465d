//! What each command of the wallet reads from its command line.
//!
//! Every function here decides from the arguments alone; loading wallets,
//! talking to the node and printing are left to the caller, which also checks
//! the addresses listed in `Options::address_args` (in order) before it
//! reports an error found here.
use vstd::prelude::*;
use crate::amount::{AmountError, parse_xpq_amount, xpq_amount};
use crate::chars::str_eq;
use crate::cli::{
    ArgError, Flag, Options, ScanState, Syntax, empty_state, scan, scan_options, within,
};

verus! {

/// A command that accepts no option.
pub open spec fn no_options() -> Syntax {
    Syntax {
        wallet: false,
        rpc: false,
        cash_dir: false,
        fee: false,
        nonce: false,
        to: false,
        amount: false,
        out: false,
        ledger: false,
        receipts: false,
        submit: false,
        execute: false,
        positional_address: false,
    }
}

/// `balance [address] [--wallet f] [--rpc a] [--cash-dir d]`.
pub open spec fn balance_syntax() -> Syntax {
    Syntax { wallet: true, rpc: true, cash_dir: true, positional_address: true, ..no_options() }
}

/// `stats` and `hashrate`: `[--rpc a]`.
pub open spec fn rpc_syntax() -> Syntax {
    Syntax { rpc: true, ..no_options() }
}

/// `address-stats [address] [--wallet f] [--rpc a]`.
pub open spec fn address_stats_syntax() -> Syntax {
    Syntax { wallet: true, rpc: true, positional_address: true, ..no_options() }
}

/// The options of `pay <address> <amount>`: `--wallet`, `--rpc`, `--fee`.
pub open spec fn pay_syntax() -> Syntax {
    Syntax { wallet: true, rpc: true, fee: true, ..no_options() }
}

/// The options of `send <address> <amount>`: those of `pay` and `--nonce`.
pub open spec fn send_short_syntax() -> Syntax {
    Syntax { wallet: true, rpc: true, fee: true, nonce: true, ..no_options() }
}

/// The options of `send --to a --amount n`.
pub open spec fn send_syntax() -> Syntax {
    Syntax {
        wallet: true,
        to: true,
        amount: true,
        fee: true,
        nonce: true,
        rpc: true,
        submit: true,
        ..no_options()
    }
}

/// The options of `pool-payout`.
pub open spec fn pool_payout_syntax() -> Syntax {
    Syntax {
        ledger: true,
        receipts: true,
        wallet: true,
        rpc: true,
        fee: true,
        execute: true,
        ..no_options()
    }
}

/// The options of `cash withdraw <amount>`.
pub open spec fn withdraw_syntax() -> Syntax {
    Syntax { wallet: true, rpc: true, out: true, fee: true, nonce: true, ..no_options() }
}

/// The options of `cash deposit <file>`.
pub open spec fn deposit_syntax() -> Syntax {
    Syntax { to: true, wallet: true, rpc: true, fee: true, nonce: true, ..no_options() }
}

/// A command that takes an amount at index `at` and its options after it:
/// the amount and the options, or the first error.
pub open spec fn amount_then_scan(args: Seq<String>, at: int, syn: Syntax) -> Result<
    (u64, ScanState),
    ArgError,
> {
    if args.len() <= at {
        Err(ArgError::MissingAmount)
    } else {
        match xpq_amount(args[at]@) {
            Err(e) => Err(ArgError::InvalidAmountArg(e)),
            Ok(n) => {
                let (st, err) = scan(args, syn, at + 1, empty_state());
                match err {
                    Some(e) => Err(e),
                    None => Ok((n, st)),
                }
            },
        }
    }
}

/// The error of a command that needs `--to`, after its options were read.
pub open spec fn needing_to(read: (ScanState, Option<ArgError>)) -> Option<ArgError> {
    match read.1 {
        Some(e) => Some(e),
        None => if read.0.to is None {
            Some(ArgError::MissingTo)
        } else {
            None
        },
    }
}

/// Whether `send` is given as `send <address> <amount> ...`: two arguments
/// or more, the first two not starting with `-`.
pub open spec fn short_send(args: Seq<String>) -> bool {
    args.len() >= 2 && !crate::cli::is_dashed(args[0]@) && !crate::cli::is_dashed(args[1]@)
}

/// What `send` reads, in one of its two forms.
pub enum SendLine {
    /// `send <address> <amount> [options]`: the amount and the options.
    Short(Result<(u64, Options), ArgError>),
    /// `send --to a --amount n [options]`: the options and the first error.
    Long(Options, Option<ArgError>),
}

fn balance_syntax_value() -> (s: Syntax)
    ensures
        s == balance_syntax(),
{
    Syntax {
        wallet: true,
        rpc: true,
        cash_dir: true,
        fee: false,
        nonce: false,
        to: false,
        amount: false,
        out: false,
        ledger: false,
        receipts: false,
        submit: false,
        execute: false,
        positional_address: true,
    }
}

fn rpc_syntax_value() -> (s: Syntax)
    ensures
        s == rpc_syntax(),
{
    Syntax {
        wallet: false,
        rpc: true,
        cash_dir: false,
        fee: false,
        nonce: false,
        to: false,
        amount: false,
        out: false,
        ledger: false,
        receipts: false,
        submit: false,
        execute: false,
        positional_address: false,
    }
}

fn address_stats_syntax_value() -> (s: Syntax)
    ensures
        s == address_stats_syntax(),
{
    Syntax {
        wallet: true,
        rpc: true,
        cash_dir: false,
        fee: false,
        nonce: false,
        to: false,
        amount: false,
        out: false,
        ledger: false,
        receipts: false,
        submit: false,
        execute: false,
        positional_address: true,
    }
}

fn pay_syntax_value() -> (s: Syntax)
    ensures
        s == pay_syntax(),
{
    Syntax {
        wallet: true,
        rpc: true,
        cash_dir: false,
        fee: true,
        nonce: false,
        to: false,
        amount: false,
        out: false,
        ledger: false,
        receipts: false,
        submit: false,
        execute: false,
        positional_address: false,
    }
}

fn send_short_syntax_value() -> (s: Syntax)
    ensures
        s == send_short_syntax(),
{
    Syntax {
        wallet: true,
        rpc: true,
        cash_dir: false,
        fee: true,
        nonce: true,
        to: false,
        amount: false,
        out: false,
        ledger: false,
        receipts: false,
        submit: false,
        execute: false,
        positional_address: false,
    }
}

fn send_syntax_value() -> (s: Syntax)
    ensures
        s == send_syntax(),
{
    Syntax {
        wallet: true,
        rpc: true,
        cash_dir: false,
        fee: true,
        nonce: true,
        to: true,
        amount: true,
        out: false,
        ledger: false,
        receipts: false,
        submit: true,
        execute: false,
        positional_address: false,
    }
}

fn pool_payout_syntax_value() -> (s: Syntax)
    ensures
        s == pool_payout_syntax(),
{
    Syntax {
        wallet: true,
        rpc: true,
        cash_dir: false,
        fee: true,
        nonce: false,
        to: false,
        amount: false,
        out: false,
        ledger: true,
        receipts: true,
        submit: false,
        execute: true,
        positional_address: false,
    }
}

fn withdraw_syntax_value() -> (s: Syntax)
    ensures
        s == withdraw_syntax(),
{
    Syntax {
        wallet: true,
        rpc: true,
        cash_dir: false,
        fee: true,
        nonce: true,
        to: false,
        amount: false,
        out: true,
        ledger: false,
        receipts: false,
        submit: false,
        execute: false,
        positional_address: false,
    }
}

fn deposit_syntax_value() -> (s: Syntax)
    ensures
        s == deposit_syntax(),
{
    Syntax {
        wallet: true,
        rpc: true,
        cash_dir: false,
        fee: true,
        nonce: true,
        to: true,
        amount: false,
        out: false,
        ledger: false,
        receipts: false,
        submit: false,
        execute: false,
        positional_address: false,
    }
}

/// The options of `balance`: an address (or the wallet's), the wallet file,
/// the node and the cash directory.
pub fn wallet_balance(args: &[String]) -> (r: (Options, Option<ArgError>))
    ensures
        (r.0.state(), r.1) == scan(args@, balance_syntax(), 0, empty_state()),
        within(r.0.state(), args@.len() as int),
{
    scan_options(args, balance_syntax_value(), 0)
}

/// The options of `stats`: the node only.
pub fn wallet_global_stats(args: &[String]) -> (r: (Options, Option<ArgError>))
    ensures
        (r.0.state(), r.1) == scan(args@, rpc_syntax(), 0, empty_state()),
        within(r.0.state(), args@.len() as int),
{
    scan_options(args, rpc_syntax_value(), 0)
}

/// The options of `address-stats`: an address (or the wallet's), the wallet
/// file and the node.
pub fn wallet_address_stats(args: &[String]) -> (r: (Options, Option<ArgError>))
    ensures
        (r.0.state(), r.1) == scan(args@, address_stats_syntax(), 0, empty_state()),
        within(r.0.state(), args@.len() as int),
{
    scan_options(args, address_stats_syntax_value(), 0)
}

/// The options of `hashrate`: the node only.
pub fn wallet_hashrate(args: &[String]) -> (r: (Options, Option<ArgError>))
    ensures
        (r.0.state(), r.1) == scan(args@, rpc_syntax(), 0, empty_state()),
        within(r.0.state(), args@.len() as int),
{
    scan_options(args, rpc_syntax_value(), 0)
}

/// The options of `pool-payout`.
pub fn wallet_pool_payout(args: &[String]) -> (r: (Options, Option<ArgError>))
    ensures
        (r.0.state(), r.1) == scan(args@, pool_payout_syntax(), 0, empty_state()),
        within(r.0.state(), args@.len() as int),
{
    scan_options(args, pool_payout_syntax_value(), 0)
}

/// Reads the amount at index `at`, then the options after it; see `amount_then_scan`.
fn amount_then_options(args: &[String], at: usize, syn: Syntax) -> (r: Result<(u64, Options), ArgError>)
    ensures
        match amount_then_scan(args@, at as int, syn) {
            Ok((n, st)) => r matches Ok((m, o)) && m == n && o.state() == st && within(
                o.state(),
                args@.len() as int,
            ),
            Err(e) => r == Err::<(u64, Options), ArgError>(e),
        },
{
    if args.len() <= at {
        return Err(ArgError::MissingAmount);
    }
    match parse_xpq_amount(args[at].as_str()) {
        Err(e) => Err(ArgError::InvalidAmountArg(e)),
        Ok(n) => {
            let (o, err) = scan_options(args, syn, at + 1);
            match err {
                Some(e) => Err(e),
                None => Ok((n, o)),
            }
        },
    }
}

/// `pay <address> <amount> [options]` after its address: the amount and the options.
pub fn wallet_pay(args: &[String]) -> (r: Result<(u64, Options), ArgError>)
    ensures
        match amount_then_scan(args@, 1, pay_syntax()) {
            Ok((n, st)) => r matches Ok((m, o)) && m == n && o.state() == st && within(
                o.state(),
                args@.len() as int,
            ),
            Err(e) => r == Err::<(u64, Options), ArgError>(e),
        },
{
    amount_then_options(args, 1, pay_syntax_value())
}

/// `send <address> <amount> [options]` after its address: the amount and the options.
pub fn wallet_send_short(args: &[String]) -> (r: Result<(u64, Options), ArgError>)
    ensures
        match amount_then_scan(args@, 1, send_short_syntax()) {
            Ok((n, st)) => r matches Ok((m, o)) && m == n && o.state() == st && within(
                o.state(),
                args@.len() as int,
            ),
            Err(e) => r == Err::<(u64, Options), ArgError>(e),
        },
{
    amount_then_options(args, 1, send_short_syntax_value())
}

/// `cash withdraw <amount> [options]`: the amount and the options.
pub fn wallet_cash_withdraw(args: &[String]) -> (r: Result<(u64, Options), ArgError>)
    ensures
        match amount_then_scan(args@, 0, withdraw_syntax()) {
            Ok((n, st)) => r matches Ok((m, o)) && m == n && o.state() == st && within(
                o.state(),
                args@.len() as int,
            ),
            Err(e) => r == Err::<(u64, Options), ArgError>(e),
        },
{
    amount_then_options(args, 0, withdraw_syntax_value())
}

/// Whether `send` is given in its short form; see `short_send`.
pub fn is_short_send(args: &[String]) -> (r: bool)
    ensures
        r == short_send(args@),
{
    args.len() >= 2 && !crate::cli::starts_with_dash(args[0].as_str())
        && !crate::cli::starts_with_dash(args[1].as_str())
}

/// What `send` reads: the short form as `wallet_send_short`, the long form
/// its options, then `missing --to address`, then `missing --amount`.
pub fn wallet_send(args: &[String]) -> (r: SendLine)
    ensures
        short_send(args@) <==> r is Short,
        r matches SendLine::Short(s) ==> match amount_then_scan(args@, 1, send_short_syntax()) {
            Ok((n, st)) => s matches Ok((m, o)) && m == n && o.state() == st && within(
                o.state(),
                args@.len() as int,
            ),
            Err(e) => s == Err::<(u64, Options), ArgError>(e),
        },
        r matches SendLine::Long(o, e) ==> {
            let read = scan(args@, send_syntax(), 0, empty_state());
            &&& o.state() == read.0
            &&& within(o.state(), args@.len() as int)
            &&& e == match needing_to(read) {
                Some(e) => Some(e),
                None => if read.0.amount is None {
                    Some(ArgError::MissingAmountOption)
                } else {
                    None
                },
            }
        },
{
    if is_short_send(args) {
        return SendLine::Short(wallet_send_short(args));
    }
    let (o, err) = scan_options(args, send_syntax_value(), 0);
    let e = match err {
        Some(e) => Some(e),
        None => if o.to.is_none() {
            Some(ArgError::MissingTo)
        } else if o.amount.is_none() {
            Some(ArgError::MissingAmountOption)
        } else {
            None
        },
    };
    SendLine::Long(o, e)
}

/// `cash deposit <file> [options]`: the file's index is 0; its options, then
/// `missing --to address`. A missing file, or one that starts with `-`, is
/// `MissingOperand`.
pub fn wallet_cash_deposit(args: &[String]) -> (r: (Options, Option<ArgError>))
    ensures
        within(r.0.state(), args@.len() as int),
        args@.len() == 0 || crate::cli::is_dashed(args@[0]@) ==> r.0.state() == empty_state()
            && r.1 == Some(ArgError::MissingOperand),
        args@.len() > 0 && !crate::cli::is_dashed(args@[0]@) ==> {
            let read = scan(args@, deposit_syntax(), 1, empty_state());
            r.0.state() == read.0 && r.1 == needing_to(read)
        },
{
    if args.len() == 0 || crate::cli::starts_with_dash(args[0].as_str()) {
        return (crate::cli::empty_options(), Some(ArgError::MissingOperand));
    }
    let (o, err) = scan_options(args, deposit_syntax_value(), 1);
    let e = match err {
        Some(e) => Some(e),
        None => if o.to.is_none() {
            Some(ArgError::MissingTo)
        } else {
            None
        },
    };
    (o, e)
}

/// The value of an option at index `index`, as std's `args.get(index)`:
/// `missing value for <flag>` past the end.
pub fn required_option(args: &[String], index: usize, flag: Flag) -> (r: Result<String, ArgError>)
    ensures
        index < args@.len() ==> (r matches Ok(v) && v@ == args@[index as int]@),
        index >= args@.len() ==> r == Err::<String, ArgError>(ArgError::MissingValue(flag)),
{
    if index < args.len() {
        Ok(args[index].clone())
    } else {
        Err(ArgError::MissingValue(flag))
    }
}

/// Whether the argument is `--rpc` or `--rpc-addr`.
pub open spec fn is_rpc_flag(a: Seq<char>) -> bool {
    a == "--rpc"@ || a == "--rpc-addr"@
}

/// The index of the first `--rpc` or `--rpc-addr` at `i` or after it, or
/// the length of `args` when there is none.
pub open spec fn first_rpc_flag(args: Seq<String>, i: int) -> int
    decreases args.len() - i,
{
    if i < 0 || i >= args.len() {
        args.len() as int
    } else if is_rpc_flag(args[i]@) {
        i
    } else {
        first_rpc_flag(args, i + 1)
    }
}

/// Where the node address of `cash sync` and `cash track` stands: after the
/// first `--rpc` anywhere in the line; `None` without one.
pub open spec fn rpc_value_index(args: Seq<String>) -> Result<Option<int>, ArgError> {
    let p = first_rpc_flag(args, 0);
    if p >= args.len() {
        Ok(None)
    } else if p + 1 < args.len() {
        Ok(Some(p + 1))
    } else {
        Err(ArgError::MissingValue(Flag::Rpc))
    }
}

proof fn lemma_first_rpc_flag(args: Seq<String>, i: int)
    requires
        0 <= i <= args.len(),
    ensures
        i <= first_rpc_flag(args, i) <= args.len(),
        first_rpc_flag(args, i) < args.len() ==> is_rpc_flag(args[first_rpc_flag(args, i)]@),
    decreases args.len() - i,
{
    if i < args.len() && !is_rpc_flag(args[i]@) {
        lemma_first_rpc_flag(args, i + 1);
    }
}

/// The node address that follows the first `--rpc`; see `rpc_value_index`.
fn rpc_value(args: &[String]) -> (r: Result<Option<String>, ArgError>)
    ensures
        match rpc_value_index(args@) {
            Ok(Some(k)) => r matches Ok(Some(v)) && v@ == args@[k]@,
            Ok(None) => r == Ok::<Option<String>, ArgError>(None),
            Err(e) => r == Err::<Option<String>, ArgError>(e),
        },
{
    let mut i: usize = 0;
    while i < args.len()
        invariant
            i <= args@.len(),
            first_rpc_flag(args@, 0) == first_rpc_flag(args@, i as int),
        decreases args@.len() - i,
    {
        if str_eq(args[i].as_str(), "--rpc") || str_eq(args[i].as_str(), "--rpc-addr") {
            return match required_option(args, i + 1, Flag::Rpc) {
                Ok(v) => Ok(Some(v)),
                Err(e) => Err(e),
            };
        }
        i = i + 1;
    }
    Ok(None)
}

/// `cash sync <path> [--rpc a]`: the node address given, if any. Without a
/// path it is `MissingOperand`.
pub fn wallet_cash_sync(args: &[String]) -> (r: Result<Option<String>, ArgError>)
    ensures
        args@.len() == 0 ==> r == Err::<Option<String>, ArgError>(ArgError::MissingOperand),
        args@.len() > 0 ==> match rpc_value_index(args@) {
            Ok(Some(k)) => r matches Ok(Some(v)) && v@ == args@[k]@,
            Ok(None) => r == Ok::<Option<String>, ArgError>(None),
            Err(e) => r == Err::<Option<String>, ArgError>(e),
        },
{
    if args.len() == 0 {
        return Err(ArgError::MissingOperand);
    }
    rpc_value(args)
}

/// `cash track <name> [--rpc a]`: the lookup name of the first argument
/// (see `lookup_name`) and the node address given, if any. The address is
/// read first, as its error comes first.
pub fn wallet_cash_track(args: &[String]) -> (r: Result<(String, Option<String>), ArgError>)
    ensures
        args@.len() == 0 ==> r == Err::<(String, Option<String>), ArgError>(
            ArgError::MissingOperand,
        ),
        args@.len() > 0 ==> match rpc_value_index(args@) {
            Err(e) => r == Err::<(String, Option<String>), ArgError>(e),
            Ok(at) => match crate::names::lookup_name(args@[0]@) {
                Err(e) => r == Err::<(String, Option<String>), ArgError>(ArgError::Lookup(e)),
                Ok(name) => r matches Ok((n, a)) && n@ == name && match at {
                    Some(k) => a matches Some(v) && v@ == args@[k]@,
                    None => a is None,
                },
            },
        },
{
    if args.len() == 0 {
        return Err(ArgError::MissingOperand);
    }
    let rpc = match rpc_value(args) {
        Ok(a) => a,
        Err(e) => {
            return Err(e);
        },
    };
    match crate::names::qcash_lookup_name(args[0].as_str()) {
        Ok(name) => Ok((name, rpc)),
        Err(e) => Err(ArgError::Lookup(e)),
    }
}

/// The index of the first argument at `i` or after it that does not start
/// with `-`, or the length of `args` when there is none.
pub open spec fn first_undashed(args: Seq<String>, i: int) -> int
    decreases args.len() - i,
{
    if i < 0 || i >= args.len() {
        args.len() as int
    } else if !crate::cli::is_dashed(args[i]@) {
        i
    } else {
        first_undashed(args, i + 1)
    }
}

/// `new [path] [--show-secret]`: whether `--show-secret` stands anywhere, and
/// the wallet file: the first argument that does not start with `-`, or
/// `wallet.json`.
pub fn wallet_new(args: &[String]) -> (r: (bool, String))
    ensures
        r.0 == exists|i: int| 0 <= i < args@.len() && args@[i]@ == "--show-secret"@,
        r.1@ == (if first_undashed(args@, 0) < args@.len() {
            args@[first_undashed(args@, 0)]@
        } else {
            "wallet.json"@
        }),
{
    let mut show = false;
    let mut path: Option<usize> = None;
    let mut i: usize = 0;
    while i < args.len()
        invariant
            i <= args@.len(),
            show == exists|j: int| 0 <= j < i && args@[j]@ == "--show-secret"@,
            match path {
                Some(k) => k < i && k == first_undashed(args@, 0),
                None => first_undashed(args@, 0) == first_undashed(args@, i as int),
            },
        decreases args@.len() - i,
    {
        if str_eq(args[i].as_str(), "--show-secret") {
            show = true;
        }
        if path.is_none() && !crate::cli::starts_with_dash(args[i].as_str()) {
            path = Some(i);
        }
        i = i + 1;
    }
    let p = match path {
        Some(k) => args[k].clone(),
        None => "wallet.json".to_owned(),
    };
    (show, p)
}

} // verus!
