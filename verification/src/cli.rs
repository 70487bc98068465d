//! The command line of the wallet: reading the options of each command.
//!
//! Option values are given back as indices into the argument list; the
//! caller takes the text from there, or the command's default when an option
//! is absent. Addresses are checked by the caller, in the order in which
//! `address_args` lists them, before any error found here is reported.
use vstd::prelude::*;
use crate::amount::{AmountError, DEFAULT_TRANSACTION_FEE, parse_xpq_amount, xpq_amount};
use crate::chars::{chars_of, str_eq};
use crate::decimal::{IntErrorKind, parse_unsigned, parse_unsigned_range};
use crate::names::{LookupError, ascii_lower};

verus! {

/// An option that takes a value.
#[derive(Clone, Copy, Debug, PartialEq, Eq, Structural)]
pub enum Flag {
    Wallet,
    Rpc,
    CashDir,
    Fee,
    Nonce,
    Amount,
    Out,
    Ledger,
    Receipts,
}

/// Why a command line is refused.
#[derive(Clone, Copy, Debug, PartialEq, Eq, Structural)]
pub enum ArgError {
    /// An option is last and has no value (`missing value for <flag>`).
    MissingValue(Flag),
    /// `--to` is last (`missing address`).
    MissingAddress,
    /// The argument at this index is not an option of the command.
    UnknownOption(usize),
    /// The value of `--fee` is not an amount.
    InvalidFee(AmountError),
    /// The value of `--amount` is not an amount.
    InvalidAmount(AmountError),
    /// The value of `--nonce` is not a `u64`.
    InvalidNonce(IntErrorKind),
    /// The amount that a command takes before its options is missing.
    MissingAmount,
    /// The amount that a command takes before its options is not an amount.
    InvalidAmountArg(AmountError),
    /// The command's first operand (a path or a name) is missing.
    MissingOperand,
    /// No `--to` was given (`missing --to address`).
    MissingTo,
    /// No `--amount` was given (`missing --amount`).
    MissingAmountOption,
    /// The QCash lookup name is refused.
    Lookup(LookupError),
}

/// The options that a command accepts.
#[derive(Clone, Copy, Debug)]
pub struct Syntax {
    pub wallet: bool,
    pub rpc: bool,
    pub cash_dir: bool,
    pub fee: bool,
    pub nonce: bool,
    pub to: bool,
    pub amount: bool,
    pub out: bool,
    pub ledger: bool,
    pub receipts: bool,
    pub submit: bool,
    pub execute: bool,
    /// Whether one argument that does not start with `-` names the address.
    pub positional_address: bool,
}

/// The options read so far (as a view).
pub struct ScanState {
    pub wallet: Option<usize>,
    pub rpc: Option<usize>,
    pub cash_dir: Option<usize>,
    pub out: Option<usize>,
    pub ledger: Option<usize>,
    pub receipts: Option<usize>,
    pub to: Option<usize>,
    pub address: Option<usize>,
    pub fee: Option<u64>,
    pub nonce: Option<u64>,
    pub amount: Option<u64>,
    pub submit: bool,
    pub execute: bool,
    pub address_args: Seq<usize>,
}

/// The options read from a command line.
#[derive(Clone, Debug)]
pub struct Options {
    /// Index of the `--wallet` value.
    pub wallet: Option<usize>,
    /// Index of the `--rpc` (`--rpc-addr`) value.
    pub rpc: Option<usize>,
    /// Index of the `--cash-dir` (`--cash`) value.
    pub cash_dir: Option<usize>,
    /// Index of the `--out` (`--output-dir`) value.
    pub out: Option<usize>,
    /// Index of the `--ledger` value.
    pub ledger: Option<usize>,
    /// Index of the `--receipts` value.
    pub receipts: Option<usize>,
    /// Index of the last `--to` value.
    pub to: Option<usize>,
    /// Index of the address given without an option.
    pub address: Option<usize>,
    /// The `--fee` amount in base units.
    pub fee: Option<u64>,
    /// The `--nonce`.
    pub nonce: Option<u64>,
    /// The `--amount` in base units.
    pub amount: Option<u64>,
    /// Whether `--submit` was given.
    pub submit: bool,
    /// Whether `--execute` was given.
    pub execute: bool,
    /// The indices of all address arguments, in order.
    pub address_args: Vec<usize>,
}

impl Options {
    pub open spec fn state(&self) -> ScanState {
        ScanState {
            wallet: self.wallet,
            rpc: self.rpc,
            cash_dir: self.cash_dir,
            out: self.out,
            ledger: self.ledger,
            receipts: self.receipts,
            to: self.to,
            address: self.address,
            fee: self.fee,
            nonce: self.nonce,
            amount: self.amount,
            submit: self.submit,
            execute: self.execute,
            address_args: self.address_args@,
        }
    }
}

/// Whether every argument index in `st` is below `n`.
pub open spec fn within(st: ScanState, n: int) -> bool {
    &&& st.wallet matches Some(k) ==> k < n
    &&& st.rpc matches Some(k) ==> k < n
    &&& st.cash_dir matches Some(k) ==> k < n
    &&& st.out matches Some(k) ==> k < n
    &&& st.ledger matches Some(k) ==> k < n
    &&& st.receipts matches Some(k) ==> k < n
    &&& st.to matches Some(k) ==> k < n
    &&& st.address matches Some(k) ==> k < n
    &&& forall|j: int| 0 <= j < st.address_args.len() ==> #[trigger] st.address_args[j] < n
}

/// No option read yet.
pub open spec fn empty_state() -> ScanState {
    ScanState {
        wallet: None,
        rpc: None,
        cash_dir: None,
        out: None,
        ledger: None,
        receipts: None,
        to: None,
        address: None,
        fee: None,
        nonce: None,
        amount: None,
        submit: false,
        execute: false,
        address_args: Seq::empty(),
    }
}

/// Whether `s` is `auto` in any ASCII case.
pub open spec fn is_auto(s: Seq<char>) -> bool {
    s.len() == 4 && ascii_lower(s[0]) == 'a' && ascii_lower(s[1]) == 'u' && ascii_lower(s[2])
        == 't' && ascii_lower(s[3]) == 'o'
}

/// The fee that a `--fee` value stands for: `auto` (any case) is the default
/// fee, anything else an XPQ amount.
pub open spec fn fee_value(s: Seq<char>) -> Result<u64, AmountError> {
    if is_auto(s) {
        Ok(DEFAULT_TRANSACTION_FEE)
    } else {
        xpq_amount(s)
    }
}

/// Whether the argument starts with `-`.
pub open spec fn is_dashed(s: Seq<char>) -> bool {
    s.len() > 0 && s[0] == '-'
}

/// The option at index `i` (which is inside `args`) read in state `st`: the
/// index of the next argument and the new state, or why the line is refused.
pub open spec fn step(args: Seq<String>, syn: Syntax, i: int, st: ScanState) -> Result<
    (int, ScanState),
    ArgError,
> {
    let a = args[i]@;
    let has_value = i + 1 < args.len();
    let v = if has_value { args[i + 1]@ } else { Seq::empty() };
    let at = (i + 1) as usize;
    if syn.wallet && a == "--wallet"@ {
        if has_value { Ok((i + 2, ScanState { wallet: Some(at), ..st })) }
        else { Err(ArgError::MissingValue(Flag::Wallet)) }
    } else if syn.rpc && (a == "--rpc"@ || a == "--rpc-addr"@) {
        if has_value { Ok((i + 2, ScanState { rpc: Some(at), ..st })) }
        else { Err(ArgError::MissingValue(Flag::Rpc)) }
    } else if syn.cash_dir && (a == "--cash-dir"@ || a == "--cash"@) {
        if has_value { Ok((i + 2, ScanState { cash_dir: Some(at), ..st })) }
        else { Err(ArgError::MissingValue(Flag::CashDir)) }
    } else if syn.out && (a == "--out"@ || a == "--output-dir"@) {
        if has_value { Ok((i + 2, ScanState { out: Some(at), ..st })) }
        else { Err(ArgError::MissingValue(Flag::Out)) }
    } else if syn.ledger && a == "--ledger"@ {
        if has_value { Ok((i + 2, ScanState { ledger: Some(at), ..st })) }
        else { Err(ArgError::MissingValue(Flag::Ledger)) }
    } else if syn.receipts && a == "--receipts"@ {
        if has_value { Ok((i + 2, ScanState { receipts: Some(at), ..st })) }
        else { Err(ArgError::MissingValue(Flag::Receipts)) }
    } else if syn.fee && a == "--fee"@ {
        if !has_value {
            Err(ArgError::MissingValue(Flag::Fee))
        } else {
            match fee_value(v) {
                Ok(f) => Ok((i + 2, ScanState { fee: Some(f), ..st })),
                Err(e) => Err(ArgError::InvalidFee(e)),
            }
        }
    } else if syn.nonce && a == "--nonce"@ {
        if !has_value {
            Err(ArgError::MissingValue(Flag::Nonce))
        } else {
            match parse_unsigned(v, u64::MAX as nat) {
                Ok(n) => Ok((i + 2, ScanState { nonce: Some(n as u64), ..st })),
                Err(e) => Err(ArgError::InvalidNonce(e)),
            }
        }
    } else if syn.to && a == "--to"@ {
        if has_value {
            Ok((i + 2, ScanState { to: Some(at), address_args: st.address_args.push(at), ..st }))
        } else {
            Err(ArgError::MissingAddress)
        }
    } else if syn.amount && a == "--amount"@ {
        if !has_value {
            Err(ArgError::MissingValue(Flag::Amount))
        } else {
            match xpq_amount(v) {
                Ok(n) => Ok((i + 2, ScanState { amount: Some(n), ..st })),
                Err(e) => Err(ArgError::InvalidAmount(e)),
            }
        }
    } else if syn.submit && a == "--submit"@ {
        Ok((i + 1, ScanState { submit: true, ..st }))
    } else if syn.execute && a == "--execute"@ {
        Ok((i + 1, ScanState { execute: true, ..st }))
    } else if syn.positional_address && !is_dashed(a) && st.address is None {
        Ok(
            (
                i + 1,
                ScanState {
                    address: Some(i as usize),
                    address_args: st.address_args.push(i as usize),
                    ..st
                },
            ),
        )
    } else {
        Err(ArgError::UnknownOption(i as usize))
    }
}

/// Reading the options of a command from index `i` on, in state `st`: each
/// option the command accepts is read with its value; anything else stops the
/// reading with an error, and the state read up to there.
pub open spec fn scan(args: Seq<String>, syn: Syntax, i: int, st: ScanState) -> (
    ScanState,
    Option<ArgError>,
)
    decreases args.len() - i,
{
    if i < 0 || i >= args.len() {
        (st, None)
    } else {
        match step(args, syn, i, st) {
            Ok((j, next)) => scan(args, syn, j, next),
            Err(e) => (st, Some(e)),
        }
    }
}

/// Whether `s` is `auto` in any ASCII case.
fn auto_word(s: &str) -> (r: bool)
    ensures
        r == is_auto(s@),
{
    let v = chars_of(s);
    v.len() == 4 && crate::http::ascii_lower_char(v[0]) == 'a' && crate::http::ascii_lower_char(
        v[1],
    ) == 'u' && crate::http::ascii_lower_char(v[2]) == 't' && crate::http::ascii_lower_char(v[3])
        == 'o'
}

/// The fee that a `--fee` value stands for; see `fee_value`.
pub fn parse_fee(value: &str) -> (r: Result<u64, AmountError>)
    ensures
        r == fee_value(value@),
{
    if auto_word(value) {
        Ok(DEFAULT_TRANSACTION_FEE)
    } else {
        parse_xpq_amount(value)
    }
}

/// Reads a `u64` (a nonce) as std's `u64::from_str` does.
pub fn parse_nonce(value: &str) -> (r: Result<u64, IntErrorKind>)
    ensures
        match parse_unsigned(value@, u64::MAX as nat) {
            Ok(n) => r == Ok::<u64, IntErrorKind>(n as u64),
            Err(e) => r == Err::<u64, IntErrorKind>(e),
        },
{
    let v = chars_of(value);
    assert(v@.subrange(0, v@.len() as int) =~= value@);
    parse_unsigned_range(&v, 0, v.len(), u64::MAX)
}

/// Whether the argument starts with `-`.
pub fn starts_with_dash(s: &str) -> (r: bool)
    ensures
        r == is_dashed(s@),
{
    let v = chars_of(s);
    v.len() > 0 && v[0] == '-'
}

/// No option read yet.
pub fn empty_options() -> (o: Options)
    ensures
        o.state() == empty_state(),
{
    let o = Options {
        wallet: None,
        rpc: None,
        cash_dir: None,
        out: None,
        ledger: None,
        receipts: None,
        to: None,
        address: None,
        fee: None,
        nonce: None,
        amount: None,
        submit: false,
        execute: false,
        address_args: Vec::new(),
    };
    assert(o.state().address_args =~= Seq::<usize>::empty());
    o
}

/// Reads the option at index `i`; see `step`. On an error `o` is unchanged.
#[verifier::rlimit(40)]
fn scan_step(args: &[String], syn: Syntax, i: usize, o: &mut Options) -> (r: Result<usize, ArgError>)
    requires
        i < args@.len(),
        within(old(o).state(), args@.len() as int),
    ensures
        within(final(o).state(), args@.len() as int),
        match step(args@, syn, i as int, old(o).state()) {
            Ok((j, next)) => r == Ok::<usize, ArgError>(j as usize) && final(o).state() == next,
            Err(e) => r == Err::<usize, ArgError>(e) && final(o).state() == old(o).state(),
        },
{
    let n = args.len();
    let a = args[i].as_str();
    let has_value = i + 1 < n;
    if syn.wallet && str_eq(a, "--wallet") {
        if !has_value {
            return Err(ArgError::MissingValue(Flag::Wallet));
        }
        o.wallet = Some(i + 1);
        Ok(i + 2)
    } else if syn.rpc && (str_eq(a, "--rpc") || str_eq(a, "--rpc-addr")) {
        if !has_value {
            return Err(ArgError::MissingValue(Flag::Rpc));
        }
        o.rpc = Some(i + 1);
        Ok(i + 2)
    } else if syn.cash_dir && (str_eq(a, "--cash-dir") || str_eq(a, "--cash")) {
        if !has_value {
            return Err(ArgError::MissingValue(Flag::CashDir));
        }
        o.cash_dir = Some(i + 1);
        Ok(i + 2)
    } else if syn.out && (str_eq(a, "--out") || str_eq(a, "--output-dir")) {
        if !has_value {
            return Err(ArgError::MissingValue(Flag::Out));
        }
        o.out = Some(i + 1);
        Ok(i + 2)
    } else if syn.ledger && str_eq(a, "--ledger") {
        if !has_value {
            return Err(ArgError::MissingValue(Flag::Ledger));
        }
        o.ledger = Some(i + 1);
        Ok(i + 2)
    } else if syn.receipts && str_eq(a, "--receipts") {
        if !has_value {
            return Err(ArgError::MissingValue(Flag::Receipts));
        }
        o.receipts = Some(i + 1);
        Ok(i + 2)
    } else if syn.fee && str_eq(a, "--fee") {
        if !has_value {
            return Err(ArgError::MissingValue(Flag::Fee));
        }
        match parse_fee(args[i + 1].as_str()) {
            Ok(f) => {
                o.fee = Some(f);
                Ok(i + 2)
            },
            Err(e) => Err(ArgError::InvalidFee(e)),
        }
    } else if syn.nonce && str_eq(a, "--nonce") {
        if !has_value {
            return Err(ArgError::MissingValue(Flag::Nonce));
        }
        match parse_nonce(args[i + 1].as_str()) {
            Ok(v) => {
                o.nonce = Some(v);
                Ok(i + 2)
            },
            Err(e) => Err(ArgError::InvalidNonce(e)),
        }
    } else if syn.to && str_eq(a, "--to") {
        if !has_value {
            return Err(ArgError::MissingAddress);
        }
        o.to = Some(i + 1);
        o.address_args.push(i + 1);
        Ok(i + 2)
    } else if syn.amount && str_eq(a, "--amount") {
        if !has_value {
            return Err(ArgError::MissingValue(Flag::Amount));
        }
        match parse_xpq_amount(args[i + 1].as_str()) {
            Ok(v) => {
                o.amount = Some(v);
                Ok(i + 2)
            },
            Err(e) => Err(ArgError::InvalidAmount(e)),
        }
    } else if syn.submit && str_eq(a, "--submit") {
        o.submit = true;
        Ok(i + 1)
    } else if syn.execute && str_eq(a, "--execute") {
        o.execute = true;
        Ok(i + 1)
    } else if syn.positional_address && !starts_with_dash(a) && o.address.is_none() {
        o.address = Some(i);
        o.address_args.push(i);
        Ok(i + 1)
    } else {
        Err(ArgError::UnknownOption(i))
    }
}

impl Options {
    /// The wallet file: the `--wallet` value, or `wallet.json`.
    pub fn wallet_path(&self, args: &[String]) -> (p: String)
        requires
            within(self.state(), args@.len() as int),
        ensures
            p@ == (match self.wallet {
                Some(k) => args@[k as int]@,
                None => "wallet.json"@,
            }),
    {
        match self.wallet {
            Some(k) => args[k].clone(),
            None => "wallet.json".to_owned(),
        }
    }

    /// The node address given by `--rpc`, if any (the caller's default otherwise).
    pub fn rpc_addr(&self, args: &[String]) -> (p: Option<String>)
        requires
            within(self.state(), args@.len() as int),
        ensures
            match self.rpc {
                Some(k) => p matches Some(a) && a@ == args@[k as int]@,
                None => p is None,
            },
    {
        match self.rpc {
            Some(k) => Some(args[k].clone()),
            None => None,
        }
    }

    /// The cash directory: the `--cash-dir` value, or `./cash`.
    pub fn cash_dir_path(&self, args: &[String]) -> (p: String)
        requires
            within(self.state(), args@.len() as int),
        ensures
            p@ == (match self.cash_dir {
                Some(k) => args@[k as int]@,
                None => "./cash"@,
            }),
    {
        match self.cash_dir {
            Some(k) => args[k].clone(),
            None => "./cash".to_owned(),
        }
    }

    /// The directory for new cash files: the `--out` value, or `./cash`.
    pub fn out_dir_path(&self, args: &[String]) -> (p: String)
        requires
            within(self.state(), args@.len() as int),
        ensures
            p@ == (match self.out {
                Some(k) => args@[k as int]@,
                None => "./cash"@,
            }),
    {
        match self.out {
            Some(k) => args[k].clone(),
            None => "./cash".to_owned(),
        }
    }

    /// The pool accounting ledger: the `--ledger` value, or `pool-accounting.jsonl`.
    pub fn ledger_path(&self, args: &[String]) -> (p: String)
        requires
            within(self.state(), args@.len() as int),
        ensures
            p@ == (match self.ledger {
                Some(k) => args@[k as int]@,
                None => "pool-accounting.jsonl"@,
            }),
    {
        match self.ledger {
            Some(k) => args[k].clone(),
            None => "pool-accounting.jsonl".to_owned(),
        }
    }

    /// The payout receipts file: the `--receipts` value, or `pool-payout-receipts.jsonl`.
    pub fn receipts_path(&self, args: &[String]) -> (p: String)
        requires
            within(self.state(), args@.len() as int),
        ensures
            p@ == (match self.receipts {
                Some(k) => args@[k as int]@,
                None => "pool-payout-receipts.jsonl"@,
            }),
    {
        match self.receipts {
            Some(k) => args[k].clone(),
            None => "pool-payout-receipts.jsonl".to_owned(),
        }
    }

    /// The fee in base units: the last `--fee`, or the default fee.
    pub fn fee_or_default(&self) -> (f: u64)
        ensures
            f == (match self.fee {
                Some(f) => f,
                None => DEFAULT_TRANSACTION_FEE,
            }),
    {
        match self.fee {
            Some(f) => f,
            None => DEFAULT_TRANSACTION_FEE,
        }
    }

    /// Whether the fee was chosen by hand: a `--fee` other than the default
    /// fee (otherwise the fee is estimated from the transaction's size).
    pub fn fee_explicit(&self) -> (b: bool)
        ensures
            b == (self.fee matches Some(f) && f != DEFAULT_TRANSACTION_FEE),
    {
        match self.fee {
            Some(f) => f != DEFAULT_TRANSACTION_FEE,
            None => false,
        }
    }
}

/// Reads the options of a command from index `start` on; see `scan`.
pub fn scan_options(args: &[String], syn: Syntax, start: usize) -> (r: (Options, Option<ArgError>))
    ensures
        (r.0.state(), r.1) == scan(args@, syn, start as int, empty_state()),
        within(r.0.state(), args@.len() as int),
{
    let mut o = empty_options();
    let mut i = start;
    let n = args.len();
    while i < n
        invariant
            n == args@.len(),
            start <= i,
            scan(args@, syn, start as int, empty_state()) == scan(args@, syn, i as int, o.state()),
            within(o.state(), n as int),
        decreases n - i,
    {
        match scan_step(args, syn, i, &mut o) {
            Ok(j) => {
                i = j;
            },
            Err(e) => {
                return (o, Some(e));
            },
        }
    }
    (o, None)
}

} // verus!
