//! The choices of the wallet: which command a command line names, what an
//! entry of the interactive menu does, how a node response is shown, and what
//! a prompt answer means.
use vstd::prelude::*;
use crate::chars::{has_prefix, join_path, str_eq, trim, trimmed};
use crate::names::{back_answer, is_back};

verus! {

/// A command of the wallet.
#[derive(Clone, Copy, Debug, PartialEq, Eq, Structural)]
pub enum Command {
    /// No command, `menu` or `cli`: the interactive menu.
    Menu,
    /// `help`, `--help`, `-h`.
    Help,
    /// `version`, `--version`, `-V`.
    Version,
    /// `new`.
    New,
    /// `address`.
    Address,
    /// `balance`.
    Balance,
    /// `stats`, `tracking`.
    Stats,
    /// `address-stats`, `address-tracking`.
    AddressStats,
    /// `hashrate`.
    Hashrate,
    /// `pay`.
    Pay,
    /// `send`.
    Send,
    /// `pool-payout`.
    PoolPayout,
    /// `cash`, `qcash`.
    Cash,
    /// Anything else (`unknown wallet command`).
    Unknown,
}

/// The command that a command line names by its first argument.
pub open spec fn command_of(args: Seq<String>) -> Command {
    if args.len() == 0 {
        Command::Menu
    } else {
        let a = args[0]@;
        if a == "menu"@ || a == "cli"@ {
            Command::Menu
        } else if a == "-h"@ || a == "--help"@ || a == "help"@ {
            Command::Help
        } else if a == "-V"@ || a == "--version"@ || a == "version"@ {
            Command::Version
        } else if a == "new"@ {
            Command::New
        } else if a == "address"@ {
            Command::Address
        } else if a == "balance"@ {
            Command::Balance
        } else if a == "stats"@ || a == "tracking"@ {
            Command::Stats
        } else if a == "address-stats"@ || a == "address-tracking"@ {
            Command::AddressStats
        } else if a == "hashrate"@ {
            Command::Hashrate
        } else if a == "pay"@ {
            Command::Pay
        } else if a == "send"@ {
            Command::Send
        } else if a == "pool-payout"@ {
            Command::PoolPayout
        } else if a == "cash"@ || a == "qcash"@ {
            Command::Cash
        } else {
            Command::Unknown
        }
    }
}

/// The command that `args` names; see `command_of`.
pub fn parse_command(args: &[String]) -> (c: Command)
    ensures
        c == command_of(args@),
{
    if args.len() == 0 {
        return Command::Menu;
    }
    let a = args[0].as_str();
    if str_eq(a, "menu") || str_eq(a, "cli") {
        Command::Menu
    } else if str_eq(a, "-h") || str_eq(a, "--help") || str_eq(a, "help") {
        Command::Help
    } else if str_eq(a, "-V") || str_eq(a, "--version") || str_eq(a, "version") {
        Command::Version
    } else if str_eq(a, "new") {
        Command::New
    } else if str_eq(a, "address") {
        Command::Address
    } else if str_eq(a, "balance") {
        Command::Balance
    } else if str_eq(a, "stats") || str_eq(a, "tracking") {
        Command::Stats
    } else if str_eq(a, "address-stats") || str_eq(a, "address-tracking") {
        Command::AddressStats
    } else if str_eq(a, "hashrate") {
        Command::Hashrate
    } else if str_eq(a, "pay") {
        Command::Pay
    } else if str_eq(a, "send") {
        Command::Send
    } else if str_eq(a, "pool-payout") {
        Command::PoolPayout
    } else if str_eq(a, "cash") || str_eq(a, "qcash") {
        Command::Cash
    } else {
        Command::Unknown
    }
}

/// A subcommand of `cash`.
#[derive(Clone, Copy, Debug, PartialEq, Eq, Structural)]
pub enum CashCommand {
    Inspect,
    Withdraw,
    Deposit,
    Sync,
    /// `track` or `status`.
    Track,
    List,
    Backup,
    Recover,
    /// An unknown subcommand.
    Unknown,
    /// No subcommand (the usage line).
    Missing,
}

/// The subcommand that the arguments of `cash` name.
pub open spec fn cash_command_of(args: Seq<String>) -> CashCommand {
    if args.len() == 0 {
        CashCommand::Missing
    } else {
        let a = args[0]@;
        if a == "inspect"@ {
            CashCommand::Inspect
        } else if a == "withdraw"@ {
            CashCommand::Withdraw
        } else if a == "deposit"@ {
            CashCommand::Deposit
        } else if a == "sync"@ {
            CashCommand::Sync
        } else if a == "track"@ || a == "status"@ {
            CashCommand::Track
        } else if a == "list"@ {
            CashCommand::List
        } else if a == "backup"@ {
            CashCommand::Backup
        } else if a == "recover"@ {
            CashCommand::Recover
        } else {
            CashCommand::Unknown
        }
    }
}

/// The subcommand that the arguments of `cash` name; see `cash_command_of`.
pub fn wallet_cash(args: &[String]) -> (c: CashCommand)
    ensures
        c == cash_command_of(args@),
{
    if args.len() == 0 {
        return CashCommand::Missing;
    }
    let a = args[0].as_str();
    if str_eq(a, "inspect") {
        CashCommand::Inspect
    } else if str_eq(a, "withdraw") {
        CashCommand::Withdraw
    } else if str_eq(a, "deposit") {
        CashCommand::Deposit
    } else if str_eq(a, "sync") {
        CashCommand::Sync
    } else if str_eq(a, "track") || str_eq(a, "status") {
        CashCommand::Track
    } else if str_eq(a, "list") {
        CashCommand::List
    } else if str_eq(a, "backup") {
        CashCommand::Backup
    } else if str_eq(a, "recover") {
        CashCommand::Recover
    } else {
        CashCommand::Unknown
    }
}

/// An entry of the interactive menu.
#[derive(Clone, Copy, Debug, PartialEq, Eq, Structural)]
pub enum MenuAction {
    /// `b` or `back`: nothing to do.
    Back,
    CreateWallet,
    ShowAddress,
    CheckBalance,
    GlobalStats,
    SendCoin,
    QCash,
    Health,
    Status,
    Peers,
    Chain,
    LatestBlocks,
    BlockByHeight,
    BlockByHash,
    TransactionByHash,
    AddressExplorer,
    Accounts,
    Mempool,
    Hashrate,
    ChangeRpc,
    /// Any other answer (`Unknown menu`); the menu loop itself reads `20`
    /// as the exit before it asks for an entry.
    Unknown,
}

/// The entry that an answer to the menu prompt selects.
pub open spec fn menu_action_of(choice: Seq<char>) -> MenuAction {
    if choice == "b"@ || choice == "back"@ {
        MenuAction::Back
    } else if choice == "1"@ {
        MenuAction::CreateWallet
    } else if choice == "2"@ {
        MenuAction::ShowAddress
    } else if choice == "3"@ {
        MenuAction::CheckBalance
    } else if choice == "4"@ {
        MenuAction::GlobalStats
    } else if choice == "5"@ {
        MenuAction::SendCoin
    } else if choice == "6"@ {
        MenuAction::QCash
    } else if choice == "7"@ {
        MenuAction::Health
    } else if choice == "8"@ {
        MenuAction::Status
    } else if choice == "9"@ {
        MenuAction::Peers
    } else if choice == "10"@ {
        MenuAction::Chain
    } else if choice == "11"@ {
        MenuAction::LatestBlocks
    } else if choice == "12"@ {
        MenuAction::BlockByHeight
    } else if choice == "13"@ {
        MenuAction::BlockByHash
    } else if choice == "14"@ {
        MenuAction::TransactionByHash
    } else if choice == "15"@ {
        MenuAction::AddressExplorer
    } else if choice == "16"@ {
        MenuAction::Accounts
    } else if choice == "17"@ {
        MenuAction::Mempool
    } else if choice == "18"@ {
        MenuAction::Hashrate
    } else if choice == "19"@ {
        MenuAction::ChangeRpc
    } else {
        MenuAction::Unknown
    }
}

/// The entry that `choice` selects; see `menu_action_of`.
pub fn handle_menu_choice(choice: &str) -> (a: MenuAction)
    ensures
        a == menu_action_of(choice@),
{
    if str_eq(choice, "b") || str_eq(choice, "back") {
        MenuAction::Back
    } else if str_eq(choice, "1") {
        MenuAction::CreateWallet
    } else if str_eq(choice, "2") {
        MenuAction::ShowAddress
    } else if str_eq(choice, "3") {
        MenuAction::CheckBalance
    } else if str_eq(choice, "4") {
        MenuAction::GlobalStats
    } else if str_eq(choice, "5") {
        MenuAction::SendCoin
    } else if str_eq(choice, "6") {
        MenuAction::QCash
    } else if str_eq(choice, "7") {
        MenuAction::Health
    } else if str_eq(choice, "8") {
        MenuAction::Status
    } else if str_eq(choice, "9") {
        MenuAction::Peers
    } else if str_eq(choice, "10") {
        MenuAction::Chain
    } else if str_eq(choice, "11") {
        MenuAction::LatestBlocks
    } else if str_eq(choice, "12") {
        MenuAction::BlockByHeight
    } else if str_eq(choice, "13") {
        MenuAction::BlockByHash
    } else if str_eq(choice, "14") {
        MenuAction::TransactionByHash
    } else if str_eq(choice, "15") {
        MenuAction::AddressExplorer
    } else if str_eq(choice, "16") {
        MenuAction::Accounts
    } else if str_eq(choice, "17") {
        MenuAction::Mempool
    } else if str_eq(choice, "18") {
        MenuAction::Hashrate
    } else if str_eq(choice, "19") {
        MenuAction::ChangeRpc
    } else {
        MenuAction::Unknown
    }
}

/// The node path that an entry asks for without a further prompt.
pub open spec fn fixed_path_of(a: MenuAction) -> Option<Seq<char>> {
    match a {
        MenuAction::Health => Some("/health"@),
        MenuAction::Status => Some("/status"@),
        MenuAction::Peers => Some("/peers"@),
        MenuAction::Chain => Some("/chain"@),
        MenuAction::LatestBlocks => Some("/blocks/latest"@),
        MenuAction::Accounts => Some("/accounts"@),
        MenuAction::Mempool => Some("/mempool"@),
        _ => None,
    }
}

/// The node path of an entry that asks for nothing more; see `fixed_path_of`.
pub fn fixed_rpc_path(a: MenuAction) -> (p: Option<&'static str>)
    ensures
        match fixed_path_of(a) {
            Some(q) => p matches Some(s) && s@ == q,
            None => p is None,
        },
{
    match a {
        MenuAction::Health => Some("/health"),
        MenuAction::Status => Some("/status"),
        MenuAction::Peers => Some("/peers"),
        MenuAction::Chain => Some("/chain"),
        MenuAction::LatestBlocks => Some("/blocks/latest"),
        MenuAction::Accounts => Some("/accounts"),
        MenuAction::Mempool => Some("/mempool"),
        _ => None,
    }
}

/// The node path of an entry that looks up the prompted `value`: a block by
/// height or hash, a transaction, or an address (none for an empty address).
pub open spec fn lookup_path_of(a: MenuAction, value: Seq<char>) -> Option<Seq<char>> {
    match a {
        MenuAction::BlockByHeight => Some("/blocks/"@ + value),
        MenuAction::BlockByHash => Some("/blocks/hash/"@ + value),
        MenuAction::TransactionByHash => Some("/tx/"@ + value),
        MenuAction::AddressExplorer => if value.len() == 0 {
            None
        } else {
            Some("/address/"@ + value)
        },
        _ => None,
    }
}

/// The node path for the prompted `value`; see `lookup_path_of`.
pub fn lookup_rpc_path(a: MenuAction, value: &str) -> (p: Option<String>)
    ensures
        match lookup_path_of(a, value@) {
            Some(q) => p matches Some(s) && s@ == q,
            None => p is None,
        },
{
    match a {
        MenuAction::BlockByHeight => Some(join_path("/blocks/", value)),
        MenuAction::BlockByHash => Some(join_path("/blocks/hash/", value)),
        MenuAction::TransactionByHash => Some(join_path("/tx/", value)),
        MenuAction::AddressExplorer => if value.is_empty() {
            None
        } else {
            Some(join_path("/address/", value))
        },
        _ => None,
    }
}

/// An entry of the QCash menu.
#[derive(Clone, Copy, Debug, PartialEq, Eq, Structural)]
pub enum QCashAction {
    /// `b` or `back` (any case, white space around it): back to the main menu.
    Back,
    Withdraw,
    Deposit,
    Inspect,
    Sync,
    List,
    Backup,
    Recover,
    Track,
    /// Any other answer (`Unknown QCash selection.`).
    Unknown,
}

/// The QCash entry that the typed line selects: going back for a back
/// answer, else the entry of the trimmed answer.
pub open spec fn qcash_action_of(line: Seq<char>) -> QCashAction {
    let choice = trim(line);
    if back_answer(line) {
        QCashAction::Back
    } else if choice == "1"@ {
        QCashAction::Withdraw
    } else if choice == "2"@ {
        QCashAction::Deposit
    } else if choice == "3"@ {
        QCashAction::Inspect
    } else if choice == "4"@ {
        QCashAction::Sync
    } else if choice == "5"@ {
        QCashAction::List
    } else if choice == "6"@ {
        QCashAction::Backup
    } else if choice == "7"@ {
        QCashAction::Recover
    } else if choice == "8"@ {
        QCashAction::Track
    } else {
        QCashAction::Unknown
    }
}

/// The QCash entry that the typed `line` selects; see `qcash_action_of`.
pub fn menu_qcash(line: &str) -> (a: QCashAction)
    ensures
        a == qcash_action_of(line@),
{
    if is_back(line) {
        return QCashAction::Back;
    }
    let owned = trimmed(line);
    let choice = owned.as_str();
    if str_eq(choice, "1") {
        QCashAction::Withdraw
    } else if str_eq(choice, "2") {
        QCashAction::Deposit
    } else if str_eq(choice, "3") {
        QCashAction::Inspect
    } else if str_eq(choice, "4") {
        QCashAction::Sync
    } else if str_eq(choice, "5") {
        QCashAction::List
    } else if str_eq(choice, "6") {
        QCashAction::Backup
    } else if str_eq(choice, "7") {
        QCashAction::Recover
    } else if str_eq(choice, "8") {
        QCashAction::Track
    } else {
        QCashAction::Unknown
    }
}

/// How a node response is shown.
#[derive(Clone, Copy, Debug, PartialEq, Eq, Structural)]
pub enum ResponseView {
    Health,
    Status,
    Chain,
    ChainStats,
    Peers,
    Balance,
    LatestBlocks,
    Block,
    Transaction,
    Address,
    Accounts,
    Mempool,
    /// Anything else: the JSON itself, pretty-printed.
    Pretty,
}

/// How the response to a request for `path` is shown.
pub open spec fn view_of(path: Seq<char>) -> ResponseView {
    if path == "/health"@ {
        ResponseView::Health
    } else if path == "/status"@ {
        ResponseView::Status
    } else if path == "/chain"@ {
        ResponseView::Chain
    } else if path == "/stats"@ || path == "/chain/stats"@ {
        ResponseView::ChainStats
    } else if path == "/peers"@ {
        ResponseView::Peers
    } else if "/balance/"@.is_prefix_of(path) {
        ResponseView::Balance
    } else if path == "/blocks/latest"@ {
        ResponseView::LatestBlocks
    } else if "/blocks/"@.is_prefix_of(path) {
        ResponseView::Block
    } else if "/tx/"@.is_prefix_of(path) {
        ResponseView::Transaction
    } else if "/address/"@.is_prefix_of(path) {
        ResponseView::Address
    } else if path == "/accounts"@ {
        ResponseView::Accounts
    } else if path == "/mempool"@ {
        ResponseView::Mempool
    } else {
        ResponseView::Pretty
    }
}

/// How the response to a request for `path` is shown; see `view_of`.
pub fn print_rpc_response(path: &str) -> (v: ResponseView)
    ensures
        v == view_of(path@),
{
    if str_eq(path, "/health") {
        ResponseView::Health
    } else if str_eq(path, "/status") {
        ResponseView::Status
    } else if str_eq(path, "/chain") {
        ResponseView::Chain
    } else if str_eq(path, "/stats") || str_eq(path, "/chain/stats") {
        ResponseView::ChainStats
    } else if str_eq(path, "/peers") {
        ResponseView::Peers
    } else if has_prefix(path, "/balance/") {
        ResponseView::Balance
    } else if str_eq(path, "/blocks/latest") {
        ResponseView::LatestBlocks
    } else if has_prefix(path, "/blocks/") {
        ResponseView::Block
    } else if has_prefix(path, "/tx/") {
        ResponseView::Transaction
    } else if has_prefix(path, "/address/") {
        ResponseView::Address
    } else if str_eq(path, "/accounts") {
        ResponseView::Accounts
    } else if str_eq(path, "/mempool") {
        ResponseView::Mempool
    } else {
        ResponseView::Pretty
    }
}

/// The command line that the menu's "Send coin" hands to `send`: recipient
/// and amount, `--fee` unless the fee answer is exactly `auto`, then the
/// wallet file and the node.
pub open spec fn send_coin_line(
    to: Seq<char>,
    amount: Seq<char>,
    fee: Seq<char>,
    wallet_path: Seq<char>,
    rpc_addr: Seq<char>,
) -> Seq<Seq<char>> {
    let fee_part = if fee == "auto"@ {
        Seq::empty()
    } else {
        seq!["--fee"@, fee]
    };
    seq![to, amount] + fee_part + seq!["--wallet"@, wallet_path, "--rpc"@, rpc_addr]
}

/// The view of each `String` of `v`.
pub open spec fn views(v: Seq<String>) -> Seq<Seq<char>> {
    v.map_values(|s: String| s@)
}

/// The arguments of `send` built from the answers of "Send coin"; see `send_coin_line`.
pub fn send_coin_args(
    to: String,
    amount: String,
    fee: String,
    wallet_path: String,
    rpc_addr: String,
) -> (args: Vec<String>)
    ensures
        views(args@) == send_coin_line(to@, amount@, fee@, wallet_path@, rpc_addr@),
{
    let ghost (t, a, f, w, r) = (to@, amount@, fee@, wallet_path@, rpc_addr@);
    let mut args: Vec<String> = Vec::new();
    args.push(to);
    args.push(amount);
    if !str_eq(fee.as_str(), "auto") {
        args.push("--fee".to_owned());
        args.push(fee);
    }
    args.push("--wallet".to_owned());
    args.push(wallet_path);
    args.push("--rpc".to_owned());
    args.push(rpc_addr);
    assert(views(args@) =~= send_coin_line(t, a, f, w, r));
    args
}

/// The meaning of an answer `line` to a prompt that allows going back: the
/// trimmed answer, or `None` for `b`/`back`.
pub open spec fn back_prompt_answer(line: Seq<char>) -> Option<Seq<char>> {
    let value = trim(line);
    if back_answer(value) {
        None
    } else {
        Some(value)
    }
}

/// The meaning of an answer `line` to a prompt with a default: the default
/// for an empty answer, then as `back_prompt_answer`.
pub open spec fn default_prompt_answer(line: Seq<char>, default: Seq<char>) -> Option<Seq<char>> {
    let value = if trim(line).len() == 0 {
        default
    } else {
        trim(line)
    };
    if back_answer(value) {
        None
    } else {
        Some(value)
    }
}

/// What the answer `line` means; see `back_prompt_answer`.
pub fn prompt_back(line: &str) -> (r: Option<String>)
    ensures
        match back_prompt_answer(line@) {
            Some(v) => r matches Some(s) && s@ == v,
            None => r is None,
        },
{
    let value = trimmed(line);
    if is_back(value.as_str()) {
        None
    } else {
        Some(value)
    }
}

/// What the answer `line` means with `default` for an empty one; see
/// `default_prompt_answer`.
pub fn prompt_default_back(line: &str, default: &str) -> (r: Option<String>)
    ensures
        match default_prompt_answer(line@, default@) {
            Some(v) => r matches Some(s) && s@ == v,
            None => r is None,
        },
{
    let t = trimmed(line);
    let value = if t.as_str().is_empty() {
        default.to_owned()
    } else {
        t
    };
    if is_back(value.as_str()) {
        None
    } else {
        Some(value)
    }
}

/// The meaning of the answer to the `k`-th prompt of "Send coin": recipient
/// and amount allow going back; the fee defaults to `auto`, the wallet file to
/// `wallet.json`.
pub open spec fn send_coin_answer(k: int, line: Seq<char>) -> Option<Seq<char>> {
    if k < 2 {
        back_prompt_answer(line)
    } else if k == 2 {
        default_prompt_answer(line, "auto"@)
    } else {
        default_prompt_answer(line, "wallet.json"@)
    }
}

/// How many prompts of "Send coin" the typed lines answer (at most four).
pub open spec fn answered(lines: Seq<Seq<char>>) -> int {
    if lines.len() < 4 {
        lines.len() as int
    } else {
        4
    }
}

/// The first of the answered prompts (from `k` on) whose answer goes back, or
/// `answered(lines)` when none does.
pub open spec fn first_back(lines: Seq<Seq<char>>, k: int) -> int
    decreases answered(lines) - k,
{
    if k < 0 || k >= answered(lines) {
        answered(lines)
    } else if send_coin_answer(k, lines[k]) is None {
        k
    } else {
        first_back(lines, k + 1)
    }
}

/// Where "Send coin" stands after the typed lines.
pub enum SendCoinStep {
    /// Ask the prompt with this index (0 recipient, 1 amount, 2 fee, 3 wallet file).
    Ask(usize),
    /// An answer went back: the entry ends and nothing is sent.
    Back,
    /// All four answers are in: these are the arguments of
    /// `send <address> <amount> [options]` (`wallet_send_short`).
    Send(Vec<String>),
}

/// The menu's "Send coin", one typed line at a time: `lines` are the lines
/// typed so far, in prompt order; `rpc_addr` is the session's node. Each line
/// means what `send_coin_answer` says; the first back answer ends the entry
/// with nothing sent; with four answers the arguments are `send_coin_line`.
pub fn menu_send_coin(lines: &[String], rpc_addr: &str) -> (r: SendCoinStep)
    ensures
        ({
            let v = views(lines@);
            let n = answered(v);
            &&& first_back(v, 0) < n ==> r is Back
            &&& first_back(v, 0) == n && n < 4 ==> (r matches SendCoinStep::Ask(k) && k == n)
            &&& first_back(v, 0) == n && n == 4 ==> (r matches SendCoinStep::Send(args) && views(
                args@,
            ) == send_coin_line(
                send_coin_answer(0, v[0])->Some_0,
                send_coin_answer(1, v[1])->Some_0,
                send_coin_answer(2, v[2])->Some_0,
                send_coin_answer(3, v[3])->Some_0,
                rpc_addr@,
            ))
        }),
{
    let ghost v = views(lines@);
    let n: usize = if lines.len() < 4 {
        lines.len()
    } else {
        4
    };
    let mut meanings: Vec<String> = Vec::new();
    let mut k: usize = 0;
    while k < n
        invariant
            v == views(lines@),
            n == answered(v),
            k <= n,
            meanings@.len() == k,
            forall|j: int| 0 <= j < k ==> send_coin_answer(j, v[j]) == Some((#[trigger] meanings@[j])@),
            first_back(v, 0) == first_back(v, k as int),
        decreases n - k,
    {
        let line = lines[k].as_str();
        assert(v[k as int] == line@);
        let meaning = if k < 2 {
            prompt_back(line)
        } else if k == 2 {
            prompt_default_back(line, "auto")
        } else {
            prompt_default_back(line, "wallet.json")
        };
        match meaning {
            None => {
                return SendCoinStep::Back;
            },
            Some(m) => {
                meanings.push(m);
            },
        }
        k = k + 1;
    }
    if n < 4 {
        return SendCoinStep::Ask(n);
    }
    let wallet_path = meanings.pop().unwrap();
    let fee = meanings.pop().unwrap();
    let amount = meanings.pop().unwrap();
    let to = meanings.pop().unwrap();
    SendCoinStep::Send(send_coin_args(to, amount, fee, wallet_path, rpc_addr.to_owned()))
}

} // verus!
