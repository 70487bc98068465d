use paqus_wallet::menus::{
    fixed_rpc_path, handle_menu_choice, lookup_rpc_path, menu_qcash, menu_send_coin,
    parse_command, print_rpc_response, prompt_back, prompt_default_back, send_coin_args,
    wallet_cash, CashCommand, Command, MenuAction, QCashAction, ResponseView, SendCoinStep,
};

fn args(items: &[&str]) -> Vec<String> {
    items.iter().map(|s| s.to_string()).collect()
}

#[test]
fn commands_by_name_and_alias() {
    assert_eq!(parse_command(&args(&[])), Command::Menu);
    assert_eq!(parse_command(&args(&["cli"])), Command::Menu);
    assert_eq!(parse_command(&args(&["-h"])), Command::Help);
    assert_eq!(parse_command(&args(&["--version"])), Command::Version);
    assert_eq!(parse_command(&args(&["tracking"])), Command::Stats);
    assert_eq!(parse_command(&args(&["address-tracking", "x"])), Command::AddressStats);
    assert_eq!(parse_command(&args(&["qcash"])), Command::Cash);
    assert_eq!(parse_command(&args(&["pool-payout"])), Command::PoolPayout);
    assert_eq!(parse_command(&args(&["Send"])), Command::Unknown);
    assert_eq!(wallet_cash(&args(&[])), CashCommand::Missing);
    assert_eq!(wallet_cash(&args(&["status", "x"])), CashCommand::Track);
    assert_eq!(wallet_cash(&args(&["recover"])), CashCommand::Recover);
    assert_eq!(wallet_cash(&args(&["burn"])), CashCommand::Unknown);
}

#[test]
fn menu_entries() {
    assert_eq!(handle_menu_choice("b"), MenuAction::Back);
    assert_eq!(handle_menu_choice("back"), MenuAction::Back);
    assert_eq!(handle_menu_choice("BACK"), MenuAction::Unknown);
    assert_eq!(handle_menu_choice("5"), MenuAction::SendCoin);
    assert_eq!(handle_menu_choice("12"), MenuAction::BlockByHeight);
    assert_eq!(handle_menu_choice("20"), MenuAction::Unknown);
    assert_eq!(handle_menu_choice("21"), MenuAction::Unknown);
    assert_eq!(menu_qcash("1"), QCashAction::Withdraw);
    assert_eq!(menu_qcash("8"), QCashAction::Track);
    assert_eq!(menu_qcash("9"), QCashAction::Unknown);
    assert_eq!(menu_qcash(" 3 \n"), QCashAction::Inspect);
    assert_eq!(menu_qcash("b\n"), QCashAction::Back);
    assert_eq!(menu_qcash(" BACK "), QCashAction::Back);
    assert_eq!(menu_qcash("backup"), QCashAction::Unknown);
}

#[test]
fn menu_paths() {
    assert_eq!(fixed_rpc_path(MenuAction::Health), Some("/health"));
    assert_eq!(fixed_rpc_path(MenuAction::LatestBlocks), Some("/blocks/latest"));
    assert_eq!(fixed_rpc_path(MenuAction::BlockByHash), None);
    assert_eq!(
        lookup_rpc_path(MenuAction::BlockByHeight, "42"),
        Some("/blocks/42".to_string())
    );
    assert_eq!(
        lookup_rpc_path(MenuAction::BlockByHash, "ab"),
        Some("/blocks/hash/ab".to_string())
    );
    assert_eq!(
        lookup_rpc_path(MenuAction::TransactionByHash, "cd"),
        Some("/tx/cd".to_string())
    );
    assert_eq!(lookup_rpc_path(MenuAction::AddressExplorer, ""), None);
    assert_eq!(
        lookup_rpc_path(MenuAction::AddressExplorer, "pq1"),
        Some("/address/pq1".to_string())
    );
    assert_eq!(lookup_rpc_path(MenuAction::Health, "x"), None);
}

#[test]
fn response_views_by_path() {
    assert_eq!(print_rpc_response("/health"), ResponseView::Health);
    assert_eq!(print_rpc_response("/chain/stats"), ResponseView::ChainStats);
    assert_eq!(print_rpc_response("/stats"), ResponseView::ChainStats);
    assert_eq!(print_rpc_response("/balance/abc"), ResponseView::Balance);
    assert_eq!(print_rpc_response("/blocks/latest"), ResponseView::LatestBlocks);
    assert_eq!(print_rpc_response("/blocks/hash/ff"), ResponseView::Block);
    assert_eq!(print_rpc_response("/blocks/7"), ResponseView::Block);
    assert_eq!(print_rpc_response("/tx/ab"), ResponseView::Transaction);
    assert_eq!(print_rpc_response("/address/q"), ResponseView::Address);
    assert_eq!(print_rpc_response("/mempool"), ResponseView::Mempool);
    assert_eq!(print_rpc_response("/blocks"), ResponseView::Pretty);
    assert_eq!(print_rpc_response("/qcash/file/x"), ResponseView::Pretty);
}

#[test]
fn send_coin_arguments() {
    let s = |x: &str| x.to_string();
    assert_eq!(
        send_coin_args(s("to"), s("1"), s("auto"), s("w.json"), s("n:1")),
        args(&["to", "1", "--wallet", "w.json", "--rpc", "n:1"])
    );
    assert_eq!(
        send_coin_args(s("to"), s("1"), s("AUTO"), s("w.json"), s("n:1")),
        args(&["to", "1", "--fee", "AUTO", "--wallet", "w.json", "--rpc", "n:1"])
    );
    assert_eq!(
        send_coin_args(s("to"), s("1"), s("0.1"), s("w"), s("r")),
        args(&["to", "1", "--fee", "0.1", "--wallet", "w", "--rpc", "r"])
    );
}

#[test]
fn prompt_answers() {
    assert_eq!(prompt_back("  42 \n"), Some("42".to_string()));
    assert_eq!(prompt_back("B\n"), None);
    assert_eq!(prompt_back("\n"), Some(String::new()));
    assert_eq!(prompt_default_back("\n", "wallet.json"), Some("wallet.json".to_string()));
    assert_eq!(prompt_default_back(" x.json \n", "wallet.json"), Some("x.json".to_string()));
    assert_eq!(prompt_default_back("back\n", "wallet.json"), None);
    assert_eq!(prompt_default_back("   ", " b "), None);
}

fn step(lines: &[&str]) -> SendCoinStep {
    menu_send_coin(&args(lines), "n:1")
}

#[test]
fn send_coin_flow() {
    assert!(matches!(step(&[]), SendCoinStep::Ask(0)));
    assert!(matches!(step(&["to\n"]), SendCoinStep::Ask(1)));
    assert!(matches!(step(&["to\n", "2\n"]), SendCoinStep::Ask(2)));
    assert!(matches!(step(&["to\n", "2\n", "\n"]), SendCoinStep::Ask(3)));
    assert!(matches!(step(&["b\n"]), SendCoinStep::Back));
    assert!(matches!(step(&["to\n", " Back \n"]), SendCoinStep::Back));
    assert!(matches!(step(&["to\n", "2\n", "back\n"]), SendCoinStep::Back));
    assert!(matches!(step(&["to\n", "2\n", "\n", "b\n"]), SendCoinStep::Back));
    match step(&[" to \n", "2\n", "\n", "\n"]) {
        SendCoinStep::Send(line) => {
            assert_eq!(line, args(&["to", "2", "--wallet", "wallet.json", "--rpc", "n:1"]))
        }
        _ => panic!("send expected"),
    }
    match step(&["to\n", "2\n", "0.5\n", "w.json\n"]) {
        SendCoinStep::Send(line) => assert_eq!(
            line,
            args(&["to", "2", "--fee", "0.5", "--wallet", "w.json", "--rpc", "n:1"])
        ),
        _ => panic!("send expected"),
    }
}
