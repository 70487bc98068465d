use paqus_wallet::amount::{format_xpq, XPQ};
use paqus_wallet::names::{cash_lifecycle, is_back, qcash_lookup_name, LookupError};

#[test]
fn formats_xpq_with_protocol_decimals() {
    assert_eq!(format_xpq(XPQ / 100), "0.010000 XPQ");
    assert_eq!(format_xpq(50 * XPQ + XPQ / 100), "50.010000 XPQ");
}

#[test]
fn classifies_qcash_file_lifecycle_suffixes() {
    assert_eq!(cash_lifecycle("coin.XPQ"), Some("ready"));
    assert_eq!(cash_lifecycle("coin.XPQ.pending"), None);
    assert_eq!(cash_lifecycle("coin.XPQ.deposit-pending"), None);
    assert_eq!(cash_lifecycle("coin.XPQ.spent"), None);
    assert_eq!(cash_lifecycle("wallet.json"), None);
}

#[test]
fn qcash_lookup_name_accepts_paths_and_rejects_unsafe_segments() {
    assert_eq!(
        qcash_lookup_name("./cash/100_E5D6217A74B06B8E.XPQ").unwrap(),
        "100_E5D6217A74B06B8E.XPQ"
    );
    assert_eq!(
        qcash_lookup_name("E5D6217A74B06B8E").unwrap(),
        "E5D6217A74B06B8E"
    );
    assert!(qcash_lookup_name("bad/name?x=1").is_err());
}

#[test]
fn cash_lifecycle_looks_at_the_file_name_only() {
    assert_eq!(cash_lifecycle("./cash/100_ABC.XPQ"), Some("ready"));
    assert_eq!(cash_lifecycle("/vault/dir.XPQ/"), Some("ready"));
    assert_eq!(cash_lifecycle("coin.xpq"), None);
    assert_eq!(cash_lifecycle(".XPQ/.."), None);
    assert_eq!(cash_lifecycle(""), None);
    assert_eq!(cash_lifecycle("XPQ"), None);
}

#[test]
fn lookup_name_errors_and_trimming() {
    assert_eq!(qcash_lookup_name("   "), Err(LookupError::Required));
    assert_eq!(qcash_lookup_name("dir/"), Ok("dir".to_string()));
    assert_eq!(qcash_lookup_name(".."), Err(LookupError::DotSegment));
    assert_eq!(qcash_lookup_name("."), Err(LookupError::DotSegment));
    assert_eq!(qcash_lookup_name(" .. "), Err(LookupError::DotSegment));
    assert_eq!(qcash_lookup_name("./cash/.."), Err(LookupError::UnsupportedCharacters));
    assert_eq!(qcash_lookup_name("..."), Ok("...".to_string()));
    assert_eq!(qcash_lookup_name(".XPQ"), Ok(".XPQ".to_string()));
    assert_eq!(qcash_lookup_name("a/b c"), Err(LookupError::UnsupportedCharacters));
    assert_eq!(qcash_lookup_name("  coin.XPQ  "), Ok("coin.XPQ".to_string()));
    assert_eq!(qcash_lookup_name("x/ spaced.XPQ "), Ok("spaced.XPQ".to_string()));
}

#[test]
fn lookup_name_is_stable() {
    for value in ["./cash/100_E5D6217A74B06B8E.XPQ", "E5D6217A74B06B8E", "  a-b_c.d  ", "x/..."] {
        let name = qcash_lookup_name(value).unwrap();
        assert!(!name.contains('/'));
        assert!(name != "." && name != "..");
        assert_eq!(qcash_lookup_name(&name).unwrap(), name);
    }
}

#[test]
fn back_answers() {
    assert!(is_back("b"));
    assert!(is_back(" BACK \n"));
    assert!(is_back("Back"));
    assert!(!is_back("backup"));
    assert!(!is_back(""));
    assert!(!is_back("bb"));
}
