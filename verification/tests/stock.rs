use touch_fish::platform::stock::{add_watch, delete_watch, normalize_code, to_sina_symbol, Market};
use touch_fish::config::StockWatchItem;
use touch_fish::platform::stock::{sina_list_url, sina_quote_fields, yahoo_chart_url};
use touch_fish::platform::stock::{display_name, sync_names, QuoteName};

#[test]
fn normalizes_codes_by_market() {
    assert_eq!(normalize_code("spcx"), "SPCX");
    assert_eq!(normalize_code("159941"), "159941");
}

#[test]
fn detects_markets() {
    assert_eq!(Market::detect("600000"), Market::AShare);
    assert_eq!(Market::detect("NVDA"), Market::Us);
    assert_eq!(normalize_code("  qqq "), "QQQ");
}

#[test]
fn sina_symbols() {
    assert_eq!(to_sina_symbol("600000"), "sh600000");
    assert_eq!(to_sina_symbol("510300"), "sh510300");
    assert_eq!(to_sina_symbol("113050"), "sh113050");
    assert_eq!(to_sina_symbol("159941"), "sz159941");
    assert_eq!(to_sina_symbol("SPCX"), "gb_spcx");
    assert_eq!(to_sina_symbol(".IXIC"), "gb_ixic");
    assert_eq!(to_sina_symbol("SH600000"), "sh600000");
}

#[test]
fn watch_list_add_is_idempotent_and_delete_removes() {
    let mut items: Vec<StockWatchItem> = Vec::new();
    assert!(add_watch(&mut items, " spcx "));
    assert!(!add_watch(&mut items, "SPCX"));
    assert!(add_watch(&mut items, "159941"));
    assert_eq!(items.len(), 2);
    assert_eq!(items[0].code, "SPCX");
    delete_watch(&mut items, "spcx");
    assert_eq!(items.len(), 1);
    assert_eq!(items[0].code, "159941");
}

#[test]
fn sina_fields_and_urls() {
    let line = r#"var hq_str_sz159941="纳指ETF,1.690,1.698,1.664";"#;
    assert_eq!(
        sina_quote_fields(line),
        Some(vec!["纳指ETF".to_string(), "1.690".to_string(), "1.698".to_string(), "1.664".to_string()])
    );
    assert_eq!(sina_quote_fields("no quotes"), None);
    let items = vec![
        StockWatchItem { code: "159941".into(), name: String::new() },
        StockWatchItem { code: " spcx ".into(), name: String::new() },
    ];
    assert_eq!(sina_list_url(&items), "https://hq.sinajs.cn/list=sz159941,gb_spcx");
    assert_eq!(
        yahoo_chart_url("BRK B"),
        "https://query1.finance.yahoo.com/v8/finance/chart/BRK%20B?interval=1m&range=1d&includePrePost=true"
    );
}

#[test]
fn names_follow_quotes() {
    let mut items = vec![
        StockWatchItem { code: "159941".into(), name: String::new() },
        StockWatchItem { code: "spcx".into(), name: "SpaceX".into() },
    ];
    let quotes = vec![QuoteName { symbol: "159941".into(), name: "纳指ETF".into() }];
    assert!(sync_names(&mut items, &quotes));
    assert_eq!(items[0].name, "纳指ETF");
    assert_eq!(items[1].name, "SpaceX");
    assert!(!sync_names(&mut items, &quotes));
    assert_eq!(display_name("SPCX", "SPCX", &items), "SpaceX");
    assert_eq!(display_name("纳指", "159941", &items), "纳指");
}

#[test]
fn normalizing_twice_changes_nothing() {
    for code in ["  aapl ", "600519", " brk.b", "Tsla", "ß", "  "] {
        let once = touch_fish::platform::stock::normalize_code(code);
        assert_eq!(touch_fish::platform::stock::normalize_code(&once), once);
        assert_eq!(touch_fish::platform::stock::normalize_code(code.trim()), once);
    }
    assert_eq!(touch_fish::platform::stock::normalize_code(" brk.b "), "BRK.B");
}
