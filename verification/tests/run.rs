use coincheck::allocator::{allocate, get_buy_ratio};
use coincheck::balance::{
    contains_substr, get_crypto_balance, get_jpy_balance, my_currencies, my_managed_currencies,
    my_trading_currencies, Balance,
};
use coincheck::config::Config;
use coincheck::error::AppError;
use coincheck::fixed::{mul_scaled, SCALE};
use coincheck::fixed_window;
use coincheck::orchestrator::{Orchestrator, Step};
use coincheck::order::{NewOrder, OrderType};
use coincheck::rate::{parse_scaled, FetchRate, Rate};
use coincheck::report::{make_report, Holding};
use coincheck::signal::{Reason, SignalDiagnostics, TradeSignal};
use coincheck::ticker::Ticker;
use coincheck::transaction::{total_invested, TradeSide, Transaction};

fn config() -> Config {
    Config {
        ma_short: 2,
        ma_long: 3,
        ma_border_threshold_ratio: 60 * SCALE,
        sell_ratio: 400_000,
        buy_ratio: 300_000,
        spread_threshold: 1_000_000,
        min_trade_qty: 1_000,
        buy_threshold_1: 20_000 * SCALE,
        buy_threshold_2: 50_000 * SCALE,
        buy_threshold_3: 150_000 * SCALE,
        buy_ratio_1: 900_000,
        buy_ratio_2: 700_000,
        buy_ratio_3: 500_000,
        buy_ratio_default: 300_000,
    }
}

fn order_of(pair: &str, order_type: OrderType, crypto_amount: i64) -> NewOrder {
    let mut o = NewOrder::new(pair.to_string());
    o.order_type = order_type;
    o.crypto_amount = crypto_amount;
    o
}

#[test]
fn tiered_ratio_splits_fiat_over_buys() {
    // 30000 fiat sits at or above 20000 and below 50000, so the ratio is
    // 0.7; two buys each receive 30000 * 0.7 / 2 = 10500
    let per = get_buy_ratio(&config(), 30_000 * SCALE, 2).unwrap();
    assert_eq!(per, 10_500 * SCALE);
}

#[test]
fn tier_boundaries_select_expected_ratios() {
    let cfg = config();
    assert_eq!(get_buy_ratio(&cfg, 10_000 * SCALE, 1).unwrap(), 9_000 * SCALE);
    assert_eq!(get_buy_ratio(&cfg, 60_000 * SCALE, 1).unwrap(), 30_000 * SCALE);
    assert_eq!(get_buy_ratio(&cfg, 200_000 * SCALE, 1).unwrap(), 60_000 * SCALE);
}

#[test]
fn allocate_sizes_buys_and_puts_sells_first() {
    let orders = vec![
        order_of("btc", OrderType::MarketBuy, 0),
        order_of("eth", OrderType::MarketSell, 4_000),
        order_of("xrp", OrderType::Hold, 0),
        order_of("doge", OrderType::MarketBuy, 0),
    ];
    let sized = allocate(orders, 30_000 * SCALE, &config()).unwrap();
    let pairs: Vec<&str> = sized.iter().map(|o| o.pair.as_str()).collect();
    assert_eq!(pairs, vec!["eth", "btc", "xrp", "doge"]);
    assert_eq!(sized[0].order_type, OrderType::MarketSell);
    assert_eq!(sized[0].crypto_amount, 4_000);
    assert_eq!(sized[1].jpy_amount, 10_500 * SCALE);
    assert_eq!(sized[3].jpy_amount, 10_500 * SCALE);
    assert_eq!(sized[2].jpy_amount, 0);
}

#[test]
fn allocate_without_buys_only_reorders() {
    let orders = vec![
        order_of("xrp", OrderType::Hold, 0),
        order_of("eth", OrderType::MarketSell, 7),
    ];
    let sized = allocate(orders, 30_000 * SCALE, &config()).unwrap();
    assert_eq!(sized[0].pair, "eth");
    assert_eq!(sized[1].pair, "xrp");
}

#[test]
fn orchestrator_submits_sells_before_buys_and_never_calls_for_holds() {
    let orders = vec![
        order_of("btc", OrderType::MarketBuy, 0),
        order_of("eth", OrderType::MarketSell, 4_000),
        order_of("xrp", OrderType::Hold, 0),
    ];
    let sized = allocate(orders, 30_000 * SCALE, &config()).unwrap();
    let mut run = Orchestrator::new(sized);
    let mut submitted: Vec<String> = Vec::new();
    let mut persisted: Vec<String> = Vec::new();
    loop {
        match run.next_step() {
            Step::Done => break,
            Step::Record => {
                let rec = run.record_no_call();
                persisted.push(rec.pair.clone());
            },
            Step::Submit { .. } => {
                let pair = run.current().pair.clone();
                submitted.push(pair.clone());
                let rec = run.record_submitted(
                    true,
                    "[200 OK]".to_string(),
                    Some(1_700_000_000),
                    Some(Rate::new(pair, 102 * SCALE, 100 * SCALE).unwrap()),
                );
                persisted.push(rec.pair.clone());
            },
        }
    }
    assert_eq!(submitted, vec!["eth".to_string(), "btc".to_string()]);
    assert_eq!(
        persisted,
        vec!["eth".to_string(), "btc".to_string(), "xrp".to_string()]
    );
    assert!(run.should_summarize());
}

#[test]
fn failed_submissions_do_not_trigger_a_summary() {
    let orders = vec![
        order_of("eth", OrderType::MarketSell, 4_000),
        order_of("xrp", OrderType::Hold, 0),
    ];
    let mut run = Orchestrator::new(orders);
    let rec = run.record_submitted(false, "[400 Bad Request]".to_string(), None, None);
    assert_eq!(rec.api_call_success_at, None);
    assert_eq!(rec.api_message, Some("[400 Bad Request]".to_string()));
    let _ = run.record_no_call();
    assert!(run.finished());
    assert!(!run.should_summarize());
}

#[test]
fn successful_submission_attaches_rate_and_timestamp() {
    let orders = vec![order_of("eth", OrderType::MarketSell, 4_000)];
    let mut run = Orchestrator::new(orders);
    let rate = Rate::new("eth".to_string(), 102 * SCALE, 100 * SCALE).unwrap();
    assert_eq!(rate.spread_ratio, 2 * SCALE);
    let rec = run.record_submitted(true, "[200 OK]".to_string(), Some(42), Some(rate));
    assert_eq!(rec.api_call_success_at, Some(42));
    assert_eq!(rec.buy_rate, Some(102 * SCALE));
    assert_eq!(rec.sell_rate, Some(100 * SCALE));
    assert_eq!(rec.spread_ratio, Some(2 * SCALE));
    assert!(run.should_summarize());
}

#[test]
fn report_values_each_holding_and_fiat() {
    // 0.5 btc at 3_000_000 and 2 eth at 400_000, plus 10_000 fiat
    let holdings = vec![
        Holding {
            currency: "btc".to_string(),
            amount: 500_000,
            sell_rate: 3_000_000 * SCALE,
        },
        Holding {
            currency: "eth".to_string(),
            amount: 2 * SCALE,
            sell_rate: 400_000 * SCALE,
        },
    ];
    let report = make_report(&holdings, 10_000 * SCALE, 2_000_000 * SCALE).unwrap();
    assert_eq!(report.summary_records.len(), 3);
    assert_eq!(report.summary_records[0].currency, "btc");
    assert_eq!(report.summary_records[0].jpy_value, 1_500_000 * SCALE);
    assert_eq!(report.summary_records[1].currency, "eth");
    assert_eq!(report.summary_records[1].jpy_value, 800_000 * SCALE);
    assert_eq!(report.summary_records[2].currency, "jpy");
    assert_eq!(report.summary_records[2].rate, 0);
    assert_eq!(report.summary_records[2].jpy_value, 10_000 * SCALE);
    assert_eq!(report.summary.total_jpy_value, 2_310_000 * SCALE);
    assert_eq!(report.summary.total_invested, 2_000_000 * SCALE);
    assert_eq!(report.summary.pl, 310_000 * SCALE);
}

#[test]
fn invested_total_sums_buy_rows_only() {
    let tx = |side: TradeSide, price: i64| Transaction {
        order_id: 1,
        created_at: 0,
        rate: 0,
        amount: 0,
        order_type: side,
        pair: "btc_jpy".to_string(),
        price,
        fee_currency: String::new(),
        fee: 0,
    };
    let ledger = vec![
        tx(TradeSide::Buy, 100 * SCALE),
        tx(TradeSide::Sell, 70 * SCALE),
        tx(TradeSide::Buy, 50 * SCALE),
    ];
    assert_eq!(total_invested(&ledger), Ok(150 * SCALE));
    let huge = vec![tx(TradeSide::Buy, i64::MAX), tx(TradeSide::Buy, i64::MAX)];
    assert_eq!(total_invested(&huge), Err(AppError::Overflow));
}

#[test]
fn balances_filter_to_trading_currencies() {
    let entry = |name: &str, amount: i64| Balance {
        currency: name.to_string(),
        amount,
    };
    let balances = vec![
        entry("jpy", 10_000 * SCALE),
        entry("btc", 500_000),
        entry("btc_tsumitate", 300_000),
        entry("eth", 0),
        entry("xrp", 42),
    ];
    assert_eq!(my_currencies(&balances), vec!["jpy", "btc", "btc_tsumitate", "xrp"]);
    assert_eq!(my_trading_currencies(&balances), vec!["btc", "xrp"]);
    assert_eq!(get_jpy_balance(&balances), 10_000 * SCALE);
    assert_eq!(get_crypto_balance(&balances, "btc"), 500_000);
    assert_eq!(get_crypto_balance(&balances, "doge"), 0);
}

#[test]
fn managed_currencies_drop_reserved_wallets() {
    let balances = vec![
        Balance { currency: "btc_tumitate".to_string(), amount: 5 },
        Balance { currency: "btc".to_string(), amount: 5 },
    ];
    assert_eq!(my_managed_currencies(&balances), vec!["btc"]);
    assert!(contains_substr("btc_tumitate", "tumitate"));
    assert!(!contains_substr("btc", "tumitate"));
    assert!(contains_substr("anything", ""));
}

#[test]
fn rate_strings_parse_to_scaled_amounts() {
    assert_eq!(parse_scaled("123.45"), Ok(123_450_000));
    assert_eq!(parse_scaled("5"), Ok(5_000_000));
    assert_eq!(parse_scaled("0.000001"), Ok(1));
    assert_eq!(parse_scaled("1.2345678"), Ok(1_234_567));
    assert_eq!(parse_scaled("0.0"), Ok(0));
    let quote = FetchRate { rate: "15000000.5".to_string() };
    assert_eq!(quote.to_amount(), Ok(15_000_000_500_000));
}

#[test]
fn malformed_rate_strings_are_rejected() {
    assert_eq!(parse_scaled(""), Err(AppError::InvalidData));
    assert_eq!(parse_scaled("."), Err(AppError::InvalidData));
    assert_eq!(parse_scaled(".5"), Err(AppError::InvalidData));
    assert_eq!(parse_scaled("5."), Err(AppError::InvalidData));
    assert_eq!(parse_scaled("1.2.3"), Err(AppError::InvalidData));
    assert_eq!(parse_scaled("12a"), Err(AppError::InvalidData));
    assert_eq!(parse_scaled("-1"), Err(AppError::InvalidData));
    assert_eq!(parse_scaled("99999999999999999999"), Err(AppError::Overflow));
}

#[test]
fn purge_count_follows_retention_policy() {
    assert_eq!(Ticker::purge_count(999, 1_000, 100_000), Some(0));
    assert_eq!(Ticker::purge_count(1_000, 1_000, 100_000), Some(100));
    assert_eq!(Ticker::purge_count(1_001, 1_000, 100_000), Some(101));
}

#[test]
fn fixed_threshold_variant_sizes_immediately() {
    let tick = |last: i64, ask: i64| Ticker {
        pair: "btc".to_string(),
        last,
        bid: 100 * SCALE,
        ask,
        high: last,
        low: last,
        volume: 0,
        timestamp: 0,
    };
    let history = vec![
        tick(110 * SCALE, 100 * SCALE),
        tick(100 * SCALE, 100 * SCALE),
        tick(90 * SCALE, 100 * SCALE),
    ];
    // golden cross buys 30 percent of the fiat balance on the spot
    let r = fixed_window::determine_trade_signal(
        &config(),
        &history,
        100 * SCALE,
        100 * SCALE,
        10_000 * SCALE,
        10_000,
    )
    .unwrap();
    assert_eq!(r, fixed_window::TradeSignal::MarketBuy(3_000 * SCALE));
    // a spread above the fixed threshold holds
    let held = fixed_window::determine_trade_signal(
        &config(),
        &history,
        100 * SCALE,
        102 * SCALE,
        10_000 * SCALE,
        10_000,
    )
    .unwrap();
    assert_eq!(held, fixed_window::TradeSignal::Hold);
    // no history means no averages
    let none = fixed_window::determine_trade_signal(
        &config(),
        &Vec::new(),
        100 * SCALE,
        100 * SCALE,
        10_000 * SCALE,
        10_000,
    )
    .unwrap();
    assert_eq!(none, fixed_window::TradeSignal::InsufficientData);
}

#[test]
fn signals_flatten_into_order_records() {
    let diag = SignalDiagnostics {
        spread_threshold: Some(1_500_000),
        spread_ratio: Some(1_000_000),
        ma_short: Some(5),
        ma_long: Some(20),
        ma_win_rate: Some(72 * SCALE),
        reason: None,
    };
    let mut draft = NewOrder::new("btc".to_string());
    assert_eq!(draft.order_type, OrderType::Hold);
    assert_eq!(draft.rate, Some(0));
    TradeSignal::MarketSell { amount: 4_000, diag }.apply_to(&mut draft);
    assert_eq!(draft.order_type, OrderType::MarketSell);
    assert_eq!(draft.crypto_amount, 4_000);
    assert_eq!(draft.jpy_amount, 0);
    assert_eq!(draft.ma_short, Some(5));
    assert_eq!(draft.spread_threshold, Some(1_500_000));
    TradeSignal::MarketBuy { amount: 7, diag }.apply_to(&mut draft);
    assert_eq!(draft.order_type, OrderType::MarketBuy);
    assert_eq!(draft.jpy_amount, 7);
    assert_eq!(draft.crypto_amount, 0);
    assert_eq!(OrderType::MarketBuy.as_str(), "market_buy");
    assert_eq!(OrderType::InsufficientData.as_str(), "insufficient_data");
}

#[test]
fn scaled_multiplication_is_exact_and_checked() {
    assert_eq!(mul_scaled(10_000, 400_000), Some(4_000));
    assert_eq!(mul_scaled(-10_000, 400_000), Some(-4_000));
    assert_eq!(mul_scaled(i64::MAX, i64::MAX), None);
    assert!(AppError::Overflow.message().len() > 0);
    assert!(Reason::SpreadUnfavorable.message().len() > 0);
}
