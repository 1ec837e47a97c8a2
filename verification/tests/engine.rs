use coincheck::config::Config;
use coincheck::error::AppError;
use coincheck::fixed::SCALE;
use coincheck::history::moving_average;
use coincheck::optimizer::OptimizedMa;
use coincheck::signal::{Reason, TradeSignal};
use coincheck::spread::{get_dynamic_spread_threshold, relative_spread};
use coincheck::strategy::{BasicStrategy, MaOptimizerStrategy, Strategy};
use coincheck::ticker::Ticker;

fn tick(last: i64, bid: i64, ask: i64) -> Ticker {
    Ticker {
        pair: "btc".to_string(),
        last,
        bid,
        ask,
        high: last,
        low: last,
        volume: 0,
        timestamp: 0,
    }
}

fn config() -> Config {
    Config {
        ma_short: 2,
        ma_long: 3,
        ma_border_threshold_ratio: 60 * SCALE,
        sell_ratio: 400_000,
        buy_ratio: 300_000,
        spread_threshold: 1_000_000,
        min_trade_qty: 1_000,
        buy_threshold_1: 20_000 * SCALE,
        buy_threshold_2: 50_000 * SCALE,
        buy_threshold_3: 150_000 * SCALE,
        buy_ratio_1: 900_000,
        buy_ratio_2: 700_000,
        buy_ratio_3: 500_000,
        buy_ratio_default: 300_000,
    }
}

fn row(pair: &str, short: i32, long: i32, win_rate: i64) -> OptimizedMa {
    OptimizedMa {
        pair: pair.to_string(),
        short_ma: short,
        long_ma: long,
        offset_minutes: 15,
        win_rate_pct: Some(win_rate),
        total: Some(10),
        wins: Some(7),
    }
}

/// Flat spreads, golden-cross prices: newest-first lasts 110, 100, 90.
fn golden_history() -> Vec<Ticker> {
    vec![
        tick(110 * SCALE, 100 * SCALE, 100 * SCALE),
        tick(100 * SCALE, 100 * SCALE, 100 * SCALE),
        tick(90 * SCALE, 100 * SCALE, 100 * SCALE),
    ]
}

/// Flat spreads, dead-cross prices: newest-first lasts 90, 100, 110.
fn dead_history() -> Vec<Ticker> {
    vec![
        tick(90 * SCALE, 100 * SCALE, 100 * SCALE),
        tick(100 * SCALE, 100 * SCALE, 100 * SCALE),
        tick(110 * SCALE, 100 * SCALE, 100 * SCALE),
    ]
}

#[test]
fn golden_cross_emits_placeholder_buy() {
    let rows = vec![row("btc", 2, 3, 72 * SCALE)];
    let r = MaOptimizerStrategy
        .determine_trade_signal(
            &config(),
            &rows,
            &"btc".to_string(),
            &golden_history(),
            100 * SCALE,
            100 * SCALE,
            10_000,
        )
        .unwrap();
    match r {
        TradeSignal::MarketBuy { amount, diag } => {
            assert_eq!(amount, 0);
            assert_eq!(diag.ma_short, Some(2));
            assert_eq!(diag.ma_long, Some(3));
            assert_eq!(diag.ma_win_rate, Some(72 * SCALE));
            assert_eq!(diag.spread_ratio, Some(0));
            assert_eq!(diag.spread_threshold, Some(0));
        },
        _ => panic!("expected a market buy"),
    }
}

#[test]
fn dead_cross_sells_ratio_of_balance() {
    // 0.01 crypto at sell ratio 0.4 sells exactly 0.004
    let rows = vec![row("btc", 2, 3, 72 * SCALE)];
    let r = MaOptimizerStrategy
        .determine_trade_signal(
            &config(),
            &rows,
            &"btc".to_string(),
            &dead_history(),
            100 * SCALE,
            100 * SCALE,
            10_000,
        )
        .unwrap();
    match r {
        TradeSignal::MarketSell { amount, .. } => assert_eq!(amount, 4_000),
        _ => panic!("expected a market sell"),
    }
}

#[test]
fn dead_cross_below_minimum_holds() {
    // 0.01 crypto at sell ratio 0.05 would sell 0.0005, below the 0.001 minimum
    let mut cfg = config();
    cfg.sell_ratio = 50_000;
    let rows = vec![row("btc", 2, 3, 72 * SCALE)];
    let r = MaOptimizerStrategy
        .determine_trade_signal(
            &cfg,
            &rows,
            &"btc".to_string(),
            &dead_history(),
            100 * SCALE,
            100 * SCALE,
            10_000,
        )
        .unwrap();
    match r {
        TradeSignal::Hold { diag } => assert_eq!(diag.reason, Some(Reason::BelowMinimumSellSize)),
        _ => panic!("expected a hold"),
    }
}

#[test]
fn unfavorable_spread_holds_regardless_of_cross() {
    // history spreads are all 1.5 percent, so the threshold is 1.5;
    // the live quote's spread is 2.0
    let history = vec![
        tick(110 * SCALE, 100 * SCALE, 101_500_000),
        tick(100 * SCALE, 100 * SCALE, 101_500_000),
        tick(90 * SCALE, 100 * SCALE, 101_500_000),
    ];
    let rows = vec![row("btc", 2, 3, 72 * SCALE)];
    let r = MaOptimizerStrategy
        .determine_trade_signal(
            &config(),
            &rows,
            &"btc".to_string(),
            &history,
            100 * SCALE,
            102 * SCALE,
            10_000,
        )
        .unwrap();
    match r {
        TradeSignal::Hold { diag } => {
            assert_eq!(diag.reason, Some(Reason::SpreadUnfavorable));
            assert_eq!(diag.spread_ratio, Some(2_000_000));
            assert_eq!(diag.spread_threshold, Some(1_500_000));
        },
        _ => panic!("expected a hold"),
    }
}

#[test]
fn selector_picks_highest_win_rate() {
    let rows = vec![row("btc", 5, 20, 72 * SCALE), row("btc", 6, 18, 55 * SCALE)];
    let best = OptimizedMa::find_best_for_ma(&rows, &"btc".to_string()).unwrap();
    assert_eq!(best.short_ma, 5);
    assert_eq!(best.long_ma, 20);
    assert_eq!(best.win_rate_pct, 72 * SCALE);
}

#[test]
fn selector_ignores_other_pairs_and_low_rates() {
    let rows = vec![row("eth", 5, 20, 72 * SCALE), row("btc", 6, 18, 40 * SCALE)];
    assert!(OptimizedMa::find_best_for_ma(&rows, &"btc".to_string()).is_none());
}

#[test]
fn untrusted_win_rate_holds_with_diagnostics() {
    // a stored pair below the 60 percent border is rejected, carrying its data
    let rows = vec![row("btc", 6, 18, 55 * SCALE)];
    let r = MaOptimizerStrategy
        .determine_trade_signal(
            &config(),
            &rows,
            &"btc".to_string(),
            &golden_history(),
            100 * SCALE,
            100 * SCALE,
            10_000,
        )
        .unwrap();
    match r {
        TradeSignal::Hold { diag } => {
            assert_eq!(diag.reason, Some(Reason::LowWinRate));
            assert_eq!(diag.ma_short, Some(6));
            assert_eq!(diag.ma_long, Some(18));
            assert_eq!(diag.ma_win_rate, Some(55 * SCALE));
        },
        _ => panic!("expected a hold"),
    }
}

#[test]
fn no_optimizer_rows_holds() {
    let r = MaOptimizerStrategy
        .determine_trade_signal(
            &config(),
            &Vec::new(),
            &"btc".to_string(),
            &golden_history(),
            100 * SCALE,
            100 * SCALE,
            10_000,
        )
        .unwrap();
    match r {
        TradeSignal::Hold { diag } => assert_eq!(diag.reason, Some(Reason::NoOptimizerData)),
        _ => panic!("expected a hold"),
    }
}

#[test]
fn empty_history_is_insufficient_data() {
    let rows = vec![row("btc", 2, 3, 72 * SCALE)];
    let r = MaOptimizerStrategy
        .determine_trade_signal(
            &config(),
            &rows,
            &"btc".to_string(),
            &Vec::new(),
            100 * SCALE,
            100 * SCALE,
            10_000,
        )
        .unwrap();
    match r {
        TradeSignal::InsufficientData { diag } => {
            assert_eq!(diag.reason, Some(Reason::InsufficientHistory));
        },
        _ => panic!("expected insufficient data"),
    }
}

#[test]
fn equal_averages_hold() {
    let history = vec![
        tick(100 * SCALE, 100 * SCALE, 100 * SCALE),
        tick(100 * SCALE, 100 * SCALE, 100 * SCALE),
        tick(100 * SCALE, 100 * SCALE, 100 * SCALE),
    ];
    let rows = vec![row("btc", 2, 3, 72 * SCALE)];
    let r = MaOptimizerStrategy
        .determine_trade_signal(
            &config(),
            &rows,
            &"btc".to_string(),
            &history,
            100 * SCALE,
            100 * SCALE,
            10_000,
        )
        .unwrap();
    match r {
        TradeSignal::Hold { diag } => assert_eq!(diag.reason, Some(Reason::EqualAverages)),
        _ => panic!("expected a hold"),
    }
}

#[test]
fn basic_strategy_uses_configured_windows() {
    let r = BasicStrategy
        .determine_trade_signal(
            &config(),
            &Vec::new(),
            &"btc".to_string(),
            &golden_history(),
            100 * SCALE,
            100 * SCALE,
            10_000,
        )
        .unwrap();
    match r {
        TradeSignal::MarketBuy { amount, diag } => {
            assert_eq!(amount, 0);
            assert_eq!(diag.ma_short, Some(2));
            assert_eq!(diag.ma_long, Some(3));
            assert_eq!(diag.ma_win_rate, None);
        },
        _ => panic!("expected a market buy"),
    }
}

#[test]
fn basic_strategy_sells_without_minimum_check() {
    // the fixed-window variant sells even below the minimum quantity
    let mut cfg = config();
    cfg.sell_ratio = 50_000;
    let r = BasicStrategy
        .determine_trade_signal(
            &cfg,
            &Vec::new(),
            &"btc".to_string(),
            &dead_history(),
            100 * SCALE,
            100 * SCALE,
            10_000,
        )
        .unwrap();
    match r {
        TradeSignal::MarketSell { amount, .. } => assert_eq!(amount, 500),
        _ => panic!("expected a market sell"),
    }
}

#[test]
fn moving_average_exact_values() {
    let history = golden_history();
    assert_eq!(moving_average(&history, 2), Some(105 * SCALE));
    assert_eq!(moving_average(&history, 3), Some(100 * SCALE));
    // a window beyond the stored rows averages what is there
    assert_eq!(moving_average(&history, 10), Some(100 * SCALE));
    assert_eq!(moving_average(&history, 0), None);
    assert_eq!(moving_average(&Vec::new(), 2), None);
}

#[test]
fn moving_average_repeated_reads_agree() {
    let history = golden_history();
    let first = moving_average(&history, 2);
    let second = moving_average(&history, 2);
    assert_eq!(first, second);
}

#[test]
fn spread_threshold_is_median_plus_deviation() {
    // spreads of 1, 2 and 3 percent: median 2, sample deviation 1
    let history = vec![
        tick(100 * SCALE, 100 * SCALE, 101 * SCALE),
        tick(100 * SCALE, 100 * SCALE, 102 * SCALE),
        tick(100 * SCALE, 100 * SCALE, 103 * SCALE),
    ];
    assert_eq!(get_dynamic_spread_threshold(&history), Ok(3_000_000));
}

#[test]
fn spread_threshold_single_sample_has_no_deviation() {
    let history = vec![tick(100 * SCALE, 100 * SCALE, 101_500_000)];
    assert_eq!(get_dynamic_spread_threshold(&history), Ok(1_500_000));
}

#[test]
fn spread_threshold_even_count_averages_middles() {
    // spreads of 1, 2, 3 and 4 percent: median (2+3)/2, deviation isqrt(5/3 pct^2)
    let history = vec![
        tick(100 * SCALE, 100 * SCALE, 101 * SCALE),
        tick(100 * SCALE, 100 * SCALE, 102 * SCALE),
        tick(100 * SCALE, 100 * SCALE, 103 * SCALE),
        tick(100 * SCALE, 100 * SCALE, 104 * SCALE),
    ];
    // the squared deviations are 1.5^2, 0.5^2, 0.5^2 and 1.5^2 percent^2,
    // so the sample variance is 5_000_000_000_000 / 3 and the deviation
    // its integer square root, 1_290_994
    assert_eq!(get_dynamic_spread_threshold(&history), Ok(2_500_000 + 1_290_994));
}

#[test]
fn spread_threshold_empty_history_errors() {
    assert_eq!(get_dynamic_spread_threshold(&Vec::new()), Err(AppError::EmptyHistory));
}

#[test]
fn spread_threshold_zero_bid_errors() {
    let history = vec![tick(100 * SCALE, 0, 100 * SCALE)];
    assert_eq!(get_dynamic_spread_threshold(&history), Err(AppError::ZeroBid));
}

#[test]
fn inverted_quotes_yield_negative_spread() {
    // bid above ask is tolerated and gives a negative relative spread
    assert_eq!(relative_spread(100 * SCALE, 99 * SCALE), Ok(-1_000_000));
    assert_eq!(relative_spread(0, 100), Err(AppError::ZeroBid));
}

#[test]
fn zero_bid_in_live_quote_skips_currency() {
    let rows = vec![row("btc", 2, 3, 72 * SCALE)];
    let r = MaOptimizerStrategy.determine_trade_signal(
        &config(),
        &rows,
        &"btc".to_string(),
        &golden_history(),
        0,
        100 * SCALE,
        10_000,
    );
    assert_eq!(r, Err(AppError::ZeroBid));
}

#[test]
fn oversized_sell_amount_errors() {
    let mut cfg = config();
    cfg.sell_ratio = i64::MAX;
    let rows = vec![row("btc", 2, 3, 72 * SCALE)];
    let r = MaOptimizerStrategy.determine_trade_signal(
        &cfg,
        &rows,
        &"btc".to_string(),
        &dead_history(),
        100 * SCALE,
        100 * SCALE,
        i64::MAX,
    );
    assert_eq!(r, Err(AppError::Overflow));
}
