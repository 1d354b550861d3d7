use deckstats::category::Category;
use deckstats::stats::{
    calculate_turns, compute_hit_chances, falling_factorial, commander_with_categories, GameFormat, GameFormatParseError, HitChance,
    StatsError,
};

fn falling(a: u64, k: u64) -> f64 {
    let mut res = 1.0;
    let mut x = a;
    for _ in 0..k {
        res *= x as f64;
        if x == 0 {
            break;
        }
        x -= 1;
    }
    res
}

fn chance(c: &HitChance) -> f64 {
    1.0 - falling(c.deck_size - c.drawn, c.category_size) / falling(c.deck_size, c.category_size)
}

fn category(name: &str, size: u64) -> Category {
    Category { size, name: name.to_string() }
}

#[test]
fn empty_category_is_all_zero() {
    let turns = calculate_turns(0, 99, 5);
    assert_eq!(turns.len(), 6);
    for c in &turns {
        assert!(c.is_impossible());
        assert!(!c.is_certain());
        assert_eq!(chance(c), 0.0);
    }
}

#[test]
fn full_category_is_all_one() {
    let turns = calculate_turns(99, 99, 3);
    assert_eq!(turns.len(), 4);
    for c in &turns {
        assert!(c.is_certain());
        assert!((chance(c) - 1.0).abs() < 1e-9);
    }
}

#[test]
fn chances_rise_and_stay_in_range() {
    let turns = calculate_turns(37, 99, 15);
    assert_eq!(turns.len(), 16);
    let values: Vec<f64> = turns.iter().map(chance).collect();
    for v in &values {
        assert!(*v >= -1e-9 && *v <= 1.0 + 1e-9);
    }
    for w in values.windows(2) {
        assert!(w[0] <= w[1] + 1e-12);
    }
}

#[test]
fn horizon_past_the_deck_is_empty() {
    assert!(calculate_turns(5, 10, 4).is_empty());
    assert_eq!(calculate_turns(5, 10, 3).len(), 4);
    assert!(calculate_turns(0, 6, 0).is_empty());
}

#[test]
fn category_larger_than_deck_is_empty() {
    assert!(calculate_turns(61, 60, 1).is_empty());
}

#[test]
fn opening_hand_with_ten_of_ninety_nine() {
    let turns = calculate_turns(10, 99, 0);
    assert_eq!(turns.len(), 1);
    assert_eq!(turns[0], HitChance { deck_size: 99, category_size: 10, drawn: 7 });
    // 1 - C(92,10)/C(99,10), which equals 1 - C(89,7)/C(99,7)
    assert!((chance(&turns[0]) - 0.537163).abs() < 1e-6);
}

#[test]
fn draws_count_from_the_opening_hand() {
    let turns = calculate_turns(3, 20, 2);
    let drawn: Vec<u64> = turns.iter().map(|c| c.drawn).collect();
    assert_eq!(drawn, vec![7, 8, 9]);
}

#[test]
fn same_inputs_same_chances() {
    assert_eq!(calculate_turns(12, 99, 10), calculate_turns(12, 99, 10));
}

#[test]
fn commander_keeps_category_order() {
    let cats = vec![category("Lands", 37), category("Removal", 8), category("Huge", 120)];
    let stats = commander_with_categories(&cats, 2);
    assert_eq!(stats.len(), 3);
    assert_eq!(stats[0].name, "Lands");
    assert_eq!(stats[1].name, "Removal");
    assert_eq!(stats[2].name, "Huge");
    assert_eq!(stats[0].turns, calculate_turns(37, 99, 2));
    assert!(stats[2].turns.is_empty());
}

#[test]
fn format_stats_by_format() {
    let cats = vec![category("Ramp", 10)];
    match GameFormat::Commander.stats(&cats, 1) {
        Ok(stats) => {
            assert_eq!(stats.len(), 1);
            assert_eq!(stats[0].turns.len(), 2);
        }
        Err(_) => panic!("commander is supported"),
    }
    match GameFormat::Standard.stats(&cats, 1) {
        Err(StatsError::UnsupportedFormat { format }) => assert_eq!(format, GameFormat::Standard),
        Ok(_) => panic!("standard is not supported"),
    }
    assert_eq!(GameFormat::Commander.deck_size(), Some(99));
    assert_eq!(GameFormat::Standard.deck_size(), None);
}

#[test]
fn format_names() {
    assert_eq!(GameFormat::parse("commander").ok(), Some(GameFormat::Commander));
    assert_eq!(GameFormat::parse(" edh\n").ok(), Some(GameFormat::Commander));
    assert_eq!(GameFormat::parse("modern").ok(), Some(GameFormat::Standard));
    assert_eq!(GameFormat::parse("standard").ok(), Some(GameFormat::Standard));
    match GameFormat::parse("  legacy ") {
        Err(GameFormatParseError::UnknownFormat { format }) => assert_eq!(format, "legacy"),
        Ok(_) => panic!("legacy is no format"),
    }
    let parsed: Result<GameFormat, _> = "edh".parse();
    assert_eq!(parsed.ok(), Some(GameFormat::Commander));
}

#[test]
fn falling_factorial_counts_exactly() {
    assert_eq!(falling_factorial(5, 2), Some(20));
    assert_eq!(falling_factorial(7, 0), Some(1));
    assert_eq!(falling_factorial(0, 0), Some(1));
    assert_eq!(falling_factorial(3, 5), Some(0));
    assert_eq!(falling_factorial(3, 4), Some(0));
    assert_eq!(falling_factorial(3, 3), Some(6));
    assert_eq!(falling_factorial(99, 10), Some(56534085859976524800));
    assert_eq!(falling_factorial(99, 19), Some(13039950182047124510956853461598208000));
    assert_eq!(falling_factorial(99, 20), None);
    assert_eq!(falling_factorial(u64::MAX, 3), None);
}

#[test]
fn chance_counts_are_exact() {
    let c = HitChance { deck_size: 99, category_size: 10, drawn: 7 };
    assert_eq!(c.counts(), Some((30368020859278502400, 56534085859976524800)));
    let empty = HitChance { deck_size: 99, category_size: 0, drawn: 9 };
    assert_eq!(empty.counts(), Some((0, 1)));
    let full = HitChance { deck_size: 40, category_size: 40, drawn: 7 };
    assert_eq!(full.counts(), None);
    let all = HitChance { deck_size: 10, category_size: 10, drawn: 7 };
    assert_eq!(all.counts(), Some((3628800, 3628800)));
}

#[test]
fn opening_hand_is_a_parameter() {
    let turns = compute_hit_chances(2, 10, 0, 10);
    assert_eq!(turns.len(), 11);
    assert_eq!(turns[0].drawn, 0);
    assert_eq!(turns[10].drawn, 10);
    assert!(turns[0].is_impossible());
    assert!(turns[10].is_certain());
    assert!(compute_hit_chances(2, 10, 0, 11).is_empty());
    let turns = compute_hit_chances(10, 99, 3, 1);
    let drawn: Vec<u64> = turns.iter().map(|c| c.drawn).collect();
    assert_eq!(drawn, vec![3, 4]);
    assert_eq!(compute_hit_chances(10, 99, 7, 0), calculate_turns(10, 99, 0));
    assert_eq!(compute_hit_chances(0, u64::MAX, 0, 1).len(), 2);
}

#[test]
fn format_names_ignore_case() {
    assert_eq!(GameFormat::parse("EDH").ok(), Some(GameFormat::Commander));
    assert_eq!(GameFormat::parse("Commander").ok(), Some(GameFormat::Commander));
    assert_eq!(GameFormat::parse("Standard").ok(), Some(GameFormat::Standard));
    assert_eq!(GameFormat::parse(" MoDeRn ").ok(), Some(GameFormat::Standard));
    assert_eq!(GameFormat::parse("\u{2003}edh\u{3000}").ok(), Some(GameFormat::Commander));
    assert_eq!(GameFormat::from_name("EdH").ok(), Some(GameFormat::Commander));
    assert!(GameFormat::from_name(" edh").is_err());
    match GameFormat::from_name("EDHX") {
        Err(GameFormatParseError::UnknownFormat { format }) => assert_eq!(format, "EDHX"),
        Ok(_) => panic!("EDHX is no format"),
    }
}

#[test]
fn format_from_str_trims_and_ignores_case() {
    let parsed: Result<GameFormat, GameFormatParseError> = "EDH".parse();
    assert_eq!(parsed.ok(), Some(GameFormat::Commander));
    let parsed: Result<GameFormat, GameFormatParseError> = "Standard".parse();
    assert_eq!(parsed.ok(), Some(GameFormat::Standard));
    match " vintage ".parse::<GameFormat>() {
        Err(GameFormatParseError::UnknownFormat { format }) => assert_eq!(format, "vintage"),
        Ok(_) => panic!("vintage is no format"),
    }
}
