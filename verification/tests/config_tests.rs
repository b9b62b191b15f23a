use nerdle::board::{GuessViewProps, HistogramProps, StatsProps};
use nerdle::{Config, Guess, Wordle};

#[test]
fn default_config_holds_the_placeholder_puzzle() {
    let config = Config::default();
    assert_eq!(config.wordle.id, 0);
    assert_eq!(config.wordle.solution, "");
    assert_eq!(config.wordle, Wordle::default());
}

#[test]
fn puzzle_descriptor_carries_its_fields() {
    let wordle = Wordle {
        days_since_launch: 42,
        editor: String::from("Ed"),
        id: 7,
        print_date: String::from("2023-01-01"),
        solution: String::from("CRANE"),
    };
    assert_eq!(wordle.id, 7);
    assert_eq!(wordle.solution, "CRANE");
    let config = Config { wordle: wordle.clone() };
    assert_eq!(config.wordle, wordle);
}

#[test]
fn view_props_carry_their_data() {
    let histogram = HistogramProps { histogram: vec![0, 1, 0, 0, 0, 0, 0], total: 1 };
    assert_eq!(histogram.histogram[1], 1);
    assert_eq!(histogram.total, 1);

    let stats = StatsProps { visible: true };
    assert!(stats.visible);

    let row = GuessViewProps { guess: Guess::new(String::from("CRANE")) };
    assert_eq!(row.guess.to_string(), "CRANE");
}
