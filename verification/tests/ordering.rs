use srv_rs::order::{order_records, order_with_draws, select};
use srv_rs::random::{RandomSource, SeededRng};
use srv_rs::record::Record;

fn rec(target: &str, priority: u16, weight: u16) -> Record {
    Record::new(target.to_string(), 80, priority, weight)
}

fn targets(records: &[Record]) -> Vec<String> {
    records.iter().map(|r| r.target.clone()).collect()
}

fn sorted_targets(records: &[Record]) -> Vec<String> {
    let mut t = targets(records);
    t.sort();
    t
}

#[test]
fn record_new_keeps_the_attributes() {
    let r = Record::new("host.example".to_string(), 8443, 5, 7);
    assert_eq!(r.target, "host.example");
    assert_eq!(r.port, 8443);
    assert_eq!(r.priority, 5);
    assert_eq!(r.weight, 7);
    assert_eq!(r.target(), "host.example");
    assert_eq!(r.port(), 8443);
    assert_eq!(r.priority(), 5);
    assert_eq!(r.weight(), 7);
}

#[test]
fn empty_input_gives_empty_output() {
    let mut rng = SeededRng::new(1);
    assert_eq!(order_records(Vec::new(), &mut rng), Vec::<Record>::new());
    assert_eq!(order_with_draws(Vec::new(), &vec![3, 4]), Vec::<Record>::new());
}

#[test]
fn single_record_is_returned() {
    let out = order_with_draws(vec![rec("only", 3, 0)], &vec![17]);
    assert_eq!(out, vec![rec("only", 3, 0)]);
}

#[test]
fn zero_weight_comes_last_in_its_tier_for_every_seed() {
    for seed in 0..500u64 {
        let mut rng = SeededRng::new(seed);
        let out = order_records(vec![rec("a", 10, 0), rec("b", 10, 1), rec("c", 20, 0)], &mut rng);
        assert_eq!(targets(&out), vec!["b", "a", "c"]);
    }
}

#[test]
fn zero_weight_comes_last_in_its_tier_for_every_draw() {
    for draw in 0..50u64 {
        let out = order_with_draws(
            vec![rec("c", 20, 0), rec("a", 10, 0), rec("b", 10, 1)],
            &vec![draw, draw / 2, draw / 3],
        );
        assert_eq!(targets(&out), vec!["b", "a", "c"]);
    }
}

#[test]
fn output_is_a_permutation_of_the_input() {
    let input = vec![
        rec("a", 1, 5),
        rec("b", 3, 0),
        rec("c", 1, 0),
        rec("d", 2, 9),
        rec("e", 1, 5),
        rec("a", 1, 5),
        rec("f", 3, 2),
    ];
    for seed in 0..200u64 {
        let mut rng = SeededRng::new(seed);
        let out = order_records(input.clone(), &mut rng);
        assert_eq!(out.len(), input.len());
        assert_eq!(sorted_targets(&out), sorted_targets(&input));
    }
}

#[test]
fn priorities_never_fall_along_the_output() {
    let input = vec![
        rec("a", 30, 1),
        rec("b", 10, 0),
        rec("c", 20, 4),
        rec("d", 10, 2),
        rec("e", 30, 0),
        rec("f", 0, 0),
        rec("g", 65535, 65535),
    ];
    for seed in 0..200u64 {
        let mut rng = SeededRng::new(seed);
        let out = order_records(input.clone(), &mut rng);
        assert!((0..out.len() - 1).all(|i| out[i].priority <= out[i + 1].priority));
        for i in 0..out.len() {
            for j in i + 1..out.len() {
                if out[i].priority == out[j].priority && out[i].weight == 0 {
                    assert_eq!(out[j].weight, 0);
                }
            }
        }
    }
}

#[test]
fn a_draw_falls_into_the_interval_of_its_record() {
    let tier = vec![rec("a", 1, 1), rec("b", 1, 3)];
    assert_eq!(select(&tier, 0), Some(0));
    assert_eq!(select(&tier, 1), Some(1));
    assert_eq!(select(&tier, 2), Some(1));
    assert_eq!(select(&tier, 3), Some(1));
    assert_eq!(select(&tier, 4), Some(0));
    assert_eq!(select(&tier, 7), Some(1));
    assert_eq!(select(&tier, u64::MAX), Some(1));
}

#[test]
fn select_finds_nothing_in_an_empty_list() {
    assert_eq!(select(&Vec::new(), 0), None);
    assert_eq!(select(&Vec::new(), 12345), None);
}

#[test]
fn select_looks_at_the_lowest_priority_only() {
    let list = vec![rec("x", 9, 100), rec("a", 2, 1), rec("y", 5, 100), rec("b", 2, 2)];
    assert_eq!(select(&list, 0), Some(1));
    assert_eq!(select(&list, 1), Some(3));
    assert_eq!(select(&list, 2), Some(3));
    assert_eq!(select(&list, 3), Some(1));
}

#[test]
fn select_skips_zero_weights_while_others_remain() {
    let list = vec![rec("z", 1, 0), rec("a", 1, 2), rec("y", 1, 0), rec("b", 1, 1)];
    assert_eq!(select(&list, 0), Some(1));
    assert_eq!(select(&list, 1), Some(1));
    assert_eq!(select(&list, 2), Some(3));
    assert_eq!(select(&list, 3), Some(1));
}

#[test]
fn a_tier_of_zero_weights_is_drawn_uniformly() {
    let tier = vec![rec("x", 1, 0), rec("y", 1, 0), rec("z", 1, 0)];
    assert_eq!(select(&tier, 0), Some(0));
    assert_eq!(select(&tier, 1), Some(1));
    assert_eq!(select(&tier, 2), Some(2));
    assert_eq!(select(&tier, 3), Some(0));
    let out = order_with_draws(tier, &vec![1, 1, 0]);
    assert_eq!(targets(&out), vec!["y", "z", "x"]);
}

#[test]
fn order_follows_the_draws_exactly() {
    let input = vec![rec("a", 1, 1), rec("b", 1, 3), rec("c", 1, 4), rec("d", 0, 0)];
    // "d" is alone in the first tier; then 6 % 8 = 6 falls to "c", 3 % 4 = 3 to "b".
    let out = order_with_draws(input.clone(), &vec![99, 6, 3, 0]);
    assert_eq!(targets(&out), vec!["d", "c", "b", "a"]);
    // 0 % 8 = 0 falls to "a", 3 % 7 = 3 to "c" (after "b" with 0..3).
    let out = order_with_draws(input, &vec![99, 0, 3, 5]);
    assert_eq!(targets(&out), vec!["d", "a", "c", "b"]);
}

#[test]
fn missing_draws_count_as_zero() {
    let input = vec![rec("a", 1, 2), rec("b", 1, 3), rec("c", 1, 4)];
    assert_eq!(
        order_with_draws(input.clone(), &Vec::new()),
        order_with_draws(input.clone(), &vec![0, 0, 0])
    );
    assert_eq!(targets(&order_with_draws(input.clone(), &Vec::new())), vec!["a", "b", "c"]);
    assert_eq!(
        order_with_draws(input.clone(), &vec![2]),
        order_with_draws(input, &vec![2, 0, 0])
    );
}

#[test]
fn equal_seeds_give_equal_orders() {
    let input: Vec<Record> = (0..40u16).map(|i| rec(&format!("h{i}"), i % 3, i % 5)).collect();
    let first = order_records(input.clone(), &mut SeededRng::new(42));
    let second = order_records(input.clone(), &mut SeededRng::new(42));
    assert_eq!(first, second);
    let other = order_records(input, &mut SeededRng::new(43));
    assert_ne!(first, other);
}

#[test]
fn picks_follow_the_weights() {
    let mut rng = SeededRng::new(2024);
    let trials = 8000u32;
    let mut heavy_first = 0u32;
    for _ in 0..trials {
        let out = order_records(vec![rec("light", 1, 1), rec("heavy", 1, 3)], &mut rng);
        if out[0].target == "heavy" {
            heavy_first += 1;
        }
    }
    let share = heavy_first as f64 / trials as f64;
    assert!((share - 0.75).abs() < 0.03, "share was {share}");
}

#[test]
fn two_runs_give_the_same_distribution() {
    let run = |seed: u64| {
        let mut rng = SeededRng::new(seed);
        let mut first = [0u32; 3];
        for _ in 0..6000 {
            let out =
                order_records(vec![rec("0", 1, 1), rec("1", 1, 2), rec("2", 1, 3)], &mut rng);
            first[out[0].target.parse::<usize>().unwrap()] += 1;
        }
        first
    };
    let a = run(1);
    let b = run(2);
    for i in 0..3 {
        let expected = 6000.0 * (i as f64 + 1.0) / 6.0;
        assert!((a[i] as f64 - expected).abs() < 200.0);
        assert!((b[i] as f64 - expected).abs() < 200.0);
    }
}

#[test]
fn seeded_draws_are_reproducible() {
    let mut a = SeededRng::new(0);
    let mut b = SeededRng::new(0);
    let first = a.next_u64();
    assert_eq!(first, 0xE220_A839_7B1D_CDAF);
    assert_eq!(b.next_u64(), first);
    let second = a.next_u64();
    assert_ne!(second, first);
    assert_eq!(b.next_u64(), second);
    assert_eq!(a, b);
    assert_ne!(SeededRng::new(1).next_u64(), first);
}
