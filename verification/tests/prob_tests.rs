use peepl_sim::prob::calculate_probability;
use peepl_sim::prob::sample_probability;
use peepl_sim::Job;

#[test]
fn probability_table_accumulates_weights_in_order() {
    let ratios = vec![(Job::Harvester, 1u64), (Job::Processor, 1u64), (Job::Builder, 2u64)];
    let table = calculate_probability(&ratios).unwrap();
    assert_eq!(table.len(), 3);
    assert_eq!(table[0], (Job::Harvester, 0, 1));
    assert_eq!(table[1], (Job::Processor, 1, 2));
    assert_eq!(table[2], (Job::Builder, 2, 4));
}

#[test]
fn probability_table_keeps_zero_weight_entries_empty() {
    let ratios = vec![(Job::Harvester, 0u64), (Job::Processor, 3u64)];
    let table = calculate_probability(&ratios).unwrap();
    assert_eq!(table[0], (Job::Harvester, 0, 0));
    assert_eq!(table[1], (Job::Processor, 0, 3));
}

#[test]
fn probability_table_rejects_zero_total() {
    let ratios = vec![(Job::Harvester, 0u64), (Job::Builder, 0u64)];
    assert!(calculate_probability(&ratios).is_none());
    let empty: Vec<(Job, u64)> = Vec::new();
    assert!(calculate_probability(&empty).is_none());
}

#[test]
fn probability_table_rejects_overflowing_total() {
    let ratios = vec![(Job::Harvester, u64::MAX), (Job::Processor, 1u64)];
    assert!(calculate_probability(&ratios).is_none());
}

#[test]
fn sampling_maps_every_draw_to_its_interval() {
    let ratios = vec![(Job::Harvester, 1u64), (Job::Processor, 1u64), (Job::Builder, 2u64)];
    let table = calculate_probability(&ratios).unwrap();
    assert_eq!(sample_probability(&table, 0), Job::Harvester);
    assert_eq!(sample_probability(&table, 1), Job::Processor);
    assert_eq!(sample_probability(&table, 2), Job::Builder);
    assert_eq!(sample_probability(&table, 3), Job::Builder);
}

#[test]
fn sampling_skips_empty_intervals() {
    let ratios = vec![(Job::Harvester, 0u64), (Job::Processor, 2u64)];
    let table = calculate_probability(&ratios).unwrap();
    assert_eq!(sample_probability(&table, 0), Job::Processor);
    assert_eq!(sample_probability(&table, 1), Job::Processor);
}

#[test]
fn sampling_falls_back_to_the_first_category_past_the_total() {
    let ratios = vec![(Job::Processor, 2u64), (Job::Builder, 2u64)];
    let table = calculate_probability(&ratios).unwrap();
    assert_eq!(sample_probability(&table, 4), Job::Processor);
    assert_eq!(sample_probability(&table, 100), Job::Processor);
}

#[test]
fn interval_widths_match_the_input_weights() {
    let ratios = vec![(Job::Harvester, 5u64), (Job::Processor, 0u64), (Job::Builder, 7u64)];
    let table = calculate_probability(&ratios).unwrap();
    for (i, (_, lower, upper)) in table.iter().enumerate() {
        assert_eq!(upper - lower, ratios[i].1);
    }
    assert_eq!(table[table.len() - 1].2, 12);
}
