use egi_rs::decimal::Decimal;
use egi_rs::interpolation::{ConstantValueInterp, InterpolationError};
use egi_rs::timestamp::Timestamp;

fn at(ms: i64) -> Timestamp {
    Timestamp { utc_millis: ms, offset_secs: 0 }
}

fn dec(text: &str) -> Decimal {
    Decimal::parse(text).unwrap()
}

fn decs(texts: &[&str]) -> Vec<Decimal> {
    texts.iter().map(|t| dec(t)).collect()
}

#[test]
fn hold_keeps_the_earlier_sample() {
    let times = vec![at(0), at(1000), at(2000)];
    let values = decs(&["1.5", "2.5", "3.5"]);
    let interp = ConstantValueInterp::new();
    assert_eq!(interp.interp1d_to_time(&times, &values, at(0)), Ok(dec("1.5")));
    assert_eq!(interp.interp1d_to_time(&times, &values, at(999)), Ok(dec("1.5")));
    assert_eq!(interp.interp1d_to_time(&times, &values, at(1000)), Ok(dec("2.5")));
    assert_eq!(interp.interp1d_to_time(&times, &values, at(2000)), Ok(dec("3.5")));
}

#[test]
fn outside_the_span_is_out_of_domain() {
    let times = vec![at(2000), at(0), at(1000)];
    let values = decs(&["3", "1", "2"]);
    let interp = ConstantValueInterp::new();
    assert_eq!(
        interp.interp1d_to_time(&times, &values, at(-1)),
        Err(InterpolationError::OutOfDomain { left: 0, right: 2000, out: -1 })
    );
    assert_eq!(
        interp.interp1d_to_time(&times, &values, at(2001)),
        Err(InterpolationError::OutOfDomain { left: 0, right: 2000, out: 2001 })
    );
}

/// All orders of the numbers below `n`.
fn orders(n: usize) -> Vec<Vec<usize>> {
    if n == 0 {
        return vec![vec![]];
    }
    let mut all = vec![];
    for shorter in orders(n - 1) {
        for place in 0..=shorter.len() {
            let mut order = shorter.clone();
            order.insert(place, n - 1);
            all.push(order);
        }
    }
    all
}

#[test]
fn shuffling_the_samples_changes_nothing() {
    // Two pairs of samples share an instant, one of them with different values.
    let pairs = [(0i64, "10"), (500, "20"), (500, "-5"), (900, "30"), (900, "30"), (1500, "40")];
    let interp = ConstantValueInterp::new();
    for query in [-1i64, 0, 1, 499, 500, 501, 899, 900, 1499, 1500, 1501] {
        let mut results = vec![];
        for order in orders(pairs.len()) {
            let times: Vec<Timestamp> = order.iter().map(|i| at(pairs[*i].0)).collect();
            let values: Vec<Decimal> = order.iter().map(|i| dec(pairs[*i].1)).collect();
            results.push(interp.interp1d_to_time(&times, &values, at(query)));
        }
        assert_eq!(results.len(), 720);
        for r in &results {
            assert_eq!(*r, results[0], "query {query}");
        }
    }
}

#[test]
fn the_offset_of_a_sample_does_not_matter() {
    let times = vec![
        Timestamp { utc_millis: 0, offset_secs: -25200 },
        Timestamp { utc_millis: 1000, offset_secs: 3600 },
    ];
    let values = decs(&["1", "2"]);
    let interp = ConstantValueInterp::new();
    let query = Timestamp { utc_millis: 999, offset_secs: 7200 };
    assert_eq!(interp.interp1d_to_time(&times, &values, query), Ok(dec("1")));
}

#[test]
fn of_equal_instants_the_greatest_value_is_held() {
    let interp = ConstantValueInterp::new();
    let times = vec![at(0), at(100), at(100), at(100), at(200)];
    for values in [["0", "1", "2", "-3", "9"], ["0", "2", "-3", "1", "9"], ["0", "-3", "1", "2", "9"]] {
        let values = decs(&values);
        assert_eq!(interp.interp1d_to_time(&times, &values, at(150)), Ok(dec("2")));
        assert_eq!(interp.interp1d_to_time(&times, &values, at(100)), Ok(dec("2")));
        assert_eq!(interp.interp1d_to_time(&times, &values, at(99)), Ok(dec("0")));
    }
    // A missing value, carried as the fill value, yields to a measured one.
    let values = vec![dec("0"), Decimal::fill(), dec("-40"), Decimal::fill(), dec("9")];
    assert_eq!(interp.interp1d_to_time(&times, &values, at(150)), Ok(dec("-40")));
}

#[test]
fn other_failures_are_told_apart() {
    let interp = ConstantValueInterp::new();
    assert_eq!(interp.interp1d_to_time(&[], &[], at(0)), Err(InterpolationError::NoSamples));
    assert_eq!(
        interp.interp1d_to_time(&[at(0), at(1)], &[dec("1")], at(0)),
        Err(InterpolationError::LengthMismatch { times: 2, values: 1 })
    );
    assert_eq!(interp.interp1d_to_time(&[at(7)], &[dec("1")], at(7)), Ok(dec("1")));
    assert_eq!(
        interp.interp1d_to_time(&[at(7)], &[dec("1")], at(8)),
        Err(InterpolationError::OutOfDomain { left: 7, right: 7, out: 8 })
    );
}
