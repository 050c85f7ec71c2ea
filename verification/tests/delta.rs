use osmio::delta::{delta_decode, delta_decode_within};
use osmio::error::PbfError;

#[test]
fn delta_decode_accumulates_from_start() {
    assert_eq!(delta_decode(&[100, 5, -3], 0), Ok(vec![100, 105, 102]));
    assert_eq!(delta_decode(&[1, 1], 10), Ok(vec![11, 12]));
    assert_eq!(delta_decode(&[], 0), Ok(vec![]));
}

#[test]
fn delta_decode_overflow_is_an_error() {
    assert_eq!(delta_decode(&[i64::MAX, 1], 0), Err(PbfError::Overflow));
    assert_eq!(delta_decode(&[i64::MIN, -1], 0), Err(PbfError::Overflow));
}

#[test]
fn delta_decode_within_bounds() {
    assert_eq!(delta_decode_within(&[5, 5], 0, 0, 10), Ok(vec![5, 10]));
    assert_eq!(delta_decode_within(&[5, 6], 0, 0, 10), Err(PbfError::Overflow));
    assert_eq!(delta_decode_within(&[-1], 0, 0, 10), Err(PbfError::Overflow));
}

fn differences(values: &[i64]) -> Vec<i64> {
    let mut last = 0;
    values
        .iter()
        .map(|&v| {
            let delta = v - last;
            last = v;
            delta
        })
        .collect()
}

#[test]
fn accumulating_the_differences_gives_the_column_back() {
    let columns: [&[i64]; 5] = [
        &[],
        &[0],
        &[100, 105, 102],
        &[-1, -1, -1, 7, 7, 1 << 40, -(1 << 40)],
        &[i64::MAX / 2, -(i64::MAX / 2), 0],
    ];
    for column in columns {
        assert_eq!(differences(column), {
            let deltas = differences(column);
            assert_eq!(delta_decode(&deltas, 0), Ok(column.to_vec()));
            deltas
        });
    }
    assert_eq!(differences(&[100, 105]), vec![100, 5]);
}
