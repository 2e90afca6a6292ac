use buddhabrot::density::DensityBuffer;
use rand::Rng;
use rand::SeedableRng;
use rand::rngs::StdRng;

fn counts_of(buf: &DensityBuffer) -> Vec<i32> {
    let mut out = Vec::new();
    let mut i = 0;
    while i < buf.len() {
        out.push(buf.count_at(i));
        i += 1;
    }
    out
}

#[test]
fn new_buffer_is_all_zero() {
    let buf = DensityBuffer::new(4, 3);
    assert_eq!(buf.width(), 4);
    assert_eq!(buf.height(), 3);
    assert_eq!(buf.len(), 12);
    assert!(counts_of(&buf).iter().all(|&v| v == 0));
}

#[test]
fn origin_point_lands_on_first_cell() {
    // A point exactly at pixel (0, 0) is attributed to that pixel.
    let mut buf = DensityBuffer::new(4, 4);
    buf.accumulate_point(0, 0);
    assert_eq!(buf.count_at(0), 1);
    assert_eq!(counts_of(&buf)[1..].iter().map(|&v| v as i64).sum::<i64>(), 0);
}

#[test]
fn point_one_past_last_column_is_discarded() {
    // x == width lies one past the last column: the point is dropped,
    // never wrapped around to column 0.
    let mut buf = DensityBuffer::new(4, 4);
    buf.accumulate_point(4, 0);
    assert!(counts_of(&buf).iter().all(|&v| v == 0));
}

#[test]
fn point_one_past_last_row_is_discarded() {
    let mut buf = DensityBuffer::new(4, 4);
    buf.accumulate_point(0, 4);
    assert!(counts_of(&buf).iter().all(|&v| v == 0));
}

#[test]
fn negative_points_are_discarded() {
    let mut buf = DensityBuffer::new(4, 4);
    buf.accumulate_point(-1, 2);
    buf.accumulate_point(2, -1);
    assert!(counts_of(&buf).iter().all(|&v| v == 0));
}

#[test]
fn interior_point_uses_row_major_cell() {
    let mut buf = DensityBuffer::new(5, 4);
    buf.accumulate_point(3, 2);
    assert_eq!(buf.count_at(2 * 5 + 3), 1);
}

#[test]
fn trajectory_respects_limit() {
    // Only the first `limit` points of an accepted trajectory count.
    let mut buf = DensityBuffer::new(4, 4);
    let points = vec![(0, 0), (1, 0), (2, 0), (3, 0)];
    buf.accumulate_trajectory(&points, 2);
    assert_eq!(buf.count_at(0), 1);
    assert_eq!(buf.count_at(1), 1);
    assert_eq!(buf.count_at(2), 0);
    assert_eq!(buf.count_at(3), 0);
}

#[test]
fn accumulation_is_order_independent() {
    // Delivering the same trajectories in any order yields the same
    // buffer: accumulate a fixed set of points under random permutations.
    let base: Vec<(i32, i32)> = vec![
        (0, 0),
        (1, 1),
        (1, 1),
        (2, 3),
        (3, 2),
        (-1, 0),
        (4, 0),
        (0, 4),
        (3, 3),
        (1, 2),
        (2, 1),
        (1, 1),
    ];
    let mut reference = DensityBuffer::new(4, 4);
    reference.accumulate_trajectory(&base, base.len());
    let expected = counts_of(&reference);

    let mut rng = StdRng::seed_from_u64(7);
    for _ in 0..20 {
        let mut shuffled = base.clone();
        // Fisher-Yates with the seeded generator.
        for i in (1..shuffled.len()).rev() {
            let j = rng.gen_range(0..=i);
            shuffled.swap(i, j);
        }
        let mut buf = DensityBuffer::new(4, 4);
        buf.accumulate_trajectory(&shuffled, shuffled.len());
        assert_eq!(counts_of(&buf), expected);
    }
}

#[test]
fn accumulating_twice_doubles_every_cell() {
    let points = vec![(0, 0), (2, 1), (2, 1), (3, 3)];
    let mut once = DensityBuffer::new(4, 4);
    once.accumulate_trajectory(&points, points.len());
    let mut twice = DensityBuffer::new(4, 4);
    twice.accumulate_trajectory(&points, points.len());
    twice.accumulate_trajectory(&points, points.len());
    let a = counts_of(&once);
    let b = counts_of(&twice);
    for k in 0..a.len() {
        assert_eq!(b[k], 2 * a[k]);
    }
}

#[test]
fn max_density_finds_the_peak() {
    let mut buf = DensityBuffer::new(3, 3);
    buf.accumulate_point(1, 1);
    buf.accumulate_point(1, 1);
    buf.accumulate_point(0, 2);
    assert_eq!(buf.max_density(), 2);
}

#[test]
fn max_density_of_empty_buffer_is_zero() {
    let buf = DensityBuffer::new(3, 3);
    assert_eq!(buf.max_density(), 0);
}
