use builder::data_traits::{Next, Period, Reset};
use builder::text::{check_identifier, str_eq};

#[test]
fn str_eq_decides_equality() {
    assert!(str_eq("each", "each"));
    assert!(!str_eq("each", "Each"));
    assert!(!str_eq("each", "eac"));
    assert!(str_eq("", ""));
}

#[test]
fn identifier_check() {
    assert!(check_identifier("arg"));
    assert!(check_identifier("_private2"));
    assert!(check_identifier("A9_b"));
    assert!(!check_identifier(""));
    assert!(!check_identifier("9lives"));
    assert!(!check_identifier("not an identifier"));
    assert!(!check_identifier("dash-ed"));
}

struct Counter {
    period: usize,
    total: i64,
}

impl Reset for Counter {
    fn reset(&mut self) {
        self.total = 0;
    }
}

impl Period for Counter {
    fn period(&self) -> usize {
        self.period
    }
}

impl Next<i64> for Counter {
    type Output = i64;

    fn next(&mut self, input: i64) -> i64 {
        self.total += input;
        self.total
    }
}

#[test]
fn streaming_traits_drive_a_counter() {
    let mut c = Counter { period: 3, total: 0 };
    assert_eq!(c.period(), 3);
    assert_eq!(c.next(2), 2);
    assert_eq!(c.next(5), 7);
    c.reset();
    assert_eq!(c.next(1), 1);
}
