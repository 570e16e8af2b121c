use ray_tracer::text::dec_len;
use ray_tracer::text::push_decimal;

fn rendered(n: u64) -> String {
    let mut s = String::new();
    push_decimal(&mut s, n);
    s
}

#[test]
fn decimal_render_test() {
    assert_eq!(rendered(0), "0");
    assert_eq!(rendered(7), "7");
    assert_eq!(rendered(10), "10");
    assert_eq!(rendered(255), "255");
    assert_eq!(rendered(12345), "12345");
    assert_eq!(rendered(u64::MAX), "18446744073709551615");
}

#[test]
fn decimal_len_test() {
    assert_eq!(dec_len(0), 1);
    assert_eq!(dec_len(9), 1);
    assert_eq!(dec_len(10), 2);
    assert_eq!(dec_len(99), 2);
    assert_eq!(dec_len(100), 3);
    assert_eq!(dec_len(255), 3);
    assert_eq!(dec_len(999), 3);
}
