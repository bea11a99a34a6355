use lib::util::{frames_per_second, neg_mod, parse_usize, Average, Rnd, Term};

#[test]
fn neg_mod_is_distance_to_bound() {
    assert_eq!(neg_mod(3, 10), 7);
    assert_eq!(neg_mod(0, 0), 0);
    assert_eq!(neg_mod(64, 64), 0);
}

#[test]
fn rnd_sequence_from_seed() {
    let mut r = Rnd::new();
    assert_eq!(r.rnd(), 0xc91f);
    assert_eq!(r.rnd(), 0xd28b);
    assert_eq!(r.rnd(), 0x8f2a);
    assert_eq!(r.rnd(), 0xe633);
    assert_eq!(r.rnd(), 0x19ff);
}

#[test]
fn rnd_never_reaches_zero() {
    let mut r = Rnd::new();
    let first = r.rnd();
    let mut period = 0usize;
    loop {
        let v = r.rnd();
        assert_ne!(v, 0);
        period += 1;
        if v == first {
            break;
        }
        assert!(period < 70000);
    }
    assert!(period > 1);
}

#[test]
fn average_is_moving_mean() {
    let mut a = Average::new(3);
    assert_eq!(a.add(3), 3);
    assert_eq!(a.add(5), 4);
    assert_eq!(a.add(10), 6);
    assert_eq!(a.add(1), 5);
    assert_eq!(a.add(1), 4);
    assert_eq!(a.add(0), 0);
}

#[test]
fn average_drops_oldest_larger_value() {
    let mut a = Average::new(2);
    assert_eq!(a.add(100), 100);
    assert_eq!(a.add(2), 51);
    assert_eq!(a.add(4), 3);
}

#[test]
fn average_of_steady_stream() {
    let mut a = Average::new(4);
    for _ in 0..10 {
        assert_eq!(a.add(7), 7);
    }
}

#[test]
fn frames_per_second_from_frame_times() {
    let mut a = Average::new(2);
    assert_eq!(frames_per_second(&mut a, 1000), Some(1000));
    assert_eq!(frames_per_second(&mut a, 3000), Some(500));
    assert_eq!(frames_per_second(&mut a, 3000), Some(333));
}

#[test]
fn frames_per_second_none_for_zero_mean() {
    let mut a = Average::new(1);
    assert_eq!(frames_per_second(&mut a, 0), None);
    assert_eq!(frames_per_second(&mut a, 1), Some(1000000));
}

#[test]
fn parse_usize_accepts_digits() {
    assert_eq!(parse_usize("42"), Some(42));
    assert_eq!(parse_usize("+7"), Some(7));
    assert_eq!(parse_usize("007"), Some(7));
    assert_eq!(parse_usize("0"), Some(0));
}

#[test]
fn parse_usize_rejects_others() {
    assert_eq!(parse_usize(""), None);
    assert_eq!(parse_usize("+"), None);
    assert_eq!(parse_usize("-1"), None);
    assert_eq!(parse_usize("12a"), None);
    assert_eq!(parse_usize(" 1"), None);
    assert_eq!(parse_usize("1.5"), None);
}

#[test]
fn parse_usize_at_the_limit() {
    let max = format!("{}", usize::MAX);
    assert_eq!(parse_usize(&max), Some(usize::MAX));
    let over = format!("{}0", usize::MAX);
    assert_eq!(parse_usize(&over), None);
    assert_eq!(parse_usize("99999999999999999999999999"), None);
}

#[test]
fn parse_usize_agrees_with_std() {
    for s in ["0", "1", "+12", "12+", "", "+", "-0", "65535", "x", "٣"] {
        assert_eq!(parse_usize(s), s.parse::<usize>().ok());
    }
}

#[test]
fn term_defaults() {
    let t = Term::new(&[]);
    assert_eq!((t.h, t.w), (25, 80));
}

#[test]
fn term_from_two_numbers() {
    let t = Term::new(&["40".to_string(), "100".to_string()]);
    assert_eq!((t.h, t.w), (40, 100));
}

#[test]
fn term_skips_arguments_that_are_no_numbers() {
    let t = Term::new(&["x".to_string(), "50".to_string()]);
    assert_eq!((t.h, t.w), (50, 80));
    let t = Term::new(&["a".to_string(), "b".to_string()]);
    assert_eq!((t.h, t.w), (25, 80));
}

#[test]
fn term_reads_only_two_arguments() {
    let t = Term::new(&["30".to_string(), "x".to_string(), "50".to_string()]);
    assert_eq!((t.h, t.w), (30, 80));
    let t = Term::new(&["30".to_string(), "40".to_string(), "50".to_string()]);
    assert_eq!((t.h, t.w), (30, 40));
}

#[test]
fn neg_mod_wraps_below_zero() {
    assert_eq!(neg_mod(4, 0), usize::MAX - 3);
}

#[test]
fn average_sum_wraps_in_a_word() {
    let mut a = Average::new(2);
    assert_eq!(a.add(usize::MAX), usize::MAX);
    // the sum usize::MAX + 3 wraps to 2
    assert_eq!(a.add(3), 1);
    assert_eq!(a.add(5), 4);
}
