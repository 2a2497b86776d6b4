//! The quantity types: exact arithmetic, overflow and division-by-zero
//! reporting, and the rounding of cross-resolution conversions.

use tripsim::units::{Acceleration, Distance, Duration, Ratio, Speed, UnitsError};

#[test]
fn distance_add_exact() {
    let a = Distance::const_cm(150);
    let b = Distance::const_cm(-30);
    assert_eq!(a.add(b), Ok(Distance::const_cm(120)));
}

#[test]
fn distance_add_zero_is_identity() {
    // Adding the zero distance returns the value unchanged, here and for
    // every value by the library's add-zero law.
    let v = Distance::const_cm(123_456);
    assert_eq!(v.add(Distance::zero()), Ok(v));
    let w = Distance::const_cm(-77);
    assert_eq!(w.add(Distance::zero()), Ok(w));
}

#[test]
fn distance_add_max_overflows() {
    // Adding the largest distance and any positive distance is fatal.
    let r = Distance::max().add(Distance::const_cm(1));
    assert_eq!(r, Err(UnitsError::Overflow { lhs: i32::MAX, rhs: 1 }));
    let r2 = Distance::max().add(Distance::const_cm(500));
    assert_eq!(r2, Err(UnitsError::Overflow { lhs: i32::MAX, rhs: 500 }));
}

#[test]
fn distance_sub_overflow() {
    let r = Distance::const_cm(i32::MIN).sub(Distance::const_cm(1));
    assert_eq!(r, Err(UnitsError::Overflow { lhs: i32::MIN, rhs: 1 }));
    assert_eq!(
        Distance::const_cm(10).sub(Distance::const_cm(25)),
        Ok(Distance::const_cm(-15))
    );
}

#[test]
fn distance_neg_and_abs() {
    assert_eq!(Distance::const_cm(42).neg(), Distance::const_cm(-42));
    assert_eq!(Distance::const_cm(-5).abs(), Distance::const_cm(5));
    assert_eq!(Distance::const_cm(5).abs(), Distance::const_cm(5));
    // The magnitude of the most negative value saturates.
    assert_eq!(Distance::const_cm(i32::MIN).abs(), Distance::max());
}

#[test]
fn distance_sqrt_exact() {
    // 4 m squared has a 2 m square root: sqrt(100 * 400) = 200 cm.
    assert_eq!(Distance::const_cm(400).sqrt(), Distance::const_cm(200));
    // sqrt(200) = 14.14... rounds to 14 cm.
    assert_eq!(Distance::const_cm(2).sqrt(), Distance::const_cm(14));
    assert_eq!(Distance::zero().sqrt(), Distance::zero());
}

#[test]
fn distance_div_by_zero_is_fatal() {
    let r = Distance::const_cm(100).div(Distance::zero());
    assert_eq!(r, Err(UnitsError::DivisionByZero { numerator: 100 }));
}

#[test]
fn distance_div_and_scale() {
    // 100 cm / 300 cm is the exact ratio 100/300.
    let ratio = Distance::const_cm(100).div(Distance::const_cm(300)).unwrap();
    assert_eq!(ratio, Ratio { num: 100, den: 300 });
    // Scaling 100 cm by 1/3 rounds to 33 cm.
    let third = Ratio { num: 1, den: 3 };
    assert_eq!(Distance::const_cm(100).scale(third), Distance::const_cm(33));
    // Ties round away from zero: 50 * 1/100 = 0.5 -> 1.
    let hundredth = Ratio { num: 1, den: 100 };
    assert_eq!(Distance::const_cm(50).scale(hundredth), Distance::const_cm(1));
    assert_eq!(Distance::const_cm(-50).scale(hundredth), Distance::const_cm(-1));
}

#[test]
fn distance_div_negative_divisor_normalizes() {
    let ratio = Distance::const_cm(100).div(Distance::const_cm(-300)).unwrap();
    assert_eq!(ratio, Ratio { num: -100, den: 300 });
}

#[test]
fn duration_div_by_zero_is_fatal() {
    // Dividing any duration by the zero duration is fatal.
    let r = Duration::const_ms(777).div(Duration::zero());
    assert_eq!(r, Err(UnitsError::DivisionByZero { numerator: 777 }));
}

#[test]
fn duration_div_self_is_one() {
    // Dividing a duration by itself yields exactly one.
    let d = Duration::const_ms(777);
    let ratio = d.div(d).unwrap();
    assert!(ratio.is_one());
    let neg = Duration::const_ms(-41);
    assert!(neg.div(neg).unwrap().is_one());
}

#[test]
fn duration_min_and_sub() {
    let a = Duration::const_ms(100);
    let b = Duration::const_ms(250);
    assert_eq!(a.min(b), a);
    assert_eq!(b.min(a), a);
    assert_eq!(b.sub(a), Ok(Duration::const_ms(150)));
    assert_eq!(
        Duration::const_ms(i32::MIN).sub(Duration::const_ms(1)),
        Err(UnitsError::Overflow { lhs: i32::MIN, rhs: 1 })
    );
}

#[test]
fn duration_times_speed() {
    // 2 s at 1.5 m/s covers 3 m: 2000 ms * 15000 units / 10^5 = 300 cm.
    let d = Duration::const_ms(2000);
    let v = Speed::const_sorta_meters_per_second(15_000);
    assert_eq!(d.times_speed(v), Distance::const_cm(300));
    assert_eq!(v.times_duration(d), Distance::const_cm(300));
}

#[test]
fn speed_add_sub_scale() {
    let a = Speed::const_sorta_meters_per_second(10_000);
    let b = Speed::const_sorta_meters_per_second(2_500);
    assert_eq!(a.add(b), Ok(Speed::const_sorta_meters_per_second(12_500)));
    assert_eq!(a.sub(b), Ok(Speed::const_sorta_meters_per_second(7_500)));
    assert_eq!(
        Speed::const_sorta_meters_per_second(i32::MAX).add(b),
        Err(UnitsError::Overflow { lhs: i32::MAX, rhs: 2_500 })
    );
    let half = Ratio { num: 1, den: 2 };
    assert_eq!(a.scale(half), Speed::const_sorta_meters_per_second(5_000));
}

#[test]
fn speed_div_duration() {
    // Reaching 1 m/s in 2 s takes 0.5 m/s^2: 1000 * 10000 / 2000 = 5000.
    let v = Speed::const_sorta_meters_per_second(10_000);
    let t = Duration::const_ms(2000);
    assert_eq!(v.div_duration(t), Ok(Acceleration { raw: 5000 }));
    assert_eq!(
        v.div_duration(Duration::zero()),
        Err(UnitsError::DivisionByZero { numerator: 10_000 })
    );
    // Round trip: that acceleration over the same time regains the speed.
    assert_eq!(Acceleration { raw: 5000 }.times_duration(t), v);
}

#[test]
fn speed_div_accel() {
    // 1 m/s at 0.5 m/s^2 takes 2 s: 1000 * 10000 / 5000 = 2000 ms.
    let v = Speed::const_sorta_meters_per_second(10_000);
    let acc = v.div_duration(Duration::const_ms(2000)).unwrap();
    assert_eq!(v.div_accel(acc), Ok(Duration::const_ms(2000)));
    assert_eq!(
        v.div_accel(Acceleration::zero()),
        Err(UnitsError::DivisionByZero { numerator: 10_000 })
    );
}

#[test]
fn acceleration_min_and_times() {
    let a = Speed::const_sorta_meters_per_second(10_000)
        .div_duration(Duration::const_ms(2000))
        .unwrap();
    let z = Acceleration::zero();
    assert_eq!(z.min(a), z);
    assert_eq!(a.min(z), z);
    // 0.5 m/s^2 for 3 s gains 1.5 m/s: 5000 * 3000 / 1000 = 15000.
    assert_eq!(
        a.times_duration(Duration::const_ms(3000)),
        Speed::const_sorta_meters_per_second(15_000)
    );
}
