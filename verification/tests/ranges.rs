use rnglib::NumRange;
use rnglib::NumRangeFrom;
use rnglib::NumRangeFull;
use rnglib::NumRangeInclusive;
use rnglib::NumRangeTo;
use rnglib::NumRangeToInclusive;
use rnglib::ValidRandomNumber;
use rnglib::ValidRandomRange;

#[test]
fn numeric_domain_u32() {
    let zero = <u32 as ValidRandomNumber>::zero();
    let one = <u32 as ValidRandomNumber>::one();
    let max = <u32 as ValidRandomNumber>::max();
    let byte_max = <u32 as ValidRandomNumber>::byte_max();
    assert_eq!(zero + one, one);
    assert!(max >= byte_max);
    assert_eq!(byte_max, 255);
    let x: u32 = 200;
    assert_eq!(x.to_u8() as u32, x);
    assert_eq!(<u32 as ValidRandomNumber>::from_usize(x.to_usize()), x);
}

#[test]
fn numeric_domain_u64() {
    let zero = <u64 as ValidRandomNumber>::zero();
    let one = <u64 as ValidRandomNumber>::one();
    let max = <u64 as ValidRandomNumber>::max();
    let byte_max = <u64 as ValidRandomNumber>::byte_max();
    assert_eq!(zero + one, one);
    assert!(max >= byte_max);
    assert_eq!(byte_max, 255);
    let x: u64 = 17;
    assert_eq!(x.to_u8() as u64, x);
    assert_eq!(<u64 as ValidRandomNumber>::from_usize(x.to_usize()), x);
}

#[test]
fn numeric_domain_u128() {
    let zero = <u128 as ValidRandomNumber>::zero();
    let one = <u128 as ValidRandomNumber>::one();
    let max = <u128 as ValidRandomNumber>::max();
    let byte_max = <u128 as ValidRandomNumber>::byte_max();
    assert_eq!(zero + one, one);
    assert!(max >= byte_max);
    assert_eq!(byte_max, 255);
    let x: u128 = 255;
    assert_eq!(x.to_u8() as u128, x);
    assert_eq!(<u128 as ValidRandomNumber>::from_usize(x.to_usize()), x);
}

#[test]
fn numeric_domain_successor() {
    assert_eq!(0u32.succ(), 1);
    assert_eq!(254u64.succ(), 255);
    assert_eq!(99u128.succ(), 100);
}

#[test]
fn range_normalization() {
    let r = NumRange { start: 1u32, end: 5 };
    assert_eq!(r._start(), 1);
    assert_eq!(r._end(), 5);
    assert!(r._start() <= r._end());

    let r = NumRangeFrom { start: 7u64 };
    assert_eq!(r._start(), 7);
    assert_eq!(r._end(), u64::MAX);
    assert!(r._start() <= r._end());

    let r = NumRangeTo { end: 9u32 };
    assert_eq!(r._start(), 0);
    assert_eq!(r._end(), 9);
    assert!(r._start() <= r._end());

    let r = NumRangeFull;
    let start: u128 = r._start();
    let end: u128 = r._end();
    assert_eq!(start, 0);
    assert_eq!(end, u128::MAX);
    assert!(start <= end);
}

#[test]
fn inclusive_range_normalization() {
    // A closed-closed shape's normalized end is its literal upper bound
    // plus one; the domain maximum itself is the documented overflow
    // boundary and stays outside the representable shapes.
    let r = NumRangeInclusive { start: 1u32, end: 5 };
    assert_eq!(r._start(), 1);
    assert_eq!(r._end(), 6);
    assert!(r._start() <= r._end());

    let r = NumRangeInclusive { start: 0u64, end: 254 };
    assert_eq!(r._end(), 255);

    let r = NumRangeToInclusive { end: 9u32 };
    assert_eq!(r._start(), 0);
    assert_eq!(r._end(), 10);
    assert!(r._start() <= r._end());
}
