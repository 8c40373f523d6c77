use libyang::range::{
    int_parse, int_parse_value, range_int_pair_parse, range_int_parse, range_int_single_parse,
    range_uint_pair_parse, range_uint_parse, range_uint_single_parse, uint_parse, uint_parse_value,
};
use libyang::text::{PResult, ParseError};
use libyang::types::{IntVal, RangeInt, RangeUint, RangeVal, UintVal};

#[test]
fn test_range_val() {
    let val = RangeVal::<u64>::Val(10);
    println!("turbo fish {:?}", val);
}

#[test]
fn range_test_int_parse() {
    struct Test {
        input: &'static str,
        output: PResult<'static, &'static str>,
    }
    let tests = [
        Test { input: "0", output: Ok(("", "0")) },
        Test { input: "-0", output: Ok(("", "-0")) },
        Test { input: "1", output: Ok(("", "1")) },
        Test { input: "-1", output: Ok(("", "-1")) },
        Test { input: "123", output: Ok(("", "123")) },
        Test { input: "-123", output: Ok(("", "-123")) },
        Test { input: "-1020", output: Ok(("", "-1020")) },
        Test { input: "2020", output: Ok(("", "2020")) },
    ];
    for t in &tests {
        let result = int_parse(t.input);
        assert_eq!(result, t.output);
    }
}

#[test]
fn range_test_uint_parse() {
    struct Test {
        input: &'static str,
        output: PResult<'static, &'static str>,
    }
    let tests = [
        Test { input: "0", output: Ok(("", "0")) },
        Test { input: "00", output: Ok(("0", "0")) },
        Test { input: "0123", output: Ok(("123", "0")) },
        Test { input: "123", output: Ok(("", "123")) },
        Test { input: "2020", output: Ok(("", "2020")) },
        Test { input: "-2020", output: Err(ParseError {}) },
    ];
    for t in &tests {
        let result = uint_parse(t.input);
        assert_eq!(result, t.output);
    }
}

#[test]
fn types_test_uint_parse() {
    struct Test {
        input: &'static str,
        output: PResult<'static, &'static str>,
    }
    let tests = [
        Test { input: "0", output: Ok(("", "0")) },
        Test { input: "00", output: Ok(("0", "0")) },
        Test { input: "0123", output: Ok(("123", "0")) },
        Test { input: "123", output: Ok(("", "123")) },
        Test { input: "2020", output: Ok(("", "2020")) },
        Test { input: "-2020", output: Err(ParseError {}) },
    ];
    for t in &tests {
        let result = uint_parse(t.input);
        assert_eq!(result, t.output);
    }
}

#[test]
fn test_range_uint_single_parse() {
    struct Test {
        input: &'static str,
        output: PResult<'static, RangeUint>,
    }
    let tests = [
        Test {
            input: "128",
            output: Ok(("", RangeUint { start: RangeVal::Val(128u64), end: RangeVal::Absent })),
        },
        Test {
            input: "max",
            output: Ok(("", RangeUint { start: RangeVal::Max, end: RangeVal::Absent })),
        },
        Test {
            input: "0",
            output: Ok(("", RangeUint { start: RangeVal::Val(0u64), end: RangeVal::Absent })),
        },
        Test { input: "-0", output: Err(ParseError {}) },
        Test { input: "-100", output: Err(ParseError {}) },
        Test { input: "abc", output: Err(ParseError {}) },
    ];
    for t in &tests {
        let result = range_uint_single_parse(t.input);
        assert_eq!(result, t.output);
    }
}

#[test]
fn test_range_uint_pair_parse() {
    struct Test {
        input: &'static str,
        output: PResult<'static, RangeUint>,
    }
    let tests = [
        Test {
            input: "0..1",
            output: Ok(("", RangeUint { start: RangeVal::Val(0u64), end: RangeVal::Val(1u64) })),
        },
        Test {
            input: "1..100",
            output: Ok(("", RangeUint { start: RangeVal::Val(1u64), end: RangeVal::Val(100u64) })),
        },
        Test {
            input: "100..1",
            output: Ok(("", RangeUint { start: RangeVal::Val(100u64), end: RangeVal::Val(1u64) })),
        },
        Test { input: "-0..1", output: Err(ParseError {}) },
        Test { input: "-1..1", output: Err(ParseError {}) },
        Test { input: "100..-1", output: Err(ParseError {}) },
    ];
    for t in &tests {
        let result = range_uint_pair_parse(t.input);
        assert_eq!(result, t.output);
    }
}

#[test]
fn range_test_range_uint_parse() {
    let literal = "1 .. 20";
    let result = range_uint_parse(literal);
    println!("{:?}", result);

    let literal = "0..20";
    let result = range_uint_parse(literal);
    println!("{:?}", result);

    let literal = "-1.. 20";
    let result = range_uint_parse(literal);
    println!("{:?}", result);

    let literal = "min..20";
    let result = range_uint_parse(literal);
    println!("{:?}", result);

    let literal = "max..20";
    let result = range_uint_parse(literal);
    println!("{:?}", result);

    let literal = "68..max";
    let result = range_uint_parse(literal);
    println!("{:?}", result);

    let literal = "min..max";
    let result = range_uint_parse(literal);
    println!("{:?}", result);

    let literal = "min";
    let result = range_uint_parse(literal);
    println!("{:?}", result);

    let literal = "1..20 | 22..24";
    let result = range_uint_parse(literal);
    println!("{:?}", result);

    let literal = "1..20 | 22..24 | 35..100";
    let result = range_uint_parse(literal);
    println!("{:?}", result);

    let literal = "0 | 1..10 | max";
    let result = range_uint_parse(literal);
    println!("{:?}", result);

    let literal = "0 | 30..65535";
    let result = range_uint_parse(literal);
    println!("{:?}", result);

    let literal = "1..14 | 36 | 40 | 44| 48 | 52 | 56 | 60 | 64 | 100 | 104 | 108 | 112 | 116 | 120 | 124 | 128 | 132 | 136 | 140 | 144 | 149 | 153 | 157 | 161 | 165";
    let result = range_uint_parse(literal);
    println!("{:?}", result);
}

#[test]
fn types_test_range_uint_parse() {
    let literal = "1 .. 20";
    let result = range_uint_parse(literal);
    println!("{:?}", result);

    let literal = "0..20";
    let result = range_uint_parse(literal);
    println!("{:?}", result);

    let literal = "-1..20";
    let result = range_uint_parse(literal);
    println!("{:?}", result);

    let literal = "min..20";
    let result = range_uint_parse(literal);
    println!("{:?}", result);

    let literal = "max..20";
    let result = range_uint_parse(literal);
    println!("{:?}", result);

    let literal = "min..max";
    let result = range_uint_parse(literal);
    println!("{:?}", result);
}

#[test]
fn test_uint_single_parse() {
    let literal = "128";
    let result = range_uint_single_parse(literal);
    println!("XXX range_uint_single_parse: {:?}", result);

    let literal = "max";
    let result = range_uint_single_parse(literal);
    println!("XXX range_uint_single_parse: {:?}", result);
}

#[test]
fn test_int_parse_value() {
    let literal = "-128";
    let result = int_parse_value(literal, "min");
    println!("XXX test_int_parse_value: {:?}", result);

    let literal = "max";
    let result = int_parse_value(literal, "max");
    println!("XXX test_int_parse_value: {:?}", result);
}

#[test]
fn parse_minus_zero() {
    // minus zero is valid for integer value.
    let literal = "-0";
    let n = literal.parse::<i64>().unwrap();
    assert_eq!(n, 0);
}

fn pair(a: u64, b: u64) -> RangeUint {
    RangeUint { start: RangeVal::Val(a), end: RangeVal::Val(b) }
}

#[test]
fn three_ranges_in_source_order() {
    let (rest, v) = range_uint_parse("1..20 | 22..24 | 35..100").unwrap();
    assert_eq!(rest, "");
    assert_eq!(v, vec![pair(1, 20), pair(22, 24), pair(35, 100)]);
}

#[test]
fn ranges_mix_singles_pairs_and_keywords() {
    let (rest, v) = range_uint_parse("0 | 1..10 | max").unwrap();
    assert_eq!(rest, "");
    assert_eq!(
        v,
        vec![
            RangeUint { start: RangeVal::Val(0), end: RangeVal::Absent },
            pair(1, 10),
            RangeUint { start: RangeVal::Max, end: RangeVal::Absent },
        ]
    );
    let (rest, v) = range_uint_parse("min..max").unwrap();
    assert_eq!(rest, "");
    assert_eq!(v, vec![RangeUint { start: RangeVal::Min, end: RangeVal::Max }]);
}

#[test]
fn range_with_spaces_around_dots() {
    assert_eq!(range_uint_parse("1 .. 20"), Ok(("", vec![pair(1, 20)])));
}

#[test]
fn either_keyword_may_end_a_pair() {
    assert_eq!(
        range_uint_parse("max..20"),
        Ok(("", vec![RangeUint { start: RangeVal::Max, end: RangeVal::Val(20) }]))
    );
    assert_eq!(
        range_uint_pair_parse("5..min"),
        Ok(("", RangeUint { start: RangeVal::Val(5), end: RangeVal::Min }))
    );
    assert_eq!(
        range_int_pair_parse("max..-3"),
        Ok(("", RangeInt { start: RangeVal::Max, end: RangeVal::Val(-3) }))
    );
}

#[test]
fn descending_pair_is_accepted() {
    assert_eq!(range_uint_parse("100..1"), Ok(("", vec![pair(100, 1)])));
}

#[test]
fn unsigned_rejects_negative_and_letters() {
    assert_eq!(range_uint_single_parse("-100"), Err(ParseError {}));
    assert_eq!(range_uint_single_parse("abc"), Err(ParseError {}));
    assert_eq!(range_uint_parse("-1..20"), Err(ParseError {}));
}

#[test]
fn unsigned_limits() {
    assert_eq!(
        range_uint_single_parse("18446744073709551615"),
        Ok(("", RangeUint { start: RangeVal::Val(u64::MAX), end: RangeVal::Absent }))
    );
    assert_eq!(range_uint_single_parse("18446744073709551616"), Err(ParseError {}));
}

#[test]
fn signed_ranges() {
    assert_eq!(
        range_int_parse("-128..127 | -0"),
        Ok((
            "",
            vec![
                RangeInt { start: RangeVal::Val(-128), end: RangeVal::Val(127) },
                RangeInt { start: RangeVal::Val(0), end: RangeVal::Absent },
            ]
        ))
    );
    assert_eq!(
        range_int_single_parse("-9223372036854775808"),
        Ok(("", RangeInt { start: RangeVal::Val(i64::MIN), end: RangeVal::Absent }))
    );
    assert_eq!(range_int_single_parse("9223372036854775808"), Err(ParseError {}));
    assert_eq!(
        range_int_pair_parse("min..-1"),
        Ok(("", RangeInt { start: RangeVal::Min, end: RangeVal::Val(-1) }))
    );
}

#[test]
fn parse_values_with_keyword() {
    assert_eq!(int_parse_value("-128", "min"), Ok(("", IntVal::Val(-128))));
    assert_eq!(int_parse_value("max", "max"), Ok(("", IntVal::Max)));
    assert_eq!(int_parse_value("max", "min"), Err(ParseError {}));
    assert_eq!(uint_parse_value("min..", "min"), Ok(("..", UintVal::Min)));
    assert_eq!(uint_parse_value("42", "max"), Ok(("", UintVal::Val(42))));
}
