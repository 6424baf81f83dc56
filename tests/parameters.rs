use crusti_g2io::parameters::{
    parse_value, str_param_to_positive_integers, PROBABILITY_SCALE, str_param_to_positive_integers_and_probability, ParameterParser,
};
use crusti_g2io::{ParamErrorKind, ParameterType, ParameterValue, Probability};

fn as_f64(p: Probability) -> f64 {
    p.scaled as f64 / PROBABILITY_SCALE as f64
}

fn probability_of(v: &ParameterValue) -> f64 {
    as_f64(v.unwrap_probability())
}

#[test]
fn test_not_enough_params_0() {
    let parser = ParameterParser::new(vec![ParameterType::PositiveInteger, ParameterType::PositiveInteger]);
    assert!(parser.parse("").is_err());
}

#[test]
fn test_not_enough_params_1() {
    let parser = ParameterParser::new(vec![ParameterType::PositiveInteger, ParameterType::PositiveInteger]);
    assert!(parser.parse("1").is_err());
}

#[test]
fn test_ok_empty() {
    let parser = ParameterParser::new(vec![]);
    assert_eq!(vec![] as Vec<ParameterValue>, parser.parse("").unwrap());
}

#[test]
fn test_positive_integer_ok() {
    let parser = ParameterParser::new(vec![ParameterType::PositiveInteger]);
    assert_eq!(vec![ParameterValue::PositiveInteger(1)], parser.parse("1").unwrap());
}

#[test]
fn test_positive_integer_not_ok() {
    let parser = ParameterParser::new(vec![ParameterType::PositiveInteger]);
    assert!(parser.parse("-1").is_err());
    assert!(parser.parse("a").is_err());
}

#[test]
fn test_probability_ok() {
    let parser = ParameterParser::new(vec![ParameterType::Probability]);
    let v = parser.parse(".5").unwrap();
    assert_eq!(1, v.len());
    assert_eq!(0.5, probability_of(&v[0]));
    let v = parser.parse("0").unwrap();
    assert_eq!(1, v.len());
    assert_eq!(0., probability_of(&v[0]));
    let v = parser.parse("1").unwrap();
    assert_eq!(1, v.len());
    assert_eq!(1., probability_of(&v[0]));
}

#[test]
fn test_probability_not_ok() {
    let parser = ParameterParser::new(vec![ParameterType::Probability]);
    assert!(parser.parse("-1.5").is_err());
    assert!(parser.parse("1.5").is_err());
    assert!(parser.parse("a").is_err());
}

#[test]
fn parse_integer_and_probability() {
    let parser = ParameterParser::new(vec![ParameterType::PositiveInteger, ParameterType::Probability]);
    let v = parser.parse("4,0.5").unwrap();
    assert_eq!(2, v.len());
    assert_eq!(ParameterValue::PositiveInteger(4), v[0]);
    assert_eq!(0.5, probability_of(&v[1]));
    assert_eq!(ParameterValue::Probability(Probability { scaled: 500_000_000_000_000_000 }), v[1]);
}

#[test]
fn parse_probability_out_of_range_is_type_error() {
    let parser = ParameterParser::new(vec![ParameterType::Probability]);
    let e = parser.parse("1.5").unwrap_err();
    assert_eq!(ParamErrorKind::Type, e.kind);
    assert_eq!("1.5", e.input);
}

#[test]
fn parse_too_many_is_arity_error() {
    let parser = ParameterParser::new(vec![ParameterType::PositiveInteger]);
    let e = parser.parse("1,2").unwrap_err();
    assert_eq!(ParamErrorKind::Arity, e.kind);
    assert_eq!("1,2", e.input);
}

#[test]
fn parse_reports_first_bad_token() {
    let parser = ParameterParser::new(vec![
        ParameterType::PositiveInteger,
        ParameterType::PositiveInteger,
        ParameterType::PositiveInteger,
    ]);
    let e = parser.parse("1,x,y").unwrap_err();
    assert_eq!(ParamErrorKind::Type, e.kind);
    assert_eq!("x", e.input);
}

#[test]
fn positive_integer_forms() {
    let t = ParameterType::PositiveInteger;
    assert_eq!(Some(ParameterValue::PositiveInteger(42)), parse_value(t, "+42"));
    assert_eq!(Some(ParameterValue::PositiveInteger(7)), parse_value(t, "007"));
    assert_eq!(None, parse_value(t, "+"));
    assert_eq!(None, parse_value(t, ""));
    assert_eq!(None, parse_value(t, " 1"));
    assert_eq!(
        Some(ParameterValue::PositiveInteger(usize::MAX)),
        parse_value(t, &usize::MAX.to_string())
    );
    assert_eq!(None, parse_value(t, "99999999999999999999999999"));
}

#[test]
fn probability_forms() {
    let t = ParameterType::Probability;
    let p = |s: &str| parse_value(t, s).map(|v| probability_of(&v));
    assert_eq!(Some(0.25), p("0.25"));
    assert_eq!(Some(0.5), p("+.5"));
    assert_eq!(Some(1.0), p("1."));
    assert_eq!(Some(1.0), p("0001.000"));
    assert_eq!(Some(0.0), p("-0"));
    assert_eq!(None, p("-0.1"));
    assert_eq!(None, p("."));
    assert_eq!(None, p("0.5.1"));
    assert_eq!(Some(1.0), p("1.000000000000000001"));
    assert_eq!(Some(1.0), p("1.0000000000000000009"));
    assert_eq!(Some(1.0), p("1.000000000000000111"));
    assert_eq!(None, p("1.000000000000000112"));
}

#[test]
fn utils_test_str_param_to_positive_integers_ok_1() {
    assert_eq!(vec![1], str_param_to_positive_integers("1").unwrap())
}

#[test]
fn utils_test_str_param_to_positive_integers_ok_2() {
    assert_eq!(vec![1, 2], str_param_to_positive_integers("1,2").unwrap())
}

#[test]
fn utils_test_str_param_to_positive_integers_empty() {
    assert_eq!(vec![] as Vec<usize>, str_param_to_positive_integers("").unwrap())
}

#[test]
fn utils_test_str_param_to_positive_integers_single_comma() {
    assert!(str_param_to_positive_integers(",").is_err())
}

#[test]
fn utils_test_str_param_to_positive_integers_trailing_comma() {
    assert!(str_param_to_positive_integers("1,2,").is_err())
}

#[test]
fn utils_test_str_param_to_positive_integers_alpha() {
    assert!(str_param_to_positive_integers("a").is_err())
}

#[test]
fn test_str_param_to_positive_integer_and_probability_ok_1() {
    let (v, p) = str_param_to_positive_integers_and_probability("0,0", 1).unwrap();
    assert_eq!((vec![0], 0.), (v, as_f64(p)))
}

#[test]
fn test_str_param_to_positive_integer_and_probability_ok_2() {
    let (v, p) = str_param_to_positive_integers_and_probability("0,0.5", 1).unwrap();
    assert_eq!((vec![0], 0.5), (v, as_f64(p)))
}

#[test]
fn test_str_param_to_positive_integer_and_probability_empty() {
    assert!(str_param_to_positive_integers_and_probability("", 1).is_err())
}

#[test]
fn test_str_param_to_positive_integer_and_probability_single_comma() {
    assert!(str_param_to_positive_integers_and_probability(",", 1).is_err())
}

#[test]
fn test_str_param_to_positive_integer_and_probability_not_an_integer() {
    assert!(str_param_to_positive_integers_and_probability("0.,0.", 1).is_err())
}

#[test]
fn test_str_param_to_positive_integer_and_probability_not_a_float() {
    assert!(str_param_to_positive_integers_and_probability("0.,a", 1).is_err())
}

#[test]
fn test_str_param_to_positive_integers_and_probability_single_probability_ok() {
    let (v, p) = str_param_to_positive_integers_and_probability("0.5", 0).unwrap();
    assert_eq!((vec![] as Vec<usize>, 0.5), (v, as_f64(p)))
}

#[test]
fn test_str_param_to_positive_integers_and_probability_single_probability_too_much_integers() {
    assert!(str_param_to_positive_integers_and_probability("1,0.5", 0).is_err())
}

#[test]
fn integers_and_probability_error_kinds() {
    let e = str_param_to_positive_integers_and_probability("", 0).unwrap_err();
    assert_eq!(ParamErrorKind::Type, e.kind);
    let e = str_param_to_positive_integers_and_probability("1,2", 0).unwrap_err();
    assert_eq!(ParamErrorKind::Arity, e.kind);
}

#[test]
fn probability_exponent_forms() {
    let t = ParameterType::Probability;
    let p = |s: &str| parse_value(t, s).map(|v| probability_of(&v));
    assert_eq!(Some(0.5), p("5e-1"));
    assert_eq!(Some(0.5), p("5E-1"));
    assert_eq!(Some(0.5), p("0.05e+1"));
    assert_eq!(Some(0.5), p("500e-3"));
    assert_eq!(Some(1.0), p("1e0"));
    assert_eq!(Some(1.0), p("1.e0"));
    assert_eq!(Some(0.0), p("1e-400"));
    assert_eq!(Some(0.0), p("0e999999999999999999999999"));
    assert_eq!(Some(0.0), p("-0e5"));
    assert_eq!(None, p("1e1"));
    assert_eq!(None, p("1e99999999999999999999999"));
    assert_eq!(None, p("-1e-20"));
    assert_eq!(None, p("1e"));
    assert_eq!(None, p("e1"));
    assert_eq!(None, p("1e+"));
    assert_eq!(None, p("1e1.5"));
    assert_eq!(None, p("inf"));
    assert_eq!(None, p("NaN"));
}

#[test]
fn probability_exponent_in_parsers() {
    let parser = ParameterParser::new(vec![ParameterType::Probability]);
    assert_eq!(0.5, probability_of(&parser.parse("5e-1").unwrap()[0]));
    let (v, p) = str_param_to_positive_integers_and_probability("5e-1", 0).unwrap();
    assert_eq!((vec![] as Vec<usize>, 0.5), (v, as_f64(p)));
}

#[test]
fn equal_probabilities_compare_equal() {
    let t = ParameterType::Probability;
    assert_eq!(parse_value(t, "0.5"), parse_value(t, "0.50"));
    assert_eq!(parse_value(t, "0.5"), parse_value(t, "5e-1"));
    assert_eq!(Some(ParameterValue::Probability(Probability::one())), parse_value(t, "1"));
    assert_eq!(Some(ParameterValue::Probability(Probability::zero())), parse_value(t, "0.000"));
}
