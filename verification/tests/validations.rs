use error_rail::traits::{ErrorCategory, ErrorOps, FmapError, WithError};
use error_rail::validation::Validation;
use error_rail::{collect_errors, result_to_validation, split_validation_errors, validation_to_result};

fn validate_age(age: i32) -> Validation<&'static str, i32> {
    if age >= 0 && age <= 150 {
        Validation::Valid(age)
    } else {
        Validation::invalid("age must be between 0 and 150")
    }
}

fn validate_name(name: &'static str) -> Validation<&'static str, &'static str> {
    if name.is_empty() {
        Validation::invalid("name must not be empty")
    } else {
        Validation::Valid(name)
    }
}

#[test]
fn zip_collects_errors_of_both() {
    let v = validate_age(-5).zip(validate_name(""));
    assert_eq!(v.into_errors().unwrap(), vec!["age must be between 0 and 150", "name must not be empty"]);
}

#[test]
fn zip_of_valid_pairs_values() {
    let v = validate_age(30).zip(validate_name("ann"));
    assert_eq!(v.into_value(), Some((30, "ann")));
}

#[test]
fn valid_and_invalid_predicates() {
    assert!(validate_age(3).is_valid());
    assert!(validate_age(-1).is_invalid());
    assert!(!Validation::<&str, i32>::valid(1).is_invalid());
}

#[test]
fn map_and_and_then() {
    assert_eq!(validate_age(4).map(|a| a * 2).into_value(), Some(8));
    let chained = validate_age(4).and_then(|a| if a > 10 { Validation::Valid(a) } else { Validation::invalid("too young") });
    assert_eq!(chained.into_errors().unwrap(), vec!["too young"]);
    let untouched = validate_age(-4).and_then(|a| Validation::Valid(a + 1));
    assert_eq!(untouched.into_errors().unwrap(), vec!["age must be between 0 and 150"]);
}

#[test]
fn or_else_recovers_from_errors() {
    let v = validate_age(-4).or_else(|errs| Validation::Valid(errs.len() as i32));
    assert_eq!(v.into_value(), Some(1));
    let kept = validate_age(5).or_else(|_| Validation::Valid(0));
    assert_eq!(kept.into_value(), Some(5));
}

#[test]
fn map_err_maps_each_error() {
    let v: Validation<&str, i32> = Validation::invalid_many(vec!["a", "bb"]);
    let m = v.map_err(|e: &str| e.len());
    assert_eq!(m.into_errors().unwrap(), vec![1, 2]);
}

#[test]
fn to_result_keeps_all_errors() {
    let v: Validation<&str, i32> = Validation::invalid_many(vec!["a", "b"]);
    assert_eq!(v.to_result(), Err(vec!["a", "b"]));
    assert_eq!(Validation::<&str, i32>::Valid(2).to_result(), Ok(2));
    assert_eq!(Validation::<&str, i32>::from_result(Err("x")).into_errors(), Some(vec!["x"]));
}

#[test]
fn validation_to_result_takes_first_error() {
    assert_eq!(validation_to_result(Validation::<&str, i32>::Valid(42)), Ok(42));
    assert_eq!(validation_to_result(Validation::<&str, i32>::invalid("error")), Err("error"));
    assert_eq!(validation_to_result(Validation::<&str, i32>::invalid_many(vec!["a", "b"])), Err("a"));
}

#[test]
fn result_to_validation_round_trip() {
    let ok: Result<i32, &str> = Ok(42);
    assert!(result_to_validation(ok).is_valid());
    let err: Result<i32, &str> = Err("failed");
    let v = result_to_validation(err);
    assert!(v.is_invalid());
    assert_eq!(validation_to_result(v), Err("failed"));
    assert_eq!(validation_to_result(result_to_validation(Ok::<i32, &str>(9))), Ok(9));
}

#[test]
fn collect_errors_valid_when_empty() {
    assert!(collect_errors(Vec::<&str>::new()).is_valid());
    assert_eq!(collect_errors(vec!["x", "y"]).into_errors(), Some(vec!["x", "y"]));
}

#[test]
fn split_validation_errors_yields_each_error() {
    let mut it = split_validation_errors(Validation::<&str, i32>::invalid_many(vec!["e1", "e2"]));
    assert_eq!(it.size_hint(), (2, Some(2)));
    assert_eq!(it.next(), Some(Err("e1")));
    assert_eq!(it.next(), Some(Err("e2")));
    assert_eq!(it.next(), None);
    let mut ok = split_validation_errors(Validation::<&str, i32>::Valid(3));
    assert_eq!(ok.size_hint(), (1, Some(1)));
    assert_eq!(ok.next(), Some(Ok(3)));
    assert_eq!(ok.next(), None);
}

#[test]
fn iterators_over_value_and_errors() {
    let v = Validation::<&str, i32>::Valid(5);
    let mut it = v.iter();
    assert_eq!(it.next(), Some(&5));
    assert_eq!(it.next(), None);
    let mut errs = v.iter_errors();
    assert_eq!(errs.next(), None);
    let w = Validation::<&str, i32>::invalid_many(vec!["a", "b"]);
    let mut e = w.iter_errors();
    assert_eq!(e.next(), Some(&"a"));
    assert_eq!(e.next(), Some(&"b"));
    assert_eq!(e.next(), None);
    let mut into = Validation::<&str, i32>::Valid(8).into_iter();
    assert_eq!(into.next(), Some(8));
    assert_eq!(into.next(), None);
}

#[test]
fn iter_mut_changes_value() {
    let mut v = Validation::<&str, i32>::Valid(5);
    if let Some(x) = v.iter_mut().next() {
        *x = 6;
    }
    assert_eq!(v.into_value(), Some(6));
}

#[test]
fn with_error_on_validation() {
    let v: Validation<&str, i32> = Validation::invalid_many(vec!["a", "b"]);
    assert_eq!(v.to_result_first(), Err("a"));
    let w: Validation<&str, i32> = Validation::invalid_many(vec!["a", "b"]);
    assert_eq!(w.to_result_all(), Err(vec!["a", "b"]));
}

#[test]
fn fmap_error_on_validation_and_result() {
    let v: Validation<&str, i32> = Validation::invalid_many(vec!["a", "bb"]);
    let f = |e: &str| e.len();
    let m = v.fmap_error(f);
    assert_eq!(m.into_errors(), Some(vec![1, 2]));
    let r: Result<i32, &str> = Err("abc");
    assert_eq!(r.fmap_error(|e: &str| e.len()), Err(3));
}

#[test]
fn error_category_lifts() {
    let v: Validation<&str, i32> = <Validation<&str, ()> as ErrorCategory<&str, i32>>::lift(3);
    assert_eq!(v.into_value(), Some(3));
    let r: Result<i32, &str> = <Result<(), &str> as ErrorCategory<&str, i32>>::handle_error("bad");
    assert_eq!(r, Err("bad"));
}

#[test]
fn error_ops_on_result() {
    let r: Result<i32, &str> = Err("x");
    assert_eq!(r.recover(|_| Ok(1)), Ok(1));
    let b: Result<i32, usize> = Ok::<i32, &str>(2).bimap_result(|v| v + 1, |e: &str| e.len());
    assert_eq!(b, Ok(3));
}

#[test]
fn iter_errors_mut_changes_errors() {
    let mut v: Validation<String, i32> = Validation::invalid_many(vec!["a".to_string(), "b".to_string()]);
    for e in v.iter_errors_mut().into_slice().iter_mut() {
        e.push('!');
    }
    assert_eq!(v.into_errors(), Some(vec!["a!".to_string(), "b!".to_string()]));
    let mut w: Validation<String, i32> = Validation::Valid(1);
    assert!(w.iter_errors_mut().into_slice().is_empty());
}
