use bop::error::Error;
use bop::slice::get;

#[test]
fn errors_describe_themselves() {
    assert_eq!(Error::FloatParse.message(), "failed to parse float");
    assert_eq!(Error::IntParse.message(), "failed to parse integer");
    assert_eq!(Error::InvalidFormat.message(), "invalid format");
}

#[test]
fn errors_compare_by_kind() {
    assert_eq!(Error::FloatParse, Error::FloatParse);
    assert_ne!(Error::FloatParse, Error::IntParse);
    assert_ne!(Error::IntParse, Error::InvalidFormat);
    let copy = Error::InvalidFormat.clone();
    assert_eq!(copy, Error::InvalidFormat);
}

#[test]
fn get_gives_the_element_at_the_index() {
    let values = [10, 20, 30];
    assert_eq!(get(&values, 0), Ok(&10));
    assert_eq!(get(&values, 2), Ok(&30));
}

#[test]
fn get_beyond_the_end_is_refused() {
    let values = [10, 20, 30];
    assert_eq!(get(&values, 3), Err(Error::InvalidFormat));
    assert_eq!(get(&values, usize::MAX), Err(Error::InvalidFormat));
    let none: [u8; 0] = [];
    assert_eq!(get(&none, 0), Err(Error::InvalidFormat));
}
