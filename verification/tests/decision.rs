use snake_net::decision::arg_max;
use snake_net::error::NetworkError;

#[test]
fn arg_max_finds_the_largest_element() {
    assert_eq!(arg_max(&vec![3i64, 9, -2, 7]), Ok(1));
    assert_eq!(arg_max(&vec![-5i64, -9, -2]), Ok(2));
    assert_eq!(arg_max(&vec![4i64]), Ok(0));
}

#[test]
fn arg_max_breaks_ties_towards_the_lower_index() {
    assert_eq!(arg_max(&vec![1i64, 7, 7, 3]), Ok(1));
    assert_eq!(arg_max(&vec![7i64, 7]), Ok(0));
    assert_eq!(arg_max(&vec![0i64, 5, 2, 5, 5]), Ok(1));
    assert_eq!(arg_max(&vec![2i64; 6]), Ok(0));
}

#[test]
fn arg_max_of_nothing_is_an_error() {
    assert_eq!(arg_max(&Vec::<i64>::new()), Err(NetworkError::EmptyOutput));
}
