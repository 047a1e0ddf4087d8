#[test]
fn lib_it_works() {
    let result = webweb::add_one::add_one(2);
    assert_eq!(result, 3);
}

#[test]
fn add_adds_two_numbers() {
    let x: u128 = 8;
    let y: u128 = 2;
    assert_eq!(webweb::add_one::add(x, y), 10);
}
