use webweb::adder::Rectangle;

#[test]
fn it_works() {
    let result = webweb::adder::add(2, 2);
    assert_eq!(result, 4);
}

#[test]
fn larger_can_hold_smaller() {
    let larger = Rectangle { width: 20, height: 20 };
    let smaller = Rectangle { width: 10, height: 10 };
    assert!(larger.can_hold(&smaller));
}

#[test]
fn smaller_cant_hold_larger() {
    let larger = Rectangle { width: 20, height: 20 };
    let smaller = Rectangle { width: 10, height: 10 };
    assert!(!smaller.can_hold(&larger));
}

#[test]
fn it_adds_two() {
    assert_eq!(4, webweb::adder::add_two(2));
}

#[test]
fn greeting_contains_name() {
    let result = webweb::adder::greeting("Carol");
    assert!(
        result.contains("Carol"),
        "Greeting did not contain name, value was {}",
        result
    );
}

#[test]
fn it_works2() -> Result<(), String> {
    if webweb::adder::add_two(2) == 4 {
        Ok(())
    } else {
        Err(String::from("adding 2 to the number 2 did not equal 4"))
    }
}

#[test]
fn some_integration_test() {
    let smaller = Rectangle { width: 5, height: 5 };
    let larger = Rectangle {
        width: webweb::adder::add_two(smaller.width),
        height: webweb::adder::add_two(smaller.height),
    };
    assert!(larger.can_hold(&smaller));
}

#[test]
fn greeting_is_exact() {
    assert_eq!(webweb::adder::greeting("Carol"), "Hello Carol!");
}

#[test]
fn panic_if_out_of_range_accepts_valid() {
    webweb::adder::panic_if_out_of_range(1);
    webweb::adder::panic_if_out_of_range(50);
    webweb::adder::panic_if_out_of_range(100);
}
