#[test]
fn restaurant_it_works() {
    let result = webweb::restaurant::add(2, 2);
    assert_eq!(result, 4);
}

#[test]
fn restaurant_single_it_works() {
    let result = webweb::restaurant_single::add(2, 2);
    assert_eq!(result, 4);
}

#[test]
fn summer_breakfast_takes_the_toast() {
    let meal = webweb::restaurant::back_of_house::Breakfast::summer("Rye");
    assert_eq!(meal.toast, "Rye");
}

#[test]
fn eating_at_both_restaurants_works() {
    webweb::restaurant::eat_at_restaurant();
    webweb::restaurant::customer::eat_at_restaurant();
    webweb::restaurant::add_to_waitlist();
    webweb::restaurant_single::eat_at_restaurant();
    webweb::restaurant_single::customer::eat_at_restaurant();
    webweb::restaurant_single::add_to_waitlist();
}
