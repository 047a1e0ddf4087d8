use webweb::closures::{Inventory, ShirtColor};
use webweb::enums::{Coin, UsState};
use webweb::guessing_game::{Guess, GuessOutcome};
use webweb::structs::Rectangle;
use webweb::traits::Summary;

#[test]
fn guess_new_and_value_round_trip() {
    let guess = Guess::new(5);
    assert_eq!(guess.value(), 5);
}

#[test]
fn try_guess_validates_the_range() {
    assert!(webweb::guessing_game::try_guess(0).is_none());
    assert!(webweb::guessing_game::try_guess(11).is_none());
    let g = webweb::guessing_game::try_guess(10).unwrap();
    assert_eq!(g.value(), 10);
}

#[test]
fn secrets_stay_in_range() {
    let mut i: usize = 0;
    while i < 50 {
        let secret = webweb::guessing_game::new_secret();
        assert!(1 <= secret.value() && secret.value() <= 10);
        i += 1;
    }
}

#[test]
fn check_guess_compares_to_the_secret() {
    let secret = Guess::new(7);
    assert_eq!(
        webweb::guessing_game::check_guess(&Guess::new(3), &secret),
        GuessOutcome::TooSmall
    );
    assert_eq!(
        webweb::guessing_game::check_guess(&Guess::new(9), &secret),
        GuessOutcome::TooBig
    );
    assert_eq!(
        webweb::guessing_game::check_guess(&Guess::new(7), &secret),
        GuessOutcome::Win
    );
}

#[test]
fn coins_have_their_values() {
    assert_eq!(webweb::enums::value_in_cents(Coin::Penny), 1);
    assert_eq!(webweb::enums::value_in_cents(Coin::Nickel), 5);
    assert_eq!(webweb::enums::value_in_cents(Coin::Dime), 10);
    assert_eq!(
        webweb::enums::value_in_cents(Coin::Quarter(UsState::Alaska)),
        25
    );
    assert!(webweb::enums::do_i_like_coin(Coin::Dime));
    assert!(!webweb::enums::do_i_like_coin(Coin::Penny));
}

#[test]
fn plus_one_and_one_if_some() {
    assert_eq!(webweb::enums::plus_one(Some(5)), Some(6));
    assert_eq!(webweb::enums::plus_one(None), None);
    assert_eq!(webweb::enums::one_if_some(Some("x")), 1);
    assert_eq!(webweb::enums::one_if_some::<i32>(None), 0);
}

#[test]
fn giveaway_prefers_the_user_choice() {
    let store = Inventory {
        shirts: vec![ShirtColor::Blue, ShirtColor::Red, ShirtColor::Blue],
    };
    assert_eq!(store.giveaway(Some(ShirtColor::Red)), ShirtColor::Red);
    assert_eq!(store.giveaway(None), ShirtColor::Blue);
    let red_store = Inventory {
        shirts: vec![ShirtColor::Red, ShirtColor::Red, ShirtColor::Blue],
    };
    assert_eq!(red_store.giveaway(None), ShirtColor::Red);
}

#[test]
fn rectangle_geometry() {
    let rect = Rectangle { width: 50, height: 30 };
    let rect2 = Rectangle { width: 150, height: 100 };
    assert_eq!(rect2.area(), 15000);
    assert!(rect2.width());
    assert!(!rect.can_hold(&rect2));
    assert!(rect2.can_hold(&rect));
    let sqr = Rectangle::square(50);
    assert_eq!(sqr.width, 50);
    assert_eq!(sqr.height, 50);
}

#[test]
fn build_user_fills_the_fields() {
    let u = webweb::structs::build_user(
        String::from("pedro2@mcpedro.com"),
        String::from("Pedro 2"),
    );
    assert!(u.active);
    assert_eq!(u.email, "pedro2@mcpedro.com");
    assert_eq!(u.username, "Pedro 2");
    assert_eq!(u.sign_in_count, 1);
}

#[test]
fn largest_finds_the_maximum() {
    let numbers: [i64; 8] = [102, 34, 6000, 89, 54, 2, 43, 8];
    assert_eq!(webweb::generics::largest(&numbers), Some(6000));
    let empty: [i64; 0] = [];
    assert_eq!(webweb::generics::largest(&empty), None);
}

#[test]
fn swap_exchanges_values() {
    let mut a = 'a';
    let mut b = 'b';
    webweb::generics::swap(&mut a, &mut b);
    assert_eq!(a, 'b');
    assert_eq!(b, 'a');
}

#[test]
fn points_mix_up() {
    let p = webweb::generics::Point::new(5, 10.5_f64);
    assert_eq!(*p.x(), 5);
    let q = webweb::generics::Point::new("x", 'c');
    let mixed = p.mixup(q);
    assert_eq!(*mixed.x(), 5);
}

#[test]
fn longest_picks_the_longer_string() {
    assert_eq!(webweb::lifetimes::longest("abcd", "xyz"), "abcd");
    assert_eq!(webweb::lifetimes::longest("ab", "xyz"), "xyz");
}

#[test]
fn slicing_x_to_the_length_of_y() {
    assert_eq!(
        webweb::lifetimes::get_x_sliced_to_the_length_of_y("12345", "abc"),
        "123"
    );
    assert_eq!(
        webweb::lifetimes::get_x_sliced_to_the_length_of_y("12", "abc"),
        "12"
    );
}

#[test]
fn first_word_skips_leading_spaces() {
    assert_eq!(webweb::lifetimes::first_word("hello world"), Some("hello"));
    assert_eq!(webweb::lifetimes::first_word("  hi"), Some("hi"));
    assert_eq!(webweb::lifetimes::first_word("   "), None);
    assert_eq!(webweb::lifetimes::first_word(""), None);
}

#[test]
fn excerpts_have_level_three() {
    let e = webweb::lifetimes::ImportantExcerpt { part: "123" };
    assert_eq!(e.level(), 3);
}

#[test]
fn push_world_appends() {
    let mut s = String::from("Hello");
    webweb::slices::push_world(&mut s);
    assert_eq!(s, "Hello, World!");
}

#[test]
fn first_world_stops_at_the_space() {
    assert_eq!(webweb::slices::first_world("Hello, World!"), "Hello,");
    assert_eq!(webweb::slices::first_world("Hello"), "Hello");
}

#[test]
fn match_finds_substrings() {
    assert!(webweb::appendix::is_match("foo", "foo bar"));
    assert!(!webweb::appendix::is_match("baz", "foo bar"));
    assert!(webweb::appendix::is_match("", "anything"));
    assert!(!webweb::appendix::is_match("long needle", "short"));
    assert!(webweb::appendix::is_match("o b", "foo bar"));
}

#[test]
fn last_char_of_first_line_cases() {
    assert_eq!(webweb::error_handling::last_char_of_first_line("Hello\nworld"), Some('o'));
    assert_eq!(webweb::error_handling::last_char_of_first_line("x\r\ny"), Some('x'));
    assert_eq!(webweb::error_handling::last_char_of_first_line("\nabc"), None);
    assert_eq!(webweb::error_handling::last_char_of_first_line(""), None);
    assert_eq!(webweb::error_handling::last_char_of_first_line("abc"), Some('c'));
}

#[test]
fn summaries_read_as_expected() {
    let tweet = webweb::traits::Tweet {
        username: "Pablo".to_string(),
        content: "Pedro es un boludo".to_string(),
        reply: false,
        retweet: false,
    };
    assert_eq!(tweet.summarize(), "Pablo: Pedro es un boludo");
    assert_eq!(tweet.summarize_author(), "@Pablo");

    let article = webweb::traits::NewsArticle {
        headline: "Cat sleeps on the carpet!".to_string(),
        location: "My room, right behind me".to_string(),
        author: "Thomas".to_string(),
        content: "Nina The Cat is sleeping.".to_string(),
    };
    assert_eq!(
        article.summarize(),
        "Cat sleeps on the carpet!, by Thomas (My room, right behind me)"
    );
    assert_eq!(article.summarize_author(), "Thomas");

    assert_eq!(
        5_i32.summarize(),
        "(Read more from Bruh, I'm just an i32...)"
    );
}

#[test]
fn counter_counts_to_its_maximum() {
    let mut counter = webweb::traits_advanced::Counter::new(5);
    let mut expected: u32 = 1;
    while let Some(v) = counter.next_number() {
        assert_eq!(v, expected);
        expected += 1;
    }
    assert_eq!(expected, 6);
    assert_eq!(counter.next_number(), None);

    let mut labels = webweb::traits_advanced::Counter::new(2);
    assert_eq!(labels.next_label(), Some(String::from("1")));
    assert_eq!(labels.next_label(), Some(String::from("2")));
    assert_eq!(labels.next_label(), None);
}

#[test]
fn do_twice_doubles_up() {
    assert_eq!(
        webweb::closures_advanced::do_twice(webweb::add_one::add_one, 5),
        12
    );
}

#[test]
fn pedro_doubles() {
    assert_eq!(webweb::vars_and_types::pedro(47), 94);
}

#[test]
fn numbers_render_in_decimal() {
    assert_eq!(webweb::text::u64_to_string(0), "0");
    assert_eq!(webweb::text::u64_to_string(7), "7");
    assert_eq!(webweb::text::u64_to_string(10), "10");
    assert_eq!(webweb::text::u64_to_string(1234567890), "1234567890");
}

#[test]
fn str_eq_compares_exactly() {
    assert!(webweb::text::str_eq("abc", "abc"));
    assert!(!webweb::text::str_eq("abc", "abd"));
    assert!(!webweb::text::str_eq("abc", "ab"));
    assert!(webweb::text::str_eq("", ""));
}

#[test]
fn stupid_box_holds_its_value() {
    let b = webweb::smart_pointers::StupidBox::new(5);
    assert_eq!(*b.inner(), 5);
}

#[test]
fn base64_known_vectors() {
    assert_eq!(webweb::base64_encode::encode(b"Man"), b"TWFu".to_vec());
    assert_eq!(webweb::base64_encode::encode(b"Ma"), b"TWE=".to_vec());
    assert_eq!(webweb::base64_encode::encode(b"M"), b"TQ==".to_vec());
    assert_eq!(webweb::base64_encode::encode(b"hello"), b"aGVsbG8=".to_vec());
    assert_eq!(webweb::base64_encode::encode(b""), Vec::<u8>::new());
    assert_eq!(webweb::base64_encode::encode(&[0xFF, 0xFF, 0xFF]), b"////".to_vec());
    assert_eq!(webweb::base64_encode::encode(&[0, 0, 0]), b"AAAA".to_vec());
}

#[test]
fn read_opt_accepts_the_two_scales() {
    assert_eq!(webweb::celsius_and_farenheit::read_opt("F"), Some(0));
    assert_eq!(webweb::celsius_and_farenheit::read_opt("C"), Some(1));
    assert_eq!(webweb::celsius_and_farenheit::read_opt("x"), None);
    assert_eq!(webweb::celsius_and_farenheit::read_opt(""), None);
}

#[test]
fn baby_dogs_have_two_names() {
    assert_eq!(webweb::traits_advanced::Dog::baby_name(), "Spot");
    assert_eq!(
        <webweb::traits_advanced::Dog as webweb::traits_advanced::Animal>::baby_name(),
        "puppy"
    );
}

#[test]
fn split_lines_matches_line_semantics() {
    let cases: Vec<(&str, Vec<&str>)> = vec![
        ("", vec![]),
        ("\n", vec![""]),
        ("a\n", vec!["a"]),
        ("a\r\nb\nc", vec!["a", "b", "c"]),
        ("\nPedro...\nPedro?\n Sip. Pedro =D ", vec!["", "Pedro...", "Pedro?", " Sip. Pedro =D "]),
        ("ends in cr\r", vec!["ends in cr\r"]),
    ];
    for (input, expected) in cases {
        let got = webweb::text::split_lines_exec(input);
        assert_eq!(got, expected, "splitting {:?}", input);
    }
}

#[test]
fn str_le_orders_like_strings() {
    let pairs = vec![
        ("", "", true),
        ("", "a", true),
        ("a", "", false),
        ("abc", "abd", true),
        ("abd", "abc", false),
        ("ab", "abc", true),
        ("abc", "ab", false),
        ("Zoo", "apple", true),
    ];
    for (a, b, expected) in pairs {
        assert_eq!(webweb::text::str_le(a, b), expected, "{:?} <= {:?}", a, b);
        assert_eq!(webweb::text::str_le(a, b), a <= b, "against the built-in order");
    }
}
