use greprs::borrowing;
use greprs::checks::add;
use greprs::checks::greeting;
use greprs::checks::Guess;
use greprs::coins;
use greprs::generics::largest;
use greprs::generics::MPoint;
use greprs::generics::Pair;
use greprs::generics::Point;
use greprs::inventory::Inventory;
use greprs::inventory::ShirtColor;
use greprs::ownership;
use greprs::patterns;
use greprs::scores::new_hash_map;
use greprs::shapes::area;
use greprs::shapes::Rectangle;
use greprs::slices::find_word_indexes;
use greprs::summaries::returns_summarizable;
use greprs::summaries::NewsArticle;
use greprs::summaries::Summary;
use greprs::summaries::Tweet;
use greprs::users::build_user;

#[test]
fn it_works() {
    let result = add(2, 2);
    assert_eq!(result, 4);
}

#[test]
fn exploration() {
    assert_eq!(2 + 2, 4);
}

#[test]
fn larger_can_hold_smaller() {
    let larger = Rectangle { width: 8, height: 7 };
    let smaller = Rectangle { width: 5, height: 1 };

    assert!(
        larger.can_hold(&smaller),
        "Larger rectangle could not hold smaller rectangle. Value was: {:?}",
        larger
    );
}

#[test]
fn smaller_cannot_hold_larger() {
    let larger = Rectangle { width: 8, height: 7 };
    let smaller = Rectangle { width: 5, height: 1 };

    assert!(!smaller.can_hold(&larger));
}

#[test]
fn not_equals() {
    assert_ne!(4, 6);
}

#[test]
fn greeting_contains_name() {
    let result = greeting("Carol");
    assert!(
        result.contains("Carol"),
        "Greeting did not contain name, value was `{}`",
        result
    );
}

#[test]
fn it_does_stuff() -> Result<(), String> {
    if 2 + 2 == 4 {
        Ok(())
    } else {
        Err(String::from("two plus two does not equal four"))
    }
}

#[test]
fn greeting_exact_text() {
    assert_eq!(greeting("Carol"), "Hello Carol!");
}

#[test]
fn guess_in_range_is_accepted() {
    let _ = Guess::new(1);
    let _ = Guess::new(50);
    let _ = Guess::new(100);
}

#[test]
fn rectangle_measurements() {
    let r = Rectangle { width: 30, height: 50 };
    assert_eq!(r.area(), 1500);
    assert_eq!(r.perimeter(), 160);
    assert_eq!(area(&r), 1500);
    let s = Rectangle::square(3);
    assert_eq!(s.width, 3);
    assert_eq!(s.height, 3);
    assert!(!s.can_hold(&r));
}

#[test]
fn coin_values_as_text() {
    assert_eq!(coins::value_in_cents(coins::Coin::Penny), "$0.01");
    assert_eq!(coins::value_in_cents(coins::Coin::Nickel), "$0.05");
    assert_eq!(coins::value_in_cents(coins::Coin::Dime), "$0.10");
    assert_eq!(coins::value_in_cents(coins::Coin::Quarter), "$0.25");
    assert_eq!(coins::value_in_cents(coins::Coin::Unknown), "$0.00");
}

#[test]
fn coin_names_parse() {
    assert_eq!(coins::coin_from_string("penny"), coins::Coin::Penny);
    assert_eq!(coins::coin_from_string("nickel"), coins::Coin::Nickel);
    assert_eq!(coins::coin_from_string("dime"), coins::Coin::Dime);
    assert_eq!(coins::coin_from_string("quarter"), coins::Coin::Quarter);
    assert_eq!(coins::coin_from_string("doubloon"), coins::Coin::Unknown);
}

#[test]
fn coin_face_values() {
    assert_eq!(patterns::value_in_cents(patterns::Coin::Penny), 1);
    assert_eq!(patterns::value_in_cents(patterns::Coin::Nickel), 5);
    assert_eq!(patterns::value_in_cents(patterns::Coin::Dime), 10);
    assert_eq!(
        patterns::value_in_cents(patterns::Coin::Quarter(patterns::USState::Alaska)),
        25
    );
}

#[test]
fn plus_one_adds_or_stays_none() {
    assert_eq!(patterns::plus_one(Some(5)), Some(6));
    assert_eq!(patterns::plus_one(None), None);
}

#[test]
fn ownership_moves_strings() {
    assert_eq!(ownership::gives_ownership(), "yours");
    let s = String::from("Hello");
    assert_eq!(ownership::takes_and_gives_back(s), "Hello");
    let (back, len) = ownership::calculate_length(String::from("Hello"));
    assert_eq!(back, "Hello");
    assert_eq!(len, 5);
    // the length is in bytes, not characters
    let (_, len) = ownership::calculate_length(String::from("\u{e9}"));
    assert_eq!(len, 2);
}

#[test]
fn borrowing_reads_and_changes() {
    let mut s = String::from("Hello");
    assert_eq!(borrowing::calculate_length(&s), 5);
    borrowing::change_value(&mut s);
    assert_eq!(s, "Hello, World!");
    assert_eq!(borrowing::calculate_length(&s), 13);
    assert_eq!(borrowing::calculate_length(&String::from("\u{e9}")), 2);
}

#[test]
fn word_indexes_are_the_spaces() {
    let s = String::from("hello world foo");
    assert_eq!(find_word_indexes(&s), vec![5, 11]);
    let empty: Vec<usize> = Vec::new();
    assert_eq!(find_word_indexes(&String::from("oneword")), empty);
}

#[test]
fn most_stocked_counts_colors() {
    let store = Inventory { shirts: vec![ShirtColor::Blue, ShirtColor::Red, ShirtColor::Blue] };
    assert_eq!(store.most_stocked(), ShirtColor::Blue);
    let reds = Inventory { shirts: vec![ShirtColor::Red, ShirtColor::Red, ShirtColor::Blue] };
    assert_eq!(reds.most_stocked(), ShirtColor::Red);
    let empty = Inventory { shirts: Vec::new() };
    assert_eq!(empty.most_stocked(), ShirtColor::Blue);
}

#[test]
fn giveaway_prefers_the_user() {
    let store = Inventory { shirts: vec![ShirtColor::Blue, ShirtColor::Red, ShirtColor::Blue] };
    assert_eq!(store.giveaway(Some(ShirtColor::Red)), ShirtColor::Red);
    assert_eq!(store.giveaway(None), ShirtColor::Blue);
}

#[test]
fn largest_of_numbers_and_chars() {
    let numbers = vec![34, 50, 25, 100, 65];
    assert_eq!(*largest(&numbers), 100);
    let chars = vec!['y', 'd', 's', 'r', 't'];
    assert_eq!(*largest(&chars), 'y');
}

#[test]
fn points_and_pairs() {
    let p = Point { x: 5, y: 10 };
    assert_eq!(*p.x(), 5);
    assert_eq!(*p.y(), 10);
    let p1 = MPoint { x: 5, y: 10.4f64 };
    let p2 = MPoint { x: "Hello", y: 'c' };
    let p3 = p1.mixup(p2);
    assert_eq!(p3.x, 5);
    assert_eq!(p3.y, 'c');
    let pair = Pair::new(1, 2);
    assert_eq!(pair.x, 1);
    assert_eq!(pair.y, 2);
}

#[test]
fn summaries_of_articles_and_tweets() {
    let article = NewsArticle {
        headline: String::from("Penguins win the Stanley Cup Championship!"),
        location: String::from("Pittsburgh, PA, USA"),
        author: String::from("Smokeybear"),
        content: String::from("The Penguins once again are the best hockey team in the NHL."),
    };
    assert_eq!(
        article.summarize(),
        "Penguins win the Stanley Cup Championship!, by Smokeybear (Pittsburgh, PA, USA)"
    );
    let tweet = Tweet {
        username: String::from("horse_ebooks"),
        content: String::from("of course, as you probably already know, people"),
        reply: false,
        retweet: false,
    };
    assert_eq!(tweet.summarize(), "horse_ebooks: of course, as you probably already know, people");
    let something = returns_summarizable();
    assert_eq!(
        something.summarize(),
        "horse_ebooks: of course, as you probably already know, people"
    );
}

#[test]
fn user_accounts_start_active() {
    let user = build_user(
        String::from("someone@example.com"),
        String::from("someusername22"),
    );
    assert!(user.active);
    assert_eq!(user.email, "someone@example.com");
    assert_eq!(user.username, "someusername22");
    assert_eq!(user.sign_in_count, 1);
}

#[test]
fn score_table_holds_both_teams() {
    let scores = new_hash_map();
    assert_eq!(scores.len(), 2);
    assert_eq!(*scores.get("blue").unwrap(), 10);
    assert_eq!(*scores.get("yellow").unwrap(), 50);
    assert!(scores.get("green").is_none());
}
