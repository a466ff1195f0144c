use muscm::lua_parser::location::{Location, LocationTracker, TokenWithLocation};
use muscm::lua_parser::Token;

#[test]
fn test_location_creation() {
    let loc = Location::new(5, 10);
    assert_eq!(loc.line, 5);
    assert_eq!(loc.column, 10);
}

#[test]
fn test_location_start() {
    let loc = Location::start();
    assert_eq!(loc.line, 1);
    assert_eq!(loc.column, 0);
}

#[test]
fn test_location_display() {
    let loc = Location::new(42, 15);
    assert_eq!(loc.to_string(), "42:15");
}

#[test]
fn test_location_tracker() {
    let mut tracker = LocationTracker::new();
    assert_eq!(tracker.current(), Location::new(1, 0));

    tracker.advance('a');
    assert_eq!(tracker.current(), Location::new(1, 1));

    tracker.advance('\n');
    assert_eq!(tracker.current(), Location::new(2, 0));

    tracker.advance('b');
    assert_eq!(tracker.current(), Location::new(2, 1));
}

#[test]
fn test_location_tracker_advance_str() {
    let mut tracker = LocationTracker::new();
    tracker.advance_str("hello");
    assert_eq!(tracker.current(), Location::new(1, 5));

    tracker.advance_str("\nworld");
    assert_eq!(tracker.current(), Location::new(2, 5));
}

#[test]
fn test_location_tracker_skip_whitespace() {
    let mut tracker = LocationTracker::new();
    let input = "  \n  hello";
    let consumed = tracker.skip_whitespace_and_comments(input);
    assert_eq!(consumed, 5);
    assert_eq!(tracker.current(), Location::new(2, 2));
}

#[test]
fn test_location_tracker_skip_comments() {
    let mut tracker = LocationTracker::new();
    let input = "-- comment\nhello";
    let consumed = tracker.skip_whitespace_and_comments(input);
    assert_eq!(consumed, 11);
    assert_eq!(tracker.current(), Location::new(2, 0));
}

#[test]
fn test_token_with_location() {
    let tok = TokenWithLocation::new(Token::True, Location::new(5, 10));
    assert_eq!(tok.location.line, 5);
    assert_eq!(tok.location.column, 10);
}

#[test]
fn test_skip_trivia_stops_at_code() {
    let mut tracker = LocationTracker::new();
    let input = "  -- comment\n\t x = 1";
    let n = tracker.skip_whitespace_and_comments(input);
    assert_eq!(&input[n..], "x = 1");
    assert_eq!(tracker.current(), Location::new(2, 2));
}

#[test]
fn test_skip_counts_characters() {
    let mut tracker = LocationTracker::new();
    let input = "\u{3000}\u{00a0} x";
    let n = tracker.skip_whitespace_and_comments(input);
    assert_eq!(n, 3);
    assert_eq!(input.chars().skip(n).collect::<String>(), "x");
    assert_eq!(tracker.current(), Location::new(1, 3));
}
