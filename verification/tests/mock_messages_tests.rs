use std::cell::RefCell;

use webweb::mock_messages::{LimitTracker, Messenger, QuotaLevel};

struct MockMessenger {
    sent_messages: RefCell<Vec<String>>,
}

impl MockMessenger {
    fn new() -> MockMessenger {
        MockMessenger { sent_messages: RefCell::new(vec![]) }
    }
}

impl Messenger for MockMessenger {
    fn send(&self, message: &str) {
        self.sent_messages.borrow_mut().push(String::from(message));
    }
}

#[test]
fn it_sends_an_over_75_percent_warning_message() {
    let mock_messenger = MockMessenger::new();
    let mut limit_tracker = LimitTracker::new(&mock_messenger, 100);

    limit_tracker.set_value(80);

    assert_eq!(mock_messenger.sent_messages.borrow().len(), 1);
}

#[test]
fn warning_message_text_is_the_75_percent_one() {
    let mock_messenger = MockMessenger::new();
    let mut limit_tracker = LimitTracker::new(&mock_messenger, 100);

    limit_tracker.set_value(80);

    assert_eq!(
        mock_messenger.sent_messages.borrow()[0],
        "Warning: You've used up over 75% of your quota!"
    );
}

#[test]
fn quota_levels_at_the_boundaries() {
    assert_eq!(webweb::mock_messages::quota_level(0, 100), QuotaLevel::Quiet);
    assert_eq!(webweb::mock_messages::quota_level(74, 100), QuotaLevel::Quiet);
    assert_eq!(webweb::mock_messages::quota_level(75, 100), QuotaLevel::Warning);
    assert_eq!(webweb::mock_messages::quota_level(89, 100), QuotaLevel::Warning);
    assert_eq!(webweb::mock_messages::quota_level(90, 100), QuotaLevel::Urgent);
    assert_eq!(webweb::mock_messages::quota_level(99, 100), QuotaLevel::Urgent);
    assert_eq!(webweb::mock_messages::quota_level(100, 100), QuotaLevel::Over);
    assert_eq!(webweb::mock_messages::quota_level(250, 100), QuotaLevel::Over);
    assert_eq!(webweb::mock_messages::quota_level(3, 0), QuotaLevel::Over);
    assert_eq!(webweb::mock_messages::quota_level(0, 0), QuotaLevel::Quiet);
}

#[test]
fn no_message_below_75_percent() {
    let mock_messenger = MockMessenger::new();
    let mut limit_tracker = LimitTracker::new(&mock_messenger, 100);

    limit_tracker.set_value(50);

    assert_eq!(mock_messenger.sent_messages.borrow().len(), 0);
}
