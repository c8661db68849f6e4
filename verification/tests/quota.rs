use primer::quota::{Messenger, Quota, Usage};
use std::cell::RefCell;

struct MessengerStub {
    messages: RefCell<Vec<String>>,
}

impl MessengerStub {
    fn new() -> MessengerStub {
        MessengerStub { messages: RefCell::new(vec![]) }
    }
}

impl Messenger for MessengerStub {
    fn send(&self, msg: &str) {
        self.messages.borrow_mut().push(String::from(msg));
    }
}

#[test]
fn it_sends_an_over_90_percent_warning_message() {
    let mock_messenger = MessengerStub::new();
    let mut limit_tracker = Quota::new(&mock_messenger, 100);

    limit_tracker.set_value(91);

    assert_eq!(mock_messenger.messages.borrow().len(), 1);
}

#[test]
fn messages_follow_the_thresholds() {
    let stub = MessengerStub::new();
    let mut quota = Quota::new(&stub, 100);
    quota.set_value(89);
    assert_eq!(quota.usage(), Usage::Within);
    assert_eq!(quota.notice(), None);
    assert!(stub.messages.borrow().is_empty());

    quota.set_value(90);
    assert_eq!(quota.usage(), Usage::Near);
    quota.set_value(99);
    quota.set_value(100);
    assert_eq!(quota.usage(), Usage::Over);
    quota.set_value(usize::MAX);
    assert_eq!(
        *stub.messages.borrow(),
        vec![
            "Warning, you are at over 90% of your quota!",
            "Warning, you are at over 90% of your quota!",
            "Error, you are over the quota!",
            "Error, you are over the quota!",
        ]
    );
}

#[test]
fn nine_tenths_are_taken_exactly() {
    let stub = MessengerStub::new();
    let mut quota = Quota::new(&stub, 10);
    quota.set_value(8);
    assert_eq!(quota.usage(), Usage::Within);
    quota.set_value(9);
    assert_eq!(quota.usage(), Usage::Near);

    let mut quota = Quota::new(&stub, 11);
    quota.set_value(9);
    assert_eq!(quota.usage(), Usage::Within);
    quota.set_value(10);
    assert_eq!(quota.usage(), Usage::Near);

    let mut quota = Quota::new(&stub, usize::MAX);
    quota.set_value(usize::MAX - 1);
    assert_eq!(quota.usage(), Usage::Near);
}

#[test]
fn a_quota_of_nothing() {
    let stub = MessengerStub::new();
    let mut quota = Quota::new(&stub, 0);
    assert_eq!(quota.usage(), Usage::Within);
    quota.set_value(0);
    assert!(stub.messages.borrow().is_empty());
    quota.set_value(1);
    assert_eq!(quota.usage(), Usage::Over);
    assert_eq!(*stub.messages.borrow(), vec!["Error, you are over the quota!"]);
}
