use primer::recovery::{after_create, after_open, Opening, Step};

#[test]
fn a_missing_file_is_created_and_other_failures_end_the_program() {
    assert_eq!(after_open(Opening::Opened), Step::Proceed);
    assert_eq!(after_open(Opening::NotFound), Step::Create);
    assert_eq!(after_open(Opening::Failed), Step::GiveUp);
}

#[test]
fn creating_is_tried_once() {
    assert_eq!(after_create(true), Step::Proceed);
    assert_eq!(after_create(false), Step::GiveUp);
}
