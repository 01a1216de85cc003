use chat_pipeline::mention::MentionFilter;

#[test]
fn strips_leading_mention_and_space() {
    let f = MentionFilter::new(123);
    assert_eq!(f.strip("<@123> hello"), "hello");
}

#[test]
fn strips_mention_with_fullwidth_space() {
    let f = MentionFilter::new(123);
    assert_eq!(f.strip("<@123>\u{3000}hello"), "hello");
}

#[test]
fn strips_every_occurrence_not_only_the_first() {
    let f = MentionFilter::new(123);
    assert_eq!(f.strip("<@123> hi <@123>there"), "hi there");
}

#[test]
fn leaves_text_without_mention_unchanged() {
    let f = MentionFilter::new(123);
    assert_eq!(f.strip("hello <@999> world"), "hello <@999> world");
    assert_eq!(f.strip(""), "");
}

#[test]
fn keeps_whitespace_that_follows_no_mention() {
    let f = MentionFilter::new(7);
    assert_eq!(f.strip("a  b"), "a  b");
}

#[test]
fn idempotent_on_ordinary_text() {
    let f = MentionFilter::new(123);
    let once = f.strip("<@123> what is <@123> up");
    let twice = f.strip(&once);
    assert_eq!(once, twice);
}

#[test]
fn removal_can_splice_a_new_token() {
    // The one-pass filter leaves a token that removal itself spliced
    // together; a second pass removes it. This is the boundary of the
    // idempotence law.
    let f = MentionFilter::new(123);
    let once = f.strip("<@<@123>123>");
    assert_eq!(once, "<@123>");
    assert_eq!(f.strip(&once), "");
}

#[test]
fn strips_mention_of_a_large_id() {
    let f = MentionFilter::new(18446744073709551615);
    assert_eq!(f.strip("<@18446744073709551615> hi"), "hi");
}
