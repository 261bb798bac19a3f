use salish::filter::{Filter, SourceFilter};
use salish::message::Message;
use salish::traits::MessageSource;

const TOKEN_TEXT: u64 = 7;

#[derive(Debug)]
struct TextPayload(&'static str);

impl salish::traits::Payload for TextPayload {
    fn token(&self) -> u64 {
        TOKEN_TEXT
    }

    fn cloneable(&self) -> bool {
        false
    }

    fn type_token(&self) -> u64 {
        TOKEN_TEXT
    }

    fn clone_payload(&self) -> Option<Self> {
        None
    }
}

#[derive(Debug, Clone, Copy)]
enum TestSource {
    Int(i32),
    Unsigned(u64),
    String(&'static str),
}

impl MessageSource for TestSource {
    fn hash_spec(&self) -> u64 {
        self.hash64()
    }

    fn hash64(&self) -> u64 {
        match self {
            TestSource::Int(v) => (1u64 << 60) ^ (*v as u64),
            TestSource::Unsigned(v) => (2u64 << 60) ^ *v,
            TestSource::String(s) => {
                let mut h: u64 = 3;
                for b in s.as_bytes() {
                    h = h.wrapping_mul(31).wrapping_add(*b as u64);
                }
                (3u64 << 60) ^ h
            },
        }
    }
}

#[test]
fn filter_source() {
    let filter = SourceFilter::default()
        .add(TestSource::Int(1234))
        .add(TestSource::String("pass"))
        .add(TestSource::Unsigned(5656));

    let message: Message<TextPayload, TestSource> =
        Message::unicast(TextPayload("foo")).with_source(TestSource::Int(1234));
    let result = filter.filter(message.source_hash());
    assert!(result == true);

    let message: Message<TextPayload, TestSource> =
        Message::unicast(TextPayload("foo")).with_source(TestSource::String("pass"));
    let result = filter.filter(message.source_hash());
    assert!(result == true);

    let message: Message<TextPayload, TestSource> =
        Message::unicast(TextPayload("foo")).with_source(TestSource::Unsigned(5656));
    let result = filter.filter(message.source_hash());
    assert!(result == true);

    // These messages should not pass the filter
    let message: Message<TextPayload, TestSource> =
        Message::unicast(TextPayload("foo")).with_source(TestSource::Int(999));
    let result = filter.filter(message.source_hash());
    assert!(result == false);

    let message: Message<TextPayload, TestSource> =
        Message::unicast(TextPayload("foo")).with_source(TestSource::String("fail"));
    let result = filter.filter(message.source_hash());
    assert!(result == false);

    let message: Message<TextPayload, TestSource> =
        Message::unicast(TextPayload("foo")).with_source(TestSource::Unsigned(1234));
    let result = filter.filter(message.source_hash());
    assert!(result == false);
}

#[test]
fn filter_no_source() {
    let filter = SourceFilter::default().add(5u64);
    let message: Message<TextPayload, u64> = Message::unicast(TextPayload("foo"));
    assert!(!filter.filter(message.source_hash()));
}

#[test]
fn string_source_hash_is_stable() {
    let a: &'static str = "pass";
    let b: &'static str = "pass";
    assert_eq!(a.hash64(), b.hash64());
    assert_ne!("pass".hash64(), "fail".hash64());
}
