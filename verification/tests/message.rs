use salish::message::Message;

const TOKEN_A: u64 = 1;
const TOKEN_B: u64 = 2;

#[allow(unused)]
#[derive(Debug)]
enum PayloadA {
    Foo(u64),
    Bar,
}

impl salish::traits::Payload for PayloadA {
    fn token(&self) -> u64 {
        TOKEN_A
    }

    fn cloneable(&self) -> bool {
        false
    }

    fn type_token(&self) -> u64 {
        TOKEN_A
    }

    fn clone_payload(&self) -> Option<Self> {
        None
    }
}

impl<'b> From<&'b Message<PayloadA, u64>> for &'b PayloadA {
    fn from(value: &'b Message<PayloadA, u64>) -> Self {
        value.inner().unwrap()
    }
}

#[allow(unused)]
#[derive(Clone, Debug)]
enum PayloadB {
    Baz(u64),
    Foof,
}

impl salish::traits::Payload for PayloadB {
    fn token(&self) -> u64 {
        TOKEN_B
    }

    fn cloneable(&self) -> bool {
        true
    }

    fn type_token(&self) -> u64 {
        TOKEN_B
    }

    fn clone_payload(&self) -> Option<Self> {
        Some(self.clone())
    }
}

#[test]
fn simple() {
    let msga: Message<PayloadA, u64> = Message::unicast(PayloadA::Foo(123456));
    let msgb: Message<PayloadB, u64> = Message::broadcast(PayloadB::Baz(5678));

    assert!(msga.is_type(TOKEN_A));
    assert!(msgb.is_type(TOKEN_B));

    let a = msga.inner().unwrap();
    if let PayloadA::Foo(val) = a {
        assert_eq!(*val, 123456)
    }

    let b = msgb.inner().unwrap();
    if let PayloadB::Baz(val) = b {
        assert_eq!(*val, 5678)
    }
}

#[test]
fn source() {
    let msg: Message<PayloadA, u32> = Message::unicast(PayloadA::Foo(1234)).with_source(321u32);
    println!("{msg:#?}");
    let src = msg.source().unwrap();
    assert_eq!(src, 321);
}

#[test]
fn owned() {
    let msg: Message<PayloadA, u64> = Message::unicast(PayloadA::Foo(123456));
    let payload = msg.into_inner();

    assert!(payload.is_some());
}

#[test]
fn into_ref() {
    let msg: Message<PayloadA, u64> = Message::unicast(PayloadA::Foo(123456));
    let a: &PayloadA = (&msg).into();
    if let PayloadA::Foo(val) = a {
        assert_eq!(*val, 123456)
    }
}

#[test]
fn duplicate_broadcast() {
    let msg: Message<PayloadB, u64> = Message::broadcast(PayloadB::Baz(77)).with_source(9u64);
    let copy = msg.duplicate();
    assert!(copy.is_type(TOKEN_B));
    assert_eq!(copy.source(), Some(9));
    if let PayloadB::Baz(val) = copy.into_inner().unwrap() {
        assert_eq!(val, 77);
    } else {
        panic!("wrong payload");
    }
}

#[test]
fn payload_type_tokens() {
    let msg: Message<PayloadA, u64> = Message::unicast(PayloadA::Bar);
    assert_eq!(msg.payload_type(), TOKEN_A);
    assert!(!msg.is_type(TOKEN_B));
    assert_eq!(msg.source_hash(), None);
}
