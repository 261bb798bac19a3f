use salish::handler::MessageHandler;
use salish::message::Message;
use salish::router::MessageRouter;
use salish::EndpointAddress;

const TOKEN_TEST: u64 = 11;

#[allow(unused)]
#[derive(Clone, Debug)]
enum TestPayload {
    Integer(u64),
    String(&'static str),
}

impl salish::traits::Payload for TestPayload {
    fn token(&self) -> u64 {
        TOKEN_TEST
    }

    fn cloneable(&self) -> bool {
        true
    }

    fn type_token(&self) -> u64 {
        TOKEN_TEST
    }

    fn clone_payload(&self) -> Option<Self> {
        Some(self.clone())
    }
}

struct NoopHandler;

impl MessageHandler for NoopHandler {
    type Message = TestPayload;
    type Source = u64;
    type Return = ();

    fn response(&self, _source: Option<u64>, _message: TestPayload) {}

    fn after(&self, _source: Option<u64>, _message: TestPayload) -> Self {
        NoopHandler
    }

    fn on_message(&mut self, _source: Option<u64>, _message: TestPayload) {}
}

struct StrHandler;

impl MessageHandler for StrHandler {
    type Message = TestPayload;
    type Source = &'static str;
    type Return = &'static str;

    fn response(&self, _source: Option<&'static str>, _message: TestPayload) -> &'static str {
        "handled"
    }

    fn after(&self, _source: Option<&'static str>, _message: TestPayload) -> Self {
        StrHandler
    }

    fn on_message(&mut self, _source: Option<&'static str>, _message: TestPayload) -> &'static str {
        "handled"
    }
}

#[test]
fn create() {
    let mut router = MessageRouter::<StrHandler>::new();
    let msg: Message<TestPayload, &'static str> =
        Message::unicast(TestPayload::Integer(1234)).with_source("test");
    let endpoint = router.create_endpoint(msg.payload_type());
    let _ = router.register_callback(endpoint.addr(), StrHandler);
}

#[test]
fn endpoint_deregister() {
    let mut router = MessageRouter::<NoopHandler>::new();

    // Create 100 endpoints for one payload type
    let endpoints: Vec<_> = (0..100).map(|_| router.add_endpoint(TOKEN_TEST, NoopHandler)).collect();

    // We should have 100 handlers
    assert_eq!(router.num_handlers(), 100);

    // And 100 endpoints
    assert_eq!(router.num_endpoints(), 100);

    // Deregistering every endpoint empties the router again
    for endpoint in endpoints {
        router.remove_endpoint(endpoint.addr());
    }

    assert_eq!(router.num_handlers(), 0);
    assert_eq!(router.num_endpoints(), 0);
}

#[test]
fn endpoint_identities_are_stable() {
    let mut router = MessageRouter::<NoopHandler>::new();
    let a = router.add_endpoint(TOKEN_TEST, NoopHandler);
    let b = router.add_endpoint(TOKEN_TEST, NoopHandler);
    assert_ne!(a.addr(), b.addr());
    assert_eq!(a.message_type(), TOKEN_TEST);

    // Removing one endpoint leaves the other registered
    router.remove_endpoint(a.addr());
    assert_eq!(router.num_endpoints(), 1);
    router.remove_endpoint(a.addr());
    assert_eq!(router.num_endpoints(), 1);
    router.remove_endpoint(b.addr());
    assert_eq!(router.num_endpoints(), 0);
}

#[test]
fn add_filter_to_endpoint() {
    let mut router = MessageRouter::<NoopHandler>::new();
    let ep = router.add_endpoint(TOKEN_TEST, NoopHandler);
    assert!(router.add_filter(ep.addr(), salish::filter::SourceFilter::default().add(4u64)));
    assert!(!router.add_filter(987654, salish::filter::SourceFilter::default()));
}
