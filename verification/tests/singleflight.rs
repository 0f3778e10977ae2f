//! Single-flight coordination: concurrent imports that need the same
//! credential cost exactly one outbound request.

use dji_log_viewer::singleflight::BeginAction;
use dji_log_viewer::singleflight::SingleFlight;

/// A simulated remote key service that counts its requests.
struct FakeVendor {
    requests: u32,
}

impl FakeVendor {
    fn fetch(&mut self) -> Vec<u8> {
        self.requests += 1;
        b"key-material".to_vec()
    }
}

#[test]
fn two_imports_one_request() {
    let mut vendor = FakeVendor { requests: 0 };
    let mut registry = SingleFlight::new();
    let request_id = 42u64;

    // two imports of different files announce the same credential request
    // before either fetch completes
    let first = registry.begin(request_id);
    let second = registry.begin(request_id);

    let mut outcomes: Vec<Vec<u8>> = Vec::new();
    let mut waiting = 0u32;
    for action in [first, second] {
        match action {
            BeginAction::Lead => {
                let material = vendor.fetch();
                registry.complete(request_id, material.clone());
                outcomes.push(material);
            }
            BeginAction::Wait => waiting += 1,
            BeginAction::Done(material) => outcomes.push(material),
        }
    }
    // exactly one outbound request, the other caller waited for it
    assert_eq!(vendor.requests, 1);
    assert_eq!(waiting, 1);
    assert_eq!(outcomes, vec![b"key-material".to_vec()]);

    // a later import is handed the completed answer without a new request
    match registry.begin(request_id) {
        BeginAction::Done(material) => assert_eq!(material, b"key-material".to_vec()),
        _ => panic!("completed request should hand out its answer"),
    }
    assert_eq!(vendor.requests, 1);
}

#[test]
fn distinct_requests_each_lead() {
    let mut registry = SingleFlight::new();
    assert!(matches!(registry.begin(1), BeginAction::Lead));
    assert!(matches!(registry.begin(2), BeginAction::Lead));
    assert!(matches!(registry.begin(1), BeginAction::Wait));
}

#[test]
fn failure_allows_a_fresh_attempt() {
    let mut registry = SingleFlight::new();
    assert!(matches!(registry.begin(9), BeginAction::Lead));
    registry.fail(9);
    // the failure is not cached: the next caller leads a new fetch
    assert!(matches!(registry.begin(9), BeginAction::Lead));
}
