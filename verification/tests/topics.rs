use remote_rpc_rs::{get_signal_topic, get_status_topic, split_signal_topic, split_status_topic};
use remote_rpc_rs::SignalRole;

#[test]
fn test_get_topics() {
    assert_eq!(get_status_topic("abc", SignalRole::Caller), "caller/abc/status");
    assert_eq!(get_status_topic("xyz", SignalRole::Callee), "callee/xyz/status");
    assert_eq!(get_signal_topic("123", SignalRole::Caller), "caller/123/signal");
    assert_eq!(get_signal_topic("999", SignalRole::Callee), "callee/999/signal");
}

#[test]
fn test_split_status_topic() {
    assert_eq!(split_status_topic("caller/abc/status"), Some("abc".to_string()));
    assert_eq!(split_status_topic("callee/xyz/status"), Some("xyz".to_string()));
    assert_eq!(split_status_topic("invalid/topic"), None);
}

#[test]
fn test_split_signal_topic() {
    assert_eq!(split_signal_topic("caller/123/signal"), Some("123".to_string()));
    assert_eq!(split_signal_topic("callee/999/signal"), Some("999".to_string()));
    assert_eq!(split_signal_topic("nope/aaa"), None);
}

#[test]
fn split_inverts_get_for_many_ids() {
    for id in ["a", "robot-7", "x_y.z", "p1", "UPPER", "0"] {
        for role in [SignalRole::Caller, SignalRole::Callee] {
            assert_eq!(split_status_topic(&get_status_topic(id, role)), Some(id.to_string()));
            assert_eq!(split_signal_topic(&get_signal_topic(id, role)), Some(id.to_string()));
        }
    }
}

#[test]
fn split_rejects_malformed_topics() {
    assert_eq!(split_status_topic("caller/a/b/status"), None);
    assert_eq!(split_status_topic("caller//status"), None);
    assert_eq!(split_status_topic("caller/abc/signal"), None);
    assert_eq!(split_status_topic("robot/abc/status"), None);
    assert_eq!(split_status_topic("caller/abc/statusx"), None);
    assert_eq!(split_status_topic("xcaller/abc/status"), None);
    assert_eq!(split_status_topic(""), None);
    assert_eq!(split_signal_topic("caller/a/b/signal"), None);
    assert_eq!(split_signal_topic("callee//signal"), None);
    assert_eq!(split_signal_topic("callee/abc/status"), None);
}

#[test]
fn status_and_signal_topics_differ() {
    assert_ne!(get_status_topic("abc", SignalRole::Caller), get_signal_topic("abc", SignalRole::Caller));
    assert_eq!(split_signal_topic(&get_status_topic("abc", SignalRole::Caller)), None);
}
