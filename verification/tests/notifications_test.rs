use std::time::{Duration, Instant};

use lazyssh::tui::notifications::{Notification, NotificationQueue, NotificationType};

#[test]
fn test_notification_info() {
    let n = Notification::info("test info");
    assert_eq!(n.message, "test info");
    assert!(matches!(n.notification_type, NotificationType::Info));
    assert_eq!(n.duration_ms, 3000);
}

#[test]
fn test_notification_success() {
    let n = Notification::success("ok");
    assert!(matches!(n.notification_type, NotificationType::Success));
    assert_eq!(n.duration_ms, 3000);
}

#[test]
fn test_notification_warning() {
    let n = Notification::warning("caution");
    assert!(matches!(n.notification_type, NotificationType::Warning));
    assert_eq!(n.duration_ms, 4000);
}

#[test]
fn test_notification_error() {
    let n = Notification::error("fail");
    assert!(matches!(n.notification_type, NotificationType::Error));
    assert_eq!(n.duration_ms, 5000);
}

#[test]
fn test_notification_is_expired() {
    let mut n = Notification::info("test");
    n.created_at = Instant::now() - Duration::from_secs(10);
    n.duration_ms = 1;
    assert!(n.is_expired());
}

#[test]
fn test_notification_not_expired() {
    let n = Notification::info("fresh");
    assert!(!n.is_expired());
}

#[test]
fn test_notification_remaining_secs() {
    let mut n = Notification::info("test");
    n.created_at = Instant::now();
    n.duration_ms = 5000;
    let rem = n.remaining_secs();
    assert!(rem <= 5 && rem >= 4, "remaining should be ~5s, got {}", rem);
}

#[test]
fn test_notification_remaining_expired() {
    let mut n = Notification::info("test");
    n.created_at = Instant::now() - Duration::from_secs(10);
    n.duration_ms = 1;
    assert_eq!(n.remaining_secs(), 0);
}

#[test]
fn test_notification_queue_new() {
    let q = NotificationQueue::new();
    assert!(q.visible_notifications().is_empty());
}

#[test]
fn test_notification_queue_push() {
    let mut q = NotificationQueue::new();
    q.info("msg1");
    q.success("msg2");
    assert_eq!(q.visible_notifications().len(), 2);
}

#[test]
fn test_notification_queue_clear_expired() {
    let mut q = NotificationQueue::new();
    let mut expired = Notification::info("expired");
    expired.created_at = Instant::now() - Duration::from_secs(10);
    expired.duration_ms = 1;
    q.push(expired);
    q.info("fresh");
    q.clear_expired();
    assert_eq!(q.visible_notifications().len(), 1);
    let visible = q.visible_notifications();
    assert_eq!(visible[0].message, "fresh");
}

#[test]
fn test_notification_queue_max_visible() {
    let mut q = NotificationQueue::new();
    q.info("1");
    q.info("2");
    q.info("3");
    q.info("4");
    assert_eq!(q.visible_notifications().len(), 3);
}

#[test]
fn test_notification_queue_types() {
    let mut q = NotificationQueue::new();
    q.info("info");
    q.success("success");
    q.warning("warning");
    let visible = q.visible_notifications();
    assert_eq!(visible.len(), 3);
    assert!(matches!(visible[0].notification_type, NotificationType::Info));
    assert!(matches!(visible[1].notification_type, NotificationType::Success));
    assert!(matches!(visible[2].notification_type, NotificationType::Warning));
}

#[test]
fn remaining_after_exact_values() {
    let n = Notification::warning("w");
    assert_eq!(n.remaining_secs_after(0), 4);
    assert_eq!(n.remaining_secs_after(1_500_000_000), 2);
    assert_eq!(n.remaining_secs_after(4_000_000_000), 0);
    assert!(!n.is_expired_after(3_999_999_999));
    assert!(n.is_expired_after(4_000_000_001));
}

#[test]
fn queue_keeps_at_most_eight() {
    let mut q = NotificationQueue::new();
    for i in 0..20 {
        q.notify(NotificationType::Info, &format!("m{}", i));
    }
    let visible = q.visible_notifications();
    assert_eq!(visible.len(), 3);
    assert_eq!(visible[0].message, "m12");
}

#[test]
fn expiry_only_moves_forward() {
    let n = Notification::new("x", NotificationType::Info);
    assert!(!n.is_expired_after(2_999_999_999));
    assert!(n.is_expired_after(3_000_000_000));
    assert!(n.is_expired_after(9_000_000_000));
    assert_eq!(n.remaining_secs_after(0), 3);
    assert_eq!(n.remaining_secs_after(1_500_000_000), 1);
    assert_eq!(n.remaining_secs_after(4_000_000_000), 0);
}
