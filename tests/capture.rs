use time_cargo::capture::{OutputCapture, Streams};

fn failing_phase(fail: bool) -> Result<(), String> {
    if fail {
        Err("phase failed".to_string())
    } else {
        Ok(())
    }
}

#[test]
fn release_restores_destinations_after_a_failed_phase() {
    let before = Streams { out: 10, err: 11 };
    let mut cap = OutputCapture::new(before);
    let installed = cap.acquire(42);
    assert_eq!(installed, Streams { out: 42, err: 42 });
    assert!(cap.is_active());
    let outcome = failing_phase(true);
    let restored = cap.release();
    assert!(outcome.is_err());
    assert_eq!(restored, before);
    assert_eq!(cap.destinations(), before);
    assert!(!cap.is_active());
}

#[test]
fn capture_can_be_taken_again_after_release() {
    let before = Streams { out: 3, err: 4 };
    let mut cap = OutputCapture::new(before);
    cap.acquire(7);
    cap.release();
    assert_eq!(cap.acquire(8), Streams { out: 8, err: 8 });
    assert_eq!(cap.release(), before);
}
