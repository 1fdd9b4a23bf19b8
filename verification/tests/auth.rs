use drv::auth::{
    delay_for, enrol, read_pin, reply, unlock, write_private, Auth, Event, File, Outcome,
    Response, Step, Store, Told, Tried, BASE_DELAY, FREE_ATTEMPTS, MAX_DELAY,
};
use drv::chooser::Press;
use drv::lock::Lock;

/// What a sequence of steps leaves in the state directory, by file name.
fn written(steps: &[Step<String>], name: &str) -> Option<String> {
    let mut data: Option<String> = None;
    for step in steps {
        match step {
            Step::Data { data: d } => data = Some(d.clone()),
            Step::Rename { to, .. } if to == name => return data,
            _ => {}
        }
    }
    None
}

fn enrolled(pin: &[u8]) -> Store<String> {
    let steps = Store::set_pin(pin).unwrap();
    Store::new(
        File::Text(written(&steps, "pin").unwrap()),
        File::Text(written(&steps, "failures").unwrap()),
    )
}

#[test]
fn pin_and_backoff() {
    let mut auth = Auth::new(enrolled(b"1234"));
    let t0: u128 = 1_000_000_000;
    assert_eq!(auth.verify_at(b"1234", t0, Ok(())).unwrap(), Outcome::Granted);
    for _ in 0..FREE_ATTEMPTS {
        assert_eq!(
            auth.verify_at(b"0000", t0, Ok(())).unwrap(),
            Outcome::Denied { retry_after: 0 }
        );
    }
    // Sixth failure starts the delay; the right PIN is refused until it passes.
    assert_eq!(
        auth.verify_at(b"0000", t0, Ok(())).unwrap(),
        Outcome::Denied { retry_after: BASE_DELAY }
    );
    assert!(matches!(
        auth.verify_at(b"1234", t0, Ok(())).unwrap(),
        Outcome::Denied { .. }
    ));
    assert_eq!(
        auth.verify_at(b"1234", t0 + BASE_DELAY, Ok(())).unwrap(),
        Outcome::Granted
    );
    // The count survived on disk.
    auth.verify_at(b"0000", t0, Ok(())).unwrap();
    assert_eq!(auth.store.failures(), 1);
    assert_eq!(delay_for(FREE_ATTEMPTS + 20), MAX_DELAY);
}

#[test]
fn delays_double_up_to_an_hour() {
    assert_eq!(delay_for(0), 0);
    assert_eq!(delay_for(5), 0);
    assert_eq!(delay_for(6), 30_000_000_000);
    assert_eq!(delay_for(7), 60_000_000_000);
    assert_eq!(delay_for(12), 1_920_000_000_000);
    assert_eq!(delay_for(13), 3_600_000_000_000);
    assert_eq!(delay_for(u32::MAX), 3_600_000_000_000);
}

#[test]
fn no_pin_and_bad_files_are_errors() {
    let mut none = Auth::new(Store::new(File::Missing, File::Missing));
    assert!(!none.store.has_pin());
    assert_eq!(none.verify(b"1", Ok(())).unwrap_err(), "no PIN enrolled");
    let mut unreadable = Auth::new(Store::new(
        File::Unreadable("denied".to_owned()),
        File::Text("3\n".to_owned()),
    ));
    assert_eq!(unreadable.store.failures(), 3);
    assert_eq!(unreadable.verify_at(b"1", 0, Ok(())).unwrap_err(), "denied");
    let bad = Store::new(File::Text("nonsense".to_owned()), File::Text("x".to_owned()));
    assert_eq!(bad.failures(), 0);
    assert!(bad.check(b"1").unwrap_err().starts_with("bad PIN file: "));
}

#[test]
fn a_restart_starts_from_the_count() {
    let mut auth = Auth::new(Store::new(
        File::Text("nonsense".to_owned()),
        File::Text("6".to_owned()),
    ));
    let now = auth.now();
    assert!(matches!(
        auth.try_pin(b"1", now),
        Tried::Held { retry_after } if retry_after <= BASE_DELAY
    ));
}

#[test]
fn a_count_that_cannot_be_written_is_an_error() {
    let mut auth = Auth::new(enrolled(b"99"));
    assert_eq!(auth.verify_at(b"98", 5, Err("full".to_owned())).unwrap_err(), "full");
    assert_eq!(auth.store.failures(), 0);
    assert_eq!(format!("{:?}", auth.count_steps()[1]), "Data { data: \"1\" }");
}

#[test]
fn enrolment_is_private_and_whole() {
    let steps = enrol(b"1234", "c29tZXNhbHQ").unwrap();
    let shown = format!("{:?}", &steps[..3]);
    assert_eq!(
        shown,
        "[MakeDir, Mode { mode: 448 }, Create { name: \".pin.tmp\", mode: 384 }]"
    );
    let hash = written(&steps, "pin").unwrap();
    assert!(hash.starts_with("$argon2id$v=19$m=19456,t=2,p=1$c29tZXNhbHQ$"), "{hash}");
    assert_eq!(written(&steps, "failures").unwrap(), "0");
    let store = Store::new(File::Text(format!("{hash}\n")), File::Missing);
    assert!(store.check(b"1234").unwrap());
    assert!(!store.check(b"1235").unwrap());
    assert!(enrol(b"1234", "!").unwrap_err().starts_with("hashing the PIN: "));
    assert_eq!(
        format!("{:?}", write_private("failures", "2")),
        "[Create { name: \".failures.tmp\", mode: 384 }, Data { data: \"2\" }, Sync, \
         Rename { from: \".failures.tmp\", to: \"failures\" }]"
    );
}

#[test]
fn two_salts_differ() {
    let a = written(&Store::set_pin(b"7").unwrap(), "pin").unwrap();
    let b = written(&Store::set_pin(b"7").unwrap(), "pin").unwrap();
    assert_ne!(a, b);
}

#[test]
fn pins_are_read_to_the_line_end() {
    assert_eq!(read_pin(b"12\r\n".to_vec()).unwrap(), b"12");
    assert_eq!(read_pin(b"12\n3".to_vec()).unwrap(), b"12\n3");
    assert_eq!(read_pin(b"\n\r\n".to_vec()).unwrap_err(), "empty PIN");
    assert_eq!(read_pin(Vec::new()).unwrap_err(), "empty PIN");
}

#[test]
fn the_lock_screen_hears_what_came_of_it() {
    assert!(matches!(reply(Ok(Outcome::Granted), Told::Sent), Response::Granted));
    for told in [Told::Lost, Told::Absent] {
        assert!(matches!(
            reply(Ok(Outcome::Granted), told),
            Response::Error(e) if e == "compositor not connected"
        ));
    }
    assert!(matches!(
        reply(Ok(Outcome::Denied { retry_after: 1_999_999 }), Told::Absent),
        Response::Denied { retry_after_ms: 1 }
    ));
    assert!(matches!(
        reply(Err("no PIN enrolled".to_owned()), Told::Absent),
        Response::Error(e) if e == "no PIN enrolled"
    ));
    assert_eq!(unlock(300), Event::Unlock { idle_timeout_ms: 300_000 });
}

fn typed(s: &str) -> Press<String> {
    Press::Typed(s.to_owned())
}

#[test]
fn the_lock_takes_a_pin() {
    let mut lock = Lock::new();
    assert_eq!(lock.prompt(), "Enter PIN");
    assert!(lock.submit().is_none());
    assert!(lock.press(&typed("12")));
    assert!(!lock.press(&typed("\u{7}")));
    assert!(lock.press(&typed("3")));
    assert_eq!(lock.prompt(), "\u{25cf}\u{25cf}\u{25cf}");
    assert!(lock.press(&Press::BackSpace));
    assert_eq!(lock.submit().unwrap(), b"12");
    assert_eq!(lock.prompt(), "Enter PIN");
    lock.answered(Response::Denied { retry_after_ms: 0 });
    assert_eq!(lock.message(), "Wrong PIN");
    lock.answered(Response::Denied { retry_after_ms: 30_001 });
    assert_eq!(lock.message(), "Wrong PIN, try again in 31 s");
    lock.answered(Response::Error("a \"b\"".to_owned()));
    assert_eq!(lock.message(), "Auth failed: Error(\"a \\\"b\\\"\")");
    assert!(lock.press(&Press::Escape));
    assert_eq!(lock.message(), "");
}

#[test]
fn a_pin_is_no_longer_than_it_may_be() {
    let mut lock = Lock::new();
    assert!(lock.press(&typed("0123456789012345678901234567890\u{e9}")) == false);
    assert!(lock.press(&typed("01234567890123456789012345678901")));
    assert!(!lock.press(&typed("2")));
    assert_eq!(lock.submit().unwrap().len(), 32);
}

#[test]
fn a_grant_waits_for_the_compositor_and_is_taken_back() {
    let mut lock = Lock::new();
    lock.press(&typed("1"));
    lock.submit().unwrap();
    lock.answered(Response::Granted);
    assert_eq!(lock.prompt(), "Unlocking\u{2026}");
    assert!(!lock.press(&typed("1")));
    for _ in 0..10 {
        assert!(!lock.tick());
    }
    assert!(lock.tick());
    assert_eq!(lock.message(), "Unlock did not go through, try again");
    assert_eq!(lock.prompt(), "Enter PIN");
    lock.finished();
    assert_eq!(lock.message(), "");
}
