use nanorp::generation::GenerationRegistry;
use tokio::sync::watch;
use uuid::Uuid;

fn fresh_id() -> u128 {
    Uuid::new_v4().as_u128()
}

/// Registers a new generation for `session`, signalling (by dropping) the
/// handle of any generation it replaces.
fn begin(reg: &mut GenerationRegistry<watch::Sender<bool>>, session: u128) -> (u128, watch::Receiver<bool>) {
    let generation = fresh_id();
    let (tx, rx) = watch::channel(false);
    drop(reg.begin(session, generation, tx));
    (generation, rx)
}

/// Signals the session's active generation; whether there was one.
fn cancel(reg: &GenerationRegistry<watch::Sender<bool>>, session: u128) -> bool {
    match reg.cancel(session) {
        Some(tx) => {
            let _ = tx.send(true);
            true
        }
        None => false,
    }
}

#[test]
fn cancel_signals_the_active_generation() {
    let mut reg = GenerationRegistry::new();
    let session = fresh_id();
    let (gen_id, rx) = begin(&mut reg, session);

    assert!(cancel(&reg, session));
    assert!(*rx.borrow());

    reg.finish(session, gen_id);
    assert!(!cancel(&reg, session), "no active generation after finish");
}

#[test]
fn new_generation_cancels_and_replaces_previous() {
    let mut reg = GenerationRegistry::new();
    let session = fresh_id();
    let (old_id, old_rx) = begin(&mut reg, session);
    let (new_id, new_rx) = begin(&mut reg, session);

    assert!(old_rx.has_changed().is_err() || *old_rx.borrow());
    assert!(!*new_rx.borrow());

    reg.finish(session, old_id);
    assert!(cancel(&reg, session));
    assert!(*new_rx.borrow());

    reg.finish(session, new_id);
}

#[test]
fn cancel_without_active_generation_returns_false() {
    let reg: GenerationRegistry<watch::Sender<bool>> = GenerationRegistry::new();
    assert!(!cancel(&reg, fresh_id()));
}

#[test]
fn sessions_do_not_disturb_each_other() {
    let mut reg: GenerationRegistry<u8> = GenerationRegistry::new();
    assert_eq!(reg.begin(1, 10, 0), None);
    assert_eq!(reg.begin(2, 20, 1), None);
    assert_eq!(reg.begin(1, 11, 2), Some(0));
    reg.finish(1, 10);
    assert_eq!(reg.active_generation(1), Some(11));
    reg.finish(1, 11);
    assert_eq!(reg.active_generation(1), None);
    assert_eq!(reg.active_generation(2), Some(20));
    assert_eq!(reg.cancel(2), Some(&1));
}
