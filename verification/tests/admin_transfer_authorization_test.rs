//! The invoice contract's two-step admin transfer: only the pending admin may
//! complete it, and a transfer with no nominee is refused.

use comebackhere::invoice::{InvoiceContract, InvoiceError};

struct Env {
    next: u64,
}

impl Env {
    fn generate(&mut self) -> u64 {
        self.next += 1;
        self.next
    }
}

fn setup() -> (Env, u64, InvoiceContract) {
    let mut env = Env { next: 0 };
    let admin = env.generate();
    let mut client = InvoiceContract::new();
    client.initialize(admin).unwrap();
    (env, admin, client)
}

#[test]
fn accept_admin_with_no_pending_transfer_is_rejected() {
    let (mut env, _admin, mut client) = setup();
    let rando = env.generate();
    let err = client.accept_admin(rando).unwrap_err();
    assert_eq!(err, InvoiceError::NoPendingAdmin);
}

#[test]
fn only_the_pending_admin_can_call_accept_admin() {
    let (mut env, admin, mut client) = setup();
    let new_admin = env.generate();
    let impostor = env.generate();

    client.transfer_admin(admin, new_admin).unwrap();

    let err = client.accept_admin(impostor).unwrap_err();
    assert_eq!(err, InvoiceError::Unauthorized);

    let err2 = client.set_grace_window(impostor, 60).unwrap_err();
    assert_eq!(err2, InvoiceError::Unauthorized);
}

#[test]
fn pending_admin_can_accept_and_gains_admin_rights() {
    let (mut env, admin, mut client) = setup();
    let new_admin = env.generate();

    client.transfer_admin(admin, new_admin).unwrap();
    client.accept_admin(new_admin).unwrap();

    assert!(client.set_grace_window(new_admin, 120).is_ok());
    assert_eq!(client.get_grace_window(), 120);

    let err = client.set_grace_window(admin, 1).unwrap_err();
    assert_eq!(err, InvoiceError::Unauthorized);
}

#[test]
fn accepting_clears_pending_admin_so_it_cannot_be_reused() {
    let (mut env, admin, mut client) = setup();
    let new_admin = env.generate();

    client.transfer_admin(admin, new_admin).unwrap();
    client.accept_admin(new_admin).unwrap();

    let err = client.accept_admin(new_admin).unwrap_err();
    assert_eq!(err, InvoiceError::NoPendingAdmin);
}

#[test]
fn transfer_admin_can_be_called_again_before_acceptance_to_change_pending_admin() {
    let (mut env, admin, mut client) = setup();
    let first_nominee = env.generate();
    let second_nominee = env.generate();

    client.transfer_admin(admin, first_nominee).unwrap();
    client.transfer_admin(admin, second_nominee).unwrap();

    let err = client.accept_admin(first_nominee).unwrap_err();
    assert_eq!(err, InvoiceError::Unauthorized);

    client.accept_admin(second_nominee).unwrap();
    assert!(client.set_grace_window(second_nominee, 30).is_ok());
    assert_eq!(client.get_grace_window(), 30);
}

#[test]
fn transfer_admin_requires_current_admin_auth() {
    let (mut env, _admin, mut client) = setup();
    let rogue = env.generate();
    let new_admin = env.generate();

    let err = client.transfer_admin(rogue, new_admin).unwrap_err();
    assert_eq!(err, InvoiceError::Unauthorized);
}
