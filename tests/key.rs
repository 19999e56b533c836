use message_storage::{
    IdentityRegistry, KeyAndTenant, KeyValidator, MessageId, StorageError, INVALID_KEY_PREFIX,
    KEY_PATTERN,
};

fn validator() -> KeyValidator {
    KeyValidator::new()
}

fn rejected(key: &str) {
    match validator().validate(key, "tenant") {
        Err(StorageError::InvalidKey(m)) => assert_eq!(m, format!("Key is wrong: {key}")),
        other => panic!("expected a rejection of {key:?}, got {other:?}"),
    }
}

#[test]
fn validate_wrongo_message() {
    let err = validator().validate("Wrongo!", "tenant").unwrap_err();
    assert_eq!(err.message(), "Key is wrong: Wrongo!");
    assert!(err.is_client_error());
}

#[test]
fn validate_accepts_key_shape() {
    for key in ["K-4bbf1-P", "K-h53dk-A", "K-867vc-C", "K-00000-Z", "K-zzzzz-A"] {
        let kt = validator().validate(key, "some tenant").unwrap();
        assert_eq!(kt.key(), key);
        assert_eq!(kt.tenant(), "some tenant");
    }
}

#[test]
fn validate_rejects_other_shapes() {
    for key in [
        "Wrong!",
        "Wrongo!",
        "",
        "K-4bbf1-p",
        "K-4bBf1-P",
        "k-4bbf1-P",
        "K_4bbf1-P",
        "K-4bbf1_P",
        "K-4bbf-P",
        "K-4bbf12-P",
        "K-4bbf1-PP",
        "K-4bbf1-",
        " K-4bbf1-P",
        "K-4bbf1-P ",
        "K-4bbf1-P\n",
        "xK-4bbf1-P",
        "K-4bbé1-P",
        "K-4bbf1-É",
    ] {
        rejected(key);
    }
}

#[test]
fn try_from_parts_checks_key() {
    let kt = KeyAndTenant::try_from_parts("K-4bbf1-P", "tenant").unwrap();
    assert_eq!(kt.key(), "K-4bbf1-P");
    assert_eq!(kt.tenant(), "tenant");
    let err = KeyAndTenant::try_from_parts("Wrong!", "tenant").unwrap_err();
    assert!(matches!(err, StorageError::InvalidKey(ref m) if m == "Key is wrong: Wrong!"));
    for key in ["K-00000-A", "K-zzzzz-Z", "K-a9z0m-Q"] {
        for tenant in ["", "3bd1c697", "Ténant with spaces"] {
            let kt = KeyAndTenant::try_from_parts(key, tenant).unwrap();
            assert_eq!((kt.key(), kt.tenant()), (key, tenant));
        }
    }
}

#[test]
fn same_identity_compares_both_parts() {
    let a = KeyAndTenant::try_from_parts("K-h53dk-A", "3bd1c697").unwrap();
    let b = KeyAndTenant::try_from_parts("K-h53dk-A", "3bd1c697").unwrap();
    let c = KeyAndTenant::try_from_parts("K-h53dk-A", "75682017").unwrap();
    let d = KeyAndTenant::try_from_parts("K-867vc-C", "3bd1c697").unwrap();
    assert!(a.same_identity(&b));
    assert!(!a.same_identity(&c));
    assert!(!a.same_identity(&d));
}

#[test]
fn registry_resolves_in_order_of_first_sight() {
    let v = validator();
    let mut r = IdentityRegistry::new();
    assert_eq!(r.len(), 0);
    let k1 = v.validate("K-h53dk-A", "3bd1c697").unwrap();
    assert_eq!(r.resolve(k1), (MessageId(1), true));
    let k2 = v.validate("K-h53dk-A", "75682017").unwrap();
    assert_eq!(r.resolve(k2), (MessageId(2), true));
    let k3 = v.validate("K-867vc-C", "3bd1c697").unwrap();
    assert_eq!(r.resolve(k3), (MessageId(3), true));
    let k2_again = v.validate("K-h53dk-A", "75682017").unwrap();
    assert_eq!(r.resolve(k2_again), (MessageId(2), false));
    let k1_again = v.validate("K-h53dk-A", "3bd1c697").unwrap();
    assert_eq!(r.resolve(k1_again), (MessageId(1), false));
    assert_eq!(r.len(), 3);
}

#[test]
fn constants_and_error_kinds() {
    assert_eq!(KEY_PATTERN, "^K-[a-z0-9]{5}-[A-Z]$");
    assert_eq!(INVALID_KEY_PREFIX, "Key is wrong: ");
    let internal = StorageError::Internal("lock".to_string());
    assert!(!internal.is_client_error());
    assert_eq!(internal.message(), "lock");
}
