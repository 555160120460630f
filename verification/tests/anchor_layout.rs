use degu_core::anchor_layout::first_passwd_buffer;
use degu_core::anchor_layout::os_prefix_components;
use degu_core::anchor_layout::passwd_step;
use degu_core::anchor_layout::product_components;
use degu_core::anchor_layout::self_anchor_root;
use degu_core::anchor_layout::system_anchor_root;
use degu_core::anchor_layout::AnchorPlatform;
use degu_core::anchor_layout::PasswdEntry;
use degu_core::anchor_layout::PasswdStep;
use degu_core::anchor_layout::SelfAnchorRootError;

#[test]
fn system_root_matches_the_documented_platform_path() {
    assert_eq!(
        system_anchor_root(AnchorPlatform::Linux),
        b"/var/lib/degu/store-activation"
    );
    assert_eq!(
        system_anchor_root(AnchorPlatform::MacOs),
        b"/private/var/db/degu/store-activation"
    );
}

fn account_root() -> Vec<u8> {
    self_anchor_root(Ok(Some(b"/home/someone".to_vec())))
        .expect("test account has a home directory")
}

#[test]
fn self_root_lives_under_the_account_state_home() {
    let root = account_root();
    assert!(root.starts_with(b"/"));
    assert!(
        root.ends_with(b"/.local/state/degu/store-activation"),
        "self root {root:?} must end with the XDG state product tail"
    );
    assert!(!root.starts_with(b"/var/lib/degu"));
    assert!(!root.starts_with(b"/private/var/db/degu"));
}

#[test]
fn self_and_system_share_the_product_tail_only() {
    let self_root = account_root();
    let system_root = system_anchor_root(AnchorPlatform::Linux);
    assert_ne!(self_root, system_root);
    for tail in product_components() {
        assert!(self_root
            .split(|byte| *byte == b'/')
            .any(|component| component == tail.as_bytes()));
        assert!(system_root
            .split(|byte| *byte == b'/')
            .any(|component| component == tail.as_bytes()));
    }
}

#[test]
fn a_self_root_needs_an_absolute_home() {
    assert_eq!(
        self_anchor_root(Err(5)),
        Err(SelfAnchorRootError::Lookup(5))
    );
    assert_eq!(
        self_anchor_root(Ok(None)),
        Err(SelfAnchorRootError::AccountMissing)
    );
    assert_eq!(
        self_anchor_root(Ok(Some(vec![]))),
        Err(SelfAnchorRootError::HomeNotAbsolute)
    );
    assert_eq!(
        self_anchor_root(Ok(Some(b"home".to_vec()))),
        Err(SelfAnchorRootError::HomeNotAbsolute)
    );
}

#[test]
fn the_prefix_belongs_to_the_system() {
    assert_eq!(
        os_prefix_components(AnchorPlatform::Linux),
        vec!["var", "lib"]
    );
    assert_eq!(
        os_prefix_components(AnchorPlatform::MacOs),
        vec!["private", "var", "db"]
    );
    assert_eq!(product_components(), vec!["degu", "store-activation"]);
}

#[test]
fn an_account_lookup_grows_its_buffer() {
    assert_eq!(first_passwd_buffer(-1), 1024);
    assert_eq!(first_passwd_buffer(10), 1024);
    assert_eq!(first_passwd_buffer(4096), 4096);
    assert_eq!(passwd_step(0, PasswdEntry::Complete, 1024), PasswdStep::Found);
    assert_eq!(
        passwd_step(0, PasswdEntry::Homeless, 1024),
        PasswdStep::Failed(22)
    );
    assert_eq!(passwd_step(0, PasswdEntry::Absent, 1024), PasswdStep::Missing);
    assert_eq!(passwd_step(34, PasswdEntry::Absent, 1024), PasswdStep::Grow(2048));
    assert_eq!(passwd_step(34, PasswdEntry::Absent, usize::MAX), PasswdStep::Failed(12));
    assert_eq!(passwd_step(5, PasswdEntry::Absent, 1024), PasswdStep::Failed(5));
}
