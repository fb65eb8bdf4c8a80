use coreos_install::platform::{
    bls_entry_options_write_platform, write_platform, PlatformError, PlatformStep,
};

#[test]
fn test_platform_id() {
    let orig_content = "ignition.platform.id=metal foo bar";
    let new_content = bls_entry_options_write_platform(orig_content, "openstack").unwrap();
    assert_eq!(
        new_content.unwrap(),
        "ignition.platform.id=openstack foo bar"
    );

    let orig_content = "foo ignition.platform.id=metal bar";
    let new_content = bls_entry_options_write_platform(orig_content, "openstack").unwrap();
    assert_eq!(
        new_content.unwrap(),
        "foo ignition.platform.id=openstack bar"
    );

    let orig_content = "foo bar ignition.platform.id=metal";
    let new_content = bls_entry_options_write_platform(orig_content, "openstack").unwrap();
    assert_eq!(
        new_content.unwrap(),
        "foo bar ignition.platform.id=openstack"
    );
}

#[test]
fn every_platform_id_is_changed_and_nothing_else() {
    assert_eq!(
        bls_entry_options_write_platform(
            "ignition.platform.id=metal x=ignition.platform.id=metal ignition.platform.id=metals",
            "qemu"
        )
        .unwrap()
        .unwrap(),
        "ignition.platform.id=qemu x=ignition.platform.id=qemu ignition.platform.id=qemus"
    );
    // a replacement of the same length, one that is shorter, and one that holds the old ID
    assert_eq!(
        bls_entry_options_write_platform("\u{e9} ignition.platform.id=metal \u{20ac}", "azure")
            .unwrap()
            .unwrap(),
        "\u{e9} ignition.platform.id=azure \u{20ac}"
    );
    assert_eq!(
        bls_entry_options_write_platform("ignition.platform.id=metal", "")
            .unwrap()
            .unwrap(),
        "ignition.platform.id="
    );
    assert_eq!(
        bls_entry_options_write_platform("ignition.platform.id=metal", "metalmetal")
            .unwrap()
            .unwrap(),
        "ignition.platform.id=metalmetal"
    );
}

#[test]
fn platform_id_must_be_there() {
    for options in ["", "foo bar", "ignition.platform.id=qemu", "ignition.platform.id=meta"] {
        assert_eq!(
            bls_entry_options_write_platform(options, "openstack"),
            Err(PlatformError::NotFound)
        );
    }
    assert_eq!(
        PlatformError::NotFound.message(),
        "Couldn't locate platform ID"
    );
}

#[test]
fn own_platform_is_not_written() {
    assert_eq!(
        bls_entry_options_write_platform("ignition.platform.id=metal", "metal"),
        Err(PlatformError::NotFound)
    );
    assert_eq!(write_platform(&"metal".to_string()), vec![]);
    let platform = "openstack".to_string();
    let rewrite = PlatformStep::RewriteEntries { platform: &platform };
    assert_eq!(write_platform(&platform), vec![rewrite]);
    assert_eq!(rewrite.notice(), "Setting platform to openstack");
}
