use aemu::dex_index::{is_classes_dex, ApkDexIndex, DexMemberKind};

#[test]
fn classes_dex_names_are_bounded() {
    assert!(is_classes_dex("classes.dex"));
    assert!(is_classes_dex("classes2.dex"));
    assert!(!is_classes_dex("assets/classes.dex"));
    assert!(!is_classes_dex("classesx.dex"));
    assert!(!is_classes_dex("classes.dex.bak"));
}

#[test]
fn platform_members_preserve_kind_and_staticness() {
    let index = ApkDexIndex::default();
    assert!(index.contains_member(
        "Landroid/content/Context;",
        "getSystemService",
        "(Ljava/lang/String;)Ljava/lang/Object;",
        DexMemberKind::Method,
        false,
    ));
    assert!(index.contains_member(
        "Landroid/os/Vibrator;",
        "vibrate",
        "(J)V",
        DexMemberKind::Method,
        false,
    ));
    assert!(index.contains_member(
        "Landroid/os/Build;",
        "MODEL",
        "Ljava/lang/String;",
        DexMemberKind::Field,
        true,
    ));
    assert!(!index.contains_member(
        "Landroid/os/Build;",
        "MODEL",
        "Ljava/lang/String;",
        DexMemberKind::Method,
        true,
    ));
    assert!(!index.contains_member(
        "Landroid/os/Build;",
        "MODEL",
        "Ljava/lang/String;",
        DexMemberKind::Field,
        false,
    ));
}

#[test]
fn platform_classes_and_arrays_are_not_wildcards() {
    let index = ApkDexIndex::default();
    assert!(index.contains_class("Ljava/lang/String;"));
    assert!(index.contains_class("[[I"));
    assert!(index.contains_class("[Ljava/lang/String;"));
    assert!(!index.contains_class("Lmade/up/Anything;"));
    assert!(!index.contains_class("[Lmade/up/Anything;"));
    assert!(
        index.is_assignable_to("Landroid/app/NativeActivity;", "Landroid/content/Context;")
    );
    assert!(index.is_assignable_to("[Ljava/lang/String;", "[Ljava/lang/Object;"));
    assert!(index.is_assignable_to("[[I", "[Ljava/lang/Object;"));
    assert!(!index.is_assignable_to("[I", "[J"));
}

#[test]
fn member_resolution_follows_dalvik_jni_lookup_shapes() {
    let mut index = ApkDexIndex::default();
    index.insert_test_class("Ltest/Base;", Some("Ljava/lang/Object;"));
    index.insert_test_class("Ltest/Child;", Some("Ltest/Base;"));
    index.insert_test_method("Ltest/Base;", "virtualMethod", "()V", false, false);
    index.insert_test_method("Ltest/Base;", "<init>", "()V", false, false);
    index.insert_test_method("Ltest/Child;", "<init>", "()V", false, false);

    let inherited = index
        .resolve_member(
            "Ltest/Child;",
            "virtualMethod",
            "()V",
            DexMemberKind::Method,
            false,
        )
        .unwrap();
    assert_eq!(inherited.declaring_class, "Ltest/Base;");
    let constructor = index
        .resolve_member(
            "Ltest/Child;",
            "<init>",
            "()V",
            DexMemberKind::Method,
            false,
        )
        .unwrap();
    assert_eq!(constructor.declaring_class, "Ltest/Child;");

    index.insert_test_method("Ltest/Base;", "staticMethod", "()V", true, false);
    index.insert_test_method("Ltest/Child;", "staticMethod", "()V", false, false);
    index.mark_test_method_direct("Ltest/Child;", "staticMethod", "()V");
    assert!(
        index
            .resolve_member(
                "Ltest/Child;",
                "staticMethod",
                "()V",
                DexMemberKind::Method,
                true,
            )
            .is_none(),
        "Dalvik stops at a same-signature non-static direct method"
    );

    index.insert_test_class("Ltest/ParentInterface;", Some("Ljava/lang/Object;"));
    index.mark_test_class_as_interface("Ltest/ParentInterface;");
    index.insert_test_method(
        "Ltest/ParentInterface;",
        "interfaceMethod",
        "()I",
        false,
        false,
    );
    index.insert_test_field("Ltest/ParentInterface;", "CONSTANT", "I", true);
    index.insert_test_class("Ltest/ChildInterface;", Some("Ljava/lang/Object;"));
    index.mark_test_class_as_interface("Ltest/ChildInterface;");
    index.add_test_interface("Ltest/ChildInterface;", "Ltest/ParentInterface;");
    index.add_test_interface("Ltest/Child;", "Ltest/ChildInterface;");

    let interface_method = index
        .resolve_member(
            "Ltest/ChildInterface;",
            "interfaceMethod",
            "()I",
            DexMemberKind::Method,
            false,
        )
        .unwrap();
    assert_eq!(interface_method.declaring_class, "Ltest/ParentInterface;");
    let interface_field = index
        .resolve_member("Ltest/Child;", "CONSTANT", "I", DexMemberKind::Field, true)
        .unwrap();
    assert_eq!(interface_field.declaring_class, "Ltest/ParentInterface;");
}

