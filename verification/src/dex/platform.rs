//! The classes that the platform provides, as far as they are known.

use super::table::{MemberKey, MemberName};
use crate::strings::same_text;
use vstd::prelude::*;

verus! {

/// A method or a field.
#[derive(Debug, Clone, Copy, PartialEq, Eq, Structural)]
pub enum DexMemberKind {
    Method,
    Field,
}

/// Whether the platform has a class.
pub open spec fn known(n: Seq<char>) -> bool {
    ||| n == "Landroid/app/Activity;"@
    ||| n == "Landroid/app/NativeActivity;"@
    ||| n == "Landroid/content/Context;"@
    ||| n == "Landroid/content/ContextWrapper;"@
    ||| n == "Landroid/content/Intent;"@
    ||| n == "Landroid/os/Build;"@
    ||| n == "Landroid/os/Build$VERSION;"@
    ||| n == "Landroid/os/IBinder;"@
    ||| n == "Landroid/os/Vibrator;"@
    ||| n == "Landroid/view/ContextThemeWrapper;"@
    ||| n == "Landroid/view/View;"@
    ||| n == "Landroid/view/Window;"@
    ||| n == "Landroid/view/inputmethod/InputMethodManager;"@
    ||| n == "Ljava/io/File;"@
    ||| n == "Ljava/io/Serializable;"@
    ||| n == "Ljava/lang/ArrayIndexOutOfBoundsException;"@
    ||| n == "Ljava/lang/Class;"@
    ||| n == "Ljava/lang/ClassLoader;"@
    ||| n == "Ljava/lang/ClassNotFoundException;"@
    ||| n == "Ljava/lang/Cloneable;"@
    ||| n == "Ljava/lang/NoClassDefFoundError;"@
    ||| n == "Ljava/lang/NoSuchFieldError;"@
    ||| n == "Ljava/lang/NoSuchMethodError;"@
    ||| n == "Ljava/lang/NullPointerException;"@
    ||| n == "Ljava/lang/Object;"@
    ||| n == "Ljava/lang/OutOfMemoryError;"@
    ||| n == "Ljava/lang/RuntimeException;"@
    ||| n == "Ljava/lang/String;"@
    ||| n == "Ljava/lang/Throwable;"@
    ||| n == "Lorg/apache/http/Header;"@
}

/// Whether the platform has an interface.
pub open spec fn interface(n: Seq<char>) -> bool {
    ||| n == "Ljava/io/Serializable;"@
    ||| n == "Ljava/lang/Cloneable;"@
    ||| n == "Lorg/apache/http/Header;"@
}

/// The classes right below `Landroid/app/Activity;`.
pub open spec fn activities(n: Seq<char>) -> bool {
    ||| n == "Landroid/app/NativeActivity;"@
}

/// The classes right below `Landroid/view/ContextThemeWrapper;`.
pub open spec fn themed(n: Seq<char>) -> bool {
    ||| n == "Landroid/app/Activity;"@
}

/// The classes right below `Landroid/content/ContextWrapper;`.
pub open spec fn wrappers(n: Seq<char>) -> bool {
    ||| n == "Landroid/view/ContextThemeWrapper;"@
}

/// The classes right below `Landroid/content/Context;`.
pub open spec fn contexts(n: Seq<char>) -> bool {
    ||| n == "Landroid/content/ContextWrapper;"@
}

/// The classes right below `Ljava/lang/Object;`.
pub open spec fn objects(n: Seq<char>) -> bool {
    ||| n == "Landroid/content/Context;"@
    ||| n == "Landroid/content/Intent;"@
    ||| n == "Landroid/os/Build;"@
    ||| n == "Landroid/os/Build$VERSION;"@
    ||| n == "Landroid/os/IBinder;"@
    ||| n == "Landroid/os/Vibrator;"@
    ||| n == "Landroid/view/Window;"@
    ||| n == "Landroid/view/View;"@
    ||| n == "Landroid/view/inputmethod/InputMethodManager;"@
    ||| n == "Ljava/io/File;"@
    ||| n == "Ljava/lang/Class;"@
    ||| n == "Ljava/lang/ClassLoader;"@
    ||| n == "Ljava/lang/String;"@
    ||| n == "Lorg/apache/http/Header;"@
    ||| n == "Ljava/lang/Throwable;"@
}

/// The classes right below `Ljava/lang/Throwable;`.
pub open spec fn throwables(n: Seq<char>) -> bool {
    ||| n == "Ljava/lang/ArrayIndexOutOfBoundsException;"@
    ||| n == "Ljava/lang/ClassNotFoundException;"@
    ||| n == "Ljava/lang/NullPointerException;"@
    ||| n == "Ljava/lang/OutOfMemoryError;"@
    ||| n == "Ljava/lang/RuntimeException;"@
    ||| n == "Ljava/lang/NoClassDefFoundError;"@
    ||| n == "Ljava/lang/NoSuchFieldError;"@
    ||| n == "Ljava/lang/NoSuchMethodError;"@
}

/// The class right above a platform class.
pub open spec fn above(n: Seq<char>) -> Option<Seq<char>> {
    if activities(n) {
        Some("Landroid/app/Activity;"@)
    } else if themed(n) {
        Some("Landroid/view/ContextThemeWrapper;"@)
    } else if wrappers(n) {
        Some("Landroid/content/ContextWrapper;"@)
    } else if contexts(n) {
        Some("Landroid/content/Context;"@)
    } else if objects(n) {
        Some("Ljava/lang/Object;"@)
    } else if throwables(n) {
        Some("Ljava/lang/Throwable;"@)
    } else {
        None
    }
}

/// Whether a member of a platform class is known, and whether it is static.
pub open spec fn staticness(class: Seq<char>, key: MemberName, kind: DexMemberKind) -> Option<bool> {
    if kind == DexMemberKind::Field && static_field(class, key) {
        Some(true)
    } else if kind == DexMemberKind::Method && instance_method(class, key) {
        Some(false)
    } else {
        None
    }
}

/// The static fields of the platform.
pub open spec fn static_field(class: Seq<char>, key: MemberName) -> bool {
    ||| class == "Landroid/content/Context;"@ && key == ("INPUT_METHOD_SERVICE"@, "Ljava/lang/String;"@)
    ||| class == "Landroid/os/Build;"@ && key == ("MANUFACTURER"@, "Ljava/lang/String;"@)
    ||| class == "Landroid/os/Build;"@ && key == ("MODEL"@, "Ljava/lang/String;"@)
    ||| class == "Landroid/os/Build$VERSION;"@ && key == ("SDK_INT"@, "I"@)
}

/// The instance methods of the platform.
pub open spec fn instance_method(class: Seq<char>, key: MemberName) -> bool {
    ||| class == "Landroid/content/Context;"@ && key == ("getSystemService"@, "(Ljava/lang/String;)Ljava/lang/Object;"@)
    ||| class == "Landroid/content/Context;"@ && key == ("getApplicationContext"@, "()Landroid/content/Context;"@)
    ||| class == "Landroid/content/Context;"@ && key == ("getPackageName"@, "()Ljava/lang/String;"@)
    ||| class == "Landroid/content/Context;"@ && key == ("getClassLoader"@, "()Ljava/lang/ClassLoader;"@)
    ||| class == "Landroid/content/Context;"@ && key == ("startActivity"@, "(Landroid/content/Intent;)V"@)
    ||| class == "Landroid/content/ContextWrapper;"@ && key == ("getFilesDir"@, "()Ljava/io/File;"@)
    ||| class == "Landroid/content/ContextWrapper;"@ && key == ("getCacheDir"@, "()Ljava/io/File;"@)
    ||| class == "Landroid/app/Activity;"@ && key == ("getWindow"@, "()Landroid/view/Window;"@)
    ||| class == "Landroid/view/Window;"@ && key == ("getDecorView"@, "()Landroid/view/View;"@)
    ||| class == "Landroid/view/View;"@ && key == ("getWindowToken"@, "()Landroid/os/IBinder;"@)
    ||| class == "Landroid/view/inputmethod/InputMethodManager;"@ && key == ("showSoftInput"@, "(Landroid/view/View;I)Z"@)
    ||| class == "Landroid/view/inputmethod/InputMethodManager;"@ && key == ("hideSoftInputFromWindow"@, "(Landroid/os/IBinder;I)Z"@)
    ||| class == "Landroid/os/Vibrator;"@ && key == ("vibrate"@, "(J)V"@)
    ||| class == "Ljava/io/File;"@ && key == ("getPath"@, "()Ljava/lang/String;"@)
    ||| class == "Ljava/io/File;"@ && key == ("getAbsolutePath"@, "()Ljava/lang/String;"@)
    ||| class == "Ljava/lang/Class;"@ && key == ("getClassLoader"@, "()Ljava/lang/ClassLoader;"@)
    ||| class == "Ljava/lang/ClassLoader;"@ && key == ("loadClass"@, "(Ljava/lang/String;)Ljava/lang/Class;"@)
    ||| class == "Lorg/apache/http/Header;"@ && key == ("getName"@, "()Ljava/lang/String;"@)
    ||| class == "Lorg/apache/http/Header;"@ && key == ("getValue"@, "()Ljava/lang/String;"@)
}

/// The platform classes that have a class above them.
pub open spec fn below_something() -> Set<Seq<char>> {
    Set::new(|n: Seq<char>| above(n) is Some)
}

/// There are finitely many of them.
pub proof fn below_something_is_finite()
    ensures
        below_something().finite(),
{
    let all = set![
        "Landroid/app/NativeActivity;"@,
        "Landroid/app/Activity;"@,
        "Landroid/view/ContextThemeWrapper;"@,
        "Landroid/content/ContextWrapper;"@,
        "Landroid/content/Context;"@,
        "Landroid/content/Intent;"@,
        "Landroid/os/Build;"@,
        "Landroid/os/Build$VERSION;"@,
        "Landroid/os/IBinder;"@,
        "Landroid/os/Vibrator;"@,
        "Landroid/view/Window;"@,
        "Landroid/view/View;"@,
        "Landroid/view/inputmethod/InputMethodManager;"@,
        "Ljava/io/File;"@,
        "Ljava/lang/Class;"@,
        "Ljava/lang/ClassLoader;"@,
        "Ljava/lang/String;"@,
        "Lorg/apache/http/Header;"@,
        "Ljava/lang/Throwable;"@,
        "Ljava/lang/ArrayIndexOutOfBoundsException;"@,
        "Ljava/lang/ClassNotFoundException;"@,
        "Ljava/lang/NullPointerException;"@,
        "Ljava/lang/OutOfMemoryError;"@,
        "Ljava/lang/RuntimeException;"@,
        "Ljava/lang/NoClassDefFoundError;"@,
        "Ljava/lang/NoSuchFieldError;"@,
        "Ljava/lang/NoSuchMethodError;"@,
    ];
    assert(below_something().subset_of(all));
    vstd::set_lib::lemma_set_subset_finite(all, below_something());
}

/// Whether the platform has a class.
pub(crate) fn platform_class_known(descriptor: &str) -> (r: bool)
    ensures
        r == known(descriptor@),
{
    same_text(descriptor, "Landroid/app/Activity;")
        || same_text(descriptor, "Landroid/app/NativeActivity;")
        || same_text(descriptor, "Landroid/content/Context;")
        || same_text(descriptor, "Landroid/content/ContextWrapper;")
        || same_text(descriptor, "Landroid/content/Intent;")
        || same_text(descriptor, "Landroid/os/Build;")
        || same_text(descriptor, "Landroid/os/Build$VERSION;")
        || same_text(descriptor, "Landroid/os/IBinder;")
        || same_text(descriptor, "Landroid/os/Vibrator;")
        || same_text(descriptor, "Landroid/view/ContextThemeWrapper;")
        || same_text(descriptor, "Landroid/view/View;")
        || same_text(descriptor, "Landroid/view/Window;")
        || same_text(descriptor, "Landroid/view/inputmethod/InputMethodManager;")
        || same_text(descriptor, "Ljava/io/File;")
        || same_text(descriptor, "Ljava/io/Serializable;")
        || same_text(descriptor, "Ljava/lang/ArrayIndexOutOfBoundsException;")
        || same_text(descriptor, "Ljava/lang/Class;")
        || same_text(descriptor, "Ljava/lang/ClassLoader;")
        || same_text(descriptor, "Ljava/lang/ClassNotFoundException;")
        || same_text(descriptor, "Ljava/lang/Cloneable;")
        || same_text(descriptor, "Ljava/lang/NoClassDefFoundError;")
        || same_text(descriptor, "Ljava/lang/NoSuchFieldError;")
        || same_text(descriptor, "Ljava/lang/NoSuchMethodError;")
        || same_text(descriptor, "Ljava/lang/NullPointerException;")
        || same_text(descriptor, "Ljava/lang/Object;")
        || same_text(descriptor, "Ljava/lang/OutOfMemoryError;")
        || same_text(descriptor, "Ljava/lang/RuntimeException;")
        || same_text(descriptor, "Ljava/lang/String;")
        || same_text(descriptor, "Ljava/lang/Throwable;")
        || same_text(descriptor, "Lorg/apache/http/Header;")
}

/// Whether the platform has an interface.
pub(crate) fn platform_is_interface(descriptor: &str) -> (r: bool)
    ensures
        r == interface(descriptor@),
{
    same_text(descriptor, "Ljava/io/Serializable;")
        || same_text(descriptor, "Ljava/lang/Cloneable;")
        || same_text(descriptor, "Lorg/apache/http/Header;")
}

fn is_in_activities(descriptor: &str) -> (r: bool)
    ensures
        r == activities(descriptor@),
{
    same_text(descriptor, "Landroid/app/NativeActivity;")
}

fn is_in_themed(descriptor: &str) -> (r: bool)
    ensures
        r == themed(descriptor@),
{
    same_text(descriptor, "Landroid/app/Activity;")
}

fn is_in_wrappers(descriptor: &str) -> (r: bool)
    ensures
        r == wrappers(descriptor@),
{
    same_text(descriptor, "Landroid/view/ContextThemeWrapper;")
}

fn is_in_contexts(descriptor: &str) -> (r: bool)
    ensures
        r == contexts(descriptor@),
{
    same_text(descriptor, "Landroid/content/ContextWrapper;")
}

fn is_in_objects(descriptor: &str) -> (r: bool)
    ensures
        r == objects(descriptor@),
{
    same_text(descriptor, "Landroid/content/Context;")
        || same_text(descriptor, "Landroid/content/Intent;")
        || same_text(descriptor, "Landroid/os/Build;")
        || same_text(descriptor, "Landroid/os/Build$VERSION;")
        || same_text(descriptor, "Landroid/os/IBinder;")
        || same_text(descriptor, "Landroid/os/Vibrator;")
        || same_text(descriptor, "Landroid/view/Window;")
        || same_text(descriptor, "Landroid/view/View;")
        || same_text(descriptor, "Landroid/view/inputmethod/InputMethodManager;")
        || same_text(descriptor, "Ljava/io/File;")
        || same_text(descriptor, "Ljava/lang/Class;")
        || same_text(descriptor, "Ljava/lang/ClassLoader;")
        || same_text(descriptor, "Ljava/lang/String;")
        || same_text(descriptor, "Lorg/apache/http/Header;")
        || same_text(descriptor, "Ljava/lang/Throwable;")
}

fn is_in_throwables(descriptor: &str) -> (r: bool)
    ensures
        r == throwables(descriptor@),
{
    same_text(descriptor, "Ljava/lang/ArrayIndexOutOfBoundsException;")
        || same_text(descriptor, "Ljava/lang/ClassNotFoundException;")
        || same_text(descriptor, "Ljava/lang/NullPointerException;")
        || same_text(descriptor, "Ljava/lang/OutOfMemoryError;")
        || same_text(descriptor, "Ljava/lang/RuntimeException;")
        || same_text(descriptor, "Ljava/lang/NoClassDefFoundError;")
        || same_text(descriptor, "Ljava/lang/NoSuchFieldError;")
        || same_text(descriptor, "Ljava/lang/NoSuchMethodError;")
}

/// The class right above a platform class.
pub(crate) fn platform_superclass(descriptor: &str) -> (r: Option<&'static str>)
    ensures
        match r {
            Some(s) => above(descriptor@) == Some(s@),
            None => above(descriptor@) is None,
        },
{
    if is_in_activities(descriptor) {
        Some("Landroid/app/Activity;")
    } else if is_in_themed(descriptor) {
        Some("Landroid/view/ContextThemeWrapper;")
    } else if is_in_wrappers(descriptor) {
        Some("Landroid/content/ContextWrapper;")
    } else if is_in_contexts(descriptor) {
        Some("Landroid/content/Context;")
    } else if is_in_objects(descriptor) {
        Some("Ljava/lang/Object;")
    } else if is_in_throwables(descriptor) {
        Some("Ljava/lang/Throwable;")
    } else {
        None
    }
}

fn is(class: &str, key: &MemberKey, c: &str, n: &str, d: &str) -> (r: bool)
    ensures
        r == (class@ == c@ && key@ == (n@, d@)),
{
    same_text(class, c) && same_text(key.name.as_str(), n) && same_text(key.descriptor.as_str(), d)
}

/// Whether a member of a platform class is known, and whether it is static.
pub(crate) fn platform_member_staticness(class: &str, key: &MemberKey, kind: DexMemberKind) -> (r:
    Option<bool>)
    ensures
        r == staticness(class@, key@, kind),
{
    match kind {
        DexMemberKind::Field => if is_static_field(class, key) {
            Some(true)
        } else {
            None
        },
        DexMemberKind::Method => if is_instance_method(class, key) {
            Some(false)
        } else {
            None
        },
    }
}

fn is_static_field(class: &str, key: &MemberKey) -> (r: bool)
    ensures
        r == static_field(class@, key@),
{
    is(class, key, "Landroid/content/Context;", "INPUT_METHOD_SERVICE", "Ljava/lang/String;")
        || is(class, key, "Landroid/os/Build;", "MANUFACTURER", "Ljava/lang/String;")
        || is(class, key, "Landroid/os/Build;", "MODEL", "Ljava/lang/String;")
        || is(class, key, "Landroid/os/Build$VERSION;", "SDK_INT", "I")
}

fn is_instance_method(class: &str, key: &MemberKey) -> (r: bool)
    ensures
        r == instance_method(class@, key@),
{
    is(class, key, "Landroid/content/Context;", "getSystemService", "(Ljava/lang/String;)Ljava/lang/Object;")
        || is(class, key, "Landroid/content/Context;", "getApplicationContext", "()Landroid/content/Context;")
        || is(class, key, "Landroid/content/Context;", "getPackageName", "()Ljava/lang/String;")
        || is(class, key, "Landroid/content/Context;", "getClassLoader", "()Ljava/lang/ClassLoader;")
        || is(class, key, "Landroid/content/Context;", "startActivity", "(Landroid/content/Intent;)V")
        || is(class, key, "Landroid/content/ContextWrapper;", "getFilesDir", "()Ljava/io/File;")
        || is(class, key, "Landroid/content/ContextWrapper;", "getCacheDir", "()Ljava/io/File;")
        || is(class, key, "Landroid/app/Activity;", "getWindow", "()Landroid/view/Window;")
        || is(class, key, "Landroid/view/Window;", "getDecorView", "()Landroid/view/View;")
        || is(class, key, "Landroid/view/View;", "getWindowToken", "()Landroid/os/IBinder;")
        || is(class, key, "Landroid/view/inputmethod/InputMethodManager;", "showSoftInput", "(Landroid/view/View;I)Z")
        || is(class, key, "Landroid/view/inputmethod/InputMethodManager;", "hideSoftInputFromWindow", "(Landroid/os/IBinder;I)Z")
        || is(class, key, "Landroid/os/Vibrator;", "vibrate", "(J)V")
        || is(class, key, "Ljava/io/File;", "getPath", "()Ljava/lang/String;")
        || is(class, key, "Ljava/io/File;", "getAbsolutePath", "()Ljava/lang/String;")
        || is(class, key, "Ljava/lang/Class;", "getClassLoader", "()Ljava/lang/ClassLoader;")
        || is(class, key, "Ljava/lang/ClassLoader;", "loadClass", "(Ljava/lang/String;)Ljava/lang/Class;")
        || is(class, key, "Lorg/apache/http/Header;", "getName", "()Ljava/lang/String;")
        || is(class, key, "Lorg/apache/http/Header;", "getValue", "()Ljava/lang/String;")
}

} // verus!
